//! Labels that no source text can spell.

use vstd::prelude::*;

use crate::text::{decimal, push_decimal};

verus! {

/// A fresh private label: the prefix and the counter in decimal. The
/// counter goes up by one.
pub fn new_private(counter: &mut u32, prefix: &str) -> (s: String)
    requires
        *old(counter) < u32::MAX,
    ensures
        s@ == prefix@ + decimal(*old(counter) as nat),
        *final(counter) == *old(counter) + 1,
{
    let mut s = String::from_str(prefix);
    push_decimal(&mut s, *counter as u64);
    *counter += 1;
    s
}

} // verus!
