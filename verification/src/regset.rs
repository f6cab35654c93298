//! Ordered sets of registers, as an ABI lists them.

use vstd::prelude::*;

use crate::reg::{Class, Reg};

verus! {

/// Registers in the order in which a calling convention uses them.
#[derive(Debug, Clone)]
pub struct RegSet(pub Vec<Reg>);

/// The `i`-th integer register of `regs`, counted from nought, if there are so many.
pub open spec fn nth_int(regs: Seq<Reg>, i: nat) -> Option<Reg>
    decreases regs.len(),
{
    if regs.len() == 0 {
        None
    } else if regs[0].class == Class::Int {
        if i == 0 {
            Some(regs[0])
        } else {
            nth_int(regs.drop_first(), (i - 1) as nat)
        }
    } else {
        nth_int(regs.drop_first(), i)
    }
}

impl View for RegSet {
    type V = Seq<Reg>;

    open spec fn view(&self) -> Seq<Reg> {
        self.0@
    }
}

impl RegSet {
    /// The `i`-th of the integer registers of the set.
    pub fn int_at(&self, i: i32) -> (r: Reg)
        requires
            i >= 0,
            nth_int(self@, i as nat) is Some,
        ensures
            Some(r) == nth_int(self@, i as nat),
    {
        let mut left: i32 = i;
        let mut k: usize = 0;
        let n: usize = self.0.len();
        assert(self@.subrange(0, self@.len() as int) =~= self@);
        loop
            invariant
                n == self@.len(),
                k <= self@.len(),
                i >= 0,
                left >= 0,
                nth_int(self@, i as nat) is Some,
                nth_int(self@, i as nat) == nth_int(
                    self@.subrange(k as int, self@.len() as int),
                    left as nat,
                ),
            decreases self@.len() - k,
        {
            let ghost rest = self@.subrange(k as int, self@.len() as int);
            assert(k < self@.len());
            let reg = self.0[k];
            assert(rest[0] == reg);
            assert(rest.drop_first() =~= self@.subrange(k + 1, self@.len() as int));
            if reg.is_int() {
                if left == 0 {
                    return reg;
                }
                left -= 1;
            }
            k += 1;
        }
    }

    /// The set of the registers `regs`, in that order.
    pub fn new(regs: Vec<Reg>) -> (r: Self)
        ensures
            r@ == regs@,
    {
        Self(regs)
    }
}

} // verus!
