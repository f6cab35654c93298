//! Sizes, alignments and the padding between them.

use vstd::prelude::*;

verus! {

/// A size in bytes.
pub type Size = usize;

/// An alignment in bytes; never zero in a well-formed [`SizeAlign`].
pub type Align = u32;

/// A size and an alignment, both in bytes.
#[derive(Debug, PartialEq, Eq, Structural, Hash, Clone, Copy)]
pub struct SizeAlign {
    pub size: Size,
    pub align: Align,
}

/// The padding that brings `current` up to a multiple of `align`: the
/// distance to the next multiple, and none when `current` already is one.
pub open spec fn gap(current: nat, align: nat) -> nat
    recommends
        align > 0,
{
    ((align - current % align) % (align as int)) as nat
}

/// Whether `current` bytes followed by `g` bytes of padding end on a multiple of `align`.
pub open spec fn pads_to(current: nat, align: nat, g: nat) -> bool {
    (current + g) % align == 0
}

/// `gap` is a padding to a multiple of `align`, and the least one.
pub proof fn lemma_gap_is_least_padding(current: nat, align: nat)
    requires
        align > 0,
    ensures
        gap(current, align) < align,
        pads_to(current, align, gap(current, align)),
        forall|g: nat| g < gap(current, align) ==> !#[trigger] pads_to(current, align, g),
{
    let r = current % align;
    let q = current / align;
    assert(current == align * q + r) by {
        vstd::arithmetic::div_mod::lemma_fundamental_div_mod(current as int, align as int);
    }
    if r == 0 {
        assert(align - r == align);
        assert((align as int) % (align as int) == 0) by {
            vstd::arithmetic::div_mod::lemma_mod_self_0(align as int);
        }
        assert(gap(current, align) == 0);
    } else {
        assert((align - r) % (align as int) == align - r) by {
            vstd::arithmetic::div_mod::lemma_small_mod((align - r) as nat, align);
        }
        assert(gap(current, align) == align - r);
        assert(current + (align - r) == align * (q + 1)) by (nonlinear_arith)
            requires
                current == align * q + r,
        ;
        assert((align * (q + 1)) % align == 0) by {
            vstd::arithmetic::div_mod::lemma_mod_multiples_basic((q + 1) as int, align as int);
            assert(align * (q + 1) == (q + 1) * align) by (nonlinear_arith);
        }
        assert forall|g: nat| g < gap(current, align) implies !#[trigger] pads_to(
            current,
            align,
            g,
        ) by {
            assert(current + g == align * q + (r + g)) by (nonlinear_arith)
                requires
                    current == align * q + r,
            ;
            vstd::arithmetic::div_mod::lemma_fundamental_div_mod_converse(
                (current + g) as int,
                align as int,
                q as int,
                (r + g) as int,
            );
        }
    }
}

/// The padding that brings `current` up to a multiple of `align`.
pub fn gap_for_alignment(current: Size, align: Align) -> (g: Size)
    requires
        align > 0,
    ensures
        g == gap(current as nat, align as nat),
{
    if current == 0 {
        proof {
            vstd::arithmetic::div_mod::lemma_small_mod(0, align as nat);
            vstd::arithmetic::div_mod::lemma_mod_self_0(align as int);
        }
        return 0;
    }
    let align: usize = align as usize;
    if current < align {
        proof {
            vstd::arithmetic::div_mod::lemma_small_mod(current as nat, align as nat);
            vstd::arithmetic::div_mod::lemma_small_mod((align - current) as nat, align as nat);
        }
        return align - current;
    }
    let bitsover: usize = current % align;
    if bitsover == 0 {
        proof {
            vstd::arithmetic::div_mod::lemma_mod_self_0(align as int);
        }
        return 0;
    }
    proof {
        vstd::arithmetic::div_mod::lemma_small_mod((align - bitsover) as nat, align as nat);
    }
    align - bitsover
}

impl SizeAlign {
    /// Nothing is narrower than one byte: a well-formed value has a positive alignment.
    pub open spec fn wf(&self) -> bool {
        self.align > 0
    }

    /// A value as wide as it is aligned, as pointers and the integers are.
    pub fn from_size(sz: Align) -> (r: SizeAlign)
        requires
            sz > 0,
        ensures
            r.size == sz,
            r.align == sz,
    {
        SizeAlign { size: sz as usize, align: sz }
    }

    /// `rhs` values of this size, one after the other.
    pub fn mul(self, rhs: Size) -> (r: SizeAlign)
        requires
            self.size * rhs <= usize::MAX,
        ensures
            r.size == self.size * rhs,
            r.align == self.align,
    {
        SizeAlign { size: self.size * rhs, align: self.align }
    }
}

impl Default for SizeAlign {
    fn default() -> (r: Self)
        ensures
            r.size == 0,
            r.align == 1,
    {
        SizeAlign { size: 0, align: 1 }
    }
}

} // verus!
