//! Types: their shape, the questions asked of them, and their layout.
//!
//! A type is a tree. In contracts it is spoken of by its model [`Ty`], which
//! holds the same tree with sequences in place of vectors.

use vstd::prelude::*;
use vstd::std_specs::cmp::PartialEqSpecImpl;

use crate::size_align::{gap, gap_for_alignment, lemma_gap_is_least_padding, pads_to, SizeAlign};

verus! {

/// A handle on a type. The types of one unit live as long as the unit does.
pub type Type<'t> = &'t TypeS<'t>;

/// A type. The types of a unit are made by its [`crate::ty_uniq::TyUniq`],
/// which holds each of them once.
#[derive(Debug)]
pub enum TypeS<'t> {
    Void,
    Primitive(Primitive),
    Ptr { pointee: Type<'t>, sz: SizeAlign },
    Array { elem: Type<'t>, n: usize },
    Func { ret: Type<'t>, args: Vec<Type<'t>>, variadic: bool },
    Struct { membs: Vec<Type<'t>> },
    Alias { name: String, actual: Type<'t> },
}

/// The numbers: integers and floating-point numbers of a given width.
#[derive(Copy, Clone, Hash, Eq, PartialEq, Structural, Debug)]
pub enum Primitive {
    I1,
    I2,
    I4,
    I8,
    F4,
    F8,
    FLarge,
}

/// A size and an alignment as numbers without bound.
pub struct Layout {
    pub size: nat,
    pub align: nat,
}

impl Primitive {
    /// Whether the numbers are whole.
    pub open spec fn integral(self) -> bool {
        match self {
            Primitive::I1 | Primitive::I2 | Primitive::I4 | Primitive::I8 => true,
            Primitive::F4 | Primitive::F8 | Primitive::FLarge => false,
        }
    }

    /// The width in bytes, which is the alignment too.
    pub open spec fn width(self) -> nat {
        match self {
            Primitive::I1 => 1,
            Primitive::I2 => 2,
            Primitive::I4 => 4,
            Primitive::I8 => 8,
            Primitive::F4 => 4,
            Primitive::F8 => 8,
            Primitive::FLarge => 16,
        }
    }

    /// Whether the numbers are whole.
    pub fn is_integral(self) -> (r: bool)
        ensures
            r == self.integral(),
    {
        match self {
            Primitive::I1 | Primitive::I2 | Primitive::I4 | Primitive::I8 => true,
            Primitive::F4 | Primitive::F8 | Primitive::FLarge => false,
        }
    }

    /// Whether the numbers are floating-point numbers.
    pub fn is_float(self) -> (r: bool)
        ensures
            r == !self.integral(),
    {
        !self.is_integral()
    }

    /// Size and alignment, which are the width.
    pub fn size_align(self) -> (r: SizeAlign)
        ensures
            r.size == self.width(),
            r.align == self.width(),
    {
        match self {
            Primitive::I1 => SizeAlign { size: 1, align: 1 },
            Primitive::I2 => SizeAlign { size: 2, align: 2 },
            Primitive::I4 => SizeAlign { size: 4, align: 4 },
            Primitive::I8 => SizeAlign { size: 8, align: 8 },
            Primitive::F4 => SizeAlign { size: 4, align: 4 },
            Primitive::F8 => SizeAlign { size: 8, align: 8 },
            Primitive::FLarge => SizeAlign { size: 16, align: 16 },
        }
    }
}

/// The model of a type.
pub enum Ty {
    Void,
    Primitive(Primitive),
    Ptr { pointee: Box<Ty>, sz: SizeAlign },
    Array { elem: Box<Ty>, n: nat },
    Func { ret: Box<Ty>, args: Seq<Ty>, variadic: bool },
    Struct { membs: Seq<Ty> },
    Alias { name: Seq<char>, actual: Box<Ty> },
}

/// The models of a list of types.
pub open spec fn models<'t>(types: Seq<Type<'t>>) -> Seq<Ty> {
    Seq::new(types.len(), |i: int| types[i].model())
}

/// The model of a type that may be missing.
pub open spec fn model_of<'t>(t: Option<Type<'t>>) -> Option<Ty> {
    match t {
        Some(t) => Some(t@),
        None => None,
    }
}

impl<'t> TypeS<'t> {
    /// The model of the type.
    pub open spec fn model(&self) -> Ty
        decreases self,
    {
        match self {
            TypeS::Void => Ty::Void,
            TypeS::Primitive(p) => Ty::Primitive(*p),
            TypeS::Ptr { pointee, sz } => Ty::Ptr { pointee: Box::new(pointee.model()), sz: *sz },
            TypeS::Array { elem, n } => Ty::Array { elem: Box::new(elem.model()), n: *n as nat },
            TypeS::Func { ret, args, variadic } => Ty::Func {
                ret: Box::new(ret.model()),
                args: Seq::new(
                    args@.len(),
                    |i: int|
                        if 0 <= i < args@.len() {
                            args@[i].model()
                        } else {
                            Ty::Void
                        },
                ),
                variadic: *variadic,
            },
            TypeS::Struct { membs } => Ty::Struct {
                membs: Seq::new(
                    membs@.len(),
                    |i: int|
                        if 0 <= i < membs@.len() {
                            membs@[i].model()
                        } else {
                            Ty::Void
                        },
                ),
            },
            TypeS::Alias { name, actual } => Ty::Alias {
                name: name@,
                actual: Box::new(actual.model()),
            },
        }
    }
}

impl<'t> View for TypeS<'t> {
    type V = Ty;

    open spec fn view(&self) -> Ty {
        self.model()
    }
}

/// The layout of a struct whose members have the layouts `items[..k]`, before
/// its end is padded: each member stands at the next multiple of its own
/// alignment, and the struct is aligned as its most demanding member.
pub open spec fn members_layout(items: Seq<Layout>, k: nat) -> Layout
    decreases k,
{
    if k == 0 || k > items.len() {
        Layout { size: 0, align: 1 }
    } else {
        let before = members_layout(items, (k - 1) as nat);
        let item = items[k - 1];
        Layout {
            size: before.size + gap(before.size, item.align) + item.size,
            align: if item.align > before.align {
                item.align
            } else {
                before.align
            },
        }
    }
}

/// The layout of a struct with members of the layouts `items`: the members,
/// then the padding that makes the size a multiple of the alignment.
pub open spec fn struct_layout(items: Seq<Layout>) -> Layout {
    let m = members_layout(items, items.len());
    Layout { size: m.size + gap(m.size, m.align), align: m.align }
}

impl Ty {
    /// The type that a chain of aliases stands for.
    pub open spec fn resolved(self) -> Ty
        decreases self,
    {
        match self {
            Ty::Alias { actual, .. } => actual.resolved(),
            _ => self,
        }
    }

    /// Whether every pointer in the type has a positive alignment.
    pub open spec fn wf(self) -> bool
        decreases self,
    {
        match self {
            Ty::Void | Ty::Primitive(_) => true,
            Ty::Ptr { pointee, sz } => sz.align > 0 && pointee.wf(),
            Ty::Array { elem, .. } => elem.wf(),
            Ty::Func { ret, args, .. } => ret.wf() && forall|i: int|
                0 <= i < args.len() ==> (#[trigger] args[i]).wf(),
            Ty::Struct { membs } => forall|i: int|
                0 <= i < membs.len() ==> (#[trigger] membs[i]).wf(),
            Ty::Alias { actual, .. } => actual.wf(),
        }
    }

    /// Whether values of the type take room: a function does not, nor does
    /// anything that holds one. A pointer does, whatever it points to.
    pub open spec fn sized(self) -> bool
        decreases self,
    {
        match self {
            Ty::Void | Ty::Primitive(_) | Ty::Ptr { .. } => true,
            Ty::Array { elem, .. } => elem.sized(),
            Ty::Func { .. } => false,
            Ty::Struct { membs } => forall|i: int|
                0 <= i < membs.len() ==> (#[trigger] membs[i]).sized(),
            Ty::Alias { actual, .. } => actual.sized(),
        }
    }

    /// Size and alignment. Void takes no room and aligns to one byte; an
    /// array is its elements in a row; a struct is laid out by
    /// [`struct_layout`]; an alias is laid out as what it stands for.
    pub open spec fn layout(self) -> Layout
        decreases self,
    {
        match self {
            Ty::Void => Layout { size: 0, align: 1 },
            Ty::Primitive(p) => Layout { size: p.width(), align: p.width() },
            Ty::Ptr { sz, .. } => Layout { size: sz.size as nat, align: sz.align as nat },
            Ty::Array { elem, n } => Layout { size: elem.layout().size * n, align: elem.layout().align },
            Ty::Func { .. } => Layout { size: 0, align: 1 },
            Ty::Struct { membs } => struct_layout(Ty::member_layouts(membs)),
            Ty::Alias { actual, .. } => actual.layout(),
        }
    }

    /// The layouts of the members of a struct.
    pub open spec fn member_layouts(membs: Seq<Ty>) -> Seq<Layout>
        decreases membs,
    {
        Seq::new(
            membs.len(),
            |i: int|
                if 0 <= i < membs.len() {
                    membs[i].layout()
                } else {
                    Layout { size: 0, align: 1 }
                },
        )
    }

    /// Whether the size of the type, and of each type in it that is laid
    /// out on the way, can be held in a `usize`.
    pub open spec fn fits(self) -> bool
        decreases self,
    {
        match self {
            Ty::Void | Ty::Primitive(_) | Ty::Ptr { .. } | Ty::Func { .. } => true,
            Ty::Array { elem, n } => elem.fits() && self.layout().size <= usize::MAX,
            Ty::Struct { membs } => self.layout().size <= usize::MAX && forall|i: int|
                0 <= i < membs.len() ==> (#[trigger] membs[i]).fits(),
            Ty::Alias { actual, .. } => actual.fits(),
        }
    }

    /// The size of the type, where it has one that a `usize` can hold.
    pub open spec fn known_size(self) -> Option<nat> {
        if self.sized() && self.fits() {
            Some(self.layout().size)
        } else {
            None
        }
    }

    /// Whether the type is a function type, and not an alias of one.
    pub open spec fn is_fn(self) -> bool {
        self is Func
    }

    /// Whether the type is a struct, and not an alias of one.
    pub open spec fn is_struct(self) -> bool {
        self is Struct
    }

    /// Whether the type is void, and not an alias of it.
    pub open spec fn is_void(self) -> bool {
        self is Void
    }

    /// Whether the type is an integer type, and not an alias of one.
    pub open spec fn is_integral(self) -> bool {
        match self {
            Ty::Primitive(p) => p.integral(),
            _ => false,
        }
    }

    /// Whether the type is a floating-point type, and not an alias of one.
    pub open spec fn is_float(self) -> bool {
        match self {
            Ty::Primitive(p) => !p.integral(),
            _ => false,
        }
    }

    /// The element type, where the type stands for an array.
    pub open spec fn array_elem(self) -> Option<Ty> {
        match self.resolved() {
            Ty::Array { elem, .. } => Some(*elem),
            _ => None,
        }
    }

    /// The type returned, where the type stands for a function.
    pub open spec fn called(self) -> Option<Ty> {
        match self.resolved() {
            Ty::Func { ret, .. } => Some(*ret),
            _ => None,
        }
    }

    /// The type pointed to, where the type stands for a pointer.
    pub open spec fn deref(self) -> Option<Ty> {
        match self.resolved() {
            Ty::Ptr { pointee, .. } => Some(*pointee),
            _ => None,
        }
    }

    /// The kind of number, where the type stands for numbers.
    pub open spec fn as_primitive(self) -> Option<Primitive> {
        match self.resolved() {
            Ty::Primitive(p) => Some(p),
            _ => None,
        }
    }

    /// Two types are equal where they stand for the same type.
    pub open spec fn equal(self, other: Ty) -> bool {
        self.resolved() == other.resolved()
    }

    /// Whether a value of this type can be returned where `to` is declared:
    /// a struct is returned through a pointer to it, anything else as itself.
    pub open spec fn can_return_to(self, to: Ty) -> bool {
        if to.is_struct() {
            match self.deref() {
                Some(pointee) => pointee.equal(to),
                None => false,
            }
        } else {
            self.equal(to)
        }
    }
}

/// Resolving twice is resolving once.
pub proof fn lemma_resolve_idempotent(t: Ty)
    ensures
        t.resolved().resolved() == t.resolved(),
        !(t.resolved() is Alias),
    decreases t,
{
    match t {
        Ty::Alias { actual, .. } => {
            lemma_resolve_idempotent(*actual);
        },
        _ => {},
    }
}

/// What a well-formed type stands for is well-formed.
pub proof fn lemma_resolved_wf(t: Ty)
    requires
        t.wf(),
    ensures
        t.resolved().wf(),
    decreases t,
{
    match t {
        Ty::Alias { actual, .. } => {
            lemma_resolved_wf(*actual);
        },
        _ => {},
    }
}

/// The parts of a well-formed type are well-formed: what a pointer points
/// to, the elements of an array, what a function returns and takes, and
/// the members of a struct.
pub proof fn lemma_parts_wf(t: Ty)
    requires
        t.wf(),
    ensures
        t.deref() is Some ==> t.deref()->0.wf(),
        t.array_elem() is Some ==> t.array_elem()->0.wf(),
        t.called() is Some ==> t.called()->0.wf(),
        t.resolved() is Struct ==> forall|i: int|
            0 <= i < t.resolved()->Struct_membs.len() ==> (#[trigger] t.resolved()->Struct_membs[i]).wf(),
        t.resolved() is Func ==> forall|i: int|
            0 <= i < t.resolved()->Func_args.len() ==> (#[trigger] t.resolved()->Func_args[i]).wf(),
{
    lemma_resolved_wf(t);
}

/// The members of a struct are laid out with a positive alignment.
pub proof fn lemma_members_layout_align(items: Seq<Layout>, k: nat)
    requires
        forall|i: int| 0 <= i < items.len() ==> (#[trigger] items[i]).align > 0,
        k <= items.len(),
    ensures
        members_layout(items, k).align > 0,
        forall|i: int|
            0 <= i < k && i < items.len() ==> (#[trigger] items[i]).align <= members_layout(
                items,
                k,
            ).align,
        forall|i: int|
            0 <= i < k && i < items.len() ==> (#[trigger] items[i]).size <= members_layout(
                items,
                k,
            ).size,
        k <= items.len() && k > 0 ==> exists|i: int|
            0 <= i < k && (#[trigger] items[i]).align == members_layout(items, k).align,
    decreases k,
{
    if k == 0 || k > items.len() {
    } else {
        lemma_members_layout_align(items, (k - 1) as nat);
        let before = members_layout(items, (k - 1) as nat);
        let now = members_layout(items, k);
        assert(before.align <= now.align && before.size <= now.size);
        assert(items[k - 1].align <= now.align && items[k - 1].size <= now.size);
        assert forall|i: int| 0 <= i < k && i < items.len() implies (#[trigger] items[i]).align
            <= now.align && items[i].size <= now.size by {
            if i < k - 1 {
                assert(items[i].align <= before.align);
                assert(items[i].size <= before.size);
            }
        }
        if k == 1 {
            assert(items[0].align == members_layout(items, k).align);
        } else {
            let j = choose|i: int|
                0 <= i < k - 1 && (#[trigger] items[i]).align == members_layout(
                    items,
                    (k - 1) as nat,
                ).align;
            if items[k - 1].align > members_layout(items, (k - 1) as nat).align {
                assert(items[k - 1].align == members_layout(items, k).align);
            } else {
                assert(items[j].align == members_layout(items, k).align);
            }
        }
    }
}

/// The alignment of a well-formed type is positive.
pub proof fn lemma_align_positive(t: Ty)
    requires
        t.wf(),
    ensures
        t.layout().align > 0,
    decreases t,
{
    match t {
        Ty::Array { elem, .. } => {
            lemma_align_positive(*elem);
        },
        Ty::Struct { membs } => {
            let items = Ty::member_layouts(membs);
            assert forall|i: int| 0 <= i < items.len() implies (#[trigger] items[i]).align > 0 by {
                lemma_align_positive(membs[i]);
            }
            lemma_members_layout_align(items, items.len());
        },
        Ty::Alias { actual, .. } => {
            lemma_align_positive(*actual);
        },
        _ => {},
    }
}

/// The size of a struct is a multiple of its alignment.
pub proof fn lemma_struct_size_is_aligned(membs: Seq<Ty>)
    requires
        (Ty::Struct { membs }).wf(),
    ensures
        (Ty::Struct { membs }).layout().align > 0,
        (Ty::Struct { membs }).layout().size % (Ty::Struct { membs }).layout().align == 0,
{
    let t = Ty::Struct { membs };
    lemma_align_positive(t);
    let items = Ty::member_layouts(membs);
    let m = members_layout(items, items.len());
    lemma_gap_is_least_padding(m.size, m.align);
    assert(pads_to(m.size, m.align, gap(m.size, m.align)));
}

/// An array is as large as its elements together, and aligned as one of them.
pub proof fn lemma_array_layout(elem: Ty, n: nat)
    ensures
        (Ty::Array { elem: Box::new(elem), n }).layout().size == elem.layout().size * n,
        (Ty::Array { elem: Box::new(elem), n }).layout().align == elem.layout().align,
{
}

/// The alignment of a well-formed type can be held in 32 bits.
pub proof fn lemma_align_fits(t: Ty)
    requires
        t.wf(),
    ensures
        0 < t.layout().align <= u32::MAX,
    decreases t,
{
    lemma_align_positive(t);
    match t {
        Ty::Array { elem, .. } => {
            lemma_align_fits(*elem);
        },
        Ty::Struct { membs } => {
            let items = Ty::member_layouts(membs);
            assert forall|i: int| 0 <= i < items.len() implies 0 < (#[trigger] items[i]).align
                <= u32::MAX by {
                lemma_align_fits(membs[i]);
            }
            lemma_members_layout_align(items, items.len());
        },
        Ty::Alias { actual, .. } => {
            lemma_align_fits(*actual);
        },
        _ => {},
    }
}

impl<'t> TypeS<'t> {
    /// Walks through aliases to the type that this one stands for.
    pub fn resolve(&'t self) -> (r: &'t Self)
        ensures
            r@ == self@.resolved(),
            !(r@ is Alias),
    {
        let mut cur: &'t TypeS<'t> = self;
        loop
            invariant
                cur@.resolved() == self@.resolved(),
            decreases cur,
        {
            match cur {
                TypeS::Alias { actual, .. } => {
                    cur = actual;
                },
                _ => {
                    return cur;
                },
            }
        }
    }

    /// Whether two types have the same shape, aliases taken for themselves.
    pub fn same(&self, other: &TypeS<'t>) -> (r: bool)
        ensures
            r == (self@ == other@),
        decreases self,
    {
        match (self, other) {
            (TypeS::Void, TypeS::Void) => true,
            (TypeS::Primitive(a), TypeS::Primitive(b)) => *a == *b,
            (TypeS::Ptr { pointee: a, sz: a_sz }, TypeS::Ptr { pointee: b, sz: b_sz }) => {
                *a_sz == *b_sz && a.same(b)
            },
            (TypeS::Array { elem: a, n: a_n }, TypeS::Array { elem: b, n: b_n }) => {
                *a_n == *b_n && a.same(b)
            },
            (
                TypeS::Func { ret: a, args: a_args, variadic: a_var },
                TypeS::Func { ret: b, args: b_args, variadic: b_var },
            ) => {
                if *a_var != *b_var || !a.same(b) || a_args.len() != b_args.len() {
                    assert(self@->Func_args.len() == a_args@.len());
                    assert(other@->Func_args.len() == b_args@.len());
                    return false;
                }
                let mut i: usize = 0;
                while i < a_args.len()
                    invariant
                        i <= a_args@.len(),
                        a_args@.len() == b_args@.len(),
                        self@->Func_args.len() == a_args@.len(),
                        other@->Func_args.len() == b_args@.len(),
                        forall|k: int| 0 <= k < a_args@.len() ==> self@->Func_args[k] == a_args@[k]@,
                        forall|k: int| 0 <= k < b_args@.len() ==> other@->Func_args[k] == b_args@[k]@,
                        forall|k: int| 0 <= k < a_args@.len() ==> decreases_to!(self => a_args@[k]),
                        forall|k: int| 0 <= k < i ==> a_args@[k]@ == b_args@[k]@,
                    decreases a_args@.len() - i,
                {
                    if !a_args[i].same(b_args[i]) {
                        assert(self@->Func_args[i as int] != other@->Func_args[i as int]);
                        return false;
                    }
                    i += 1;
                }
                assert(self@->Func_args =~= other@->Func_args);
                true
            },
            (TypeS::Struct { membs: a }, TypeS::Struct { membs: b }) => {
                if a.len() != b.len() {
                    assert(self@->Struct_membs.len() == a@.len());
                    assert(other@->Struct_membs.len() == b@.len());
                    return false;
                }
                let mut i: usize = 0;
                while i < a.len()
                    invariant
                        i <= a@.len(),
                        a@.len() == b@.len(),
                        self@->Struct_membs.len() == a@.len(),
                        other@->Struct_membs.len() == b@.len(),
                        forall|k: int| 0 <= k < a@.len() ==> self@->Struct_membs[k] == a@[k]@,
                        forall|k: int| 0 <= k < b@.len() ==> other@->Struct_membs[k] == b@[k]@,
                        forall|k: int| 0 <= k < a@.len() ==> decreases_to!(self => a@[k]),
                        forall|k: int| 0 <= k < i ==> a@[k]@ == b@[k]@,
                    decreases a@.len() - i,
                {
                    if !a[i].same(b[i]) {
                        assert(self@->Struct_membs[i as int] != other@->Struct_membs[i as int]);
                        return false;
                    }
                    i += 1;
                }
                assert(self@->Struct_membs =~= other@->Struct_membs);
                true
            },
            (TypeS::Alias { name: a_name, actual: a }, TypeS::Alias { name: b_name, actual: b }) => {
                *a_name == *b_name && a.same(b)
            },
            _ => false,
        }
    }

    /// Whether values of the type take room.
    pub fn is_sized(&self) -> (r: bool)
        ensures
            r == self@.sized(),
        decreases self,
    {
        match self {
            TypeS::Void | TypeS::Primitive(_) | TypeS::Ptr { .. } => true,
            TypeS::Array { elem, .. } => elem.is_sized(),
            TypeS::Func { .. } => false,
            TypeS::Struct { membs } => {
                let mut i: usize = 0;
                while i < membs.len()
                    invariant
                        i <= membs@.len(),
                        self@ is Struct,
                        self@->Struct_membs.len() == membs@.len(),
                        forall|k: int|
                            0 <= k < membs@.len() ==> self@->Struct_membs[k] == membs@[k]@,
                        forall|k: int| 0 <= k < membs@.len() ==> decreases_to!(self => membs@[k]),
                        forall|k: int| 0 <= k < i ==> (#[trigger] self@->Struct_membs[k]).sized(),
                    decreases membs@.len() - i,
                {
                    if !membs[i].is_sized() {
                        assert(!self@->Struct_membs[i as int].sized());
                        return false;
                    }
                    i += 1;
                }
                true
            },
            TypeS::Alias { actual, .. } => actual.is_sized(),
        }
    }

    /// The size of the type, where it has one that a `usize` can hold.
    pub fn checked_size(&self) -> (r: Option<usize>)
        requires
            self@.wf(),
        ensures
            match r {
                Some(n) => self@.known_size() == Some(n as nat),
                None => self@.known_size() is None,
            },
    {
        if self.is_sized() {
            match self.try_size_align() {
                Some(sa) => Some(sa.size),
                None => None,
            }
        } else {
            None
        }
    }

    /// Size and alignment, or nothing where a size on the way cannot be held
    /// in a `usize`.
    pub fn try_size_align(&self) -> (r: Option<SizeAlign>)
        requires
            self@.wf(),
            self@.sized(),
        ensures
            r is Some <==> self@.fits(),
            r is Some ==> r->0.size == self@.layout().size && r->0.align == self@.layout().align,
        decreases self,
    {
        proof {
            lemma_align_fits(self@);
        }
        match self {
            TypeS::Void => Some(SizeAlign { size: 0, align: 1 }),
            TypeS::Primitive(p) => Some(p.size_align()),
            TypeS::Ptr { sz, .. } => Some(*sz),
            TypeS::Array { elem, n } => {
                match elem.try_size_align() {
                    None => None,
                    Some(e) => {
                        match e.size.checked_mul(*n) {
                            None => None,
                            Some(size) => Some(SizeAlign { size, align: e.align }),
                        }
                    },
                }
            },
            TypeS::Func { .. } => None,
            TypeS::Struct { membs } => {
                let ghost items = Ty::member_layouts(self@->Struct_membs);
                let mut size: usize = 0;
                let mut align: u32 = 1;
                let mut i: usize = 0;
                while i < membs.len()
                    invariant
                        i <= membs@.len(),
                        self@ is Struct,
                        self@->Struct_membs.len() == membs@.len(),
                        forall|k: int|
                            0 <= k < membs@.len() ==> self@->Struct_membs[k] == membs@[k]@,
                        forall|k: int| 0 <= k < membs@.len() ==> decreases_to!(self => membs@[k]),
                        self@.wf(),
                        self@.sized(),
                        items == Ty::member_layouts(self@->Struct_membs),
                        items.len() == membs@.len(),
                        size == members_layout(items, i as nat).size,
                        align == members_layout(items, i as nat).align,
                        align > 0,
                        forall|k: int| 0 <= k < i ==> (#[trigger] self@->Struct_membs[k]).fits(),
                    decreases membs@.len() - i,
                {
                    let ghost m = self@->Struct_membs[i as int];
                    assert(m.wf() && m.sized());
                    assert(m == membs@[i as int]@);
                    proof {
                        lemma_align_fits(m);
                        lemma_layout_grows(items, (i + 1) as nat);
                    }
                    let e = match membs[i].try_size_align() {
                        Some(e) => e,
                        None => {
                            return None;
                        },
                    };
                    assert(items[i as int] == m.layout());
                    let g = gap_for_alignment(size, e.align);
                    let padded = match size.checked_add(g) {
                        Some(p) => p,
                        None => {
                            return None;
                        },
                    };
                    size = match padded.checked_add(e.size) {
                        Some(s) => s,
                        None => {
                            return None;
                        },
                    };
                    if e.align > align {
                        align = e.align;
                    }
                    i += 1;
                }
                let g = gap_for_alignment(size, align);
                match size.checked_add(g) {
                    Some(size) => Some(SizeAlign { size, align }),
                    None => None,
                }
            },
            TypeS::Alias { actual, .. } => actual.try_size_align(),
        }
    }
}

/// A struct is no smaller than the members laid out so far.
pub proof fn lemma_layout_grows(items: Seq<Layout>, k: nat)
    requires
        k <= items.len(),
    ensures
        members_layout(items, k).size <= struct_layout(items).size,
    decreases items.len() - k,
{
    if k < items.len() {
        lemma_layout_grows(items, k + 1);
    }
}

impl<'t> PartialEq for TypeS<'t> {
    /// Two handles are equal where they stand for the same type.
    fn eq(&self, other: &Self) -> (r: bool) {
        resolve_ref(self).same(resolve_ref(other))
    }
}

impl<'t> Eq for TypeS<'t> {

}

impl<'t> PartialEqSpecImpl for TypeS<'t> {
    open spec fn obeys_eq_spec() -> bool {
        true
    }

    open spec fn eq_spec(&self, other: &Self) -> bool {
        self@.equal(other@)
    }
}

/// Walks through aliases, for a borrow of any length.
pub fn resolve_ref<'a, 't>(t: &'a TypeS<'t>) -> (r: &'a TypeS<'t>)
    ensures
        r@ == t@.resolved(),
        !(r@ is Alias),
{
    let mut cur: &'a TypeS<'t> = t;
    loop
        invariant
            cur@.resolved() == t@.resolved(),
        decreases cur,
    {
        match cur {
            TypeS::Alias { actual, .. } => {
                cur = actual;
            },
            _ => {
                return cur;
            },
        }
    }
}

/// The questions that can be asked of a type, or of a type that may be missing.
pub trait TypeQueries<'t>: Sized {
    /// The type asked about, if there is one.
    spec fn subject(self) -> Option<Ty>;

    fn array_elem(self) -> (r: Option<Type<'t>>)
        ensures
            model_of(r) == match self.subject() {
                Some(t) => t.array_elem(),
                None => None,
            },
    ;

    fn called(self) -> (r: Option<Type<'t>>)
        ensures
            model_of(r) == match self.subject() {
                Some(t) => t.called(),
                None => None,
            },
    ;

    fn deref(self) -> (r: Option<Type<'t>>)
        ensures
            model_of(r) == match self.subject() {
                Some(t) => t.deref(),
                None => None,
            },
    ;

    fn as_primitive(self) -> (r: Option<Primitive>)
        ensures
            r == match self.subject() {
                Some(t) => t.as_primitive(),
                None => None,
            },
    ;

    /// The size in bytes; of no type, nothing.
    fn size(self) -> (r: usize)
        requires
            self.subject() is Some ==> self.subject()->0.wf() && self.subject()->0.sized()
                && self.subject()->0.fits(),
        ensures
            r == match self.subject() {
                Some(t) => t.layout().size,
                None => 0,
            },
    ;

    /// Size and alignment; of no type, no size and an alignment of one.
    fn size_align(self) -> (r: SizeAlign)
        requires
            self.subject() is Some ==> self.subject()->0.wf() && self.subject()->0.sized()
                && self.subject()->0.fits(),
        ensures
            r.size == match self.subject() {
                Some(t) => t.layout().size,
                None => 0,
            },
            r.align == match self.subject() {
                Some(t) => t.layout().align,
                None => 1,
            },
    ;

    fn is_fn(self) -> (r: bool)
        ensures
            r == (self.subject() is Some && self.subject()->0.is_fn()),
    ;

    fn is_struct(self) -> (r: bool)
        ensures
            r == (self.subject() is Some && self.subject()->0.is_struct()),
    ;

    fn is_void(self) -> (r: bool)
        ensures
            r == (self.subject() is Some && self.subject()->0.is_void()),
    ;

    fn is_integral(self) -> (r: bool)
        ensures
            r == (self.subject() is Some && self.subject()->0.is_integral()),
    ;

    fn is_float(self) -> (r: bool)
        ensures
            r == (self.subject() is Some && self.subject()->0.is_float()),
    ;

    fn can_return_to(self, to: Type<'t>) -> (r: bool)
        ensures
            r == (self.subject() is Some && self.subject()->0.can_return_to(to@)),
    ;
}

impl<'t> TypeQueries<'t> for Type<'t> {
    open spec fn subject(self) -> Option<Ty> {
        Some(self@)
    }

    fn array_elem(self) -> (r: Option<Type<'t>>) {
        match self.resolve() {
            TypeS::Array { elem, .. } => Some(*elem),
            _ => None,
        }
    }

    fn called(self) -> (r: Option<Type<'t>>) {
        match self.resolve() {
            TypeS::Func { ret, .. } => Some(*ret),
            _ => None,
        }
    }

    fn deref(self) -> (r: Option<Type<'t>>) {
        match self.resolve() {
            TypeS::Ptr { pointee, .. } => Some(*pointee),
            _ => None,
        }
    }

    fn as_primitive(self) -> (r: Option<Primitive>) {
        match self.resolve() {
            TypeS::Primitive(p) => Some(*p),
            _ => None,
        }
    }

    fn size(self) -> (r: usize) {
        self.size_align().size
    }

    fn size_align(self) -> (r: SizeAlign) {
        match self.try_size_align() {
            Some(sa) => sa,
            None => SizeAlign::default(),
        }
    }

    fn is_fn(self) -> (r: bool) {
        match self {
            TypeS::Func { .. } => true,
            _ => false,
        }
    }

    fn is_struct(self) -> (r: bool) {
        match self {
            TypeS::Struct { .. } => true,
            _ => false,
        }
    }

    fn is_void(self) -> (r: bool) {
        match self {
            TypeS::Void => true,
            _ => false,
        }
    }

    fn is_integral(self) -> (r: bool) {
        match self {
            TypeS::Primitive(p) => p.is_integral(),
            _ => false,
        }
    }

    fn is_float(self) -> (r: bool) {
        match self {
            TypeS::Primitive(p) => p.is_float(),
            _ => false,
        }
    }

    fn can_return_to(self, to: Type<'t>) -> (r: bool) {
        if to.is_struct() {
            match self.deref() {
                Some(pointee) => pointee.resolve().same(to.resolve()),
                None => false,
            }
        } else {
            self.resolve().same(to.resolve())
        }
    }
}

impl<'t> TypeQueries<'t> for Option<Type<'t>> {
    open spec fn subject(self) -> Option<Ty> {
        model_of(self)
    }

    fn array_elem(self) -> (r: Option<Type<'t>>) {
        match self {
            Some(t) => t.array_elem(),
            None => None,
        }
    }

    fn called(self) -> (r: Option<Type<'t>>) {
        match self {
            Some(t) => t.called(),
            None => None,
        }
    }

    fn deref(self) -> (r: Option<Type<'t>>) {
        match self {
            Some(t) => t.deref(),
            None => None,
        }
    }

    fn as_primitive(self) -> (r: Option<Primitive>) {
        match self {
            Some(t) => t.as_primitive(),
            None => None,
        }
    }

    fn size(self) -> (r: usize) {
        self.size_align().size
    }

    fn size_align(self) -> (r: SizeAlign) {
        match self {
            Some(t) => t.size_align(),
            None => SizeAlign::default(),
        }
    }

    fn is_fn(self) -> (r: bool) {
        match self {
            Some(t) => t.is_fn(),
            None => false,
        }
    }

    fn is_struct(self) -> (r: bool) {
        match self {
            Some(t) => t.is_struct(),
            None => false,
        }
    }

    fn is_void(self) -> (r: bool) {
        match self {
            Some(t) => t.is_void(),
            None => false,
        }
    }

    fn is_integral(self) -> (r: bool) {
        match self {
            Some(t) => t.is_integral(),
            None => false,
        }
    }

    fn is_float(self) -> (r: bool) {
        match self {
            Some(t) => t.is_float(),
            None => false,
        }
    }

    fn can_return_to(self, to: Type<'t>) -> (r: bool) {
        match self {
            Some(t) => t.can_return_to(to),
            None => false,
        }
    }
}

} // verus!
