//! The pool of types of one unit. Each type is held once: to ask twice for
//! the same type is to get the same handle twice.

use typed_arena::Arena;
use vstd::prelude::*;

use crate::size_align::SizeAlign;
use crate::ty::{model_of, Primitive, Ty, Type, TypeS};

verus! {

/// `typed_arena::Arena`, in which the types of a unit live. It is declared
/// so that it can stand in signatures; nothing is known of what it holds.
#[verifier::external_type_specification]
#[verifier::external_body]
#[verifier::reject_recursive_types(T)]
pub struct ExArena<T>(Arena<T>);

/// `typed_arena::Arena::alloc`: the value moves into the arena, and the
/// reference that comes back points to it there. Taken on trust: what the
/// reference points to is the value that was handed in.
#[verifier::external_body]
fn arena_alloc<'t>(arena: &'t Arena<TypeS<'t>>, v: TypeS<'t>) -> (r: Type<'t>)
    ensures
        *r == v,
{
    arena.alloc(v)
}

/// The types of a unit, each held once.
pub struct TyUniq<'t> {
    arena: &'t Arena<TypeS<'t>>,
    /// Every type that was asked for, but for the aliases.
    interned: Vec<Type<'t>>,
    /// The aliases, each under its own name.
    aliases: Vec<Type<'t>>,
    ptr: SizeAlign,
}

/// The alias of the given name in a list of aliases, if it holds one.
pub open spec fn find_alias(list: Seq<Ty>, name: Seq<char>) -> Option<Ty>
    decreases list.len(),
{
    if list.len() == 0 {
        None
    } else {
        match list[0] {
            Ty::Alias { name: n, .. } if n == name => Some(list[0]),
            _ => find_alias(list.drop_first(), name),
        }
    }
}

/// What asking for a type does to the list of types held: nothing where the
/// type is held already, and else the type comes last.
pub open spec fn with_type(held: Seq<Ty>, t: Ty) -> Seq<Ty> {
    if held.contains(t) {
        held
    } else {
        held.push(t)
    }
}

/// No type occurs twice, none is an alias, and each is well-formed.
pub open spec fn held_once(held: Seq<Ty>) -> bool {
    &&& forall|i: int, j: int|
        0 <= i < held.len() && 0 <= j < held.len() && #[trigger] held[i] == #[trigger] held[j] ==> i
            == j
    &&& forall|i: int| 0 <= i < held.len() ==> !((#[trigger] held[i]) is Alias) && held[i].wf()
}

/// Each entry is an alias and well-formed, and no name occurs twice.
pub open spec fn named_once(list: Seq<Ty>) -> bool {
    &&& forall|i: int| 0 <= i < list.len() ==> (#[trigger] list[i]) is Alias && list[i].wf()
    &&& forall|i: int, j: int|
        0 <= i < list.len() && 0 <= j < list.len() && (#[trigger] list[i])->Alias_name == (
        #[trigger] list[j])->Alias_name ==> i == j
}

/// An alias that is found is in the list and has the name; where none is found,
/// no alias in the list has it.
pub proof fn lemma_find_alias(list: Seq<Ty>, name: Seq<char>)
    ensures
        match find_alias(list, name) {
            Some(t) => list.contains(t) && t is Alias && t->Alias_name == name,
            None => forall|i: int|
                0 <= i < list.len() ==> !((#[trigger] list[i]) is Alias && list[i]->Alias_name
                    == name),
        },
    decreases list.len(),
{
    if list.len() > 0 {
        lemma_find_alias(list.drop_first(), name);
        let rest = list.drop_first();
        match find_alias(rest, name) {
            Some(t) => {
                let k = choose|k: int| 0 <= k < rest.len() && rest[k] == t;
                assert(list[k + 1] == t);
            },
            None => {
                assert forall|i: int| 1 <= i < list.len() implies !((#[trigger] list[i]) is Alias
                    && list[i]->Alias_name == name) by {
                    assert(rest[i - 1] == list[i]);
                }
            },
        }
        assert(list[0] == list[0]);
    }
}

impl<'t> TyUniq<'t> {
    /// The types held, in the order in which they were first asked for.
    pub closed spec fn handles(&self) -> Seq<Ty> {
        Seq::new(self.interned@.len(), |i: int| self.interned@[i]@)
    }

    /// The aliases, in the order in which they were added.
    pub closed spec fn alias_list(&self) -> Seq<Ty> {
        Seq::new(self.aliases@.len(), |i: int| self.aliases@[i]@)
    }

    /// Size and alignment of every pointer made here.
    pub closed spec fn ptr(&self) -> SizeAlign {
        self.ptr
    }

    /// Whether `t` is held here, as a type or as an alias.
    pub open spec fn holds(&self, t: Ty) -> bool {
        self.handles().contains(t) || self.alias_list().contains(t)
    }

    /// Whether this pool is `before` further on: it makes the same pointers
    /// and holds whatever `before` held.
    pub open spec fn keeps(&self, before: Self) -> bool {
        &&& self.ptr() == before.ptr()
        &&& forall|t: Ty| #[trigger] before.holds(t) ==> self.holds(t)
    }

    /// Pointers are aligned, each type is held once, and each alias has a name
    /// of its own.
    pub open spec fn wf(&self) -> bool {
        &&& self.ptr().align > 0
        &&& held_once(self.handles())
        &&& named_once(self.alias_list())
    }

    /// An empty pool, whose pointers will have the size and alignment `ptr`.
    pub fn new(ptr: SizeAlign, arena: &'t Arena<TypeS<'t>>) -> (r: Self)
        requires
            ptr.align > 0,
        ensures
            r.wf(),
            r.ptr() == ptr,
            r.handles() == Seq::<Ty>::empty(),
            r.alias_list() == Seq::<Ty>::empty(),
    {
        let r = Self { arena, interned: Vec::new(), aliases: Vec::new(), ptr };
        assert(r.handles() =~= Seq::<Ty>::empty());
        assert(r.alias_list() =~= Seq::<Ty>::empty());
        r
    }

    /// Size and alignment of every pointer made here.
    pub fn ptr_size_align(&self) -> (r: SizeAlign)
        ensures
            r == self.ptr(),
    {
        self.ptr
    }

    /// The number of types held, aliases included; the greatest `usize`,
    /// where there are more.
    pub fn len(&self) -> (n: usize)
        ensures
            n == if self.handles().len() + self.alias_list().len() <= usize::MAX {
                self.handles().len() + self.alias_list().len()
            } else {
                usize::MAX as nat
            },
    {
        match self.interned.len().checked_add(self.aliases.len()) {
            Some(n) => n,
            None => usize::MAX,
        }
    }

    /// The handle of the type `v`: the one held, or a new one.
    fn intern(&mut self, v: TypeS<'t>) -> (r: Type<'t>)
        requires
            old(self).wf(),
            !(v@ is Alias),
            v@.wf(),
        ensures
            r@ == v@,
            r@.wf(),
            final(self).wf(),
            final(self).ptr() == old(self).ptr(),
            final(self).alias_list() == old(self).alias_list(),
            final(self).handles() == with_type(old(self).handles(), v@),
            final(self).holds(v@),
            final(self).keeps(*old(self)),
    {
        let mut i: usize = 0;
        while i < self.interned.len()
            invariant
                *self == *old(self),
                old(self).wf(),
                i <= self.interned@.len(),
                forall|k: int| 0 <= k < i ==> self.interned@[k]@ != v@,
            decreases self.interned@.len() - i,
        {
            let t = self.interned[i];
            if t.same(&v) {
                assert(self.handles()[i as int] == v@);
                proof {
                    lemma_with_type_holds(self.handles(), v@);
                }
                return t;
            }
            i += 1;
        }
        assert(!self.handles().contains(v@));
        let t = arena_alloc(self.arena, v);
        self.interned.push(t);
        assert(self.handles() =~= old(self).handles().push(v@));
        assert(self.alias_list() =~= old(self).alias_list());
        proof {
            lemma_with_type_holds(old(self).handles(), v@);
        }
        t
    }

    /// The type of the numbers `p`.
    pub fn primitive(&mut self, p: Primitive) -> (r: Type<'t>)
        requires
            old(self).wf(),
        ensures
            r@ == Ty::Primitive(p),
            r@.wf(),
            final(self).wf(),
            final(self).ptr() == old(self).ptr(),
            final(self).alias_list() == old(self).alias_list(),
            final(self).handles() == with_type(old(self).handles(), r@),
            final(self).holds(r@),
            final(self).keeps(*old(self)),
    {
        self.intern(TypeS::Primitive(p))
    }

    /// The type void.
    pub fn void(&mut self) -> (r: Type<'t>)
        requires
            old(self).wf(),
        ensures
            r@ == Ty::Void,
            r@.wf(),
            final(self).wf(),
            final(self).ptr() == old(self).ptr(),
            final(self).alias_list() == old(self).alias_list(),
            final(self).handles() == with_type(old(self).handles(), r@),
            final(self).holds(r@),
            final(self).keeps(*old(self)),
    {
        self.intern(TypeS::Void)
    }

    /// The struct with the members `membs`.
    pub fn struct_of(&mut self, membs: Vec<Type<'t>>) -> (r: Type<'t>)
        requires
            old(self).wf(),
            forall|i: int| 0 <= i < membs@.len() ==> (#[trigger] membs@[i])@.wf(),
        ensures
            r@ == (Ty::Struct { membs: crate::ty::models(membs@) }),
            r@.wf(),
            final(self).wf(),
            final(self).ptr() == old(self).ptr(),
            final(self).alias_list() == old(self).alias_list(),
            final(self).handles() == with_type(old(self).handles(), r@),
            final(self).holds(r@),
            final(self).keeps(*old(self)),
    {
        let ghost m = crate::ty::models(membs@);
        let v = TypeS::Struct { membs };
        assert(v@->Struct_membs =~= m);
        self.intern(v)
    }

    /// The type that stands in where one was refused: `i4`.
    pub fn default(&mut self) -> (r: Type<'t>)
        requires
            old(self).wf(),
        ensures
            r@ == Ty::Primitive(Primitive::I4),
            r@.wf(),
            final(self).wf(),
            final(self).ptr() == old(self).ptr(),
            final(self).alias_list() == old(self).alias_list(),
            final(self).handles() == with_type(old(self).handles(), r@),
            final(self).holds(r@),
            final(self).keeps(*old(self)),
    {
        self.primitive(Primitive::I4)
    }

    /// The array of `n` elements of the type `elem`.
    pub fn array_of(&mut self, elem: Type<'t>, n: usize) -> (r: Type<'t>)
        requires
            old(self).wf(),
            elem@.wf(),
        ensures
            r@ == (Ty::Array { elem: Box::new(elem@), n: n as nat }),
            r@.wf(),
            final(self).wf(),
            final(self).ptr() == old(self).ptr(),
            final(self).alias_list() == old(self).alias_list(),
            final(self).handles() == with_type(old(self).handles(), r@),
            final(self).holds(r@),
            final(self).keeps(*old(self)),
    {
        self.intern(TypeS::Array { elem, n })
    }

    /// The pointer to `pointee`.
    pub fn ptr_to(&mut self, pointee: Type<'t>) -> (r: Type<'t>)
        requires
            old(self).wf(),
            pointee@.wf(),
        ensures
            r@ == (Ty::Ptr { pointee: Box::new(pointee@), sz: old(self).ptr() }),
            r@.wf(),
            final(self).wf(),
            final(self).ptr() == old(self).ptr(),
            final(self).alias_list() == old(self).alias_list(),
            final(self).handles() == with_type(old(self).handles(), r@),
            final(self).holds(r@),
            final(self).keeps(*old(self)),
    {
        let sz = self.ptr;
        self.intern(TypeS::Ptr { pointee, sz })
    }

    /// The function that takes `args`, and more where `variadic` is set, and
    /// returns `ret`.
    pub fn func_of(&mut self, ret: Type<'t>, args: Vec<Type<'t>>, variadic: bool) -> (r: Type<'t>)
        requires
            old(self).wf(),
            ret@.wf(),
            forall|i: int| 0 <= i < args@.len() ==> (#[trigger] args@[i])@.wf(),
        ensures
            r@ == (Ty::Func { ret: Box::new(ret@), args: crate::ty::models(args@), variadic }),
            r@.wf(),
            final(self).wf(),
            final(self).ptr() == old(self).ptr(),
            final(self).alias_list() == old(self).alias_list(),
            final(self).handles() == with_type(old(self).handles(), r@),
            final(self).holds(r@),
            final(self).keeps(*old(self)),
    {
        let ghost m = crate::ty::models(args@);
        let v = TypeS::Func { ret, args, variadic };
        assert(v@->Func_args =~= m);
        self.intern(v)
    }

    /// The alias of the name `spel`, if one was added.
    pub fn resolve_alias(&self, spel: &str) -> (r: Option<Type<'t>>)
        ensures
            model_of(r) == find_alias(self.alias_list(), spel@),
            r is Some ==> self.holds(r->0@),
    {
        proof {
            lemma_find_alias(self.alias_list(), spel@);
        }
        let mut i: usize = 0;
        assert(self.alias_list().subrange(0, self.aliases@.len() as int) =~= self.alias_list());
        while i < self.aliases.len()
            invariant
                i <= self.aliases@.len(),
                find_alias(self.alias_list(), spel@) == find_alias(
                    self.alias_list().subrange(i as int, self.aliases@.len() as int),
                    spel@,
                ),
            decreases self.aliases@.len() - i,
        {
            let t = self.aliases[i];
            let ghost rest = self.alias_list().subrange(i as int, self.aliases@.len() as int);
            assert(rest[0] == t@);
            assert(rest.drop_first() =~= self.alias_list().subrange(
                i + 1,
                self.aliases@.len() as int,
            ));
            match t {
                TypeS::Alias { name, .. } => {
                    if crate::text::str_eq(name.as_str(), spel) {
                        return Some(t);
                    }
                },
                _ => {},
            }
            i += 1;
        }
        None
    }

    /// Adds the alias `spel` for `actual` and returns it. Where the name is
    /// taken, nothing is added, and the alias that holds the name is returned.
    pub fn add_alias(&mut self, spel: &str, actual: Type<'t>) -> (r: Type<'t>)
        requires
            old(self).wf(),
            actual@.wf(),
        ensures
            final(self).wf(),
            final(self).ptr() == old(self).ptr(),
            final(self).handles() == old(self).handles(),
            match find_alias(old(self).alias_list(), spel@) {
                Some(t) => r@ == t && final(self).alias_list() == old(self).alias_list(),
                None => r@ == (Ty::Alias { name: spel@, actual: Box::new(actual@) })
                    && final(self).alias_list() == old(self).alias_list().push(r@),
            },
            find_alias(final(self).alias_list(), spel@) == Some(r@),
            r@.wf(),
            final(self).holds(r@),
            final(self).keeps(*old(self)),
    {
        proof {
            lemma_find_alias(self.alias_list(), spel@);
        }
        match self.resolve_alias(spel) {
            Some(t) => t,
            None => {
                let t = arena_alloc(
                    self.arena,
                    TypeS::Alias { name: String::from_str(spel), actual },
                );
                self.aliases.push(t);
                proof {
                    assert(self.alias_list() =~= old(self).alias_list().push(t@));
                    assert(self.handles() =~= old(self).handles());
                    lemma_find_alias_pushed(old(self).alias_list(), t@);
                    lemma_pushed_holds(old(self).alias_list(), t@);
                }
                t
            },
        }
    }
}

/// A list with one more at its end holds what it held, and the one more.
pub proof fn lemma_pushed_holds(held: Seq<Ty>, t: Ty)
    ensures
        held.push(t).contains(t),
        forall|x: Ty| #[trigger] held.contains(x) ==> held.push(t).contains(x),
{
    assert(held.push(t)[held.len() as int] == t);
    assert forall|x: Ty| #[trigger] held.contains(x) implies held.push(t).contains(x) by {
        let i = choose|i: int| 0 <= i < held.len() && held[i] == x;
        assert(held.push(t)[i] == x);
    }
}

/// Asking for a type loses none: the list then holds the type, and all that
/// it held.
pub proof fn lemma_with_type_holds(held: Seq<Ty>, t: Ty)
    ensures
        with_type(held, t).contains(t),
        forall|x: Ty| #[trigger] held.contains(x) ==> with_type(held, t).contains(x),
{
    lemma_pushed_holds(held, t);
}

/// An alias pushed under a name that the list did not hold is found under that name.
pub proof fn lemma_find_alias_pushed(list: Seq<Ty>, t: Ty)
    requires
        t is Alias,
        find_alias(list, t->Alias_name) is None,
    ensures
        find_alias(list.push(t), t->Alias_name) == Some(t),
    decreases list.len(),
{
    if list.len() > 0 {
        lemma_find_alias_pushed(list.drop_first(), t);
        assert(list.push(t).drop_first() =~= list.drop_first().push(t));
    } else {
        assert(list.push(t).drop_first() =~= list);
    }
}

/// To hold each type once is to tell two types apart by their place: two
/// handles of one pool are of the same type only where they are the same handle.
pub proof fn lemma_handles_unique<'t>(types: &TyUniq<'t>, i: int, j: int)
    requires
        types.wf(),
        0 <= i < types.handles().len(),
        0 <= j < types.handles().len(),
        types.handles()[i] == types.handles()[j],
    ensures
        i == j,
{
}

/// Asking for a type that is held gives the pool as it was; asking again
/// after a first time changes nothing more.
pub proof fn lemma_with_type_idempotent(held: Seq<Ty>, t: Ty)
    ensures
        with_type(held, t).contains(t),
        with_type(with_type(held, t), t) == with_type(held, t),
        held_once(held) && !(t is Alias) && t.wf() ==> held_once(with_type(held, t)),
{
    if !held.contains(t) {
        assert(held.push(t)[held.len() as int] == t);
    }
}

} // verus!
