//! A unit of source text: its types and its globals.

use typed_arena::Arena;
use vstd::prelude::*;

use crate::global::{Global, GlobalModel};
use crate::parse::{sema_models, PErr, ParseError, Parser, PState, SemaError};
use crate::srcloc::SrcLoc;
use crate::tokenise::{loc_of, TokState, Tokeniser};
use crate::target::Target;
use crate::text::str_eq;
use crate::ty::TypeS;
use crate::ty_uniq::TyUniq;

verus! {

/// A unit: what one source text declares, for one target.
pub struct Unit<'t> {
    pub target: &'t Target,
    pub types: TyUniq<'t>,
    pub globals: Globals<'t>,
    /// The number of the next private label.
    pub uniq_counter: u32,
}

/// The globals of a unit, in the order in which they were written.
pub struct Globals<'t> {
    entries: Vec<Global<'t>>,
}

/// The place of the last of `globals` that has the name `name`.
pub open spec fn last_named(globals: Seq<GlobalModel>, name: Seq<char>) -> Option<int>
    decreases globals.len(),
{
    if globals.len() == 0 {
        None
    } else if globals.last().name() == name {
        Some(globals.len() - 1)
    } else {
        last_named(globals.drop_last(), name)
    }
}

/// The global that is found has the name, and none behind it has; where none is
/// found, no global has the name.
pub proof fn lemma_last_named(globals: Seq<GlobalModel>, name: Seq<char>)
    ensures
        match last_named(globals, name) {
            Some(i) => 0 <= i < globals.len() && globals[i].name() == name && forall|k: int|
                i < k < globals.len() ==> globals[k].name() != name,
            None => forall|k: int| 0 <= k < globals.len() ==> globals[k].name() != name,
        },
    decreases globals.len(),
{
    if globals.len() > 0 && globals.last().name() != name {
        let head = globals.drop_last();
        lemma_last_named(head, name);
        assert forall|k: int| 0 <= k < head.len() implies head[k] == globals[k] by {}
        match last_named(head, name) {
            Some(i) => {
                assert(head[i] == globals[i]);
                assert forall|k: int| i < k < globals.len() implies globals[k].name() != name by {
                    if k < head.len() {
                        assert(head[k] == globals[k]);
                    }
                }
            },
            None => {
                assert forall|k: int| 0 <= k < globals.len() implies globals[k].name() != name by {
                    if k < head.len() {
                        assert(head[k] == globals[k]);
                    }
                }
            },
        }
    }
}

impl<'t> View for Globals<'t> {
    type V = Seq<GlobalModel>;

    closed spec fn view(&self) -> Seq<GlobalModel> {
        Seq::new(self.entries@.len(), |i: int| self.entries@[i]@)
    }
}

impl<'t> Globals<'t> {
    /// Every global holds together.
    pub closed spec fn wf(&self) -> bool {
        forall|i: int| 0 <= i < self.entries@.len() ==> (#[trigger] self.entries@[i]).wf()
    }

    /// No globals.
    pub fn new() -> (r: Self)
        ensures
            r@ == Seq::<GlobalModel>::empty(),
            r.wf(),
    {
        let r = Globals { entries: Vec::new() };
        assert(r@ =~= Seq::<GlobalModel>::empty());
        r
    }

    /// The number of globals.
    pub fn len(&self) -> (n: usize)
        ensures
            n == self@.len(),
    {
        self.entries.len()
    }

    /// The global at the place `i`.
    pub fn at(&self, i: usize) -> (g: &Global<'t>)
        requires
            i < self@.len(),
        ensures
            g@ == self@[i as int],
            self.wf() ==> g.wf(),
    {
        &self.entries[i]
    }

    /// The global at the place `i`, to be changed.
    pub fn at_mut(&mut self, i: usize) -> (g: &mut Global<'t>)
        requires
            i < old(self)@.len(),
        ensures
            *g == old(self).at_spec(i as int),
            final(self).replaced(old(self), i as int, *final(g)),
    {
        &mut self.entries[i]
    }

    /// Where the globals are in order, each of them is: a function among
    /// them holds together, and so each of its blocks ends as its kind says.
    pub proof fn lemma_each_in_order(&self, i: int)
        requires
            self.wf(),
            0 <= i < self@.len(),
        ensures
            self.at_spec(i).wf(),
            self.at_spec(i)@ == self@[i],
            self@[i] is Func ==> self@[i]->Func_0.wf() && forall|b: int|
                0 <= b < self@[i]->Func_0.blocks.len() ==> (
                #[trigger] self@[i]->Func_0.blocks[b]).ends_well(),
    {
    }

    /// Whether these are the globals `before` with `g` at the place `i`.
    pub closed spec fn replaced(&self, before: &Self, i: int, g: Global<'t>) -> bool {
        self.entries@ == before.entries@.update(i, g)
    }

    /// Globals in order stay in order where one of them is replaced by one
    /// that is in order, and nothing else changes.
    pub proof fn lemma_replaced(&self, before: &Self, i: int, g: Global<'t>)
        requires
            before.wf(),
            g.wf(),
            0 <= i < before@.len(),
            self.replaced(before, i, g),
        ensures
            self.wf(),
            self@ == before@.update(i, g@),
            before.at_spec(i).wf(),
    {
        assert(self@ =~= before@.update(i, g@));
    }

    /// The global at the place `i`.
    pub closed spec fn at_spec(&self, i: int) -> Global<'t> {
        self.entries@[i]
    }

    /// Puts `g` behind the globals held. Where one of them has the name of
    /// `g`, the place of the last such is returned: from now on the name
    /// means `g`.
    pub fn add(&mut self, g: Global<'t>) -> (prev: Option<usize>)
        requires
            old(self).wf(),
            g.wf(),
        ensures
            final(self)@ == old(self)@.push(g@),
            final(self).wf(),
            match prev {
                Some(i) => last_named(old(self)@, g@.name()) == Some(i as int),
                None => last_named(old(self)@, g@.name()) is None,
            },
    {
        let prev = self.find(g.name());
        self.entries.push(g);
        assert(self@ =~= old(self)@.push(g@));
        prev
    }

    /// The place of the global that `name` means: the last one of that name.
    pub fn find(&self, name: &str) -> (r: Option<usize>)
        ensures
            match r {
                Some(i) => last_named(self@, name@) == Some(i as int) && i < self@.len(),
                None => last_named(self@, name@) is None,
            },
    {
        let mut i: usize = self.entries.len();
        assert(self@.subrange(0, i as int) =~= self@);
        while i > 0
            invariant
                i <= self.entries@.len(),
                last_named(self@, name@) == last_named(self@.subrange(0, i as int), name@),
            decreases i,
        {
            let ghost head = self@.subrange(0, i as int);
            assert(head.last() == self.entries@[i - 1]@);
            assert(head.drop_last() =~= self@.subrange(0, i - 1));
            if str_eq(self.entries[i - 1].name(), name) {
                return Some(i - 1);
            }
            i -= 1;
        }
        None
    }

    /// The global that `name` means.
    pub fn by_name(&self, name: &str) -> (r: Option<&Global<'t>>)
        ensures
            match r {
                Some(g) => last_named(self@, name@) is Some && g@ == self@[last_named(
                    self@,
                    name@,
                )->0] && (self.wf() ==> g.wf()),
                None => last_named(self@, name@) is None,
            },
    {
        match self.find(name) {
            Some(i) => Some(&self.entries[i]),
            None => None,
        }
    }

    /// The globals with a graph of dependencies in each block of each
    /// function.
    pub open spec fn with_dags(globals: Seq<GlobalModel>) -> Seq<GlobalModel> {
        Seq::new(globals.len(), |i: int| globals[i].with_dags())
    }

    /// Gives each block of each function that has none the graph of
    /// dependencies of its instructions.
    pub fn to_dag(&mut self)
        requires
            old(self).wf(),
        ensures
            final(self).wf(),
            final(self)@ == Self::with_dags(old(self)@),
    {
        let n = self.entries.len();
        let mut i: usize = 0;
        while i < n
            invariant
                i <= n,
                n == old(self)@.len(),
                self.entries@.len() == n,
                self.wf(),
                forall|k: int| 0 <= k < i ==> (#[trigger] self@[k]) == old(self)@[k].with_dags(),
                forall|k: int| i <= k < n ==> (#[trigger] self@[k]) == old(self)@[k],
            decreases n - i,
        {
            let ghost before = *self;
            self.entries[i].to_dag();
            proof {
                assert forall|k: int| 0 <= k < self.entries@.len() implies (
                #[trigger] self.entries@[k]).wf() by {
                    if k != i {
                        assert(self.entries@[k] == before.entries@[k]);
                    }
                }
                assert forall|k: int| 0 <= k < i + 1 implies (#[trigger] self@[k]) == old(
                    self,
                )@[k].with_dags() by {
                    if k < i {
                        assert(self.entries@[k] == before.entries@[k]);
                        assert(self@[k] == before@[k]);
                    } else {
                        assert(before@[k] == old(self)@[k]);
                    }
                }
                assert forall|k: int| i + 1 <= k < n implies (#[trigger] self@[k]) == old(
                    self,
                )@[k] by {
                    assert(self.entries@[k] == before.entries@[k]);
                    assert(self@[k] == before@[k]);
                }
            }
            i += 1;
        }
        assert(self@ =~= Self::with_dags(old(self)@));
    }

    /// The places of the functions among the globals, in order.
    pub fn funcs(&self) -> (r: Vec<usize>)
        ensures
            forall|k: int| 0 <= k < r@.len() ==> #[trigger] r@[k] < self@.len() && self@[r@[k] as int] is Func,
            forall|i: int|
                0 <= i < self@.len() && self@[i] is Func ==> r@.contains(i as usize),
            forall|k: int, j: int| 0 <= k < j < r@.len() ==> r@[k] < r@[j],
    {
        let mut r: Vec<usize> = Vec::new();
        let mut i: usize = 0;
        while i < self.entries.len()
            invariant
                i <= self.entries@.len(),
                forall|k: int| 0 <= k < r@.len() ==> #[trigger] r@[k] < i && self@[r@[k] as int] is Func,
                forall|j: int| 0 <= j < i && self@[j] is Func ==> r@.contains(j as usize),
                forall|k: int, j: int| 0 <= k < j < r@.len() ==> r@[k] < r@[j],
            decreases self.entries@.len() - i,
        {
            let ghost before = r@;
            match &self.entries[i] {
                Global::Func(_) => {
                    r.push(i);
                    assert(r@[before.len() as int] == i);
                    assert forall|j: int| 0 <= j < i && self@[j] is Func implies r@.contains(
                        j as usize,
                    ) by {
                        let k = choose|k: int| 0 <= k < before.len() && before[k] == j as usize;
                        assert(r@[k] == j as usize);
                    }
                },
                _ => {},
            }
            i += 1;
        }
        r
    }
}

impl<'t> Unit<'t> {
    /// The unit holds together: its types are held once, and each global is in order.
    pub open spec fn wf(&self) -> bool {
        self.types.wf() && self.globals.wf()
    }

    /// Whether this unit and `other` hold the same globals in the same
    /// order, the same types, and are for the same target, with the same
    /// counter of private labels.
    pub open spec fn same_as(&self, other: Self) -> bool {
        &&& self.globals@ == other.globals@
        &&& self.types == other.types
        &&& self.target == other.target
        &&& self.uniq_counter == other.uniq_counter
    }

    /// Whether the pool of types holds the type of each global.
    pub open spec fn holds_its_types(&self) -> bool {
        forall|i: int|
            0 <= i < self.globals@.len() ==> self.types.holds((#[trigger] self.globals@[i]).ty())
    }

    /// What a reader starts from: the text of `tok`, and a unit without
    /// aliases or globals whose pointers have the size and alignment `ptr`.
    pub open spec fn start(tok: TokState, ptr: crate::size_align::SizeAlign) -> PState {
        PState {
            tok,
            aliases: Seq::empty(),
            ptr,
            globals: Seq::empty(),
            errors: Seq::empty(),
            names: Seq::empty(),
        }
    }

    /// Reads the text of `tok` into a new unit for `target`. Gives the unit
    /// and the faults in the meaning of the text; or, where the grammar was
    /// broken, the fault and the place up to which the text was read.
    pub fn parse(tok: Tokeniser<'t>, target: &'t Target, ty_arena: &'t Arena<TypeS<'t>>) -> (r:
        Result<(Self, Vec<SemaError>), (ParseError, SrcLoc)>)
        requires
            tok@.wf(),
            target.arch.ptr.align > 0,
        ensures
            ({
                let o = Self::start(tok@, target.arch.ptr).unit();
                match r {
                    Ok((unit, errors)) => {
                        &&& o.res is Ok
                        &&& unit.wf()
                        &&& unit.target == target
                        &&& unit.uniq_counter == 0
                        &&& unit.types.ptr() == target.arch.ptr
                        &&& unit.holds_its_types()
                        &&& unit.globals@ == o.st.globals
                        &&& unit.types.alias_list() == o.st.aliases
                        &&& sema_models(errors@) == o.st.errors
                    },
                    Err((e, loc)) => {
                        &&& o.res == Err::<(), PErr>(e@)
                        &&& loc == loc_of(o.st.tok.input, o.st.tok.pos)
                    },
                }
            }),
    {
        let parser = Parser::new(tok, Self::new(target, ty_arena));
        assert(parser@ =~= Self::start(tok@, target.arch.ptr)) by {
            assert(parser@.aliases =~= Seq::empty());
            assert(parser@.globals =~= Seq::empty());
            assert(parser@.errors =~= Seq::empty());
            assert(parser@.names =~= Seq::empty());
        }
        parser.parse()
    }

    /// Runs `pass` over the unit: the unit stays in order, and is left as
    /// the pass leaves a unit that it finds as this one was.
    pub fn run_pass<P: crate::pass::Pass>(&mut self, pass: &mut P)
        requires
            old(self).wf(),
        ensures
            final(self).wf(),
            old(pass).leaves(*old(self), *final(pass), *final(self)),
    {
        pass.run(self);
    }

    /// An empty unit for `target`, whose types will live in `ty_arena`.
    pub fn new(target: &'t Target, ty_arena: &'t Arena<TypeS<'t>>) -> (u: Self)
        requires
            target.arch.ptr.align > 0,
        ensures
            u.wf(),
            u.target == target,
            u.types.ptr() == target.arch.ptr,
            u.types.alias_list().len() == 0,
            u.types.handles().len() == 0,
            u.globals@.len() == 0,
            u.uniq_counter == 0,
    {
        Self {
            target,
            types: TyUniq::new(target.arch.ptr, ty_arena),
            globals: Globals::new(),
            uniq_counter: 0,
        }
    }
}

} // verus!
