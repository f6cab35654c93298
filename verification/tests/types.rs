use ir_backend::size_align::{gap_for_alignment, SizeAlign};
use ir_backend::ty::{Primitive, TypeQueries, TypeS};
use ir_backend::ty_uniq::TyUniq;
use typed_arena::Arena;

#[test]
fn memory() {
    let arena = Arena::new();
    let mut ut = TyUniq::new(SizeAlign { size: 8, align: 8 }, &arena);

    let i4_a = ut.primitive(Primitive::I4);
    let i4_b = ut.primitive(Primitive::I4);

    assert_eq!(i4_a, i4_b);
}

#[test]
fn aliases() {
    let arena = Arena::new();
    let mut ut = TyUniq::new(SizeAlign { size: 8, align: 8 }, &arena);

    assert!(ut.resolve_alias("size_t").is_none());
    assert_eq!(arena.len(), 0);

    let usz = ut.primitive(Primitive::I8);
    assert_eq!(arena.len(), 1);

    ut.add_alias("size_t", usz);
    assert_eq!(arena.len(), 2);

    assert_eq!(ut.resolve_alias("size_t"), Some(usz));

    ut.add_alias("size_t", usz);
    assert_eq!(arena.len(), 2);
    assert_eq!(ut.resolve_alias("size_t"), Some(usz));
}

#[test]
fn structs() {
    let arena = Arena::new();
    let mut ut = TyUniq::new(SizeAlign { size: 8, align: 8 }, &arena);

    let usz = ut.primitive(Primitive::I8);
    let int = ut.primitive(Primitive::I4);
    let ch = ut.primitive(Primitive::I1);

    assert_eq!(arena.len(), 3);

    let st1 = ut.struct_of(vec![usz, int]);
    assert_eq!(arena.len(), 4);
    let st2 = ut.struct_of(vec![int, ch]);
    assert_eq!(arena.len(), 5);
    assert!(st1 != st2);

    let st3 = ut.struct_of(vec![usz, int]);
    assert_eq!(arena.len(), 5);
    assert_eq!(st1, st3);
}

#[test]
fn equal_inputs_give_the_same_handle() {
    let arena = Arena::new();
    let mut ut = TyUniq::new(SizeAlign { size: 8, align: 8 }, &arena);

    let i4 = ut.primitive(Primitive::I4);
    let void = ut.void();
    let pairs = [
        (ut.primitive(Primitive::I4), ut.primitive(Primitive::I4)),
        (ut.void(), ut.void()),
        (ut.ptr_to(i4), ut.ptr_to(i4)),
        (ut.array_of(i4, 3), ut.array_of(i4, 3)),
        (ut.struct_of(vec![i4, void]), ut.struct_of(vec![i4, void])),
        (
            ut.func_of(i4, vec![i4], true),
            ut.func_of(i4, vec![i4], true),
        ),
        (ut.default(), i4),
    ];
    for (a, b) in pairs {
        assert!(std::ptr::eq(a, b));
    }
    assert!(!std::ptr::eq(ut.array_of(i4, 3), ut.array_of(i4, 4)));
    assert!(!std::ptr::eq(
        ut.func_of(i4, vec![i4], true),
        ut.func_of(i4, vec![i4], false)
    ));
    assert_eq!(ut.len(), 8);
    assert_eq!(arena.len(), 8);
}

#[test]
fn arena_holds_the_type_that_was_asked_for() {
    let arena = Arena::new();
    let mut ut = TyUniq::new(SizeAlign { size: 4, align: 2 }, &arena);
    let f8 = ut.primitive(Primitive::F8);
    let p = ut.ptr_to(f8);
    match p {
        TypeS::Ptr { pointee, sz } => {
            assert!(matches!(pointee, TypeS::Primitive(Primitive::F8)));
            assert_eq!(*sz, SizeAlign { size: 4, align: 2 });
        }
        _ => panic!(),
    }
    assert_eq!(p.size_align(), SizeAlign { size: 4, align: 2 });
}

#[test]
fn resolving_twice_is_resolving_once() {
    let arena = Arena::new();
    let mut ut = TyUniq::new(SizeAlign { size: 8, align: 8 }, &arena);
    let i2 = ut.primitive(Primitive::I2);
    let a = ut.add_alias("a", i2);
    let b = ut.add_alias("b", a);
    assert!(matches!(b, TypeS::Alias { .. }));
    assert!(std::ptr::eq(b.resolve(), i2));
    assert!(std::ptr::eq(b.resolve().resolve(), b.resolve()));
    assert!(std::ptr::eq(i2.resolve(), i2));
    assert_eq!(b, i2);
    assert!(!b.same(i2));
}

#[test]
fn gaps() {
    assert_eq!(gap_for_alignment(0, 8), 0);
    assert_eq!(gap_for_alignment(1, 8), 7);
    assert_eq!(gap_for_alignment(8, 8), 0);
    assert_eq!(gap_for_alignment(9, 8), 7);
    assert_eq!(gap_for_alignment(13, 4), 3);
    assert_eq!(gap_for_alignment(5, 1), 0);
    assert_eq!(SizeAlign::from_size(4), SizeAlign { size: 4, align: 4 });
    assert_eq!(
        SizeAlign { size: 3, align: 2 }.mul(5),
        SizeAlign { size: 15, align: 2 }
    );
    assert_eq!(SizeAlign::default(), SizeAlign { size: 0, align: 1 });
}

#[test]
fn layouts() {
    let arena = Arena::new();
    let mut ut = TyUniq::new(SizeAlign { size: 8, align: 8 }, &arena);
    let i1 = ut.primitive(Primitive::I1);
    let i2 = ut.primitive(Primitive::I2);
    let i4 = ut.primitive(Primitive::I4);
    let fl = ut.primitive(Primitive::FLarge);
    let void = ut.void();
    let p = ut.ptr_to(void);

    assert_eq!(void.size_align(), SizeAlign { size: 0, align: 1 });
    assert_eq!(fl.size_align(), SizeAlign { size: 16, align: 16 });
    assert_eq!(p.size_align(), SizeAlign { size: 8, align: 8 });

    // an array is its elements in a row
    let arr = ut.array_of(i4, 7);
    assert_eq!(arr.size_align(), SizeAlign { size: 28, align: 4 });
    assert_eq!(arr.size(), i4.size() * 7);
    let none = ut.array_of(p, 0);
    assert_eq!(none.size_align(), SizeAlign { size: 0, align: 8 });

    // a struct pads each member and its own end
    let s = ut.struct_of(vec![i1, i4, i2]);
    assert_eq!(s.size_align(), SizeAlign { size: 12, align: 4 });
    let s = ut.struct_of(vec![i1, p, i1]);
    assert_eq!(s.size_align(), SizeAlign { size: 24, align: 8 });
    assert_eq!(s.size_align().size % s.size_align().align as usize, 0);
    let empty = ut.struct_of(vec![]);
    assert_eq!(empty.size_align(), SizeAlign { size: 0, align: 1 });
    let nested = ut.struct_of(vec![i1, s]);
    assert_eq!(nested.size_align(), SizeAlign { size: 32, align: 8 });

    let alias = ut.add_alias("s", s);
    assert_eq!(alias.size_align(), SizeAlign { size: 24, align: 8 });

    // no size for what cannot be laid out
    let f = ut.func_of(void, vec![], false);
    assert_eq!(f.checked_size(), None);
    assert!(!f.is_sized());
    let huge = ut.array_of(i4, usize::MAX);
    assert_eq!(huge.try_size_align(), None);
    assert_eq!(huge.checked_size(), None);
    assert_eq!(arr.checked_size(), Some(28));
}

#[test]
fn queries() {
    let arena = Arena::new();
    let mut ut = TyUniq::new(SizeAlign { size: 8, align: 8 }, &arena);
    let i4 = ut.primitive(Primitive::I4);
    let f4 = ut.primitive(Primitive::F4);
    let void = ut.void();
    let p = ut.ptr_to(i4);
    let arr = ut.array_of(i4, 2);
    let s = ut.struct_of(vec![i4]);
    let sp = ut.ptr_to(s);
    let f = ut.func_of(f4, vec![i4], false);
    let pa = ut.add_alias("p", p);

    assert_eq!(p.deref(), Some(i4));
    assert_eq!(pa.deref(), Some(i4));
    assert_eq!(i4.deref(), None);
    assert_eq!(arr.array_elem(), Some(i4));
    assert_eq!(p.array_elem(), None);
    assert_eq!(f.called(), Some(f4));
    assert_eq!(i4.called(), None);
    assert_eq!(i4.as_primitive(), Some(Primitive::I4));
    assert_eq!(s.as_primitive(), None);
    assert!(f.is_fn() && !p.is_fn());
    assert!(s.is_struct() && !sp.is_struct());
    assert!(void.is_void() && !i4.is_void());
    assert!(i4.is_integral() && !f4.is_integral());
    assert!(f4.is_float() && !i4.is_float());

    // a struct is returned through a pointer to it, anything else as itself
    assert!(sp.can_return_to(s));
    assert!(!s.can_return_to(s));
    assert!(!p.can_return_to(s));
    assert!(i4.can_return_to(i4));
    assert!(!f4.can_return_to(i4));
    assert!(void.can_return_to(void));

    let none: Option<&TypeS> = None;
    assert_eq!(none.deref(), None);
    assert_eq!(none.size_align(), SizeAlign { size: 0, align: 1 });
    assert!(!none.is_fn() && !none.is_void() && !none.can_return_to(i4));
    assert_eq!(Some(arr).array_elem().size(), 4);
    assert!(Some(f).called().is_float());
}

#[test]
fn gaps_by_alignment() {
    let currents = [0, 1, 2, 3, 4, 8, 9, 13];
    let table: [(u32, [usize; 8]); 4] = [
        (1, [0, 0, 0, 0, 0, 0, 0, 0]),
        (2, [0, 1, 0, 1, 0, 0, 1, 1]),
        (4, [0, 3, 2, 1, 0, 0, 3, 3]),
        (8, [0, 7, 6, 5, 4, 0, 7, 3]),
    ];
    for (align, gaps) in table {
        for (current, gap) in currents.iter().zip(gaps) {
            assert_eq!(gap_for_alignment(*current, align), gap);
            // the gap is the least padding to a multiple of the alignment
            assert_eq!((current + gap) % align as usize, 0);
            assert!(gap < align as usize);
        }
    }
}
