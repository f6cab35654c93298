use ir_backend::block::{Block, BlockKind, Dag};
use ir_backend::func::{Func, FuncAttr};
use ir_backend::global::Global;
use ir_backend::isn::{Isn, IsnKind};
use ir_backend::lbl::new_private;
use ir_backend::name::Name;
use ir_backend::reg::{Class, Reg};
use ir_backend::regset::RegSet;
use ir_backend::size_align::SizeAlign;
use ir_backend::target::{Arch, ArchName, Sys, SysName, Target};
use ir_backend::ty::Primitive;
use ir_backend::ty_uniq::TyUniq;
use ir_backend::val::{Constraint, Loc, Location, Val, ValKind};
use typed_arena::Arena;

#[test]
fn private_labels() {
    let mut counter = 0;
    assert_eq!(new_private(&mut counter, ".L"), ".L0");
    assert_eq!(new_private(&mut counter, ".L"), ".L1");
    assert_eq!(counter, 2);
    counter = 4294967294;
    assert_eq!(new_private(&mut counter, "L"), "L4294967294");
    assert_eq!(counter, u32::MAX);
    counter = 109;
    assert_eq!(new_private(&mut counter, ""), "109");
}

#[test]
fn names() {
    let n = Name::new("main".into());
    assert_eq!(n.orig(), "main");
    assert_eq!(n.mangled(false), "main");
    assert_eq!(n.mangled(true), "_main");
    assert_eq!(Name::new(String::new()).mangled(true), "_");
}

#[test]
fn registers() {
    let int = Reg::new(3, Class::Int);
    let fp = Reg::new(3, Class::Float);
    assert!(int.is_int() && !int.is_fp());
    assert!(fp.is_fp() && !fp.is_int());
    let set = RegSet::new(vec![fp, Reg::new(7, Class::Int), fp, int]);
    assert_eq!(set.int_at(0), Reg::new(7, Class::Int));
    assert_eq!(set.int_at(1), int);
}

#[test]
fn targets() {
    assert_eq!(
        Target::parse(b"linux-x86_64"),
        Ok((SysName::Linux, ArchName::X86_64))
    );
    assert_eq!(
        Target::parse(b"x86_64-darwin"),
        Ok((SysName::Darwin, ArchName::X86_64))
    );
    assert_eq!(
        Target::parse(b"linux-darwin-x86_64"),
        Ok((SysName::Darwin, ArchName::X86_64))
    );
    assert_eq!(Target::parse(b"linux"), Err("missing arch/abi".into()));
    assert_eq!(Target::parse(b"x86_64"), Err("missing sysname".into()));
    assert_eq!(
        Target::parse(b"linux-arm"),
        Err("unrecognised target part 'arm'".into())
    );
    assert_eq!(Target::parse(b""), Err("unrecognised target part ''".into()));
    assert_eq!(
        Target::parse(b"linux-"),
        Err("unrecognised target part ''".into())
    );
    assert_eq!(
        Target::parse(b"linuxx86_64"),
        Err("unrecognised target part 'linuxx86_64'".into())
    );

    let linux = Sys::of(SysName::Linux);
    assert_eq!(linux.lbl_priv_prefix, ".L");
    assert_eq!(linux.section_rodata, ".rodata");
    assert_eq!(linux.weak_directive_var, ".weak");
    assert_eq!(linux.weak_directive_func, ".weak");
    assert!(!linux.align_is_pow2 && !linux.leading_underscore);
    assert!(!linux.pic.active && linux.pic.call_requires_plt);
    let darwin = Sys::of(SysName::Darwin);
    assert_eq!(darwin.lbl_priv_prefix, "L");
    assert_eq!(darwin.section_rodata, ".section __TEXT,__const");
    assert_eq!(darwin.weak_directive_var, ".weak_reference");
    assert_eq!(darwin.weak_directive_func, ".weak_definition");
    assert!(darwin.align_is_pow2 && darwin.leading_underscore);
    assert!(darwin.pic.active && !darwin.pic.call_requires_plt);

    let both = Target::of(SysName::Darwin, ArchName::X86_64);
    assert_eq!(both.sys.lbl_priv_prefix, "L");
    assert_eq!(both.sys.section_rodata, ".section __TEXT,__const");
    assert_eq!(both.sys.weak_directive_var, ".weak_reference");
    assert_eq!(both.sys.weak_directive_func, ".weak_definition");
    assert!(both.sys.align_is_pow2 && both.sys.leading_underscore);
    assert!(both.sys.pic.active && !both.sys.pic.call_requires_plt);
    assert_eq!(both.arch.ptr, SizeAlign { size: 8, align: 8 });
    assert!(both.arch.op_isn_is_destructive);
    assert_eq!(both.abi.arg_regs.int_at(1), Reg::new(5, Class::Int));
    assert_eq!(both.abi.callee_saves.int_at(0), Reg::new(1, Class::Int));
    let plain = Target::of(SysName::Linux, ArchName::X86_64);
    assert_eq!(plain.sys.lbl_priv_prefix, ".L");
    assert_eq!(plain.sys.section_rodata, ".rodata");
    assert!(!plain.sys.pic.active && plain.sys.pic.call_requires_plt);

    let (arch, abi) = Arch::of(ArchName::X86_64);
    assert_eq!(arch.ptr, SizeAlign { size: 8, align: 8 });
    assert!(arch.op_isn_is_destructive);
    assert_eq!(abi.arg_regs.int_at(0), Reg::new(4, Class::Int));
    assert_eq!(abi.arg_regs.int_at(3), Reg::new(2, Class::Int));
    assert_eq!(abi.ret_regs.int_at(1), Reg::new(3, Class::Int));
    assert_eq!(abi.scratch_regs.int_at(4), Reg::new(5, Class::Int));
    assert_eq!(abi.callee_saves.int_at(0), Reg::new(1, Class::Int));
}

#[test]
fn values() {
    let arena = Arena::new();
    let mut ut = TyUniq::new(SizeAlign { size: 8, align: 8 }, &arena);
    let i4 = ut.primitive(Primitive::I4);
    let void = ut.void();
    let p = ut.ptr_to(i4);
    let any = Location {
        loc: Loc::AnyReg,
        constraint: Constraint::none(),
    };

    let v = Val::new_void(void);
    assert!(matches!(v.kind(), ValKind::Literal(0)));
    assert!(std::ptr::eq(v.ty(), void));
    assert_eq!(v.location(), None);

    let v = Val::new_i(-3, i4);
    assert_eq!(v.as_int(), Some(-3));
    assert!(!v.is_mem() && !v.is_reg() && !v.can_be_assigned_reg());
    assert!(Val::new_i(64, p).is_mem());

    let v = Val::new_undef(i4);
    assert!(matches!(v.kind(), ValKind::Undef));
    assert!(v.can_be_assigned_reg() && !v.is_mem());
    assert_eq!(v.as_int(), None);

    let v = Val::new_argument("a".into(), i4);
    assert!(v.is_arg() && !v.is_abi() && !v.live_across_blocks());
    assert!(matches!(v.kind(), ValKind::Local { name, .. } if name == "a"));
    assert_eq!(v.location(), Some(any));
    assert!(v.is_reg());

    let v = Val::new_label("l".into(), p);
    assert!(matches!(v.kind(), ValKind::Label(n) if n == "l"));
    assert!(!v.is_mem() && !v.is_arg());

    let v = Val::new_local("x".into(), i4, false);
    assert!(matches!(v.kind(), ValKind::Local { name, .. } if name == "x"));
    assert_eq!(v.location(), Some(any));
    assert!(!v.is_arg());
    let v = Val::new_local("x".into(), p, true);
    assert!(matches!(v.kind(), ValKind::Alloca { name, .. } if name == "x"));
    assert!(v.is_mem() && !v.is_reg());
    assert!(matches!(
        v.location(),
        Some(Location {
            loc: Loc::SpillSlot(0),
            ..
        })
    ));

    let r = Reg::new(2, Class::Int);
    let mut v = Val::new_reg(r, i4);
    assert!(v.is_abi() && v.is_reg());
    assert_eq!(
        v.location(),
        Some(Location {
            loc: Loc::Reg(r),
            constraint: Constraint {
                reg: true,
                mem: false,
                konst: false
            }
        })
    );
    v.set_live_across_blocks();
    assert!(v.live_across_blocks());

    let g = Global::Type {
        name: "t".into(),
        ty: i4,
    };
    let v = Val::new_global(&mut ut, &g);
    assert!(matches!(v.kind(), ValKind::Global(n) if n == "t"));
    assert!(std::ptr::eq(v.ty(), p));
    assert!(v.is_mem());
}

#[test]
fn blocks() {
    let mut b = Block::new_labelled("l".into());
    assert_eq!(b.label().as_deref(), Some("l"));
    assert_eq!(*b.kind(), BlockKind::Unknown);
    assert!(b.is_tenative() && b.is_unknown_ending());
    b.add_isn(Isn::parsed(IsnKind::Alloca { out: 0 }));
    assert!(!b.is_tenative());
    assert_eq!(b.isns().len(), 1);
    b.isns_mut().push(Isn::generated(IsnKind::Ret { val: 0 }));
    assert!(b.isns()[1].compiler_generated && !b.isns()[0].compiler_generated);
    b.set_exit();
    assert_eq!(*b.kind(), BlockKind::Exit);
    assert!(!b.is_unknown_ending());
    b.add_pred(3);
    assert_eq!(*b.preds(), vec![3]);
    assert_eq!(b.build_dag().edges, vec![(1, 0)]);
    b.set_dag(Dag { edges: vec![(1, 0), (1, 0)] });
    // a block keeps the graph that it has
    b.to_dag();
    assert_eq!(b.dag().as_ref().unwrap().edges, vec![(1, 0), (1, 0)]);
    assert!(!b.emitted());
    b.set_emitted(true);
    assert!(b.emitted());

    let mut e = Block::new_entry();
    assert_eq!(*e.label(), None);
    assert_eq!(*e.kind(), BlockKind::Entry);
    assert!(e.is_unknown_ending());
    e.set_exit();
    assert_eq!(*e.kind(), BlockKind::EntryExit);

    let mut j = Block::new_entry();
    j.set_jmp(4);
    assert_eq!(*j.kind(), BlockKind::Jmp { target: 4 });
    let mut j = Block::new_labelled("x".into());
    j.set_branch(1, 2, 3);
    assert_eq!(
        *j.kind(),
        BlockKind::Branch {
            cond: 1,
            t: 2,
            f: 3
        }
    );
    let mut j = Block::new_labelled("x".into());
    j.set_computed_jmp(9);
    assert_eq!(*j.kind(), BlockKind::JmpComp { target: 9 });
}

#[test]
fn function_by_hand() {
    let arena = Arena::new();
    let mut ut = TyUniq::new(SizeAlign { size: 8, align: 8 }, &arena);
    let i4 = ut.primitive(Primitive::I4);
    let i1 = ut.primitive(Primitive::I1);
    let fnty = ut.func_of(i4, vec![i4, i1], false);
    let mut f = Func::new("f".into(), fnty, vec!["a".into(), "b".into()]);
    assert_eq!(f.name(), "f");
    assert_eq!(f.mangled_name(), None);
    assert_eq!(f.attr(), FuncAttr::default());
    assert_eq!(f.entry(), None);
    assert_eq!(f.exit(), None);
    assert_eq!(f.arg_by_name("b"), Some((1, i1)));
    assert_eq!(f.arg_by_name("c"), None);
    f.add_attr(FuncAttr {
        internal: false,
        weak: true,
    });
    f.add_attr(FuncAttr {
        internal: true,
        weak: false,
    });
    assert!(f.attr().contains(FuncAttr {
        internal: true,
        weak: true
    }));
    assert!(FuncAttr::none()
        .union(FuncAttr {
            internal: true,
            weak: false
        })
        .internal);

    assert_eq!(f.entry_block(false), None);
    assert_eq!(f.entry_block(true), Some(0));
    assert_eq!(f.get_entry(), 0);
    assert_eq!(f.get_block("l".into()), (1, true));
    assert_eq!(f.get_block("m".into()), (2, true));
    assert_eq!(f.get_block("l".into()), (1, false));
    assert_eq!(f.block_count(), 3);

    let a = f.add_val(Val::new_argument("a".into(), i4));
    let x = f.add_val(Val::new_local("x".into(), i4, false));
    let y = f.add_val(Val::new_local("y".into(), i4, false));
    let z = f.add_val(Val::new_local("z".into(), i4, false));
    assert_eq!((a, x, y, z), (0, 1, 2, 3));
    assert_eq!(f.arg_val(0), None);
    f.register_arg_val(0, a);
    assert_eq!(f.arg_val(0), Some(a));
    assert_eq!(f.val_count(), 4);

    // entry: x = a + a, jmp l.  l: y = x + x, z = y + y, ret z.  m: nothing
    let add = |lhs, rhs, res| {
        Isn::parsed(IsnKind::Op {
            op: ir_backend::token::Op::Add,
            lhs,
            rhs,
            res,
        })
    };
    f.add_isn(0, add(a, a, x));
    f.terminate(0, Isn::parsed(IsnKind::Jmp { target: 1 }));
    f.add_isn(1, add(x, x, y));
    f.add_isn(1, add(y, y, z));
    f.terminate(1, Isn::parsed(IsnKind::Ret { val: z }));
    assert_eq!(*f.block(0).kind(), BlockKind::Jmp { target: 1 });
    assert_eq!(*f.block(1).kind(), BlockKind::Exit);
    assert_eq!(*f.block(1).preds(), vec![0]);

    assert_eq!(f.exit_block(".L", &mut 5), 3);
    let mut counter = 9;
    assert_eq!(f.exit_block(".L", &mut counter), 3);
    assert_eq!(counter, 9);
    assert_eq!(f.exit(), Some(3));
    assert_eq!(f.block(3).label().as_deref(), Some(".L5"));
    // a private label names no block of the source
    assert_eq!(f.get_block(".L5".into()), (4, true));

    // the walk from the entry, then what is left, but for the exit block
    assert_eq!(f.traverse(), vec![0, 1, 2, 4]);

    // x lives in two blocks; y and z in one; a is an argument, and used
    // in the entry block only
    f.finalize();
    assert!(f.val(x).live_across_blocks());
    assert!(!f.val(y).live_across_blocks());
    assert!(!f.val(z).live_across_blocks());
    assert!(!f.val(a).live_across_blocks());

    // an argument that another block uses lives across blocks
    f.add_isn(2, add(a, a, a));
    f.finalize();
    assert!(f.val(a).live_across_blocks());
    assert!(!f.val(y).live_across_blocks());

    assert_eq!(f.get_stack_use(), 0);
    assert_eq!(f.alloc_stack_space(i1), Some(1));
    assert_eq!(f.alloc_stack_space(i4), Some(8));
    assert_eq!(f.alloc_stack_space(i1), Some(9));
    assert_eq!(f.alloc_stack_space(fnty), None);
    assert_eq!(f.get_stack_use(), 9);
    let p = ut.ptr_to(i1);
    assert_eq!(f.alloc_stack_space(p), Some(24));
    let huge = ut.array_of(i4, 1 << 30);
    assert_eq!(f.alloc_stack_space(huge), None);
    assert_eq!(f.get_stack_use(), 24);
}

#[test]
fn values_scanned_block_by_block() {
    let arena = Arena::new();
    let mut ut = TyUniq::new(SizeAlign { size: 8, align: 8 }, &arena);
    let i4 = ut.primitive(Primitive::I4);
    let fnty = ut.func_of(i4, vec![], false);
    let mut f = Func::new("f".into(), fnty, vec![]);
    f.get_entry();
    f.get_block("l".into());
    let v = f.add_val(Val::new_i(1, i4));
    let w = f.add_val(Val::new_i(2, i4));
    f.add_isn(0, Isn::parsed(IsnKind::Copy { from: v, to: v }));
    f.add_isn(1, Isn::parsed(IsnKind::Copy { from: v, to: w }));
    let mut seen = vec![None, None];
    f.check_val_life(0, &mut seen);
    assert_eq!(seen, vec![Some(0), None]);
    assert!(!f.val(v).live_across_blocks());
    f.check_val_life(1, &mut seen);
    assert_eq!(seen, vec![Some(0), Some(1)]);
    assert!(f.val(v).live_across_blocks());
    assert!(!f.val(w).live_across_blocks());
}

#[test]
fn splitting_a_block() {
    let arena = Arena::new();
    let mut ut = TyUniq::new(SizeAlign { size: 8, align: 8 }, &arena);
    let i4 = ut.primitive(Primitive::I4);
    let fnty = ut.func_of(i4, vec![], false);
    let mut f = Func::new("f".into(), fnty, vec![]);
    let entry = f.get_entry();
    let v = f.add_val(Val::new_i(1, i4));
    let w = f.add_val(Val::new_local("w".into(), i4, false));
    f.add_isn(entry, Isn::parsed(IsnKind::Copy { from: v, to: w }));
    f.add_isn(entry, Isn::parsed(IsnKind::Copy { from: w, to: w }));
    f.terminate(entry, Isn::parsed(IsnKind::Ret { val: w }));
    assert_eq!(*f.block(entry).kind(), BlockKind::EntryExit);

    assert!(!f.lifetime_filled());
    let mut counter = 3;
    let new = f.block_split(entry, 1, ".L", &mut counter);
    assert_eq!(new, 1);
    assert_eq!(counter, 4);
    assert_eq!(f.block_count(), 2);
    // the first instruction stays, and the block does not end any more
    assert_eq!(f.block(entry).isns().len(), 1);
    assert_eq!(*f.block(entry).kind(), BlockKind::Entry);
    assert_eq!(*f.block(entry).label(), None);
    // the rest, and the end, are in the new block
    assert_eq!(f.block(new).label().as_deref(), Some(".L3"));
    assert_eq!(f.block(new).isns().len(), 2);
    assert!(matches!(
        f.block(new).isns()[0].kind,
        IsnKind::Copy { from: 1, to: 1 }
    ));
    assert!(matches!(f.block(new).isns()[1].kind, IsnKind::Ret { val: 1 }));
    assert_eq!(*f.block(new).kind(), BlockKind::Exit);
    assert!(f.block(new).preds().is_empty());
    // whoever splits gives the old block its new end
    f.terminate(entry, Isn::parsed(IsnKind::Jmp { target: new }));
    assert_eq!(f.traverse(), vec![entry, new]);

    // a block that jumps keeps its jump in what is split off
    let l = f.get_block("l".into()).0;
    f.terminate(l, Isn::parsed(IsnKind::Jmp { target: new }));
    let tail = f.block_split(l, 0, "L", &mut counter);
    assert_eq!(*f.block(l).kind(), BlockKind::Unknown);
    assert!(f.block(l).is_tenative());
    assert_eq!(*f.block(tail).kind(), BlockKind::Jmp { target: new });
    assert_eq!(f.block(tail).label().as_deref(), Some("L4"));

    f.set_lifetime_filled();
    assert!(f.lifetime_filled());
}

#[test]
fn entry_set_by_hand() {
    let arena = Arena::new();
    let mut ut = TyUniq::new(SizeAlign { size: 8, align: 8 }, &arena);
    let void = ut.void();
    let fnty = ut.func_of(void, vec![], false);
    let mut f = Func::new("f".into(), fnty, vec![]);
    let (a, created) = f.get_block("a".into());
    assert!(created);
    f.set_entry(a);
    assert_eq!(f.entry(), Some(a));
    assert_eq!(f.get_entry(), a);
    assert_eq!(f.block_count(), 1);
}

#[test]
fn jumps_and_branches_set_by_hand() {
    let arena = Arena::new();
    let mut ut = TyUniq::new(SizeAlign { size: 8, align: 8 }, &arena);
    let i4 = ut.primitive(Primitive::I4);
    let fnty = ut.func_of(i4, vec![], false);
    let mut f = Func::new("f".into(), fnty, vec![]);
    assert_eq!(f.entry_block(true), Some(0));
    assert_eq!(f.get_block("a".into()), (1, true));
    assert_eq!(f.get_block("b".into()), (2, true));
    let c = f.add_val(Val::new_local("c".into(), i4, false));

    // the entry block jumps to a: a gains it as a predecessor, once
    assert!(f.block(0).is_unknown_ending());
    f.set_jmp(0, 1);
    assert_eq!(*f.block(0).kind(), BlockKind::Jmp { target: 1 });
    assert!(!f.block(0).is_unknown_ending());
    assert_eq!(*f.block(1).preds(), vec![0]);
    assert!(f.block(2).preds().is_empty());
    assert!(f.block(0).isns().is_empty());
    assert_eq!(f.block(0).label(), &None);
    assert!(f.block(1).is_unknown_ending());

    // a goes on at b or at itself: each gains a
    f.set_branch(1, c, 2, 1);
    assert_eq!(*f.block(1).kind(), BlockKind::Branch { cond: c, t: 2, f: 1 });
    assert_eq!(*f.block(2).preds(), vec![1]);
    assert_eq!(*f.block(1).preds(), vec![0, 1]);
    assert!(f.block(0).preds().is_empty());

    // a branch both of whose ways lead to one block is recorded twice there
    assert_eq!(f.get_block("d".into()), (3, true));
    f.set_branch(2, c, 3, 3);
    assert_eq!(*f.block(3).preds(), vec![2, 2]);
}
