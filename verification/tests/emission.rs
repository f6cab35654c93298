use ir_backend::emit::{emit, emit_func, emit_var, EmitError};
use ir_backend::global::Global;
use ir_backend::parse::Parser;
use ir_backend::target::{ArchName, SysName, Target};
use ir_backend::tokenise::Tokeniser;
use ir_backend::unit::Unit;
use ir_backend::init::{Init, InitFlags, InitTopLevel};
use ir_backend::name::Name;
use ir_backend::size_align::SizeAlign;
use ir_backend::ty::{Primitive, TypeS};
use ir_backend::ty_uniq::TyUniq;
use ir_backend::variable::Var;
use typed_arena::Arena;

fn emitted(sys: SysName, src: &[u8], name: &str) -> Result<String, EmitError> {
    let target = Target::of(sys, ArchName::X86_64);
    let arena = Arena::new();
    let parser = Parser::new(Tokeniser::new(src, "test"), Unit::new(&target, &arena));
    let (mut unit, errors) = parser.parse().unwrap();
    assert!(errors.is_empty(), "{}", errors[0].message());
    let mut counter = unit.uniq_counter;
    let mut out = None;
    for i in 0..unit.globals.len() {
        if unit.globals.at(i).name() == name {
            out = Some(emit(unit.globals.at_mut(i), &target, &mut counter));
        }
    }
    out.unwrap().map(|bytes| String::from_utf8(bytes).unwrap())
}

#[test]
fn array_of_bytes_on_linux() {
    assert_eq!(
        emitted(SysName::Linux, b"$x = [i1 x 3] global { 1, 2, 3 }", "x").unwrap(),
        ".data\n.globl x\n.align 1\nx:\n.byte 0x1\n.byte 0x2\n.byte 0x3\n"
    );
}

#[test]
fn pointer_initialiser() {
    let src = b"$x = [i1 x 8] global \"abc\"  $p = i1* global $x add 4 anyptr";
    assert_eq!(
        emitted(SysName::Linux, src, "p").unwrap(),
        ".data\n.globl p\n.align 8\np:\n.quad x + 4\n"
    );
    let src = b"$x = i1 global 0  $p = i1* internal $x sub 12";
    assert_eq!(
        emitted(SysName::Linux, src, "p").unwrap(),
        ".data\n.align 8\np:\n.quad x - 12\n"
    );
    let src = b"$p = i1* internal 255";
    assert_eq!(
        emitted(SysName::Linux, src, "p").unwrap(),
        ".data\n.align 8\np:\n.quad 0xff\n"
    );
}

#[test]
fn sections_and_linkage() {
    assert_eq!(
        emitted(SysName::Linux, b"$v = i4 internal const 7", "v").unwrap(),
        ".rodata\n.align 4\nv:\n.long 0x7\n"
    );
    assert_eq!(
        emitted(SysName::Linux, b"$v = i2 global weak 258", "v").unwrap(),
        ".data\n.globl v\n.weak v\n.align 2\nv:\n.word 0x102\n"
    );
    assert_eq!(
        emitted(SysName::Darwin, b"$v = i8 global const weak 1", "v").unwrap(),
        ".section __TEXT,__const\n.globl _v\n.weak_reference _v\n.align 3\n_v:\n.quad 0x1\n"
    );
    assert_eq!(
        emitted(SysName::Darwin, b"$v = i1 global 9", "v").unwrap(),
        ".data\n.globl _v\n.align 0\n_v:\n.byte 0x9\n"
    );
    assert_eq!(
        emitted(SysName::Linux, b"$v = i4", "v").unwrap(),
        "# forward decl v\n"
    );
    assert_eq!(emitted(SysName::Linux, b"type $t = i4", "t").unwrap(), "");
}

#[test]
fn zeroes_are_room() {
    assert_eq!(
        emitted(SysName::Linux, b"$v = i4 internal 0", "v").unwrap(),
        ".data\n.align 4\nv:\n.space 4\n"
    );
    assert_eq!(
        emitted(SysName::Linux, b"$v = [i2 x 3] internal { 0, 5, 0 }", "v").unwrap(),
        ".data\n.align 2\nv:\n.space 2\n.word 0x5\n.space 2\n"
    );
}

#[test]
fn structs_are_padded() {
    assert_eq!(
        emitted(SysName::Linux, b"$s = { i1, i4, i1 } internal { 1, 2, 3, }", "s").unwrap(),
        ".data\n.align 4\ns:\n.byte 0x1\n.space 3\n.long 0x2\n.byte 0x3\n.space 3\n"
    );
    assert_eq!(
        emitted(SysName::Linux, b"$s = {} internal {}", "s").unwrap(),
        ".data\n.align 1\ns:\n"
    );
    assert_eq!(
        emitted(
            SysName::Linux,
            b"$s = { i1, { i2, i8 } } internal { 1, { 2, 3 } }",
            "s"
        )
        .unwrap(),
        ".data\n.align 8\ns:\n.byte 0x1\n.space 7\n.word 0x2\n.space 6\n.quad 0x3\n"
    );
}

#[test]
fn strings_and_aliases() {
    assert_eq!(
        emitted(
            SysName::Linux,
            b"$s = [i1 x 6] internal \"a\\042b\\134\\0\\177\"",
            "s"
        )
        .unwrap(),
        ".data\n.align 1\ns:\n.ascii \"a\\042b\\134\\000\\177\"\n"
    );
    assert_eq!(
        emitted(SysName::Linux, b"$s = [i1 x 5] internal \"hi\"", "s").unwrap(),
        ".data\n.align 1\ns:\n.ascii \"hi\"\n.space 3\n"
    );
    assert_eq!(
        emitted(SysName::Linux, b"$u = i8 internal aliasinit i2 3", "u").unwrap(),
        ".data\n.align 8\nu:\n.word 0x3\n.space 6\n"
    );
}

#[test]
fn functions_written() {
    assert_eq!(
        emitted(SysName::Linux, b"$main = i4() { ret i4 0 }", "main").unwrap(),
        ".text\n.globl main\nmain:\n\tpush %rbp\n\tmov %rsp, %rbp\n\tjmp .L0\n.L0:\n\tleave\n\tret\n"
    );
    let src = b"$f = void() internal {
            jmp $b
        $a:
            asm \"nop\"
            ret void
        $b:
            jmp $a
        }";
    assert_eq!(
        emitted(SysName::Darwin, src, "f").unwrap(),
        ".text\n_f:\n\tpush %rbp\n\tmov %rsp, %rbp\n\tjmp b\nb:\n\tjmp a\na:\n\tnop\n\tjmp L0\nL0:\n\tleave\n\tret\n"
    );
    assert_eq!(
        emitted(SysName::Linux, b"$f = void() weak", "f").unwrap(),
        "# forward decl f\n.weak f\n"
    );
    assert_eq!(
        emitted(SysName::Darwin, b"$f = void() weak internal", "f").unwrap(),
        "# forward decl _f\n.weak_definition _f\n"
    );
    assert_eq!(
        emitted(SysName::Linux, b"$f = i4(i4 $a) { $b = add $a, $a ret $b }", "f"),
        Err(EmitError::Unsupported)
    );
}

#[test]
fn private_labels_count_up() {
    let target = Target::of(SysName::Linux, ArchName::X86_64);
    let arena = Arena::new();
    let src = b"$f = void() { ret void } $g = void() { ret void }";
    let parser = Parser::new(Tokeniser::new(src, "test"), Unit::new(&target, &arena));
    let (mut unit, _) = parser.parse().unwrap();
    let mut counter = 7;
    let f = emit(unit.globals.at_mut(0), &target, &mut counter).unwrap();
    let g = emit(unit.globals.at_mut(1), &target, &mut counter).unwrap();
    assert_eq!(counter, 9);
    // each function has got its exit block: a new last block, without
    // instructions, under the private label of the number that was next
    for (i, label) in [(0, ".L7"), (1, ".L8")] {
        match unit.globals.at(i) {
            Global::Func(f) => {
                assert_eq!(f.block_count(), 2);
                assert_eq!(f.exit(), Some(1));
                assert_eq!(f.block(1).label().as_deref(), Some(label));
                assert!(f.block(1).isns().is_empty());
                assert!(f.block(1).is_unknown_ending());
            }
            _ => panic!(),
        }
    }
    assert!(String::from_utf8(f).unwrap().contains("\tjmp .L7\n.L7:\n"));
    assert!(String::from_utf8(g).unwrap().contains("\tjmp .L8\n.L8:\n"));
    // the exit block is there now: nothing more is counted
    let again = emit(unit.globals.at_mut(0), &target, &mut counter).unwrap();
    assert_eq!(counter, 9);
    assert!(String::from_utf8(again).unwrap().contains(".L7:"));

    let mut full = u32::MAX;
    let src = b"$h = void() { ret void }";
    let parser = Parser::new(Tokeniser::new(src, "test"), Unit::new(&target, &arena));
    let (mut unit, _) = parser.parse().unwrap();
    assert_eq!(
        emit(unit.globals.at_mut(0), &target, &mut full),
        Err(EmitError::NoLabel)
    );
    // nothing has changed: no exit block, and the counter stands
    assert_eq!(full, u32::MAX);
    match unit.globals.at(0) {
        Global::Func(f) => {
            assert_eq!(f.exit(), None);
            assert_eq!(f.block_count(), 1);
        }
        _ => panic!(),
    }
    match unit.globals.at(0) {
        Global::Func(f) => assert_eq!(emit_func(f, &target.sys, true), Err(EmitError::NoExit)),
        _ => panic!(),
    }
    match unit.globals.at(0) {
        Global::Var(v) => {
            let _ = emit_var(v, &target.sys);
        }
        _ => {}
    }
}

fn var_of<'a>(ty: &'a TypeS<'a>, init: Init<'a>) -> Var<'a> {
    Var {
        name: Name::new("v".into()),
        ty,
        init: Some(InitTopLevel {
            init,
            flags: InitFlags::default(),
        }),
    }
}

#[test]
fn more_room_than_can_be_counted() {
    let target = Target::of(SysName::Linux, ArchName::X86_64);
    let arena = Arena::new();
    let mut ut = TyUniq::new(SizeAlign { size: 8, align: 8 }, &arena);
    let i8 = ut.primitive(Primitive::I8);
    // 2^62 bytes each
    let row = ut.array_of(i8, 1 << 29);
    let big = ut.array_of(row, 1 << 30);
    let ty = ut.struct_of(vec![big, big, big, big, big]);
    // three members fit, the room of five cannot be counted
    let three = var_of(ty, Init::Struct(vec![
        Init::Array(vec![]),
        Init::Array(vec![]),
        Init::Array(vec![]),
    ]));
    assert_eq!(
        String::from_utf8(emit_var(&three, &target.sys).unwrap()).unwrap(),
        format!(
            ".data\n.globl v\n.align 1\nv:\n.space {0}\n.space {0}\n.space {0}\n",
            1u64 << 62
        )
    );
    let five = var_of(ty, Init::Struct(vec![
        Init::Array(vec![]),
        Init::Array(vec![]),
        Init::Array(vec![]),
        Init::Array(vec![]),
        Init::Array(vec![]),
    ]));
    assert_eq!(emit_var(&five, &target.sys), Err(EmitError::Unsized));
}
