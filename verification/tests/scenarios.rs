use ir_backend::block::BlockKind;
use ir_backend::func::{Func, FuncAttr};
use ir_backend::global::Global;
use ir_backend::init::{Init, InitFlags};
use ir_backend::isn::IsnKind;
use ir_backend::parse::{ParseError, Parser, SemaError, SemaKind};
use ir_backend::pass;
use ir_backend::srcloc::SrcLoc;
use ir_backend::target::{ArchName, SysName, Target};
use ir_backend::token::{Cmp, Op, Punctuation, Token};
use ir_backend::tokenise::{Error, Tokeniser};
use ir_backend::ty::{Primitive, TypeS};
use ir_backend::unit::Unit;
use ir_backend::val::{ValKind, Val};
use typed_arena::Arena;

fn with_unit<F>(src: &[u8], f: F)
where
    F: for<'a> FnOnce(Result<(Unit<'a>, Vec<SemaError>), (ParseError, SrcLoc)>),
{
    let target = Target::of(SysName::Linux, ArchName::X86_64);
    let arena = Arena::new();
    f(Unit::parse(Tokeniser::new(src, "test"), &target, &arena));
}

fn kinds_of(src: &[u8]) -> Vec<SemaKind> {
    let mut kinds = vec![];
    with_unit(src, |r| {
        let (_, errors) = r.unwrap();
        kinds = errors.iter().map(|e| e.kind).collect();
    });
    kinds
}

fn fault_of(src: &[u8]) -> String {
    let mut text = String::new();
    with_unit(src, |r| {
        text = match r {
            Ok(_) => "none".into(),
            Err((ParseError::Expected(what, tok), _)) => format!("expected {}, got {}", what, tok.desc()),
            Err((ParseError::Generic(msg), _)) => msg,
            Err((ParseError::LexError(Error::UnknownToken(_)), _)) => "unknown token".into(),
            Err((ParseError::LexError(Error::UnterminatedStr(_)), _)) => "unterminated".into(),
            Err((ParseError::Overflow, _)) => "overflow".into(),
            Err((ParseError::UnexpectedEof, _)) => "eof".into(),
        }
    });
    text
}

fn func_of<'u, 'a>(unit: &'u Unit<'a>, name: &str) -> &'u Func<'a> {
    match unit.globals.by_name(name).unwrap() {
        Global::Func(f) => f,
        _ => panic!("not a function"),
    }
}

fn literal(v: &Val) -> i32 {
    match v.kind() {
        ValKind::Literal(n) => *n,
        _ => panic!("not a literal"),
    }
}

#[test]
fn smallest_function() {
    with_unit(b"$main = i4() { ret i4 0 }", |r| {
        let (mut unit, errors) = r.unwrap();
        assert!(errors.is_empty());
        assert_eq!(unit.globals.len(), 1);
        let i4 = unit.types.primitive(Primitive::I4);
        let fnty = unit.types.func_of(i4, vec![], false);
        let f = func_of(&unit, "main");
        assert_eq!(f.name(), "main");
        assert!(std::ptr::eq(f.ty(), fnty));
        assert_eq!(f.block_count(), 1);
        let entry = f.block(f.entry().unwrap());
        assert_eq!(*entry.kind(), BlockKind::EntryExit);
        assert_eq!(entry.isns().len(), 1);
        match entry.isns()[0].kind {
            IsnKind::Ret { val } => {
                assert_eq!(literal(f.val(val)), 0);
                assert!(std::ptr::eq(f.val(val).ty(), i4));
            }
            _ => panic!(),
        }
        assert!(!entry.isns()[0].compiler_generated);
    });
}

#[test]
fn internal_variable() {
    with_unit(b"$x = i4 internal 5", |r| {
        let (mut unit, errors) = r.unwrap();
        assert!(errors.is_empty());
        let i4 = unit.types.primitive(Primitive::I4);
        match unit.globals.by_name("x").unwrap() {
            Global::Var(v) => {
                assert_eq!(v.name.orig(), "x");
                assert!(std::ptr::eq(v.ty, i4));
                let init = v.init.as_ref().unwrap();
                assert_eq!(
                    init.flags,
                    InitFlags {
                        internal: true,
                        constant: false,
                        weak: false
                    }
                );
                assert_eq!(init.init, Init::Int(5));
            }
            _ => panic!(),
        }
    });
}

#[test]
fn variable_of_an_alias() {
    with_unit(b"type $size_t = i8\n$y = $size_t internal 3", |r| {
        let (mut unit, errors) = r.unwrap();
        assert!(errors.is_empty());
        let i8 = unit.types.primitive(Primitive::I8);
        let alias = unit.types.resolve_alias("size_t").unwrap();
        assert!(std::ptr::eq(alias.resolve(), i8));
        match unit.globals.by_name("y").unwrap() {
            Global::Var(v) => {
                match v.ty {
                    TypeS::Alias { name, actual } => {
                        assert_eq!(name, "size_t");
                        assert!(std::ptr::eq(*actual, i8));
                    }
                    _ => panic!(),
                }
                assert_eq!(v.init.as_ref().unwrap().init, Init::Int(3));
            }
            _ => panic!(),
        }
        assert_eq!(unit.globals.len(), 2);
    });
}

#[test]
fn name_of_an_argument_taken() {
    with_unit(
        b"$a = i4(i4 $x, i4 $y) internal { $x = add i4 1, i4 2 ret i4 0 }",
        |r| {
            let (unit, errors) = r.unwrap();
            assert_eq!(errors.len(), 1);
            assert_eq!(errors[0].kind, SemaKind::PreExistingIdentifier);
            assert_eq!(errors[0].message(), "pre-existing identifier 'x'");
            let f = func_of(&unit, "a");
            assert_eq!(
                f.attr(),
                FuncAttr {
                    internal: true,
                    weak: false
                }
            );
            let entry = f.block(f.entry().unwrap());
            assert_eq!(entry.isns().len(), 2);
            assert_eq!(*entry.kind(), BlockKind::EntryExit);
        },
    );
}

#[test]
fn ellipses_come_last() {
    with_unit(b"$f = i4(...) $g = i4(i1, ...) $h = void(i1 $a, i2 $b, ...)", |r| {
        let (unit, errors) = r.unwrap();
        assert!(errors.is_empty());
        for (name, nargs) in [("f", 0), ("g", 1), ("h", 2)] {
            match func_of(&unit, name).ty() {
                TypeS::Func { args, variadic, .. } => {
                    assert_eq!(args.len(), nargs);
                    assert!(*variadic);
                }
                _ => panic!(),
            }
        }
        assert_eq!(func_of(&unit, "h").arg_names().len(), 2);
        assert_eq!(func_of(&unit, "g").arg_names().len(), 0);
    });
    assert_eq!(fault_of(b"$f = i4(..., i4)"), "expected ), got ,");
    assert_eq!(fault_of(b"$f = i4(i1, ..., i4)"), "expected ), got ,");
    assert_eq!(fault_of(b"$s = { i4, ... }"), "structs can't be variadic");
    // one argument, with and without a name
    with_unit(b"$f = i4(i1) $g = i4(i1 $a) $h = i4(i1,)", |r| {
        let (unit, errors) = r.unwrap();
        assert!(errors.is_empty());
        assert_eq!(func_of(&unit, "g").arg_by_name("a").map(|a| a.0), Some(0));
        assert_eq!(unit.globals.len(), 3);
    });
}

#[test]
fn trailing_commas_and_empty_structs() {
    assert_eq!(
        kinds_of(b"$a = [i4 x 2] global { 1, 2, } $s = { i1, i2, } global { 1, 2, } $e = {} global {}"),
        vec![]
    );
    assert_eq!(
        kinds_of(b"$a = [i4 x 2] global { 1 }"),
        vec![SemaKind::InitCountMismatch]
    );
    assert_eq!(
        kinds_of(b"$s = { i1, i2 } global { 1, }"),
        vec![SemaKind::InitCountMismatch]
    );
    assert_eq!(fault_of(b"$s = { i1 } global { 1, 2 }"), "expected }, got integer");
    assert_eq!(fault_of(b"$a = [i4 x 2] global { 1, "), "eof");
    assert_eq!(fault_of(b"$a = [i4 x 2] global { 1 2 }"), "expected ,, got integer");
    with_unit(b"$a = [i4 x 3] global { 1 }", |r| {
        let (_, errors) = r.unwrap();
        assert_eq!(errors[0].message(), "init count mismatch: 3 vs 1");
    });
}

#[test]
fn what_can_be_returned() {
    assert_eq!(kinds_of(b"$f = void() { ret void }"), vec![]);
    assert_eq!(
        kinds_of(b"$f = void() { ret i4 0 }"),
        vec![SemaKind::ReturnTypeMismatch]
    );
    assert_eq!(
        kinds_of(b"$f = i4() { ret void }"),
        vec![SemaKind::ReturnTypeMismatch]
    );
    assert_eq!(
        kinds_of(b"$f = {i4}({i4}* $p) { ret $p }"),
        vec![]
    );
    assert_eq!(
        kinds_of(b"$f = {i4}(i4* $p) { ret $p }"),
        vec![SemaKind::ReturnTypeMismatch]
    );
    assert_eq!(
        kinds_of(b"type $t = i4  $f = $t(i4 $a) { ret $a }"),
        vec![]
    );
}

#[test]
fn faults_in_the_grammar() {
    assert_eq!(fault_of(b"i4"), "expected identifier for global, got i4");
    assert_eq!(fault_of(b"$x i4"), "expected =, got i4");
    assert_eq!(fault_of(b"$x = 5"), "type expected, got integer");
    assert_eq!(fault_of(b"$x = "), "type expected, got eof");
    assert_eq!(fault_of(b"$x = ret"), "type expected");
    assert_eq!(fault_of(b"$x = [i4 y 3]"), "'x' expected for array multiplier, got y");
    assert_eq!(
        fault_of(b"$x = [i4 3]"),
        "expected \"x\" for array multiplier, got integer"
    );
    assert_eq!(fault_of(b"$x = [i4 x -1]"), "overflow");
    assert_eq!(fault_of(b"$x = [i4 x three]"), "integer expected");
    assert_eq!(fault_of(b"$x = i4 global -1"), "overflow");
    assert_eq!(fault_of(b"$x = i4 global public 1"), "unknown variable modifier 'public'");
    assert_eq!(fault_of(b"$x = i4() public"), "unknown function modifier 'public'");
    assert_eq!(fault_of(b"$x = i4() {"), "No closing bracket for function body");
    assert_eq!(fault_of(b"$x = i4() { 5 }"), "unexpected token integer");
    assert_eq!(fault_of(b"$x = i4() { ret 5 }"), "type expected, got integer");
    assert_eq!(fault_of(b"$x = i4() { ret i4 }"), "value operand expected");
    assert_eq!(fault_of(b"$x = i4() { ret $y }"), "undeclared identifier 'y'");
    assert_eq!(
        fault_of(b"$x = i4() { $y = 5 }"),
        "expected load, alloca, elem or operator (got integer)"
    );
    assert_eq!(fault_of(b"$x = i4() { jmp 5 }"), "expected jmp label, got integer");
    assert_eq!(fault_of(b"$x = i4() { asm 5 }"), "expected asm string, got integer");
    assert_eq!(fault_of(b"$x = i4* global $nowhere"), "no such (global) identifier \"nowhere\"");
    assert_eq!(fault_of(b"$x = i4* global \"s\""), "pointer initialiser expected, got string");
    assert_eq!(fault_of(b"$y = i4 $x = i4* global $y nowhere"), "unexpected \"nowhere\"");
    assert_eq!(fault_of(b"$x = void global 1"), "no initialiser for this type");
    assert_eq!(fault_of(b"$x = i4 global @"), "unknown token");
    assert_eq!(fault_of(b"$x = [i1 x 2] global \"ab"), "unterminated");
    assert_eq!(fault_of(b"$x = i4 global 3000000000"), "unknown token");
}

#[test]
fn place_of_a_fault() {
    with_unit(b"$x = i4 global 1\n$y = i4 global\n   oops", |r| match r {
        Err((ParseError::Generic(_), loc)) => assert_eq!(loc, SrcLoc { line: 3, col: 8 }),
        _ => panic!(),
    });
    with_unit(b"$x )", |r| match r {
        Err((ParseError::Expected(what, tok), loc)) => {
            assert_eq!(what, "=");
            assert_eq!(tok, Token::Punctuation(Punctuation::RParen));
            assert_eq!(loc, SrcLoc { line: 1, col: 5 });
        }
        _ => panic!(),
    });
}

#[test]
fn faults_in_the_meaning_of_types() {
    assert_eq!(kinds_of(b"$x = $nothing"), vec![SemaKind::NoSuchType]);
    assert_eq!(kinds_of(b"$x = [i4() x 2]"), vec![SemaKind::ArrayOfFunctions]);
    assert_eq!(
        kinds_of(b"$x = [i4 x 2]()"),
        vec![SemaKind::FunctionReturningArray]
    );
    assert_eq!(kinds_of(b"$x = { i4() }"), vec![SemaKind::FunctionInAggregate]);
    assert_eq!(
        kinds_of(b"$x = i4(i4 $a)*(i4 $b)"),
        vec![SemaKind::MultipleArgNames]
    );
    assert_eq!(
        kinds_of(b"$x = i4(i4 $a)*(i4, i4)"),
        vec![SemaKind::ArgNameCount]
    );
    assert_eq!(
        kinds_of(b"$x = i4 global 1 $x = i2 global 2"),
        vec![SemaKind::GlobalRedefined]
    );
    assert_eq!(
        kinds_of(b"$x = i2 global aliasinit i4 1"),
        vec![SemaKind::AliasInitTooLarge]
    );
    assert_eq!(
        kinds_of(b"$x = [i2 x 2] global \"ab\""),
        vec![SemaKind::StringInitNotI1Array]
    );
    assert_eq!(
        kinds_of(b"$y = i2 global 1 $x = i4* global $y"),
        vec![SemaKind::InitTypeMismatch]
    );
    assert_eq!(kinds_of(b"$y = i2 global 1 $x = i4* global $y anyptr"), vec![]);
    // the array of functions is replaced by an i4
    with_unit(b"$x = [i4() x 2] global 7", |r| {
        let (mut unit, errors) = r.unwrap();
        assert_eq!(errors.len(), 1);
        assert_eq!(errors[0].message(), "type is an array of functions");
        let i4 = unit.types.primitive(Primitive::I4);
        assert!(std::ptr::eq(unit.globals.by_name("x").unwrap().ty(), i4));
    });
    // the later global has the name
    with_unit(b"$x = i4 global 1 $x = i2 global 2", |r| {
        let (mut unit, errors) = r.unwrap();
        assert_eq!(errors[0].message(), "global 'x' already defined");
        assert_eq!(unit.globals.len(), 2);
        let i2 = unit.types.primitive(Primitive::I2);
        assert!(std::ptr::eq(unit.globals.by_name("x").unwrap().ty(), i2));
        assert_eq!(unit.globals.find("x"), Some(1));
        assert_eq!(unit.globals.find("y"), None);
    });
}

#[test]
fn statements() {
    let src = b"
        $g = i4 global 1
        $callee = i4(i4, ...)
        $big = {i4, i8}(i4)
        $f = i4(i4 $a, i4* $p, {i1, i4}* $s, [i2 x 4]* $arr, i8 $n) {
            $x = load $p
            store $p, $x
            $slot = alloca i4
            $m = elem $s, i8 1
            $e = elem $arr, $n
            $q = ptradd $p, $n
            $d = ptrsub $p, $q
            $w = zext i8, $a
            $v = sext i8, $a
            $t = trunc i2, $a
            $i = ptr2int i8, $p
            $j = int2ptr i4*, $n
            $k = ptrcast i1*, $p
            $sum = add $a, $x
            $sh = shiftl $a, $n
            $c = lt $a, $x
            $copy = $sum
            $r = call $callee($a, $p, $n)
            $st = call $big($a)
            $gv = load $g
            memcpy $p, $j
            label $there
            asm \"nop\"
            br $c, $yes, $no
        $yes:
            jmp $there
        $no:
            jmp *$p
        $there:
            ret $sum
        }";
    with_unit(src, |r| {
        let (unit, errors) = r.unwrap();
        assert_eq!(
            errors.iter().map(|e| e.message()).collect::<Vec<_>>(),
            Vec::<String>::new()
        );
        let f = func_of(&unit, "f");
        let entry = f.block(f.entry().unwrap());
        let kinds: Vec<&str> = entry
            .isns()
            .iter()
            .map(|i| match i.kind {
                IsnKind::Load { .. } => "load",
                IsnKind::Store { .. } => "store",
                IsnKind::Alloca { .. } => "alloca",
                IsnKind::Elem { .. } => "elem",
                IsnKind::Ptradd { .. } => "ptradd",
                IsnKind::Ptrsub { .. } => "ptrsub",
                IsnKind::Zext { .. } => "zext",
                IsnKind::Sext { .. } => "sext",
                IsnKind::Trunc { .. } => "trunc",
                IsnKind::Ptr2Int { .. } => "ptr2int",
                IsnKind::Int2Ptr { .. } => "int2ptr",
                IsnKind::Ptrcast { .. } => "ptrcast",
                IsnKind::Op { op: Op::Add, .. } => "add",
                IsnKind::Op { op: Op::Shiftl, .. } => "shiftl",
                IsnKind::Op { .. } => "op",
                IsnKind::Cmp { rel: Cmp::Lt, .. } => "lt",
                IsnKind::Cmp { .. } => "cmp",
                IsnKind::Copy { .. } => "copy",
                IsnKind::Call { .. } => "call",
                IsnKind::Memcpy { .. } => "memcpy",
                IsnKind::Label { .. } => "label",
                IsnKind::Asm { .. } => "asm",
                IsnKind::Br { .. } => "br",
                IsnKind::Jmp { .. } => "jmp",
                IsnKind::JmpComputed { .. } => "jmp*",
                IsnKind::Ret { .. } => "ret",
            })
            .collect();
        assert_eq!(
            kinds,
            vec![
                "load", "store", "alloca", "elem", "elem", "ptradd", "ptrsub", "zext", "sext",
                "trunc", "ptr2int", "int2ptr", "ptrcast", "add", "shiftl", "lt", "copy", "call",
                "call", "load", "memcpy", "label", "asm", "br"
            ]
        );

        // the blocks: entry, there (named by `label`), yes, no
        assert_eq!(f.block_count(), 4);
        let (there, yes, no) = (1, 2, 3);
        assert_eq!(f.block(there).label().as_deref(), Some("there"));
        assert_eq!(f.block(yes).label().as_deref(), Some("yes"));
        assert_eq!(f.block(no).label().as_deref(), Some("no"));
        match *entry.kind() {
            BlockKind::Branch { t, f: e, .. } => assert_eq!((t, e), (yes, no)),
            _ => panic!(),
        }
        assert_eq!(*f.block(yes).kind(), BlockKind::Jmp { target: there });
        assert!(matches!(*f.block(no).kind(), BlockKind::JmpComp { .. }));
        assert_eq!(*f.block(there).kind(), BlockKind::Exit);
        assert_eq!(*f.block(yes).preds(), vec![0]);
        assert_eq!(*f.block(no).preds(), vec![0]);
        assert_eq!(*f.block(there).preds(), vec![yes]);
        assert!(entry.preds().is_empty());
        assert_eq!(f.traverse(), vec![0, yes, there, no]);

        // the types of what was defined
        let ty_of = |isn: usize| -> String {
            let v = *entry.isns()[isn].kind.vals().last().unwrap();
            format!("{:?}", f.val(v).ty())
        };
        match entry.isns()[0].kind {
            IsnKind::Load { to, .. } => {
                assert_eq!(format!("{:?}", f.val(to).ty()), "Primitive(I4)")
            }
            _ => panic!(),
        }
        assert!(ty_of(2).starts_with("Ptr { pointee: Primitive(I4)"));
        assert!(ty_of(3).starts_with("Ptr { pointee: Primitive(I4)"));
        assert!(ty_of(4).starts_with("Ptr { pointee: Primitive(I2)"));
        assert_eq!(ty_of(6), "Primitive(I8)");
        assert_eq!(ty_of(9), "Primitive(I2)");
        assert_eq!(ty_of(15), "Primitive(I1)");
        match &entry.isns()[17].kind {
            IsnKind::Call { into, args, .. } => {
                assert_eq!(args.len(), 3);
                assert_eq!(format!("{:?}", f.val(*into).ty()), "Primitive(I4)");
                assert!(matches!(f.val(*into).kind(), ValKind::Local { .. }));
            }
            _ => panic!(),
        }
        match &entry.isns()[18].kind {
            IsnKind::Call { into, .. } => {
                // a struct comes back into room on the stack
                assert!(matches!(f.val(*into).kind(), ValKind::Alloca { .. }));
                assert!(matches!(f.val(*into).ty(), TypeS::Ptr { .. }));
            }
            _ => panic!(),
        }
        match &entry.isns()[19].kind {
            IsnKind::Load { from, .. } => {
                assert!(matches!(f.val(*from).kind(), ValKind::Global(n) if n == "g"));
                assert!(f.val(*from).is_mem());
            }
            _ => panic!(),
        }
    });
}

#[test]
fn faults_in_the_meaning_of_statements() {
    let body = |stmts: &str| {
        kinds_of(
            format!(
                "$f = void(i4 $a, i4* $p, {{i1}}* $s, i8 $n, void* $v, f4 $x) {{ {} ret void }}",
                stmts
            )
            .as_bytes(),
        )
    };
    assert_eq!(body("$r = load $a"), vec![SemaKind::LoadNotPointer]);
    assert_eq!(
        body("$q = alloca [i4 x 2] $r = load $q"),
        vec![SemaKind::LoadOfArray]
    );
    assert_eq!(body("$r = alloca void()"), vec![SemaKind::AllocaOfFunction]);
    assert_eq!(
        body("$r = elem $a, $n"),
        vec![SemaKind::ElemNotPointer]
    );
    assert_eq!(body("$r = elem $s, i8 1"), vec![SemaKind::ElemOutOfBounds]);
    assert_eq!(body("$r = elem $s, i8 -1"), vec![SemaKind::ElemOutOfBounds]);
    assert_eq!(body("$r = elem $s, $n"), vec![SemaKind::ElemNotAggregate]);
    assert_eq!(body("$r = elem $p, $n"), vec![SemaKind::ElemNotAggregate]);
    assert_eq!(body("$r = elem $s, i4 0"), vec![SemaKind::ElemIndexSize]);
    assert_eq!(
        body("$r = ptradd $a, $n"),
        vec![SemaKind::PtrArithNotPointer]
    );
    assert_eq!(
        body("$r = ptradd $p, $p"),
        vec![SemaKind::PtraddNotInteger]
    );
    assert_eq!(body("$r = ptradd $p, $a"), vec![SemaKind::PtraddIndexSize]);
    assert_eq!(body("$r = ptrsub $p, $s"), vec![SemaKind::PtrsubMismatch]);
    assert_eq!(body("$r = ptradd $v, $n"), vec![SemaKind::PtrArithVoid]);
    assert_eq!(body("$r = zext f8, $a"), vec![SemaKind::ExtNotInteger]);
    assert_eq!(
        body("$r = zext i8, $x"),
        vec![SemaKind::ExtArgNotInteger]
    );
    assert_eq!(body("$r = zext i4, $a"), vec![SemaKind::ExtSizes]);
    assert_eq!(body("$r = sext i2, $a"), vec![SemaKind::ExtSizes]);
    assert_eq!(body("$r = trunc i8, $a"), vec![SemaKind::ExtSizes]);
    assert_eq!(body("$r = ptr2int i4*, $p"), vec![SemaKind::CastType]);
    assert_eq!(body("$r = int2ptr i8, $n"), vec![SemaKind::CastType]);
    assert_eq!(body("$r = ptrcast i8, $p"), vec![SemaKind::CastType]);
    assert_eq!(body("$r = call $a()"), vec![SemaKind::CallNotFunction]);
    assert_eq!(body("$r = add $a, $n"), vec![SemaKind::OpTypes]);
    assert_eq!(body("$r = add $p, $p"), vec![SemaKind::OpTypes]);
    assert_eq!(body("$r = mul $x, $x"), vec![]);
    assert_eq!(body("$r = shiftr_s $a, $n"), vec![]);
    assert_eq!(body("$r = eq $a, $n"), vec![SemaKind::CmpMismatch]);
    assert_eq!(body("br $a, $l, $l $l:"), vec![SemaKind::BrNotI1]);
    assert_eq!(body("store $p, $n"), vec![SemaKind::StoreMismatch]);
    assert_eq!(body("store $a, $a"), vec![SemaKind::StoreMismatch]);
    assert_eq!(body("memcpy $p, $s"), vec![SemaKind::MemcpyMismatch]);
    assert_eq!(body("memcpy $a, $a"), vec![SemaKind::MemcpyNotPointer]);
    assert_eq!(
        body("$l: $r = load $p $l: $r2 = load $p"),
        vec![SemaKind::BlockExists]
    );
    assert_eq!(body("$a = load $p"), vec![SemaKind::PreExistingIdentifier]);
    assert_eq!(
        body("$r = load $p $r = load $p"),
        vec![SemaKind::PreExistingIdentifier]
    );

    let call = |types: &str, args: &str| {
        kinds_of(
            format!(
                "$c = void({}) $f = void(i4 $a, i8 $n) {{ $r = call $c({}) ret void }}",
                types, args
            )
            .as_bytes(),
        )
    };
    assert_eq!(call("i4, i8", "$a, $n"), vec![]);
    assert_eq!(call("i4, i8", "$a"), vec![SemaKind::CallTooFewArgs]);
    assert_eq!(call("i4", ""), vec![SemaKind::CallTooFewArgs]);
    assert_eq!(call("i4", "$a, $n"), vec![SemaKind::CallTooManyArgs]);
    assert_eq!(call("i4, ...", "$a, $n, $n"), vec![]);
    assert_eq!(call("i4, i8", "$n, $n"), vec![SemaKind::CallArgMismatch]);
    assert_eq!(call("", ""), vec![]);
    with_unit(
        b"$c = void(i4, i8) $f = void(i4 $a) { $r = call $c($a, $a) ret void }",
        |r| assert_eq!(r.unwrap().1[0].message(), "argument mismatch: 2"),
    );
}

#[test]
fn functions_among_the_globals() {
    with_unit(b"$v = i4  $f = void()  type $t = i1  $g = i4() { ret i4 1 }", |r| {
        let (unit, errors) = r.unwrap();
        assert!(errors.is_empty());
        assert_eq!(unit.globals.funcs(), vec![1, 3]);
        assert_eq!(unit.globals.at(3).name(), "g");
        assert!(matches!(unit.globals.at(2), Global::Type { .. }));
    });
    with_unit(b"", |r| {
        let (unit, _) = r.unwrap();
        assert_eq!(unit.globals.funcs(), Vec::<usize>::new());
        assert_eq!(unit.globals.len(), 0);
    });
}

#[test]
fn values_that_outlive_their_block() {
    let src = b"$f = i4(i4 $a, i4 $b) {
            $x = add $a, $a
            $y = add $x, $x
            jmp $next
        $next:
            $z = add $x, $b
            ret $z
        }";
    with_unit(src, |r| {
        let (unit, errors) = r.unwrap();
        assert!(errors.is_empty());
        let f = func_of(&unit, "f");
        let live = |name: &str| {
            (0..f.val_count())
                .map(|v| f.val(v))
                .find(|v| match v.kind() {
                    ValKind::Local { name: n, .. } => n == name,
                    _ => false,
                })
                .unwrap()
                .live_across_blocks()
        };
        // x is used in both blocks; b is an argument, used behind the entry
        assert!(live("x"));
        assert!(live("b"));
        // a, y and z stay in one block
        assert!(!live("a"));
        assert!(!live("y"));
        assert!(!live("z"));
    });
}

#[test]
fn code_behind_the_end_of_a_block() {
    // what follows a terminator is read and dropped, until a label
    let src = b"$f = i4(i4 $a) {
            ret $a
            $x = add $a, $a
            ret $x
        $l:
            jmp $l
            jmp $m
        $m:
        }";
    with_unit(src, |r| {
        let (unit, errors) = r.unwrap();
        assert!(errors.is_empty());
        let f = func_of(&unit, "f");
        let entry = f.block(f.entry().unwrap());
        assert_eq!(entry.isns().len(), 1);
        assert_eq!(*entry.kind(), BlockKind::EntryExit);
        let (l, m) = (1, 2);
        assert_eq!(f.block(l).isns().len(), 1);
        assert_eq!(*f.block(l).kind(), BlockKind::Jmp { target: l });
        assert_eq!(*f.block(l).preds(), vec![l]);
        assert!(f.block(m).is_tenative());
        assert_eq!(*f.block(m).kind(), BlockKind::Unknown);
        // every block ends with the one terminator of its kind, or does not end
        for b in 0..f.block_count() {
            let block = f.block(b);
            let terminators = block
                .isns()
                .iter()
                .filter(|i| i.kind.is_terminator())
                .count();
            if block.is_unknown_ending() {
                assert_eq!(terminators, 0);
            } else {
                assert_eq!(terminators, 1);
                assert!(block.isns().last().unwrap().kind.is_terminator());
            }
        }
    });
    // a label falls through into the next block
    with_unit(b"$f = void() { $a: $b: ret void }", |r| {
        let (unit, errors) = r.unwrap();
        assert!(errors.is_empty());
        let f = func_of(&unit, "f");
        assert_eq!(*f.block(0).kind(), BlockKind::Jmp { target: 1 });
        assert_eq!(*f.block(1).kind(), BlockKind::Jmp { target: 2 });
        assert_eq!(*f.block(2).kind(), BlockKind::Exit);
        assert!(matches!(f.block(0).isns()[0].kind, IsnKind::Jmp { target: 1 }));
        assert_eq!(f.traverse(), vec![0, 1, 2]);
    });
}

#[test]
fn graphs_of_dependencies() {
    let src = b"$f = i4(i4* $p, i4* $q) {
            $x = load $p
            $z = add i4 1, i4 2
            store $q, $x
            $y = add $x, $z
            $w = load $q
            asm \"nop\"
            ret $y
        }";
    with_unit(src, |r| {
        let (mut unit, errors) = r.unwrap();
        assert!(errors.is_empty());
        assert!(func_of(&unit, "f").block(0).dag().is_none());
        unit.run_pass(&mut pass::to_dag::Pass);
        let edges = func_of(&unit, "f").block(0).dag().as_ref().unwrap().edges.clone();
        assert_eq!(
            edges,
            vec![
                (2, 0), // the store reads x, and follows the load in memory
                (3, 0), // y reads x
                (3, 1), // y reads z
                (4, 2), // the second load follows the store
                (5, 4), // assembly follows the second load
                (6, 3), // ret reads y
            ]
        );
        // a second run changes nothing
        unit.run_pass(&mut pass::to_dag::Pass);
        assert_eq!(
            func_of(&unit, "f").block(0).dag().as_ref().unwrap().edges,
            edges
        );
        unit.run_pass(&mut pass::isel::Pass);
        assert_eq!(unit.globals.len(), 1);
    });
}

#[test]
fn arrays_are_written_in_square_brackets() {
    with_unit(b"$x = [i1 x 3] global { 1, 2, 3 }", |r| {
        let (mut unit, errors) = r.unwrap();
        assert!(errors.is_empty());
        assert_eq!(unit.globals.len(), 1);
        let i1 = unit.types.primitive(Primitive::I1);
        let arr = unit.types.array_of(i1, 3);
        match unit.globals.by_name("x").unwrap() {
            Global::Var(v) => {
                assert!(std::ptr::eq(v.ty, arr));
                let init = v.init.as_ref().unwrap();
                assert_eq!(init.flags, InitFlags::none());
                assert_eq!(
                    init.init,
                    Init::Array(vec![Init::Int(1), Init::Int(2), Init::Int(3)])
                );
            }
            _ => panic!("not a variable"),
        }
    });
    // an array of arrays, and a pointer to one
    assert_eq!(kinds_of(b"$m = [[i4 x 2] x 2] global { { 1, 2 }, { 3, 4 } }"), vec![]);
    assert_eq!(kinds_of(b"$p = [i4 x 2]* global 0"), vec![]);
    // angle brackets are tokens, but open no type
    assert_eq!(
        fault_of(b"$x = <i1 x 3> global { 1, 2, 3 }"),
        "type expected, got <"
    );
    assert_eq!(fault_of(b"$x = [i1 x 3> global 0"), "expected ], got >");
    assert_eq!(fault_of(b"$x = [i1 x 3"), "expected ], got eof");
}

#[test]
fn the_unit_that_was_read() {
    let target = Target::of(SysName::Darwin, ArchName::X86_64);
    let arena = Arena::new();
    let src = b"type $t = { i4, i1* } $v = $t global { 1, 0 } $f = i2(i4) { ret i2 0 } $a = [i8 x 2] internal { 1, 2 }";
    let (mut unit, errors) = Unit::parse(Tokeniser::new(src, "test"), &target, &arena).unwrap();
    assert!(errors.is_empty());
    assert!(std::ptr::eq(unit.target, &target));
    assert_eq!(unit.uniq_counter, 0);
    assert_eq!(unit.types.ptr_size_align(), target.arch.ptr);
    // the pool holds the type of each global: to ask for it again adds nothing
    let held = unit.types.len();
    let i4 = unit.types.primitive(Primitive::I4);
    let i1 = unit.types.primitive(Primitive::I1);
    let i2 = unit.types.primitive(Primitive::I2);
    let i8 = unit.types.primitive(Primitive::I8);
    let p = unit.types.ptr_to(i1);
    let s = unit.types.struct_of(vec![i4, p]);
    let fnty = unit.types.func_of(i2, vec![i4], false);
    let arr = unit.types.array_of(i8, 2);
    let alias = unit.types.resolve_alias("t").unwrap();
    assert_eq!(unit.types.len(), held);
    assert!(std::ptr::eq(unit.globals.by_name("t").unwrap().ty(), s));
    assert!(std::ptr::eq(unit.globals.by_name("v").unwrap().ty(), alias));
    assert!(std::ptr::eq(unit.globals.by_name("f").unwrap().ty(), fnty));
    assert!(std::ptr::eq(unit.globals.by_name("a").unwrap().ty(), arr));
}
