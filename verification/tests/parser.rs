use ir_backend::block::BlockKind;
use ir_backend::func::FuncAttr;
use ir_backend::global::Global;
use ir_backend::init::{Init, InitFlags, InitTopLevel, PtrInit};
use ir_backend::isn::IsnKind;
use ir_backend::name::Name;
use ir_backend::parse::Parser;
use ir_backend::target::{ArchName, SysName, Target};
use ir_backend::token::Token;
use ir_backend::tokenise::Tokeniser;
use ir_backend::ty::{Primitive, TypeS};
use ir_backend::unit::Unit;
use ir_backend::val::{Constraint, Loc, Location};
use ir_backend::variable::Var;
use typed_arena::Arena;

fn parse_str<F>(s: &[u8], f: F)
where
    F: for<'a> FnOnce(&mut Parser<'a>),
{
    let target = Target::of(SysName::Linux, ArchName::X86_64);
    let ty_arena = Arena::new();
    let mut parser = Parser::new(Tokeniser::new(s, "fname"), Unit::new(&target, &ty_arena));
    f(&mut parser);
}

fn done(parser: &mut Parser) {
    if let Some(e) = parser.errors.first() {
        panic!("sema error during parse: {}", e.message());
    }

    parser.eat(Token::Eof).unwrap(); // needed to bump us onto eof()
    assert!(parser.eof().unwrap());
}

fn no_init_flags() -> InitFlags {
    InitFlags {
        internal: false,
        constant: false,
        weak: false,
    }
}

#[test]
fn parse_type() {
    parse_str(b"i4", |parser| {
        let t = parser.parse_type().unwrap();
        done(parser);

        assert_eq!(t, parser.unit.types.primitive(Primitive::I4));
        assert!(matches!(t, TypeS::Primitive(Primitive::I4)));
    })
}

#[test]
fn parse_alias() {
    parse_str(b"$size_t", |parser| {
        let i4 = parser.unit.types.primitive(Primitive::I4);
        parser.unit.types.add_alias("size_t", i4);

        let t = parser.parse_type().unwrap();
        done(parser);

        assert_eq!(t, i4); // resolve(), etc
        match t {
            &TypeS::Alias { ref name, actual } => {
                assert_eq!(name, "size_t");
                assert_eq!(actual, i4);
            }
            got => panic!("expected Alias, got {:?}", got),
        }
    })
}

#[test]
fn parse_empty_func() {
    parse_str(b"internal {}", |parser| {
        let types = &mut parser.unit.types;
        let i4 = types.primitive(Primitive::I4);
        let i1 = types.primitive(Primitive::I1);
        let fnty = types.func_of(i4, vec![i1, i4], false);

        let arg_names: Vec<String> = vec!["arg1".into(), "arg2".into()];
        let f = parser
            .parse_function("f".into(), fnty, arg_names.clone())
            .unwrap();
        done(parser);

        assert_eq!(f.mangled_name(), None);
        assert_eq!(f.ty(), fnty);
        assert_eq!(*f.arg_names(), arg_names);
        assert_eq!(
            f.attr(),
            FuncAttr {
                internal: true,
                weak: false
            }
        );
        assert_eq!(f.name(), "f");
    });
}

#[test]
fn parse_func() {
    parse_str(b"internal { ret $arg2 }", |parser| {
        let types = &mut parser.unit.types;
        let i4 = types.primitive(Primitive::I4);
        let i1 = types.primitive(Primitive::I1);
        let fnty = types.func_of(i4, vec![i1, i4], false);

        let arg_names: Vec<String> = vec!["arg1".into(), "arg2".into()];
        let f = parser
            .parse_function("f".into(), fnty, arg_names.clone())
            .unwrap();
        done(parser);

        assert_eq!(f.mangled_name(), None);
        assert_eq!(f.ty(), fnty);
        assert_eq!(*f.arg_names(), arg_names);
        assert_eq!(
            f.attr(),
            FuncAttr {
                internal: true,
                weak: false
            }
        );
        assert_eq!(f.name(), "f");

        assert_eq!(f.arg_by_name("arg3"), None);
        assert_eq!(f.arg_by_name("arg1"), Some((0, i1)));
        assert_eq!(f.arg_by_name("arg2"), Some((1, i4)));

        let block = f.block(f.entry().unwrap());
        assert_eq!(*block.label(), None);
        assert!(matches!(*block.kind(), BlockKind::EntryExit));

        match block.isns()[..] {
            [ref isn] => match isn.kind {
                IsnKind::Ret { val } => {
                    let val = f.val(val);

                    assert_eq!(val.ty(), i4);
                    assert_eq!(
                        val.location(),
                        Some(Location {
                            loc: Loc::AnyReg,
                            constraint: Constraint {
                                reg: false,
                                mem: false,
                                konst: false
                            }
                        })
                    );
                }
                _ => panic!(),
            },
            _ => panic!(),
        }
    });
}

#[test]
fn parse_variable() {
    parse_str(b"global const weak 5", |parser| {
        let i4 = parser.unit.types.primitive(Primitive::I4);
        let v = parser.parse_variable("var1".into(), i4).unwrap();
        done(parser);

        assert_eq!(v.name.orig(), "var1");
        assert_eq!(v.ty, i4);
        let init = v.init.unwrap();
        assert_eq!(
            init.flags,
            InitFlags {
                internal: false,
                constant: true,
                weak: true
            }
        );
        assert!(matches!(init.init, Init::Int(5)));
    });

    parse_str(b"", |parser| {
        let i4 = parser.unit.types.primitive(Primitive::I4);
        let v = parser.parse_variable("var1".into(), i4).unwrap();
        done(parser);

        assert_eq!(v.name.orig(), "var1");
        assert_eq!(v.ty, i4);
        assert_eq!(v.init, None);
    });
}

#[test]
fn parse_aggregate_init() {
    parse_str(b"internal { 1, 2 }", |parser| {
        let i1 = parser.unit.types.primitive(Primitive::I1);
        let i4 = parser.unit.types.primitive(Primitive::I4);
        let struct_ty = parser.unit.types.struct_of(vec![i4, i1]);

        let v = parser.parse_variable("var1".into(), struct_ty).unwrap();
        done(parser);

        assert_eq!(v.name.orig(), "var1");
        assert_eq!(v.ty, struct_ty);
        let init = v.init.unwrap();
        assert_eq!(
            init.flags,
            InitFlags {
                internal: true,
                constant: false,
                weak: false
            }
        );
        assert_eq!(init.init, Init::Struct(vec![Init::Int(1), Init::Int(2)]));
    });

    parse_str(b"global { 1, 2, 3 }", |parser| {
        let i4 = parser.unit.types.primitive(Primitive::I4);
        let array_ty = parser.unit.types.array_of(i4, 3);

        let v = parser.parse_variable("var1".into(), array_ty).unwrap();
        done(parser);

        assert_eq!(v.name.orig(), "var1");
        assert_eq!(v.ty, array_ty);
        let init = v.init.unwrap();
        assert_eq!(init.flags, InitFlags::default());
        assert_eq!(
            init.init,
            Init::Array(vec![Init::Int(1), Init::Int(2), Init::Int(3)])
        );
    });
}

fn ptr_init_of(src: &[u8], expected: PtrInit) {
    parse_str(src, |parser| {
        let i8 = parser.unit.types.primitive(Primitive::I8);
        let ptr_ty = parser.unit.types.ptr_to(i8);

        let old = parser.unit.globals.add(Global::Var(Var {
            name: Name::new("label".into()),
            ty: i8,
            init: Some(InitTopLevel {
                init: Init::Int(0), // dummy
                flags: Default::default(),
            }),
        }));
        assert!(old.is_none());

        let init = parser.parse_init(ptr_ty).unwrap();
        done(parser);

        assert_eq!(init, Init::Ptr(expected));
    });
}

#[test]
fn parse_ptr_init() {
    parse_str(b"8", |parser| {
        let i4 = parser.unit.types.primitive(Primitive::I4);
        let ptr_ty = parser.unit.types.ptr_to(i4);

        let init = parser.parse_init(ptr_ty).unwrap();
        done(parser);

        assert_eq!(init, Init::Ptr(PtrInit::Int(8)));
    });

    ptr_init_of(
        b"$label",
        PtrInit::Label {
            label: "label".into(),
            offset: 0,
            is_anyptr: false,
        },
    );

    ptr_init_of(
        b"$label add 7",
        PtrInit::Label {
            label: "label".into(),
            offset: 7,
            is_anyptr: false,
        },
    );

    ptr_init_of(
        b"$label sub 1",
        PtrInit::Label {
            label: "label".into(),
            offset: -1,
            is_anyptr: false,
        },
    );

    ptr_init_of(
        b"$label add 13 anyptr",
        PtrInit::Label {
            label: "label".into(),
            offset: 13,
            is_anyptr: true,
        },
    );
}

#[test]
fn parse_alias_init() {
    parse_str(b"aliasinit i2 3", |parser| {
        let i4 = parser.unit.types.primitive(Primitive::I4);

        let init = parser.parse_init(i4).unwrap();
        done(parser);

        assert_eq!(
            init,
            Init::Alias {
                as_: parser.unit.types.primitive(Primitive::I2),
                init: Box::new(Init::Int(3)),
            }
        );
    });
}

#[test]
fn parse_init_with_types() {
    let s = b"
            $lbl = i1 internal 3
            $y = { i1* } internal { $lbl }
            type $t = { i4, { i1* }* }
            $x = $t internal { 3, $y }
        ";

    let target = Target::of(SysName::Linux, ArchName::X86_64);
    let ty_arena = Arena::new();
    let parser = Parser::new(Tokeniser::new(s, "fname"), Unit::new(&target, &ty_arena));
    let (mut unit, errors) = parser.parse().unwrap();
    if let Some(e) = errors.first() {
        panic!("sema error during parse: {}", e.message());
    }

    let types = &mut unit.types;
    let globals = &mut unit.globals;

    let i4 = types.primitive(Primitive::I4);
    let i1 = types.primitive(Primitive::I1);
    let i1p = types.ptr_to(i1);
    let i1p_struct = types.struct_of(vec![i1p]);
    let i1p_structp = types.ptr_to(i1p_struct);
    let t_ty = types.struct_of(vec![i4, i1p_structp]);

    let internal = InitFlags {
        internal: true,
        ..no_init_flags()
    };

    match globals.by_name("lbl").unwrap() {
        Global::Var(v) => assert_eq!(
            *v,
            Var {
                name: Name::new("lbl".into()),
                ty: types.primitive(Primitive::I1),
                init: Some(InitTopLevel {
                    init: Init::Int(3),
                    flags: internal,
                }),
            }
        ),
        _ => unreachable!(),
    }

    match globals.by_name("y").unwrap() {
        Global::Var(v) => assert_eq!(
            *v,
            Var {
                name: Name::new("y".into()),
                ty: i1p_struct,
                init: Some(InitTopLevel {
                    init: Init::Struct(vec![Init::Ptr(PtrInit::Label {
                        label: "lbl".into(),
                        offset: 0,
                        is_anyptr: false,
                    })]),
                    flags: internal,
                }),
            }
        ),
        _ => unreachable!(),
    }

    match globals.by_name("t").unwrap() {
        &Global::Type { ref name, ty } => {
            assert_eq!(name, "t");
            assert_eq!(ty, t_ty);
        }
        _ => unreachable!(),
    }

    match globals.by_name("x").unwrap() {
        Global::Var(v) => assert_eq!(
            *v,
            Var {
                name: Name::new("x".into()),
                ty: t_ty,
                init: Some(InitTopLevel {
                    flags: internal,
                    init: Init::Struct(vec![
                        Init::Int(3),
                        Init::Ptr(PtrInit::Label {
                            label: "y".into(),
                            offset: 0,
                            is_anyptr: false,
                        })
                    ]),
                }),
            }
        ),
        _ => unreachable!(),
    }

    assert_eq!(globals.len(), 4);
}
