use leac::ast::{Decl, Expr, FnDecl, Param, Pos, Stmt, StructDecl, TypeName};
use leac::compiler::compile;
use leac::error::CompileErrorId;

fn pos(line: usize, col: usize) -> Pos {
    Pos { line, col }
}

fn param(name: &str, ty: &str) -> Param {
    Param {
        name: name.to_string(),
        ty: TypeName { name: ty.to_string(), array: false },
    }
}

fn be16(b: &[u8], i: usize) -> u16 {
    ((b[i] as u16) << 8) | b[i + 1] as u16
}

fn be32(b: &[u8], i: usize) -> u32 {
    ((b[i] as u32) << 24) | ((b[i + 1] as u32) << 16) | ((b[i + 2] as u32) << 8) | b[i + 3] as u32
}

#[derive(Debug, PartialEq)]
enum Rec {
    Utf8(String),
    Class(u16),
    Str(u16),
    Nat(u16, u16),
    RefRec(u8, u16, u16),
}

struct MethodInfo {
    flags: u16,
    name: u16,
    desc: u16,
    max_stack: u16,
    max_locals: u16,
    code: Vec<u8>,
}

struct Decoded {
    pool: Vec<Rec>,
    flags: u16,
    this: u16,
    sup: u16,
    methods: Vec<MethodInfo>,
}

/// A conforming reader for the produced class files.
fn decode(b: &[u8]) -> Decoded {
    assert_eq!(&b[0..4], &[0xCA, 0xFE, 0xBA, 0xBE]);
    assert_eq!(be16(b, 4), 0);
    assert_eq!(be16(b, 6), 52);
    let cnt = be16(b, 8);
    let mut pool = Vec::new();
    let mut i = 10;
    for _ in 0..cnt - 1 {
        match b[i] {
            1 => {
                let n = be16(b, i + 1) as usize;
                pool.push(Rec::Utf8(
                    String::from_utf8(b[i + 3..i + 3 + n].to_vec()).unwrap(),
                ));
                i += 3 + n;
            }
            7 => {
                pool.push(Rec::Class(be16(b, i + 1)));
                i += 3;
            }
            8 => {
                pool.push(Rec::Str(be16(b, i + 1)));
                i += 3;
            }
            12 => {
                pool.push(Rec::Nat(be16(b, i + 1), be16(b, i + 3)));
                i += 5;
            }
            t @ (9 | 10 | 11) => {
                pool.push(Rec::RefRec(t, be16(b, i + 1), be16(b, i + 3)));
                i += 5;
            }
            t => panic!("unknown tag {t}"),
        }
    }
    let flags = be16(b, i);
    let this = be16(b, i + 2);
    let sup = be16(b, i + 4);
    assert_eq!(be16(b, i + 6), 0); // interfaces
    assert_eq!(be16(b, i + 8), 0); // fields
    let mc = be16(b, i + 10);
    i += 12;
    let mut methods = Vec::new();
    for _ in 0..mc {
        let flags = be16(b, i);
        let name = be16(b, i + 2);
        let desc = be16(b, i + 4);
        assert_eq!(be16(b, i + 6), 1); // one attribute: Code
        i += 8;
        let attr_name = be16(b, i);
        assert_eq!(pool[attr_name as usize - 1], Rec::Utf8("Code".to_string()));
        let attr_len = be32(b, i + 2) as usize;
        i += 6;
        let start = i;
        let max_stack = be16(b, i);
        let max_locals = be16(b, i + 2);
        let clen = be32(b, i + 4) as usize;
        let code = b[i + 8..i + 8 + clen].to_vec();
        i += 8 + clen;
        assert_eq!(be16(b, i), 0); // exception table
        assert_eq!(be16(b, i + 2), 0); // attributes of Code
        i += 4;
        assert_eq!(i - start, attr_len);
        methods.push(MethodInfo { flags, name, desc, max_stack, max_locals, code });
    }
    assert_eq!(be16(b, i), 0); // class attributes
    assert_eq!(i + 2, b.len());
    Decoded { pool, flags, this, sup, methods }
}

fn utf8_at(d: &Decoded, idx: u16) -> &str {
    match &d.pool[idx as usize - 1] {
        Rec::Utf8(s) => s,
        r => panic!("expected UTF-8 at {idx}, got {r:?}"),
    }
}

fn class_name(d: &Decoded, idx: u16) -> &str {
    match d.pool[idx as usize - 1] {
        Rec::Class(u) => utf8_at(d, u),
        ref r => panic!("expected a class at {idx}, got {r:?}"),
    }
}

// source: `module Main; fn main() { }`
#[test]
fn empty_main_compiles_to_void_return() {
    let ast = vec![
        Decl::Module("Main".to_string(), pos(1, 1)),
        Decl::Function(FnDecl {
            name: "main".to_string(),
            params: vec![],
            ret: None,
            body: vec![],
            pos: pos(1, 14),
        }),
    ];
    let out = compile(ast).unwrap();
    let d = decode(&out);
    assert_eq!(d.flags, 0x0021);
    assert_eq!(class_name(&d, d.this), "Main");
    assert_eq!(class_name(&d, d.sup), "java/lang/Object");
    assert_eq!(d.methods.len(), 1);
    let m = &d.methods[0];
    assert_eq!(m.flags, 9);
    assert_eq!(utf8_at(&d, m.name), "main");
    assert_eq!(utf8_at(&d, m.desc), "()V");
    assert_eq!(m.max_stack, 16);
    assert_eq!(m.max_locals, 16);
    assert_eq!(m.code, vec![177]); // exactly the one-byte void return
}

// source: `module Main; fn add(a: i32, b: i32) -> i32 { return a; }`
#[test]
fn add_returns_integer_form() {
    let ast = vec![
        Decl::Module("Main".to_string(), pos(1, 1)),
        Decl::Function(FnDecl {
            name: "add".to_string(),
            params: vec![param("a", "i32"), param("b", "i32")],
            ret: Some("i32".to_string()),
            body: vec![Stmt::Return(
                Expr::Ident("a".to_string(), pos(1, 53)),
                pos(1, 46),
            )],
            pos: pos(1, 14),
        }),
    ];
    let out = compile(ast).unwrap();
    let d = decode(&out);
    let m = &d.methods[0];
    assert_eq!(utf8_at(&d, m.desc), "(II)I");
    assert_eq!(m.code, vec![26, 172]); // iload of slot 0, then the integer return
    assert_eq!(*m.code.last().unwrap(), 172);
    assert_ne!(*m.code.last().unwrap(), 176);
}

// source: a call to an undeclared function name
#[test]
fn undeclared_call_is_one_symbol_error() {
    let ast = vec![
        Decl::Module("Main".to_string(), pos(1, 1)),
        Decl::Function(FnDecl {
            name: "main".to_string(),
            params: vec![],
            ret: None,
            body: vec![Stmt::Call("foo".to_string(), vec![], pos(1, 26))],
            pos: pos(1, 14),
        }),
    ];
    let errs = compile(ast).unwrap_err();
    assert_eq!(errs.len(), 1);
    match &errs[0].id {
        CompileErrorId::SymbolNotFound(n) => assert_eq!(n, "foo"),
        e => panic!("expected SymbolNotFound, got {e:?}"),
    }
    assert_eq!(errs[0].start, (1, 26));
}

#[test]
fn print_expands_to_fixed_sequence() {
    let ast = vec![
        Decl::Module("Main".to_string(), pos(1, 1)),
        Decl::Function(FnDecl {
            name: "main".to_string(),
            params: vec![],
            ret: None,
            body: vec![Stmt::Call(
                "print".to_string(),
                vec![Expr::Str("hi".to_string(), pos(1, 32))],
                pos(1, 26),
            )],
            pos: pos(1, 14),
        }),
    ];
    let out = compile(ast).unwrap();
    let d = decode(&out);
    let m = &d.methods[0];
    // getstatic System.out, ldc "hi", invokevirtual println, void return
    assert_eq!(m.code, vec![178, 0, 10, 18, 12, 182, 0, 18, 177]);
    assert_eq!(d.pool[9], Rec::RefRec(9, 6, 9));
    assert_eq!(d.pool[11], Rec::Str(11));
    assert_eq!(utf8_at(&d, 11), "hi");
    match d.pool[17] {
        Rec::RefRec(10, c, n) => {
            assert_eq!(class_name(&d, c), "java/io/PrintStream");
            match d.pool[n as usize - 1] {
                Rec::Nat(nm, ds) => {
                    assert_eq!(utf8_at(&d, nm), "println");
                    assert_eq!(utf8_at(&d, ds), "(Ljava/lang/String;)V");
                }
                ref r => panic!("expected a name-and-type, got {r:?}"),
            }
        }
        ref r => panic!("expected a method reference, got {r:?}"),
    }
}

#[test]
fn locals_get_dense_slots_after_arguments() {
    let ast = vec![
        Decl::Module("Main".to_string(), pos(1, 1)),
        Decl::Function(FnDecl {
            name: "f".to_string(),
            params: vec![param("a", "i32"), param("b", "bool")],
            ret: None,
            body: vec![
                Stmt::VarDecl(
                    "x".to_string(),
                    None,
                    Expr::Num(7, pos(2, 13)),
                    pos(2, 5),
                ),
                Stmt::VarDecl(
                    "s".to_string(),
                    None,
                    Expr::Str("t".to_string(), pos(3, 13)),
                    pos(3, 5),
                ),
                Stmt::VarDecl(
                    "y".to_string(),
                    None,
                    Expr::BoolLit(true, pos(4, 13)),
                    pos(4, 5),
                ),
            ],
            pos: pos(1, 14),
        }),
    ];
    let out = compile(ast).unwrap();
    let d = decode(&out);
    let m = &d.methods[0];
    // with A = 2 arguments, the k-th local gets slot A + k whatever its type:
    // istore 59+2, astore 75+3, istore 59+4
    assert_eq!(
        m.code,
        vec![16, 7, 61, 18, 6, 78, 16, 1, 63, 177]
    );
}

#[test]
fn local_shadows_argument() {
    // a local declared with an argument's name rebinds the lookup: the next
    // load uses the local's new slot, not the argument's
    let ast = vec![
        Decl::Module("Main".to_string(), pos(1, 1)),
        Decl::Function(FnDecl {
            name: "f".to_string(),
            params: vec![param("a", "i32")],
            ret: Some("i32".to_string()),
            body: vec![
                Stmt::VarDecl(
                    "a".to_string(),
                    None,
                    Expr::Num(1, pos(2, 13)),
                    pos(2, 5),
                ),
                Stmt::Return(Expr::Ident("a".to_string(), pos(3, 12)), pos(3, 5)),
            ],
            pos: pos(1, 14),
        }),
    ];
    let out = compile(ast).unwrap();
    let d = decode(&out);
    let m = &d.methods[0];
    // bipush 1, istore slot 1, iload slot 1 (not slot 0), ireturn
    assert_eq!(m.code, vec![16, 1, 60, 27, 172]);
}

#[test]
fn sibling_call_uses_parsed_signature() {
    let ast = vec![
        Decl::Module("Main".to_string(), pos(1, 1)),
        Decl::Function(FnDecl {
            name: "main".to_string(),
            params: vec![],
            ret: None,
            body: vec![Stmt::Call("helper".to_string(), vec![], pos(2, 5))],
            pos: pos(1, 14),
        }),
        Decl::Function(FnDecl {
            name: "helper".to_string(),
            params: vec![],
            ret: Some("i32".to_string()),
            body: vec![Stmt::Return(Expr::Num(3, pos(4, 12)), pos(4, 5))],
            pos: pos(3, 1),
        }),
    ];
    let out = compile(ast).unwrap();
    let d = decode(&out);
    assert_eq!(d.methods.len(), 2);
    let main = &d.methods[0];
    assert_eq!(main.code[0], 184); // invokestatic
    let r = be16(&main.code, 1);
    match d.pool[r as usize - 1] {
        Rec::RefRec(10, c, n) => {
            assert_eq!(class_name(&d, c), "Main");
            match d.pool[n as usize - 1] {
                Rec::Nat(nm, ds) => {
                    assert_eq!(utf8_at(&d, nm), "helper");
                    assert_eq!(utf8_at(&d, ds), "()I");
                }
                ref r => panic!("expected a name-and-type, got {r:?}"),
            }
        }
        ref r => panic!("expected a method reference, got {r:?}"),
    }
    let helper = &d.methods[1];
    assert_eq!(helper.code, vec![16, 3, 172]);
}

#[test]
fn missing_module_fails_structurally() {
    let errs = compile(vec![]).unwrap_err();
    assert_eq!(errs.len(), 1);
    assert!(matches!(errs[0].id, CompileErrorId::ExpectedModule));
    assert_eq!(errs[0].start, (1, 1));

    let errs2 = compile(vec![Decl::Function(FnDecl {
        name: "main".to_string(),
        params: vec![],
        ret: None,
        body: vec![],
        pos: pos(3, 7),
    })])
    .unwrap_err();
    assert_eq!(errs2.len(), 1);
    assert!(matches!(errs2[0].id, CompileErrorId::ExpectedModule));
    assert_eq!(errs2[0].start, (3, 7));
}

#[test]
fn two_unresolved_identifiers_give_two_errors_in_order() {
    let ast = vec![
        Decl::Module("Main".to_string(), pos(1, 1)),
        Decl::Function(FnDecl {
            name: "main".to_string(),
            params: vec![],
            ret: None,
            body: vec![
                Stmt::Return(Expr::Ident("first".to_string(), pos(2, 12)), pos(2, 5)),
                Stmt::Return(Expr::Ident("second".to_string(), pos(3, 12)), pos(3, 5)),
            ],
            pos: pos(1, 14),
        }),
    ];
    let errs = compile(ast).unwrap_err();
    assert_eq!(errs.len(), 2);
    match &errs[0].id {
        CompileErrorId::SymbolNotFound(n) => assert_eq!(n, "first"),
        e => panic!("expected SymbolNotFound, got {e:?}"),
    }
    assert_eq!(errs[0].start, (2, 12));
    match &errs[1].id {
        CompileErrorId::SymbolNotFound(n) => assert_eq!(n, "second"),
        e => panic!("expected SymbolNotFound, got {e:?}"),
    }
    assert_eq!(errs[1].start, (3, 12));
}

#[test]
fn char_and_bool_literals_push_immediates() {
    let ast = vec![
        Decl::Module("Main".to_string(), pos(1, 1)),
        Decl::Function(FnDecl {
            name: "f".to_string(),
            params: vec![],
            ret: Some("char".to_string()),
            body: vec![Stmt::Return(Expr::CharLit('A', pos(2, 12)), pos(2, 5))],
            pos: pos(1, 14),
        }),
    ];
    let out = compile(ast).unwrap();
    let d = decode(&out);
    // bipush of the character's code point, then the integer return
    assert_eq!(d.methods[0].code, vec![16, 65, 172]);
}

#[test]
fn value_position_call_compiles_its_arguments() {
    // a call used as an initializer compiles its arguments left-to-right,
    // then emits the static invoke, and resolves to the callee's declared
    // return type
    let ast = vec![
        Decl::Module("Main".to_string(), pos(1, 1)),
        Decl::Function(FnDecl {
            name: "main".to_string(),
            params: vec![],
            ret: None,
            body: vec![Stmt::VarDecl(
                "x".to_string(),
                None,
                Expr::Call(
                    "helper".to_string(),
                    vec![Expr::Num(5, pos(2, 20))],
                    pos(2, 13),
                ),
                pos(2, 5),
            )],
            pos: pos(1, 14),
        }),
        Decl::Function(FnDecl {
            name: "helper".to_string(),
            params: vec![param("n", "i32")],
            ret: Some("i32".to_string()),
            body: vec![Stmt::Return(Expr::Num(3, pos(4, 12)), pos(4, 5))],
            pos: pos(3, 1),
        }),
    ];
    let out = compile(ast).unwrap();
    let d = decode(&out);
    // bipush 5, invokestatic helper (the class name deduplicates against
    // this-class, so the reference is entry 8), istore slot 0, void return
    assert_eq!(d.methods[0].code, vec![16, 5, 184, 0, 8, 59, 177]);
}

#[test]
fn value_position_call_accumulates_argument_errors() {
    // an unresolved identifier inside a nested call's argument list is
    // reported at its own position; the call itself still resolves
    let ast = vec![
        Decl::Module("Main".to_string(), pos(1, 1)),
        Decl::Function(FnDecl {
            name: "main".to_string(),
            params: vec![],
            ret: None,
            body: vec![Stmt::VarDecl(
                "x".to_string(),
                None,
                Expr::Call(
                    "helper".to_string(),
                    vec![Expr::Ident("bogus".to_string(), pos(2, 20))],
                    pos(2, 13),
                ),
                pos(2, 5),
            )],
            pos: pos(1, 14),
        }),
        Decl::Function(FnDecl {
            name: "helper".to_string(),
            params: vec![param("n", "i32")],
            ret: Some("i32".to_string()),
            body: vec![Stmt::Return(Expr::Num(3, pos(4, 12)), pos(4, 5))],
            pos: pos(3, 1),
        }),
    ];
    let errs = compile(ast).unwrap_err();
    assert_eq!(errs.len(), 1);
    match &errs[0].id {
        CompileErrorId::SymbolNotFound(n) => assert_eq!(n, "bogus"),
        e => panic!("expected SymbolNotFound, got {e:?}"),
    }
    assert_eq!(errs[0].start, (2, 20));
}

#[test]
fn structure_declarations_register_without_output() {
    let ast = vec![
        Decl::Module("Main".to_string(), pos(1, 1)),
        Decl::Structure(StructDecl {
            name: "Point".to_string(),
            members: vec![param("x", "i32"), param("y", "i32")],
            pos: pos(2, 1),
        }),
        Decl::Function(FnDecl {
            name: "main".to_string(),
            params: vec![],
            ret: None,
            body: vec![],
            pos: pos(5, 1),
        }),
    ];
    let out = compile(ast).unwrap();
    let d = decode(&out);
    // structures are parsed and held but not yet part of the binary format
    assert_eq!(d.methods.len(), 1);
    assert_eq!(d.methods[0].code, vec![177]);
}

#[test]
fn redeclared_function_replaces_earlier_one() {
    let f = |v: u8| {
        Decl::Function(FnDecl {
            name: "f".to_string(),
            params: vec![],
            ret: Some("i32".to_string()),
            body: vec![Stmt::Return(Expr::Num(v, pos(2, 12)), pos(2, 5))],
            pos: pos(1, 14),
        })
    };
    let ast = vec![Decl::Module("Main".to_string(), pos(1, 1)), f(1), f(2)];
    let out = compile(ast).unwrap();
    let d = decode(&out);
    assert_eq!(d.methods.len(), 1);
    assert_eq!(d.methods[0].code, vec![16, 2, 172]);
}

#[test]
fn i64_local_uses_integer_family_and_one_slot() {
    // 64-bit integers belong to the integer opcode family and occupy a
    // single slot, like every other one-word category
    let ast = vec![
        Decl::Module("Main".to_string(), pos(1, 1)),
        Decl::Function(FnDecl {
            name: "f".to_string(),
            params: vec![],
            ret: None,
            body: vec![
                Stmt::VarDecl(
                    "x".to_string(),
                    Some(TypeName { name: "i64".to_string(), array: false }),
                    Expr::Num(5, pos(2, 18)),
                    pos(2, 5),
                ),
                Stmt::VarDecl(
                    "y".to_string(),
                    None,
                    Expr::Num(6, pos(3, 13)),
                    pos(3, 5),
                ),
            ],
            pos: pos(1, 14),
        }),
    ];
    let out = compile(ast).unwrap();
    let d = decode(&out);
    // bipush 5, istore slot 0, bipush 6, istore slot 1, void return
    assert_eq!(d.methods[0].code, vec![16, 5, 59, 16, 6, 60, 177]);
}
