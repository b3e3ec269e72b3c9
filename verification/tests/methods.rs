use leac::ast::{FnDecl, Param, Pos, Stmt, TypeName};
use leac::method::Method;
use leac::structure::Structure;

fn pos(line: usize, col: usize) -> Pos {
    Pos { line, col }
}

#[test]
fn parse_assigns_argument_slots_in_order() {
    let decl = FnDecl {
        name: "f".to_string(),
        params: vec![
            Param {
                name: "a".to_string(),
                ty: TypeName { name: "i32".to_string(), array: false },
            },
            Param {
                name: "b".to_string(),
                ty: TypeName { name: "String".to_string(), array: true },
            },
        ],
        ret: Some("bool".to_string()),
        body: vec![Stmt::Return(
            leac::ast::Expr::BoolLit(true, pos(2, 12)),
            pos(2, 5),
        )],
        pos: pos(1, 1),
    };
    let m = Method::parse(decl);
    assert_eq!(m.name, "f");
    assert_eq!(m.descriptor.to_string(), "(I[Ljava/lang/String;)Z");
    assert_eq!(m.args.len(), 2);
    assert_eq!(m.args[0].name, "a");
    assert_eq!(m.args[0].slot, 0);
    assert_eq!(m.args[1].name, "b");
    assert_eq!(m.args[1].slot, 1);
    assert_eq!(m.body.len(), 1);
}

#[test]
fn parse_without_return_type_is_void() {
    let decl = FnDecl {
        name: "g".to_string(),
        params: vec![],
        ret: None,
        body: vec![],
        pos: pos(1, 1),
    };
    let m = Method::parse(decl);
    assert_eq!(m.descriptor.to_string(), "()V");
}

#[test]
fn structure_parse_assigns_member_slots() {
    let decl = leac::ast::StructDecl {
        name: "Pair".to_string(),
        members: vec![
            Param {
                name: "x".to_string(),
                ty: TypeName { name: "i32".to_string(), array: false },
            },
            Param {
                name: "y".to_string(),
                ty: TypeName { name: "bool".to_string(), array: false },
            },
        ],
        pos: pos(1, 1),
    };
    let s = Structure::parse(decl);
    assert_eq!(s.name, "Pair");
    assert_eq!(s.members.len(), 2);
    assert_eq!(s.members[0].slot, 0);
    assert_eq!(s.members[1].slot, 1);
    assert!(s.methods.is_empty());
}
