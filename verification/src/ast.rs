//! The syntax tree the compiler consumes.
//!
//! The tree arrives already parsed: a closed set of node kinds, each carrying
//! a 1-based source position and either raw token text or ordered children.
//! The grammar and parser that produce it are outside this library.

use vstd::prelude::*;

verus! {

/// A 1-based (line, column) source position.
#[derive(Debug, Clone, Copy, PartialEq, Eq, Structural)]
pub struct Pos {
    pub line: usize,
    pub col: usize,
}

/// Mathematical model of an expression node.
pub enum ExprV {
    Ident { name: Seq<char>, pos: Pos },
    Call { name: Seq<char>, args: Seq<ExprV>, pos: Pos },
    Num { val: u8, pos: Pos },
    Str { text: Seq<char>, pos: Pos },
    CharLit { ch: char, pos: Pos },
    BoolLit { b: bool, pos: Pos },
}

/// The model of one expression node.
pub open spec fn expr_view(e: Expr) -> ExprV
    decreases e,
{
    match e {
        Expr::Ident(name, pos) => ExprV::Ident { name: name@, pos },
        Expr::Call(name, args, pos) => ExprV::Call {
            name: name@,
            args: exprs_view(args@, 0),
            pos,
        },
        Expr::Num(val, pos) => ExprV::Num { val, pos },
        Expr::Str(text, pos) => ExprV::Str { text: text@, pos },
        Expr::CharLit(ch, pos) => ExprV::CharLit { ch, pos },
        Expr::BoolLit(b, pos) => ExprV::BoolLit { b, pos },
    }
}

/// The models of the expressions from position `i` on, in order.
pub open spec fn exprs_view(es: Seq<Expr>, i: int) -> Seq<ExprV>
    decreases es, es.len() - i,
{
    if i < 0 || i >= es.len() {
        Seq::<ExprV>::empty()
    } else {
        seq![expr_view(es[i])] + exprs_view(es, i + 1)
    }
}

/// `exprs_view` lists the model of each expression, in order.
pub proof fn lemma_exprs_view(es: Seq<Expr>, i: int)
    requires
        0 <= i <= es.len(),
    ensures
        exprs_view(es, i).len() == es.len() - i,
        forall|j: int| i <= j < es.len() ==> exprs_view(es, i)[j - i] == expr_view(es[j]),
    decreases es.len() - i,
{
    if i < es.len() {
        lemma_exprs_view(es, i + 1);
    }
}

/// The models of a whole expression list are its elements' views.
pub proof fn lemma_exprs_view_full(es: Seq<Expr>)
    ensures
        exprs_view(es, 0) == es.map_values(|e: Expr| e@),
{
    lemma_exprs_view(es, 0);
    assert(exprs_view(es, 0) =~= es.map_values(|e: Expr| e@));
}

/// Mathematical model of a declared type token.
pub struct TypeNameV {
    pub name: Seq<char>,
    pub array: bool,
}

/// Mathematical model of a statement node.
pub enum StmtV {
    Return { value: ExprV, pos: Pos },
    Call { name: Seq<char>, args: Seq<ExprV>, pos: Pos },
    VarDecl { name: Seq<char>, declared: Option<TypeNameV>, init: ExprV, pos: Pos },
}

/// Mathematical model of a parameter or member declaration.
pub struct ParamV {
    pub name: Seq<char>,
    pub ty: TypeNameV,
}

/// Mathematical model of a function declaration.
pub struct FnDeclV {
    pub name: Seq<char>,
    pub params: Seq<ParamV>,
    pub ret: Option<Seq<char>>,
    pub body: Seq<StmtV>,
    pub pos: Pos,
}

/// Mathematical model of a structure declaration.
pub struct StructDeclV {
    pub name: Seq<char>,
    pub members: Seq<ParamV>,
    pub pos: Pos,
}

/// Mathematical model of a top-level declaration.
pub enum DeclV {
    Module { name: Seq<char>, pos: Pos },
    Function(FnDeclV),
    Structure(StructDeclV),
}

/// The source position a top-level declaration starts at.
pub open spec fn decl_pos(d: DeclV) -> Pos {
    match d {
        DeclV::Module { pos, .. } => pos,
        DeclV::Function(f) => f.pos,
        DeclV::Structure(s) => s.pos,
    }
}

/// An expression node: an identifier, a call, or a literal.
#[derive(Debug)]
pub enum Expr {
    Ident(String, Pos),
    Call(String, Vec<Expr>, Pos),
    Num(u8, Pos),
    Str(String, Pos),
    CharLit(char, Pos),
    BoolLit(bool, Pos),
}

impl View for Expr {
    type V = ExprV;

    open spec fn view(&self) -> ExprV {
        expr_view(*self)
    }
}

/// A declared type token: the type's name and an array marker.
#[derive(Debug)]
pub struct TypeName {
    pub name: String,
    pub array: bool,
}

impl View for TypeName {
    type V = TypeNameV;

    open spec fn view(&self) -> TypeNameV {
        TypeNameV { name: self.name@, array: self.array }
    }
}

/// A statement node: a return, a call, or a variable declaration.
#[derive(Debug)]
pub enum Stmt {
    Return(Expr, Pos),
    Call(String, Vec<Expr>, Pos),
    VarDecl(String, Option<TypeName>, Expr, Pos),
}

impl View for Stmt {
    type V = StmtV;

    open spec fn view(&self) -> StmtV {
        match self {
            Stmt::Return(value, pos) => StmtV::Return { value: value@, pos: *pos },
            Stmt::Call(name, args, pos) => StmtV::Call {
                name: name@,
                args: args@.map_values(|e: Expr| e@),
                pos: *pos,
            },
            Stmt::VarDecl(name, declared, init, pos) => StmtV::VarDecl {
                name: name@,
                declared: match declared {
                    Some(t) => Some(t@),
                    None => None,
                },
                init: init@,
                pos: *pos,
            },
        }
    }
}

/// A parameter or member declaration: a name and its declared type token.
#[derive(Debug)]
pub struct Param {
    pub name: String,
    pub ty: TypeName,
}

impl View for Param {
    type V = ParamV;

    open spec fn view(&self) -> ParamV {
        ParamV { name: self.name@, ty: self.ty@ }
    }
}

/// A function declaration: name, parameters, optional return type token, and
/// the ordered statement sequence of the body.
#[derive(Debug)]
pub struct FnDecl {
    pub name: String,
    pub params: Vec<Param>,
    pub ret: Option<String>,
    pub body: Vec<Stmt>,
    pub pos: Pos,
}

impl View for FnDecl {
    type V = FnDeclV;

    open spec fn view(&self) -> FnDeclV {
        FnDeclV {
            name: self.name@,
            params: self.params@.map_values(|p: Param| p@),
            ret: match &self.ret {
                Some(s) => Some(s@),
                None => None,
            },
            body: self.body@.map_values(|s: Stmt| s@),
            pos: self.pos,
        }
    }
}

/// A structure declaration: a name and its member declarations.
#[derive(Debug)]
pub struct StructDecl {
    pub name: String,
    pub members: Vec<Param>,
    pub pos: Pos,
}

impl View for StructDecl {
    type V = StructDeclV;

    open spec fn view(&self) -> StructDeclV {
        StructDeclV {
            name: self.name@,
            members: self.members@.map_values(|p: Param| p@),
            pos: self.pos,
        }
    }
}

/// A top-level declaration.
#[derive(Debug)]
pub enum Decl {
    Module(String, Pos),
    Function(FnDecl),
    Structure(StructDecl),
}

impl View for Decl {
    type V = DeclV;

    open spec fn view(&self) -> DeclV {
        match self {
            Decl::Module(name, pos) => DeclV::Module { name: name@, pos: *pos },
            Decl::Function(f) => DeclV::Function(f@),
            Decl::Structure(s) => DeclV::Structure(s@),
        }
    }
}

} // verus!
