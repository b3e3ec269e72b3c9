//! Per-method compilation: slot-tracked symbol tables and stack-machine
//! bytecode emission.
//!
//! Everything a method compilation does is specified exactly: [`spec_value`]
//! gives the bytes, pool growth, and type of one value; [`spec_stmt`] the
//! effect of one statement; [`spec_run`] folds a statement sequence over a
//! compiler state [`MStateV`].

use vstd::prelude::*;

use crate::ast::{Expr, ExprV, FnDecl, FnDeclV, ParamV, Pos, Stmt, StmtV, TypeName};
use crate::bytebuf::{
    be16, be32, buf_len, buf_new, buf_to_vec, put_slice, put_u16, put_u32, put_u8, buf_view,
    BUF_CAP,
};
use crate::compiler::ClassFile;
use crate::constant_pool::{
    after_ref, after_string, after_utf8, ref_idx, string_idx, utf8_idx, ConstantPool, Ref,
};
use crate::error::{CompileError, CompileErrorId, ErrorIdV, ErrorV};
use crate::strutil::str_eq;
use crate::ty::{
    desc_chars, parse_type_id, Descriptor, DescriptorV, Type, TypeId, TypeIdV, TypeV,
};
use vstd::string::StringExecFns;

verus! {

/// Mathematical model of a slot binding.
pub struct BindingV {
    pub name: Seq<char>,
    pub ty: TypeV,
    pub slot: u8,
}

/// A named argument or local variable bound to a type and a frame slot.
#[derive(Debug)]
pub struct Binding {
    pub name: String,
    pub ty: Type,
    pub slot: u8,
}

impl View for Binding {
    type V = BindingV;

    open spec fn view(&self) -> BindingV {
        BindingV { name: self.name@, ty: self.ty@, slot: self.slot }
    }
}

impl Clone for Binding {
    fn clone(&self) -> (r: Self)
        ensures
            r@ == self@,
    {
        Binding { name: self.name.clone(), ty: self.ty.clone(), slot: self.slot }
    }
}

/// Position of the binding a name resolves to: the most recently declared
/// binding of that name, or -1 if the name is unbound.
pub open spec fn binding_find(bs: Seq<BindingV>, name: Seq<char>) -> int
    decreases bs.len(),
{
    if bs.len() == 0 {
        -1
    } else if bs.last().name == name {
        bs.len() - 1
    } else {
        binding_find(bs.drop_last(), name)
    }
}

/// The binding a name resolves to in one table.
pub open spec fn find_binding(bs: Seq<BindingV>, name: Seq<char>) -> Option<BindingV> {
    if binding_find(bs, name) >= 0 {
        Some(bs[binding_find(bs, name)])
    } else {
        None
    }
}

/// `binding_find` returns either -1 with no match, or the position of the
/// last binding of the name.
pub proof fn lemma_binding_find(bs: Seq<BindingV>, name: Seq<char>)
    ensures
        -1 <= binding_find(bs, name) < bs.len(),
        binding_find(bs, name) == -1 <==> (forall|j: int|
            0 <= j < bs.len() ==> bs[j].name != name),
        binding_find(bs, name) >= 0 ==> bs[binding_find(bs, name)].name == name,
        binding_find(bs, name) >= 0 ==> (forall|j: int|
            binding_find(bs, name) < j < bs.len() ==> bs[j].name != name),
    decreases bs.len(),
{
    if bs.len() > 0 && bs.last().name != name {
        lemma_binding_find(bs.drop_last(), name);
        assert(forall|j: int| 0 <= j < bs.len() - 1 ==> bs[j] == bs.drop_last()[j]);
    }
}

/// Identifier resolution: the local-variable table shadows the argument
/// table, and within each table the most recent binding of a name wins.
pub open spec fn resolve(vars: Seq<BindingV>, args: Seq<BindingV>, name: Seq<char>) -> Option<
    BindingV,
> {
    match find_binding(vars, name) {
        Some(b) => Some(b),
        None => find_binding(args, name),
    }
}

/// Mathematical model of a parsed method.
pub struct MethodV {
    pub name: Seq<char>,
    pub descriptor: DescriptorV,
    pub args: Seq<BindingV>,
    pub body: Seq<StmtV>,
}

/// A parsed method: its name, calling signature, argument table, and the
/// unresolved statement sequence of its body.
#[derive(Debug)]
pub struct Method {
    pub name: String,
    pub descriptor: Descriptor,
    pub args: Vec<Binding>,
    pub body: Vec<Stmt>,
}

impl View for Method {
    type V = MethodV;

    open spec fn view(&self) -> MethodV {
        MethodV {
            name: self.name@,
            descriptor: self.descriptor@,
            args: self.args@.map_values(|b: Binding| b@),
            body: self.body@.map_values(|s: Stmt| s@),
        }
    }
}

/// Position of the first method of the given name, or -1 if none.
pub open spec fn method_find(ms: Seq<MethodV>, name: Seq<char>) -> int
    decreases ms.len(),
{
    if ms.len() == 0 {
        -1
    } else if ms[0].name == name {
        0
    } else {
        let r = method_find(ms.drop_first(), name);
        if r < 0 {
            -1
        } else {
            r + 1
        }
    }
}

/// The method a callee name resolves to.
pub open spec fn find_method(ms: Seq<MethodV>, name: Seq<char>) -> Option<MethodV> {
    if method_find(ms, name) >= 0 {
        Some(ms[method_find(ms, name)])
    } else {
        None
    }
}

/// `method_find` returns either -1 with no match, or the position of the
/// first method of the name.
pub proof fn lemma_method_find(ms: Seq<MethodV>, name: Seq<char>)
    ensures
        -1 <= method_find(ms, name) < ms.len(),
        method_find(ms, name) == -1 <==> (forall|j: int|
            0 <= j < ms.len() ==> ms[j].name != name),
        method_find(ms, name) >= 0 ==> ms[method_find(ms, name)].name == name,
        method_find(ms, name) >= 0 ==> (forall|j: int|
            0 <= j < method_find(ms, name) ==> ms[j].name != name),
    decreases ms.len(),
{
    if ms.len() > 0 && ms[0].name != name {
        lemma_method_find(ms.drop_first(), name);
        assert(forall|j: int| 1 <= j < ms.len() ==> ms[j] == ms.drop_first()[j - 1]);
    }
}

/// The type a parameter declaration denotes.
pub open spec fn param_type(p: ParamV) -> TypeV {
    TypeV { id: parse_type_id(p.ty.name), array: p.ty.array }
}

/// The method a function declaration parses to: arguments receive slots
/// 0..A in declaration order, and the descriptor lists the declared
/// parameter types and the declared (or void) return type.
pub open spec fn parse_method(f: FnDeclV) -> MethodV {
    MethodV {
        name: f.name,
        descriptor: DescriptorV {
            args: f.params.map_values(|p: ParamV| param_type(p)),
            ret: match f.ret {
                Some(tok) => TypeV { id: parse_type_id(tok), array: false },
                None => TypeV { id: TypeIdV::Void, array: false },
            },
        },
        args: Seq::new(
            f.params.len(),
            |i: int| BindingV {
                name: f.params[i].name,
                ty: param_type(f.params[i]),
                slot: ((i % 256) as u8),
            },
        ),
        body: f.body,
    }
}

impl Method {
    /// Parses one function declaration's header into a method, assigning
    /// argument slots in declaration order; the body is kept unresolved.
    pub fn parse(decl: FnDecl) -> (r: Method)
        ensures
            r@ == parse_method(decl@),
    {
        let FnDecl { name, params, ret, body, pos: _ } = decl;
        let mut args: Vec<Binding> = Vec::new();
        let mut arg_tys: Vec<Type> = Vec::new();
        let mut i: usize = 0;
        while i < params.len()
            invariant
                i <= params.len(),
                args@.len() == i,
                arg_tys@.len() == i,
                forall|j: int|
                    0 <= j < i ==> args@[j]@ == (BindingV {
                        name: params@[j]@.name,
                        ty: param_type(params@[j]@),
                        slot: ((j % 256) as u8),
                    }),
                forall|j: int| 0 <= j < i ==> arg_tys@[j]@ == param_type(params@[j]@),
            decreases params.len() - i,
        {
            let p = &params[i];
            let t = Type::new(TypeId::parse(p.ty.name.as_str()), p.ty.array);
            arg_tys.push(t.clone());
            args.push(Binding { name: p.name.clone(), ty: t, slot: ((i % 256) as u8) });
            i = i + 1;
        }
        let ret_type = match &ret {
            Some(tok) => Type::new(TypeId::parse(tok.as_str()), false),
            None => Type::new(TypeId::Void, false),
        };
        let r = Method { name, descriptor: Descriptor::new(arg_tys, ret_type), args, body };
        proof {
            assert(r@.args =~= parse_method(decl@).args);
            assert(r@.descriptor.args =~= parse_method(decl@).descriptor.args);
            assert(r@.body =~= parse_method(decl@).body);
        }
        r
    }
}

/// Whether a type belongs to the one-word integer opcode family; everything
/// else uses the reference opcode family.
pub open spec fn int_family(id: TypeIdV) -> bool {
    match id {
        TypeIdV::I8 => true,
        TypeIdV::I16 => true,
        TypeIdV::I32 => true,
        TypeIdV::I64 => true,
        TypeIdV::Char => true,
        TypeIdV::Bool => true,
        _ => false,
    }
}

/// The slot the next local variable receives: arguments plus locals so far,
/// reduced into the one-byte slot space.
pub open spec fn next_slot(args: int, vars: int) -> u8 {
    (((args + vars) % 256) as u8)
}

/// The load opcode for a binding: `iload_n` for the integer family,
/// `aload_n` otherwise.
pub open spec fn load_op(t: TypeV, slot: u8) -> u8 {
    if int_family(t.id) {
        (((26 + slot) % 256) as u8)
    } else {
        (((42 + slot) % 256) as u8)
    }
}

/// The store opcode for a binding: `istore_n` for the integer family,
/// `astore_n` otherwise.
pub open spec fn store_op(t: TypeV, slot: u8) -> u8 {
    if int_family(t.id) {
        (((59 + slot) % 256) as u8)
    } else {
        (((75 + slot) % 256) as u8)
    }
}

/// A `SymbolNotFound` diagnostic at the given position.
pub open spec fn sym_err(name: Seq<char>, pos: Pos) -> ErrorV {
    ErrorV { id: ErrorIdV::SymbolNotFound(name), start: (pos.line, pos.col) }
}

/// The type synthesized for a string literal.
pub open spec fn string_type() -> TypeV {
    TypeV { id: TypeIdV::Other("String"@), array: false }
}

/// Outcome of compiling one value: the pool afterwards, the bytes emitted,
/// the diagnostics of nested arguments (already recorded), this
/// expression's own diagnostic if its resolution failed (handed to the
/// caller to record), and the value's type otherwise.
pub struct ValOutV {
    pub pool: Seq<crate::constant_pool::ConstantV>,
    pub bytes: Seq<u8>,
    pub errs: Seq<ErrorV>,
    pub err: Option<ErrorV>,
    pub ty: Option<TypeV>,
}

/// What compiling one value emits.
///
/// An identifier loads its binding's slot; a call in value position
/// compiles its arguments left-to-right and then emits the static
/// invocation of the callee, resolving to the callee's declared return
/// type; literals push immediates. A name that resolves in neither table
/// yields a `SymbolNotFound` diagnostic and emits nothing of its own.
pub open spec fn spec_value(
    vars: Seq<BindingV>,
    args: Seq<BindingV>,
    methods: Seq<MethodV>,
    this: Seq<char>,
    pool: Seq<crate::constant_pool::ConstantV>,
    e: ExprV,
) -> ValOutV
    decreases e,
{
    match e {
        ExprV::Ident { name, pos } => match resolve(vars, args, name) {
            Some(b) => ValOutV {
                pool,
                bytes: seq![load_op(b.ty, b.slot)],
                errs: Seq::<ErrorV>::empty(),
                err: None,
                ty: Some(b.ty),
            },
            None => ValOutV {
                pool,
                bytes: Seq::<u8>::empty(),
                errs: Seq::<ErrorV>::empty(),
                err: Some(sym_err(name, pos)),
                ty: None,
            },
        },
        ExprV::Call { name, args: cargs, pos } => {
            let a = spec_args(vars, args, methods, this, pool, cargs, 0);
            match find_method(methods, name) {
                Some(m) => ValOutV {
                    pool: after_ref(a.pool, Ref::Method, this, name, desc_chars(m.descriptor)),
                    bytes: a.bytes + seq![184u8] + be16(
                        ref_idx(a.pool, Ref::Method, this, name, desc_chars(m.descriptor)) as u16,
                    ),
                    errs: a.errs,
                    err: None,
                    ty: Some(m.descriptor.ret),
                },
                None => ValOutV {
                    pool: a.pool,
                    bytes: a.bytes,
                    errs: a.errs,
                    err: Some(sym_err(name, pos)),
                    ty: None,
                },
            }
        },
        ExprV::Num { val, .. } => ValOutV {
            pool,
            bytes: seq![16u8, val],
            errs: Seq::<ErrorV>::empty(),
            err: None,
            ty: Some(TypeV { id: TypeIdV::I32, array: false }),
        },
        ExprV::Str { text, .. } => ValOutV {
            pool: after_string(pool, text),
            bytes: seq![18u8, (string_idx(pool, text) % 256) as u8],
            errs: Seq::<ErrorV>::empty(),
            err: None,
            ty: Some(string_type()),
        },
        ExprV::CharLit { ch, .. } => ValOutV {
            pool,
            bytes: seq![16u8, (((ch as u32) % 256) as u8)],
            errs: Seq::<ErrorV>::empty(),
            err: None,
            ty: Some(TypeV { id: TypeIdV::Char, array: false }),
        },
        ExprV::BoolLit { b, .. } => ValOutV {
            pool,
            bytes: seq![16u8, if b { 1u8 } else { 0u8 }],
            errs: Seq::<ErrorV>::empty(),
            err: None,
            ty: Some(TypeV { id: TypeIdV::Bool, array: false }),
        },
    }
}

/// Outcome of compiling an argument list: the pool afterwards, the bytes of
/// all argument values in order, every diagnostic in source order, and the
/// types of the values that succeeded.
pub struct ArgsOutV {
    pub pool: Seq<crate::constant_pool::ConstantV>,
    pub bytes: Seq<u8>,
    pub errs: Seq<ErrorV>,
    pub tys: Seq<TypeV>,
}

/// What compiling the argument list from position `i` on, left-to-right,
/// emits.
pub open spec fn spec_args(
    vars: Seq<BindingV>,
    args: Seq<BindingV>,
    methods: Seq<MethodV>,
    this: Seq<char>,
    pool: Seq<crate::constant_pool::ConstantV>,
    es: Seq<ExprV>,
    i: int,
) -> ArgsOutV
    decreases es, es.len() - i,
{
    if i < 0 || i >= es.len() {
        ArgsOutV {
            pool,
            bytes: Seq::<u8>::empty(),
            errs: Seq::<ErrorV>::empty(),
            tys: Seq::<TypeV>::empty(),
        }
    } else {
        let v = spec_value(vars, args, methods, this, pool, es[i]);
        let rest = spec_args(vars, args, methods, this, v.pool, es, i + 1);
        ArgsOutV {
            pool: rest.pool,
            bytes: v.bytes + rest.bytes,
            errs: (v.errs + (match v.err {
                Some(e) => seq![e],
                None => Seq::<ErrorV>::empty(),
            })) + rest.errs,
            tys: (match v.ty {
                Some(t) => seq![t],
                None => Seq::<TypeV>::empty(),
            }) + rest.tys,
        }
    }
}

/// One step of [`spec_args`], written out.
pub proof fn lemma_spec_args_unfold(
    vars: Seq<BindingV>,
    args: Seq<BindingV>,
    methods: Seq<MethodV>,
    this: Seq<char>,
    pool: Seq<crate::constant_pool::ConstantV>,
    es: Seq<ExprV>,
    i: int,
)
    requires
        0 <= i < es.len(),
    ensures
        ({
            let v = spec_value(vars, args, methods, this, pool, es[i]);
            let rest = spec_args(vars, args, methods, this, v.pool, es, i + 1);
            &&& spec_args(vars, args, methods, this, pool, es, i).pool == rest.pool
            &&& spec_args(vars, args, methods, this, pool, es, i).bytes == v.bytes + rest.bytes
            &&& spec_args(vars, args, methods, this, pool, es, i).errs == (v.errs + (match v.err {
                Some(e) => seq![e],
                None => Seq::<ErrorV>::empty(),
            })) + rest.errs
            &&& spec_args(vars, args, methods, this, pool, es, i).tys == (match v.ty {
                Some(t) => seq![t],
                None => Seq::<TypeV>::empty(),
            }) + rest.tys
        }),
{
}

/// Outcome of compiling one statement, relative to the state before it: the
/// pool afterwards, the bytes and diagnostics appended, the local bindings
/// appended, and whether a return instruction completed.
pub struct StepOutV {
    pub pool: Seq<crate::constant_pool::ConstantV>,
    pub bytes: Seq<u8>,
    pub errs: Seq<ErrorV>,
    pub binds: Seq<BindingV>,
    pub returns: bool,
}

/// The name of the built-in printing routine.
pub open spec fn print_name() -> Seq<char> {
    "print"@
}

/// What compiling one statement emits.
///
/// A return statement compiles its operand and emits the return opcode of
/// the operand's type family. A call statement either expands the built-in
/// printing routine or resolves a sibling method and emits a static invoke;
/// an unresolved callee yields one `SymbolNotFound` diagnostic after the
/// argument diagnostics. A variable declaration compiles its initializer,
/// stores into the next free slot, and binds the name; if the initializer
/// fails to resolve, nothing is stored or bound.
pub open spec fn spec_stmt(
    vars: Seq<BindingV>,
    args: Seq<BindingV>,
    methods: Seq<MethodV>,
    this: Seq<char>,
    pool: Seq<crate::constant_pool::ConstantV>,
    s: StmtV,
) -> StepOutV {
    match s {
        StmtV::Return { value, pos } => {
            let v = spec_value(vars, args, methods, this, pool, value);
            match v.err {
                None => StepOutV {
                    pool: v.pool,
                    bytes: v.bytes + seq![if int_family(v.ty->0.id) {
                        172u8
                    } else {
                        176u8
                    }],
                    errs: v.errs,
                    binds: Seq::<BindingV>::empty(),
                    returns: true,
                },
                Some(e) => StepOutV {
                    pool: v.pool,
                    bytes: v.bytes,
                    errs: v.errs + seq![e],
                    binds: Seq::<BindingV>::empty(),
                    returns: false,
                },
            }
        },
        StmtV::Call { name, args: call_args, pos } => {
            if name == print_name() {
                let i1 = ref_idx(
                    pool,
                    Ref::Field,
                    "java/lang/System"@,
                    "out"@,
                    "Ljava/io/PrintStream;"@,
                );
                let p1 = after_ref(
                    pool,
                    Ref::Field,
                    "java/lang/System"@,
                    "out"@,
                    "Ljava/io/PrintStream;"@,
                );
                let a = spec_args(vars, args, methods, this, p1, call_args, 0);
                let d = DescriptorV {
                    args: a.tys,
                    ret: TypeV { id: TypeIdV::Void, array: false },
                };
                let i2 = ref_idx(a.pool, Ref::Method, "java/io/PrintStream"@, "println"@, desc_chars(d));
                let p2 = after_ref(
                    a.pool,
                    Ref::Method,
                    "java/io/PrintStream"@,
                    "println"@,
                    desc_chars(d),
                );
                StepOutV {
                    pool: p2,
                    bytes: seq![178u8] + be16(i1 as u16) + a.bytes + seq![182u8] + be16(i2 as u16),
                    errs: a.errs,
                    binds: Seq::<BindingV>::empty(),
                    returns: false,
                }
            } else {
                let a = spec_args(vars, args, methods, this, pool, call_args, 0);
                match find_method(methods, name) {
                    Some(m) => {
                        let i = ref_idx(a.pool, Ref::Method, this, name, desc_chars(m.descriptor));
                        StepOutV {
                            pool: after_ref(a.pool, Ref::Method, this, name, desc_chars(m.descriptor)),
                            bytes: a.bytes + seq![184u8] + be16(i as u16),
                            errs: a.errs,
                            binds: Seq::<BindingV>::empty(),
                            returns: false,
                        }
                    },
                    None => StepOutV {
                        pool: a.pool,
                        bytes: a.bytes,
                        errs: a.errs + seq![sym_err(name, pos)],
                        binds: Seq::<BindingV>::empty(),
                        returns: false,
                    },
                }
            }
        },
        StmtV::VarDecl { name, declared, init, pos } => {
            let v = spec_value(vars, args, methods, this, pool, init);
            match v.err {
                Some(e) => StepOutV {
                    pool: v.pool,
                    bytes: v.bytes,
                    errs: v.errs + seq![e],
                    binds: Seq::<BindingV>::empty(),
                    returns: false,
                },
                None => {
                    let t = match declared {
                        Some(tn) => TypeV { id: parse_type_id(tn.name), array: tn.array },
                        None => v.ty->0,
                    };
                    let slot = next_slot(args.len() as int, vars.len() as int);
                    StepOutV {
                        pool: v.pool,
                        bytes: v.bytes + seq![store_op(t, slot)],
                        errs: v.errs,
                        binds: seq![BindingV { name, ty: t, slot }],
                        returns: false,
                    }
                },
            }
        },
    }
}

/// State of one method compilation: the shared pool, the code emitted so
/// far, the diagnostics accumulated, the local-variable table, and whether
/// a return instruction has completed.
pub struct MStateV {
    pub pool: Seq<crate::constant_pool::ConstantV>,
    pub code: Seq<u8>,
    pub errs: Seq<ErrorV>,
    pub vars: Seq<BindingV>,
    pub returned: bool,
}

/// One statement applied to a compiler state.
pub open spec fn spec_step(
    args: Seq<BindingV>,
    methods: Seq<MethodV>,
    this: Seq<char>,
    st: MStateV,
    s: StmtV,
) -> MStateV {
    let out = spec_stmt(st.vars, args, methods, this, st.pool, s);
    MStateV {
        pool: out.pool,
        code: st.code + out.bytes,
        errs: st.errs + out.errs,
        vars: st.vars + out.binds,
        returned: st.returned || out.returns,
    }
}

/// A statement sequence folded over a compiler state, in order.
pub open spec fn spec_run(
    args: Seq<BindingV>,
    methods: Seq<MethodV>,
    this: Seq<char>,
    st: MStateV,
    ss: Seq<StmtV>,
) -> MStateV
    decreases ss.len(),
{
    if ss.len() == 0 {
        st
    } else {
        spec_run(args, methods, this, spec_step(args, methods, this, st, ss[0]), ss.drop_first())
    }
}

/// Compilation only appends to the emitted code.
pub proof fn lemma_run_code_len(
    args: Seq<BindingV>,
    methods: Seq<MethodV>,
    this: Seq<char>,
    st: MStateV,
    ss: Seq<StmtV>,
)
    ensures
        spec_run(args, methods, this, st, ss).code.len() >= st.code.len(),
    decreases ss.len(),
{
    if ss.len() > 0 {
        lemma_run_code_len(args, methods, this, spec_step(args, methods, this, st, ss[0]), ss.drop_first());
    }
}

/// The fixed conservative value written for both max-stack and max-locals.
pub open spec fn frame_cap() -> u16 {
    16
}

/// The bytes of a method's `Code` attribute body: the fixed frame sizes,
/// the length-prefixed code, and the empty exception and attribute tables.
pub open spec fn attr_body_bytes(code: Seq<u8>) -> Seq<u8> {
    be16(frame_cap()) + be16(frame_cap()) + be32(code.len() as u32) + code + be16(0) + be16(0)
}

/// The bytes of a full `method_info` record, given the pool as it stood
/// after the body was compiled: access flags, name and descriptor indices,
/// and one `Code` attribute.
pub open spec fn method_info_bytes(
    pool: Seq<crate::constant_pool::ConstantV>,
    code: Seq<u8>,
    name: Seq<char>,
    desc: Seq<char>,
) -> Seq<u8> {
    let body = attr_body_bytes(code);
    let cattr = be16(utf8_idx(pool, "Code"@) as u16) + be32(body.len() as u32) + body;
    be16(9) + be16(utf8_idx(after_utf8(pool, "Code"@), name) as u16) + be16(
        utf8_idx(after_utf8(after_utf8(pool, "Code"@), name), desc) as u16,
    ) + be16(1) + cattr
}

/// The pool after a compiled body is wrapped into its `method_info`: the
/// attribute name, the method name, and the descriptor string are interned,
/// in that order.
pub open spec fn pool_after_info(
    pool: Seq<crate::constant_pool::ConstantV>,
    name: Seq<char>,
    desc: Seq<char>,
) -> Seq<crate::constant_pool::ConstantV> {
    after_utf8(after_utf8(after_utf8(pool, "Code"@), name), desc)
}

/// Compiles one method's statement sequence into bytecode, sharing the
/// class's constant pool and accumulating diagnostics instead of stopping
/// at the first error.
pub struct MethodCompiler {
    pub name: String,
    pub descriptor: Descriptor,
    pub args: Vec<Binding>,
    pub vars: Vec<Binding>,
    pub errs: Vec<CompileError>,
    pub b: bytes::BytesMut,
}

impl MethodCompiler {
    /// The argument table, as models.
    pub open spec fn args_v(&self) -> Seq<BindingV> {
        self.args@.map_values(|b: Binding| b@)
    }

    /// The local-variable table, as models.
    pub open spec fn vars_v(&self) -> Seq<BindingV> {
        self.vars@.map_values(|b: Binding| b@)
    }

    /// The accumulated diagnostics, as models.
    pub open spec fn errs_v(&self) -> Seq<ErrorV> {
        self.errs@.map_values(|e: CompileError| e@)
    }

    /// The code emitted so far.
    pub open spec fn code(&self) -> Seq<u8> {
        buf_view(self.b)
    }

    pub fn new(method: &Method) -> (r: Self)
        ensures
            r.name@ == method@.name,
            r.descriptor@ == method@.descriptor,
            r.args_v() == method@.args,
            r.vars_v() == Seq::<BindingV>::empty(),
            r.errs_v() == Seq::<ErrorV>::empty(),
            r.code() == Seq::<u8>::empty(),
    {
        let r = Self {
            name: method.name.clone(),
            descriptor: method.descriptor.clone(),
            args: Self::clone_bindings(&method.args),
            vars: Vec::new(),
            errs: Vec::new(),
            b: buf_new(),
        };
        proof {
            assert(r.vars_v() =~= Seq::<BindingV>::empty());
            assert(r.errs_v() =~= Seq::<ErrorV>::empty());
        }
        r
    }

    fn clone_bindings(bs: &Vec<Binding>) -> (r: Vec<Binding>)
        ensures
            r@.map_values(|b: Binding| b@) == bs@.map_values(|b: Binding| b@),
    {
        let mut r: Vec<Binding> = Vec::new();
        let mut i: usize = 0;
        while i < bs.len()
            invariant
                i <= bs.len(),
                r@.len() == i,
                forall|j: int| 0 <= j < i ==> r@[j]@ == bs@[j]@,
            decreases bs.len() - i,
        {
            r.push(bs[i].clone());
            i = i + 1;
        }
        proof {
            assert(r@.map_values(|b: Binding| b@) =~= bs@.map_values(|b: Binding| b@));
        }
        r
    }

    /// One-byte addition in the wrapped slot/opcode space.
    fn wrap_add_u8(x: u8, y: u8) -> (r: u8)
        ensures
            r as int == (x + y) % 256,
    {
        (((x as u16) + (y as u16)) % 256) as u8
    }

    /// Whether a type uses the integer opcode family.
    fn type_is_int(t: &TypeId) -> (r: bool)
        ensures
            r == int_family(t@),
    {
        match t {
            TypeId::I8 => true,
            TypeId::I16 => true,
            TypeId::I32 => true,
            TypeId::I64 => true,
            TypeId::Char => true,
            TypeId::Bool => true,
            _ => false,
        }
    }

    /// The type and slot the name resolves to in one table, if any.
    fn find_in(bs: &Vec<Binding>, name: &str) -> (r: Option<(Type, u8)>)
        ensures
            ({
                let f = find_binding(bs@.map_values(|b: Binding| b@), name@);
                match r {
                    Some(ts) => f is Some && ts.0@ == f->0.ty && ts.1 == f->0.slot,
                    None => f is None,
                }
            }),
    {
        let ghost bsv = bs@.map_values(|b: Binding| b@);
        let mut i: usize = bs.len();
        while i > 0
            invariant
                i <= bs.len(),
                bsv == bs@.map_values(|b: Binding| b@),
                bsv.len() == bs.len(),
                forall|j: int| i <= j < bs.len() ==> bsv[j].name != name@,
            decreases i,
        {
            i = i - 1;
            if str_eq(bs[i].name.as_str(), name) {
                proof {
                    lemma_binding_find(bsv, name@);
                    assert(bsv[i as int].name == name@);
                    assert(binding_find(bsv, name@) == i);
                }
                return Some((bs[i].ty.clone(), bs[i].slot));
            }
        }
        proof {
            lemma_binding_find(bsv, name@);
        }
        None
    }

    /// The position of the first method of the name in the class's table,
    /// if any.
    pub(crate) fn find_method_in(ms: &Vec<Method>, name: &str) -> (r: Option<usize>)
        ensures
            ({
                let f = method_find(ms@.map_values(|m: Method| m@), name@);
                match r {
                    Some(i) => i < ms@.len() && f == i,
                    None => f == -1,
                }
            }),
    {
        let ghost msv = ms@.map_values(|m: Method| m@);
        let mut i: usize = 0;
        while i < ms.len()
            invariant
                i <= ms.len(),
                msv == ms@.map_values(|m: Method| m@),
                msv.len() == ms.len(),
                forall|j: int| 0 <= j < i ==> msv[j].name != name@,
            decreases ms.len() - i,
        {
            if str_eq(ms[i].name.as_str(), name) {
                proof {
                    lemma_method_find(msv, name@);
                    assert(msv[i as int].name == name@);
                    assert(method_find(msv, name@) == i);
                }
                return Some(i);
            }
            i = i + 1;
        }
        proof {
            lemma_method_find(msv, name@);
        }
        None
    }

    /// Compiles one value: resolves it, emits the bytes that push it
    /// (compiling a call's arguments first), and returns its type, or the
    /// diagnostic if it does not resolve; diagnostics of nested arguments
    /// are recorded directly.
    pub fn compile_value(&mut self, cp: &mut ConstantPool, value: &Expr, class: &ClassFile) -> (r:
        Result<Type, CompileError>)
        requires
            old(cp).wf(),
            old(self).code().len() + spec_value(
                old(self).vars_v(),
                old(self).args_v(),
                class.methods_v(),
                class.this_class@,
                old(cp)@,
                value@,
            ).bytes.len() <= BUF_CAP,
        ensures
            ({
                let out = spec_value(
                    old(self).vars_v(),
                    old(self).args_v(),
                    class.methods_v(),
                    class.this_class@,
                    old(cp)@,
                    value@,
                );
                &&& final(cp).wf()
                &&& final(cp)@ == out.pool
                &&& final(self).code() == old(self).code() + out.bytes
                &&& final(self).errs_v() == old(self).errs_v() + out.errs
                &&& final(self).vars == old(self).vars
                &&& final(self).args == old(self).args
                &&& final(self).name == old(self).name
                &&& final(self).descriptor == old(self).descriptor
                &&& (match r {
                    Ok(t) => out.err is None && out.ty == Some(t@),
                    Err(e) => out.err == Some(e@) && out.ty is None,
                })
            }),
        decreases *value,
    {
        proof {
            assert(old(self).errs_v() + Seq::<ErrorV>::empty() =~= old(self).errs_v());
        }
        match value {
            Expr::Ident(name, pos) => {
                let found = match Self::find_in(&self.vars, name.as_str()) {
                    Some(ts) => Some(ts),
                    None => Self::find_in(&self.args, name.as_str()),
                };
                match found {
                    Some((t, slot)) => {
                        let op = if Self::type_is_int(&t.id) {
                            Self::wrap_add_u8(26, slot)
                        } else {
                            Self::wrap_add_u8(42, slot)
                        };
                        put_u8(&mut self.b, op);
                        proof {
                            assert(old(self).code().push(op) =~= old(self).code() + seq![op]);
                        }
                        Ok(t)
                    },
                    None => Err(
                        CompileError::new(
                            CompileErrorId::SymbolNotFound(name.clone()),
                            (pos.line, pos.col),
                        ),
                    ),
                }
            },
            Expr::Call(name, cargs, pos) => {
                proof {
                    crate::ast::lemma_exprs_view_full(cargs@);
                }
                let _arg_types = self.compile_args(cp, cargs, class);
                match Self::find_method_in(&class.methods, name.as_str()) {
                    Some(mi) => {
                        let m = &class.methods[mi];
                        let desc_str = m.descriptor.to_string();
                        let rt = m.descriptor.return_type.clone();
                        let ghost code1 = self.code();
                        put_u8(&mut self.b, 184);
                        let idx = cp.insert_ref(
                            Ref::Method,
                            class.this_class.clone(),
                            name.clone(),
                            desc_str,
                        );
                        put_u16(&mut self.b, idx);
                        proof {
                            let out = spec_value(
                                old(self).vars_v(),
                                old(self).args_v(),
                                class.methods_v(),
                                class.this_class@,
                                old(cp)@,
                                value@,
                            );
                            assert(code1.push(184u8) + be16(idx) =~= code1 + (seq![184u8] + be16(
                                idx,
                            )));
                            assert(self.code() =~= old(self).code() + out.bytes);
                        }
                        Ok(rt)
                    },
                    None => Err(
                        CompileError::new(
                            CompileErrorId::SymbolNotFound(name.clone()),
                            (pos.line, pos.col),
                        ),
                    ),
                }
            },
            Expr::Num(v, _pos) => {
                put_u8(&mut self.b, 16);
                put_u8(&mut self.b, *v);
                proof {
                    assert(old(self).code().push(16u8).push(*v) =~= old(self).code() + seq![
                        16u8,
                        *v,
                    ]);
                }
                Ok(Type::new(TypeId::I32, false))
            },
            Expr::Str(text, _pos) => {
                put_u8(&mut self.b, 18);
                let idx = cp.insert_string(text.clone());
                let low = (idx % 256) as u8;
                put_u8(&mut self.b, low);
                proof {
                    assert(old(self).code().push(18u8).push(low) =~= old(self).code() + seq![
                        18u8,
                        low,
                    ]);
                }
                Ok(Type::new(TypeId::Other(String::from_str("String")), false))
            },
            Expr::CharLit(c, _pos) => {
                put_u8(&mut self.b, 16);
                let c32 = (*c) as u32;
                let low = (c32 % 256) as u8;
                put_u8(&mut self.b, low);
                proof {
                    assert(old(self).code().push(16u8).push(low) =~= old(self).code() + seq![
                        16u8,
                        low,
                    ]);
                }
                Ok(Type::new(TypeId::Char, false))
            },
            Expr::BoolLit(bv, _pos) => {
                put_u8(&mut self.b, 16);
                let by: u8 = if *bv {
                    1
                } else {
                    0
                };
                put_u8(&mut self.b, by);
                proof {
                    assert(old(self).code().push(16u8).push(by) =~= old(self).code() + seq![
                        16u8,
                        by,
                    ]);
                }
                Ok(Type::new(TypeId::Bool, false))
            },
        }
    }

    /// Compiles an argument list left-to-right, pushing each value and
    /// collecting the argument types into a fresh void-returning
    /// descriptor; every diagnostic is accumulated in source order.
    #[verifier::rlimit(60)]
    pub fn compile_args(&mut self, cp: &mut ConstantPool, args: &Vec<Expr>, class: &ClassFile) -> (r:
        Descriptor)
        requires
            old(cp).wf(),
            old(self).code().len() + spec_args(
                old(self).vars_v(),
                old(self).args_v(),
                class.methods_v(),
                class.this_class@,
                old(cp)@,
                args@.map_values(|e: Expr| e@),
                0,
            ).bytes.len() <= BUF_CAP,
        ensures
            ({
                let out = spec_args(
                    old(self).vars_v(),
                    old(self).args_v(),
                    class.methods_v(),
                    class.this_class@,
                    old(cp)@,
                    args@.map_values(|e: Expr| e@),
                    0,
                );
                &&& final(cp).wf()
                &&& final(cp)@ == out.pool
                &&& final(self).code() == old(self).code() + out.bytes
                &&& final(self).errs_v() == old(self).errs_v() + out.errs
                &&& final(self).vars == old(self).vars
                &&& final(self).args == old(self).args
                &&& final(self).name == old(self).name
                &&& final(self).descriptor == old(self).descriptor
                &&& r@ == (DescriptorV {
                    args: out.tys,
                    ret: TypeV { id: TypeIdV::Void, array: false },
                })
            }),
        decreases *args,
    {
        let ghost vv = old(self).vars_v();
        let ghost av = old(self).args_v();
        let ghost mm = class.methods_v();
        let ghost tt = class.this_class@;
        let ghost es = args@.map_values(|e: Expr| e@);
        let ghost full = spec_args(vv, av, mm, tt, old(cp)@, es, 0);
        let mut descriptor = Descriptor::new(Vec::new(), Type::new(TypeId::Void, false));
        proof {
            assert(descriptor@.args =~= Seq::<TypeV>::empty());
            assert(Seq::<TypeV>::empty() + full.tys =~= full.tys);
            assert(self.code() + full.bytes =~= old(self).code() + full.bytes);
            assert(self.errs_v() + full.errs =~= old(self).errs_v() + full.errs);
        }
        let mut i: usize = 0;
        while i < args.len()
            invariant
                cp.wf(),
                i <= args.len(),
                es == args@.map_values(|e: Expr| e@),
                es.len() == args.len(),
                vv == old(self).vars_v(),
                av == old(self).args_v(),
                mm == class.methods_v(),
                tt == class.this_class@,
                full == spec_args(vv, av, mm, tt, old(cp)@, es, 0),
                self.vars == old(self).vars,
                self.args == old(self).args,
                self.name == old(self).name,
                self.descriptor == old(self).descriptor,
                spec_args(vv, av, mm, tt, cp@, es, i as int).pool == full.pool,
                self.code() + spec_args(vv, av, mm, tt, cp@, es, i as int).bytes == old(
                    self,
                ).code() + full.bytes,
                self.errs_v() + spec_args(vv, av, mm, tt, cp@, es, i as int).errs == old(
                    self,
                ).errs_v() + full.errs,
                descriptor@.args + spec_args(vv, av, mm, tt, cp@, es, i as int).tys == full.tys,
                descriptor@.ret == (TypeV { id: TypeIdV::Void, array: false }),
                old(self).code().len() + full.bytes.len() <= BUF_CAP,
            decreases args.len() - i,
        {
            let ghost tail = spec_args(vv, av, mm, tt, cp@, es, i as int);
            let ghost v = spec_value(vv, av, mm, tt, cp@, es[i as int]);
            let ghost rest = spec_args(vv, av, mm, tt, v.pool, es, i as int + 1);
            proof {
                lemma_spec_args_unfold(vv, av, mm, tt, cp@, es, i as int);
                assert(tail.bytes == v.bytes + rest.bytes);
                assert((self.code() + tail.bytes).len() == (old(self).code() + full.bytes).len());
                assert(tail.bytes.len() == v.bytes.len() + rest.bytes.len());
                assert(self.code().len() + v.bytes.len() <= old(self).code().len()
                    + full.bytes.len());
                assert(es[i as int] == args@[i as int]@);
            }
            let ghost code0 = self.code();
            let ghost errs0 = self.errs_v();
            let ghost tys0 = descriptor@.args;
            match self.compile_value(cp, &args[i], class) {
                Ok(t) => {
                    descriptor.args.push(t);
                    proof {
                        assert(descriptor@.args =~= tys0.push(t@));
                        assert(tys0.push(t@) =~= tys0 + seq![t@]);
                        assert(v.err is None);
                        assert(self.errs_v() =~= errs0 + v.errs);
                        assert(v.errs + Seq::<ErrorV>::empty() =~= v.errs);
                        assert((errs0 + v.errs) + rest.errs =~= errs0 + ((v.errs + Seq::<
                            ErrorV,
                        >::empty()) + rest.errs));
                    }
                },
                Err(e) => {
                    self.errs.push(e);
                    proof {
                        assert(self.errs_v() =~= (errs0 + v.errs).push(e@));
                        assert((errs0 + v.errs).push(e@) =~= errs0 + (v.errs + seq![e@]));
                        assert(((errs0 + v.errs) + seq![e@]) + rest.errs =~= errs0 + ((v.errs
                            + seq![e@]) + rest.errs));
                    }
                },
            }
            proof {
                assert((code0 + v.bytes) + rest.bytes =~= code0 + (v.bytes + rest.bytes));
                assert((code0 + v.bytes) + rest.bytes =~= code0 + tail.bytes);
                match v.err {
                    Some(e) => {
                        assert(tail.errs == (v.errs + seq![e]) + rest.errs);
                        assert(tail.tys == rest.tys);
                    },
                    None => {
                        assert(tail.errs == (v.errs + Seq::<ErrorV>::empty()) + rest.errs);
                        assert(tail.tys == seq![v.ty->0] + rest.tys);
                        assert((tys0 + seq![v.ty->0]) + rest.tys =~= tys0 + (seq![v.ty->0]
                            + rest.tys));
                    },
                }
            }
            i = i + 1;
        }
        proof {
            let fin = spec_args(vv, av, mm, tt, cp@, es, args.len() as int);
            assert(fin.bytes =~= Seq::<u8>::empty());
            assert(fin.errs =~= Seq::<ErrorV>::empty());
            assert(fin.tys =~= Seq::<TypeV>::empty());
            assert(self.code() + Seq::<u8>::empty() =~= self.code());
            assert(self.errs_v() + Seq::<ErrorV>::empty() =~= self.errs_v());
            assert(descriptor@.args + Seq::<TypeV>::empty() =~= descriptor@.args);
        }
        descriptor
    }

    /// Compiles one call statement: the built-in printing routine expands
    /// to a load of the standard output stream, the compiled arguments, and
    /// a virtual invoke; any other callee resolves to a sibling method and
    /// a static invoke, or yields one `SymbolNotFound` diagnostic.
    fn compile_call_expr(
        &mut self,
        cp: &mut ConstantPool,
        name: &String,
        cargs: &Vec<Expr>,
        pos: Pos,
        class: &ClassFile,
    )
        requires
            old(cp).wf(),
            old(self).code().len() + spec_stmt(
                old(self).vars_v(),
                old(self).args_v(),
                class.methods_v(),
                class.this_class@,
                old(cp)@,
                StmtV::Call { name: name@, args: cargs@.map_values(|e: Expr| e@), pos },
            ).bytes.len() <= BUF_CAP,
        ensures
            ({
                let out = spec_stmt(
                    old(self).vars_v(),
                    old(self).args_v(),
                    class.methods_v(),
                    class.this_class@,
                    old(cp)@,
                    StmtV::Call { name: name@, args: cargs@.map_values(|e: Expr| e@), pos },
                );
                &&& final(cp).wf()
                &&& final(cp)@ == out.pool
                &&& final(self).code() == old(self).code() + out.bytes
                &&& final(self).errs_v() == old(self).errs_v() + out.errs
                &&& final(self).vars == old(self).vars
                &&& final(self).args == old(self).args
                &&& final(self).name == old(self).name
                &&& final(self).descriptor == old(self).descriptor
            }),
    {
        if str_eq(name.as_str(), "print") {
            put_u8(&mut self.b, 178);
            let i1 = cp.insert_ref(
                Ref::Field,
                String::from_str("java/lang/System"),
                String::from_str("out"),
                String::from_str("Ljava/io/PrintStream;"),
            );
            put_u16(&mut self.b, i1);
            let ghost code1 = self.code();
            let descriptor = self.compile_args(cp, cargs, class);
            put_u8(&mut self.b, 182);
            let ds = descriptor.to_string();
            let i2 = cp.insert_ref(
                Ref::Method,
                String::from_str("java/io/PrintStream"),
                String::from_str("println"),
                ds,
            );
            put_u16(&mut self.b, i2);
            proof {
                let out = spec_stmt(
                    old(self).vars_v(),
                    old(self).args_v(),
                    class.methods_v(),
                    class.this_class@,
                    old(cp)@,
                    StmtV::Call { name: name@, args: cargs@.map_values(|e: Expr| e@), pos },
                );
                assert(self.code() =~= old(self).code() + out.bytes);
                assert(self.errs_v() == old(self).errs_v() + out.errs);
            }
        } else {
            let descriptor = self.compile_args(cp, cargs, class);
            match Self::find_method_in(&class.methods, name.as_str()) {
                Some(mi) => {
                    let ds = class.methods[mi].descriptor.to_string();
                    put_u8(&mut self.b, 184);
                    let i = cp.insert_ref(
                        Ref::Method,
                        class.this_class.clone(),
                        name.clone(),
                        ds,
                    );
                    put_u16(&mut self.b, i);
                    proof {
                        let out = spec_stmt(
                            old(self).vars_v(),
                            old(self).args_v(),
                            class.methods_v(),
                            class.this_class@,
                            old(cp)@,
                            StmtV::Call {
                                name: name@,
                                args: cargs@.map_values(|e: Expr| e@),
                                pos,
                            },
                        );
                        assert(self.code() =~= old(self).code() + out.bytes);
                    }
                },
                None => {
                    let ghost errs1 = self.errs_v();
                    self.errs.push(
                        CompileError::new(
                            CompileErrorId::SymbolNotFound(name.clone()),
                            (pos.line, pos.col),
                        ),
                    );
                    proof {
                        let out = spec_stmt(
                            old(self).vars_v(),
                            old(self).args_v(),
                            class.methods_v(),
                            class.this_class@,
                            old(cp)@,
                            StmtV::Call {
                                name: name@,
                                args: cargs@.map_values(|e: Expr| e@),
                                pos,
                            },
                        );
                        assert(self.errs_v() =~= errs1.push(sym_err(name@, pos)));
                        assert(self.errs_v() =~= old(self).errs_v() + out.errs);
                        assert(self.code() =~= old(self).code() + out.bytes);
                    }
                },
            }
        }
    }

    /// Compiles one variable declaration: resolves the declared or inferred
    /// type, emits the store into the next free slot, and binds the name;
    /// if the initializer does not resolve, its diagnostic is recorded and
    /// nothing is stored or bound.
    fn compile_var_decl(
        &mut self,
        cp: &mut ConstantPool,
        name: &String,
        declared: &Option<TypeName>,
        init: &Expr,
        pos: Pos,
        class: &ClassFile,
    )
        requires
            old(cp).wf(),
            old(self).code().len() + spec_stmt(
                old(self).vars_v(),
                old(self).args_v(),
                class.methods_v(),
                class.this_class@,
                old(cp)@,
                StmtV::VarDecl {
                    name: name@,
                    declared: match declared {
                        Some(t) => Some(t@),
                        None => None,
                    },
                    init: init@,
                    pos,
                },
            ).bytes.len() <= BUF_CAP,
        ensures
            ({
                let out = spec_stmt(
                    old(self).vars_v(),
                    old(self).args_v(),
                    class.methods_v(),
                    class.this_class@,
                    old(cp)@,
                    StmtV::VarDecl {
                        name: name@,
                        declared: match declared {
                            Some(t) => Some(t@),
                            None => None,
                        },
                        init: init@,
                        pos,
                    },
                );
                &&& final(cp).wf()
                &&& final(cp)@ == out.pool
                &&& final(self).code() == old(self).code() + out.bytes
                &&& final(self).errs_v() == old(self).errs_v() + out.errs
                &&& final(self).vars_v() == old(self).vars_v() + out.binds
                &&& final(self).args == old(self).args
                &&& final(self).name == old(self).name
                &&& final(self).descriptor == old(self).descriptor
            }),
    {
        let declared_t: Option<Type> = match declared {
            Some(tn) => Some(Type::new(TypeId::parse(tn.name.as_str()), tn.array)),
            None => None,
        };
        let ghost errs0 = self.errs_v();
        let ghost vars0 = self.vars_v();
        match self.compile_value(cp, init, class) {
            Err(e) => {
                proof {
                    let v = spec_value(
                        old(self).vars_v(),
                        old(self).args_v(),
                        class.methods_v(),
                        class.this_class@,
                        old(cp)@,
                        init@,
                    );
                    assert(self.errs_v() =~= errs0 + v.errs);
                }
                let ghost errs1 = self.errs_v();
                self.errs.push(e);
                proof {
                    let v = spec_value(
                        old(self).vars_v(),
                        old(self).args_v(),
                        class.methods_v(),
                        class.this_class@,
                        old(cp)@,
                        init@,
                    );
                    assert(self.errs_v() =~= errs1.push(e@));
                    assert((errs0 + v.errs).push(e@) =~= errs0 + (v.errs + seq![e@]));
                    assert(self.vars_v() + Seq::<BindingV>::empty() =~= self.vars_v());
                }
            },
            Ok(vt) => {
                let t = match declared_t {
                    Some(dt) => dt,
                    None => vt,
                };
                let a_low = (self.args.len() % 256) as u8;
                let v_low = (self.vars.len() % 256) as u8;
                let slot = Self::wrap_add_u8(a_low, v_low);
                proof {
                    vstd::arithmetic::div_mod::lemma_add_mod_noop(
                        self.args.len() as int,
                        self.vars.len() as int,
                        256,
                    );
                    assert(slot == next_slot(old(self).args_v().len() as int, old(
                        self,
                    ).vars_v().len() as int));
                }
                let op = if Self::type_is_int(&t.id) {
                    Self::wrap_add_u8(59, slot)
                } else {
                    Self::wrap_add_u8(75, slot)
                };
                let ghost code1 = self.code();
                put_u8(&mut self.b, op);
                let ghost tv = t@;
                self.vars.push(Binding { name: name.clone(), ty: t, slot });
                proof {
                    assert(code1.push(op) =~= code1 + seq![op]);
                    assert(self.vars_v() =~= vars0.push(
                        BindingV { name: name@, ty: tv, slot },
                    ));
                    assert(vars0.push(BindingV { name: name@, ty: tv, slot }) =~= vars0 + seq![
                        BindingV { name: name@, ty: tv, slot },
                    ]);
                }
            },
        }
    }

    /// Compiles the method's whole statement sequence and wraps the
    /// resulting bytecode into a complete `method_info` record: access
    /// flags, name and descriptor indices, and one `Code` attribute. If no
    /// return instruction completed, a bare void return terminates the
    /// code.
    #[verifier::rlimit(100)]
    pub fn compile(&mut self, cp: &mut ConstantPool, body: &Vec<Stmt>, class: &ClassFile) -> (r:
        Vec<u8>)
        requires
            old(cp).wf(),
            ({
                let st0 = MStateV {
                    pool: old(cp)@,
                    code: old(self).code(),
                    errs: old(self).errs_v(),
                    vars: old(self).vars_v(),
                    returned: false,
                };
                spec_run(
                    old(self).args_v(),
                    class.methods_v(),
                    class.this_class@,
                    st0,
                    body@.map_values(|s: Stmt| s@),
                ).code.len() + 64 <= BUF_CAP
            }),
        ensures
            ({
                let st0 = MStateV {
                    pool: old(cp)@,
                    code: old(self).code(),
                    errs: old(self).errs_v(),
                    vars: old(self).vars_v(),
                    returned: false,
                };
                let fin = spec_run(
                    old(self).args_v(),
                    class.methods_v(),
                    class.this_class@,
                    st0,
                    body@.map_values(|s: Stmt| s@),
                );
                let codefin = if fin.returned {
                    fin.code
                } else {
                    fin.code.push(177u8)
                };
                &&& final(cp).wf()
                &&& final(cp)@ == pool_after_info(
                    fin.pool,
                    old(self).name@,
                    desc_chars(old(self).descriptor@),
                )
                &&& final(self).code() == codefin
                &&& final(self).errs_v() == fin.errs
                &&& final(self).vars_v() == fin.vars
                &&& final(self).args == old(self).args
                &&& final(self).name == old(self).name
                &&& final(self).descriptor == old(self).descriptor
                &&& r@ == method_info_bytes(
                    fin.pool,
                    codefin,
                    old(self).name@,
                    desc_chars(old(self).descriptor@),
                )
            }),
    {
        let ghost av = old(self).args_v();
        let ghost mm = class.methods_v();
        let ghost tt = class.this_class@;
        let ghost ss = body@.map_values(|s: Stmt| s@);
        let ghost st0 = MStateV {
            pool: old(cp)@,
            code: old(self).code(),
            errs: old(self).errs_v(),
            vars: old(self).vars_v(),
            returned: false,
        };
        let ghost fin = spec_run(av, mm, tt, st0, ss);
        let mut returned = false;
        proof {
            assert(ss.skip(0) =~= ss);
        }
        let mut i: usize = 0;
        while i < body.len()
            invariant
                cp.wf(),
                i <= body.len(),
                ss == body@.map_values(|s: Stmt| s@),
                ss.len() == body.len(),
                av == old(self).args_v(),
                mm == class.methods_v(),
                tt == class.this_class@,
                fin == spec_run(av, mm, tt, st0, ss),
                fin.code.len() + 64 <= BUF_CAP,
                self.args == old(self).args,
                self.name == old(self).name,
                self.descriptor == old(self).descriptor,
                spec_run(
                    av,
                    mm,
                    tt,
                    MStateV {
                        pool: cp@,
                        code: self.code(),
                        errs: self.errs_v(),
                        vars: self.vars_v(),
                        returned,
                    },
                    ss.skip(i as int),
                ) == fin,
            decreases body.len() - i,
        {
            let ghost cur = MStateV {
                pool: cp@,
                code: self.code(),
                errs: self.errs_v(),
                vars: self.vars_v(),
                returned,
            };
            proof {
                assert(ss.skip(i as int)[0] == ss[i as int]);
                assert(ss.skip(i as int).drop_first() =~= ss.skip(i as int + 1));
                assert(spec_run(av, mm, tt, cur, ss.skip(i as int)) == spec_run(
                    av,
                    mm,
                    tt,
                    spec_step(av, mm, tt, cur, ss[i as int]),
                    ss.skip(i as int + 1),
                ));
                lemma_run_code_len(
                    av,
                    mm,
                    tt,
                    spec_step(av, mm, tt, cur, ss[i as int]),
                    ss.skip(i as int + 1),
                );
            }
            match &body[i] {
                Stmt::Return(value, _pos) => {
                    let ghost out = spec_stmt(cur.vars, av, mm, tt, cur.pool, ss[i as int]);
                    let ghost code0 = self.code();
                    let ghost errs0 = self.errs_v();
                    match self.compile_value(cp, value, class) {
                        Ok(t) => {
                            let op: u8 = if Self::type_is_int(&t.id) {
                                172
                            } else {
                                176
                            };
                            put_u8(&mut self.b, op);
                            returned = true;
                            proof {
                                let v = spec_value(cur.vars, av, mm, tt, cur.pool, value@);
                                assert((code0 + v.bytes).push(op) =~= code0 + (v.bytes + seq![
                                    op,
                                ]));
                                assert(self.errs_v() =~= errs0 + v.errs);
                                assert(self.errs_v() =~= errs0 + out.errs);
                                assert(self.vars_v() + out.binds =~= self.vars_v());
                            }
                        },
                        Err(e) => {
                            let ghost errs1 = self.errs_v();
                            self.errs.push(e);
                            proof {
                                let v = spec_value(cur.vars, av, mm, tt, cur.pool, value@);
                                assert(errs1 =~= errs0 + v.errs);
                                assert(self.errs_v() =~= errs1.push(e@));
                                assert((errs0 + v.errs).push(e@) =~= errs0 + (v.errs + seq![
                                    e@,
                                ]));
                                assert(self.code() =~= code0 + v.bytes);
                                assert(self.vars_v() + out.binds =~= self.vars_v());
                            }
                        },
                    }
                },
                Stmt::Call(name, cargs, pos) => {
                    self.compile_call_expr(cp, name, cargs, *pos, class);
                    proof {
                        let out = spec_stmt(cur.vars, av, mm, tt, cur.pool, ss[i as int]);
                        assert(self.vars_v() + out.binds =~= self.vars_v());
                    }
                },
                Stmt::VarDecl(name, declared, init, pos) => {
                    self.compile_var_decl(cp, name, declared, init, *pos, class);
                },
            }
            proof {
                let stepped = spec_step(av, mm, tt, cur, ss[i as int]);
                let now = MStateV {
                    pool: cp@,
                    code: self.code(),
                    errs: self.errs_v(),
                    vars: self.vars_v(),
                    returned,
                };
                assert(now.pool =~= stepped.pool);
                assert(now.code =~= stepped.code);
                assert(now.errs =~= stepped.errs);
                assert(now.vars =~= stepped.vars);
                assert(now.returned == stepped.returned);
                assert(now == stepped);
            }
            i = i + 1;
        }
        proof {
            assert(ss.skip(body.len() as int) =~= Seq::<StmtV>::empty());
            assert(MStateV {
                pool: cp@,
                code: self.code(),
                errs: self.errs_v(),
                vars: self.vars_v(),
                returned,
            } == fin);
        }
        if !returned {
            put_u8(&mut self.b, 177);
            proof {
                assert(fin.code.push(177u8) =~= self.code());
            }
        }
        let ghost codefin = if fin.returned {
            fin.code
        } else {
            fin.code.push(177u8)
        };
        let code_len = buf_len(&self.b);
        let mut body_buf = buf_new();
        put_u16(&mut body_buf, 16);
        put_u16(&mut body_buf, 16);
        put_u32(&mut body_buf, code_len as u32);
        let code_copy = buf_to_vec(&self.b);
        put_slice(&mut body_buf, code_copy.as_slice());
        put_u16(&mut body_buf, 0);
        put_u16(&mut body_buf, 0);
        proof {
            assert(buf_view(body_buf) =~= attr_body_bytes(codefin));
        }
        let mut attr = buf_new();
        put_u16(&mut attr, cp.insert_utf8(String::from_str("Code")));
        let body_len = buf_len(&body_buf);
        put_u32(&mut attr, body_len as u32);
        let body_copy = buf_to_vec(&body_buf);
        put_slice(&mut attr, body_copy.as_slice());
        let mut res = buf_new();
        put_u16(&mut res, 9);  // the fixed access flags: public and static
        put_u16(&mut res, cp.insert_utf8(self.name.clone()));
        let ds = self.descriptor.to_string();
        put_u16(&mut res, cp.insert_utf8(ds));
        put_u16(&mut res, 1);
        let attr_copy = buf_to_vec(&attr);
        put_slice(&mut res, attr_copy.as_slice());
        let out = buf_to_vec(&res);
        proof {
            assert(out@ =~= method_info_bytes(
                fin.pool,
                codefin,
                old(self).name@,
                desc_chars(old(self).descriptor@),
            ));
        }
        out
    }
}

/// Law: slots are assigned monotonically. Running any statement sequence
/// only appends to the local-variable table, and the binding that lands at
/// table position `j` receives slot `(A + j) mod 256`, where `A` is the
/// number of declared arguments; in particular, while `A + j` fits one
/// byte, the `j`-th declared local always receives slot `A + j`, regardless
/// of its type.
#[verifier::rlimit(60)]
#[verifier::spinoff_prover]
pub proof fn lemma_slot_monotonic(
    args: Seq<BindingV>,
    methods: Seq<MethodV>,
    this: Seq<char>,
    st: MStateV,
    ss: Seq<StmtV>,
)
    ensures
        ({
            let fin = spec_run(args, methods, this, st, ss);
            &&& fin.vars.len() >= st.vars.len()
            &&& fin.vars.take(st.vars.len() as int) == st.vars
            &&& forall|j: int|
                st.vars.len() <= j < fin.vars.len() ==> (#[trigger] fin.vars[j]).slot
                    == next_slot(args.len() as int, j)
            &&& forall|j: int|
                st.vars.len() <= j < fin.vars.len() && args.len() + j < 256 ==> (
                #[trigger] fin.vars[j]).slot == args.len() + j
        }),
    decreases ss.len(),
{
    if ss.len() == 0 {
        assert(spec_run(args, methods, this, st, ss).vars.take(st.vars.len() as int)
            =~= st.vars);
    } else {
        let st1 = spec_step(args, methods, this, st, ss[0]);
        let out = spec_stmt(st.vars, args, methods, this, st.pool, ss[0]);
        assert(st1.vars == st.vars + out.binds);
        assert(out.binds.len() <= 1);
        if out.binds.len() == 1 {
            assert(out.binds[0].slot == next_slot(args.len() as int, st.vars.len() as int));
        }
        lemma_slot_monotonic(args, methods, this, st1, ss.drop_first());
        let fin = spec_run(args, methods, this, st, ss);
        assert(fin == spec_run(args, methods, this, st1, ss.drop_first()));
        assert(fin.vars.take(st1.vars.len() as int) == st1.vars);
        assert(fin.vars.take(st.vars.len() as int) =~= st.vars);
        assert(forall|j: int|
            st.vars.len() <= j < st1.vars.len() ==> (#[trigger] fin.vars[j])
                == st1.vars[j]);
    }
}

/// Law: diagnostics accumulate: running a statement sequence only appends
/// to the diagnostic list, in statement order.
pub proof fn lemma_errs_accumulate(
    args: Seq<BindingV>,
    methods: Seq<MethodV>,
    this: Seq<char>,
    st: MStateV,
    ss: Seq<StmtV>,
)
    ensures
        ({
            let fin = spec_run(args, methods, this, st, ss);
            &&& fin.errs.len() >= st.errs.len()
            &&& fin.errs.take(st.errs.len() as int) == st.errs
        }),
    decreases ss.len(),
{
    if ss.len() == 0 {
        assert(spec_run(args, methods, this, st, ss).errs.take(st.errs.len() as int)
            =~= st.errs);
    } else {
        let st1 = spec_step(args, methods, this, st, ss[0]);
        lemma_errs_accumulate(args, methods, this, st1, ss.drop_first());
        let fin = spec_run(args, methods, this, st, ss);
        assert(fin.errs.take(st.errs.len() as int) =~= st.errs);
    }
}

/// Law: two statements whose operands are two unresolved identifiers yield
/// exactly two `SymbolNotFound` diagnostics, one per identifier, each at
/// its own source position, in source order; neither emits any code.
pub proof fn lemma_two_unresolved_idents(
    args: Seq<BindingV>,
    methods: Seq<MethodV>,
    this: Seq<char>,
    st: MStateV,
    n1: Seq<char>,
    p1: Pos,
    n2: Seq<char>,
    p2: Pos,
)
    requires
        resolve(st.vars, args, n1) is None,
        resolve(st.vars, args, n2) is None,
    ensures
        ({
            let s1 = StmtV::Return { value: ExprV::Ident { name: n1, pos: p1 }, pos: p1 };
            let s2 = StmtV::Return { value: ExprV::Ident { name: n2, pos: p2 }, pos: p2 };
            let fin = spec_run(args, methods, this, st, seq![s1, s2]);
            &&& fin.errs == st.errs + seq![sym_err(n1, p1), sym_err(n2, p2)]
            &&& fin.code == st.code
            &&& fin.pool == st.pool
            &&& fin.vars == st.vars
        }),
{
    let s1 = StmtV::Return { value: ExprV::Ident { name: n1, pos: p1 }, pos: p1 };
    let s2 = StmtV::Return { value: ExprV::Ident { name: n2, pos: p2 }, pos: p2 };
    let ss = seq![s1, s2];
    let st1 = spec_step(args, methods, this, st, ss[0]);
    assert(st1.vars == st.vars + Seq::<BindingV>::empty());
    assert(st1.vars =~= st.vars);
    let st2 = spec_step(args, methods, this, st1, ss[1]);
    assert(ss.drop_first() =~= seq![s2]);
    assert(seq![s2].drop_first() =~= Seq::<StmtV>::empty());
    assert(spec_run(args, methods, this, st, ss) == spec_run(
        args,
        methods,
        this,
        st1,
        seq![s2],
    ));
    assert(spec_run(args, methods, this, st1, seq![s2]) == spec_run(
        args,
        methods,
        this,
        st2,
        Seq::<StmtV>::empty(),
    ));
    assert(st2.errs =~= st.errs + seq![sym_err(n1, p1), sym_err(n2, p2)]);
    assert(st2.code =~= st.code);
    assert(st2.vars =~= st.vars);
}

} // verus!
