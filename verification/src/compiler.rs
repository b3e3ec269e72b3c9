//! The class-file assembler: owns the declared methods and structures,
//! orchestrates constant-pool population and per-method compilation, and
//! serializes the final binary artifact.
//!
//! A compilation either fails structurally (no module declaration, a single
//! diagnostic) or runs every method to the end, collecting the semantic
//! diagnostics of all methods; a binary is produced only when none occurred.

use vstd::prelude::*;

use crate::ast::{decl_pos, Decl, DeclV};
use crate::bytebuf::{
    be16, be32, buf_new, buf_to_vec, buf_view, put_slice, put_u16, put_u32, BUF_CAP,
};
use crate::constant_pool::{after_class, class_idx, pool_bytes, ConstantPool, ConstantV};
use crate::error::{CompileError, CompileErrorId, ErrorV};
use crate::method::{
    method_find, method_info_bytes, parse_method, pool_after_info, spec_run, BindingV, MStateV,
    Method, MethodCompiler, MethodV,
};
use crate::structure::{parse_structure, structure_find, Structure, StructureV};
use crate::ty::desc_chars;
use vstd::string::StringExecFns;

verus! {

/// The binary format version written into the class file.
#[derive(Debug)]
pub struct Version {
    pub minor: u16,
    pub major: u16,
}

impl Version {
    pub fn new(minor: u16, major: u16) -> (r: Self)
        ensures
            r.minor == minor,
            r.major == major,
    {
        Self { minor, major }
    }
}

/// Registering a method: a declaration of an already-registered name
/// replaces it in place, otherwise the method is appended.
pub open spec fn add_method(ms: Seq<MethodV>, m: MethodV) -> Seq<MethodV> {
    if method_find(ms, m.name) >= 0 {
        ms.update(method_find(ms, m.name), m)
    } else {
        ms.push(m)
    }
}

/// Registering a structure: a declaration of an already-registered name
/// replaces it in place, otherwise the structure is appended.
pub open spec fn add_structure(ss: Seq<StructureV>, s: StructureV) -> Seq<StructureV> {
    if structure_find(ss, s.name) >= 0 {
        ss.update(structure_find(ss, s.name), s)
    } else {
        ss.push(s)
    }
}

/// The first pass over the top-level declarations: function and structure
/// declarations are parsed and registered in declaration order; anything
/// else is ignored.
pub open spec fn register_decls(
    ms: Seq<MethodV>,
    ss: Seq<StructureV>,
    ds: Seq<DeclV>,
) -> (Seq<MethodV>, Seq<StructureV>)
    decreases ds.len(),
{
    if ds.len() == 0 {
        (ms, ss)
    } else {
        match ds[0] {
            DeclV::Function(f) => register_decls(
                add_method(ms, parse_method(f)),
                ss,
                ds.drop_first(),
            ),
            DeclV::Structure(s) => register_decls(
                ms,
                add_structure(ss, parse_structure(s)),
                ds.drop_first(),
            ),
            DeclV::Module { .. } => register_decls(ms, ss, ds.drop_first()),
        }
    }
}

/// What compiling one method against the full method table contributes:
/// the pool afterwards, its `method_info` bytes, and its diagnostics.
#[verifier::opaque]
pub open spec fn spec_method_out(
    all: Seq<MethodV>,
    this: Seq<char>,
    pool: Seq<ConstantV>,
    m: MethodV,
) -> (Seq<ConstantV>, Seq<u8>, Seq<ErrorV>) {
    let st0 = MStateV {
        pool,
        code: Seq::<u8>::empty(),
        errs: Seq::<ErrorV>::empty(),
        vars: Seq::<BindingV>::empty(),
        returned: false,
    };
    let fin = spec_run(m.args, all, this, st0, m.body);
    let codefin = if fin.returned {
        fin.code
    } else {
        fin.code.push(177u8)
    };
    (
        pool_after_info(fin.pool, m.name, desc_chars(m.descriptor)),
        method_info_bytes(fin.pool, codefin, m.name, desc_chars(m.descriptor)),
        fin.errs,
    )
}

/// The methods compiled strictly sequentially, sharing one pool: their
/// `method_info` records concatenate and their diagnostics accumulate in
/// declaration order.
pub open spec fn spec_methods_out(
    all: Seq<MethodV>,
    this: Seq<char>,
    pool: Seq<ConstantV>,
    ms: Seq<MethodV>,
) -> (Seq<ConstantV>, Seq<u8>, Seq<ErrorV>)
    decreases ms.len(),
{
    if ms.len() == 0 {
        (pool, Seq::<u8>::empty(), Seq::<ErrorV>::empty())
    } else {
        let h = spec_method_out(all, this, pool, ms[0]);
        let t = spec_methods_out(all, this, h.0, ms.drop_first());
        (t.0, h.1 + t.1, h.2 + t.2)
    }
}

/// One step of [`spec_methods_out`], written out.
pub proof fn lemma_spec_methods_out_unfold(
    all: Seq<MethodV>,
    this: Seq<char>,
    pool: Seq<ConstantV>,
    ms: Seq<MethodV>,
)
    requires
        ms.len() > 0,
    ensures
        ({
            let h = spec_method_out(all, this, pool, ms[0]);
            let t = spec_methods_out(all, this, h.0, ms.drop_first());
            &&& spec_methods_out(all, this, pool, ms).0 == t.0
            &&& spec_methods_out(all, this, pool, ms).1 == h.1 + t.1
            &&& spec_methods_out(all, this, pool, ms).2 == h.2 + t.2
        }),
{
}

/// A `method_info` record is 26 bytes longer than its code.
pub proof fn lemma_method_info_len(
    pool: Seq<ConstantV>,
    code: Seq<u8>,
    name: Seq<char>,
    desc: Seq<char>,
)
    ensures
        method_info_bytes(pool, code, name, desc).len() == code.len() + 26,
{
}

/// The full serialized class file and the outcome of one compilation run:
/// the output bytes, the accumulated diagnostics, and the method and
/// structure tables after registration.
pub open spec fn spec_class_output(
    magic: u32,
    minor: u16,
    major: u16,
    flags: u16,
    this: Seq<char>,
    sup: Seq<char>,
    ms0: Seq<MethodV>,
    ss0: Seq<StructureV>,
    ds: Seq<DeclV>,
) -> (Seq<u8>, Seq<ErrorV>, Seq<MethodV>, Seq<StructureV>) {
    let reg = register_decls(ms0, ss0, ds);
    let ms = reg.0;
    let p0 = Seq::<ConstantV>::empty();
    let p1 = after_class(p0, this);
    let ti = class_idx(p0, this);
    let p2 = after_class(p1, sup);
    let si = class_idx(p1, sup);
    let out = spec_methods_out(ms, this, p2, ms);
    let body = be16(flags) + be16(ti as u16) + be16(si as u16) + be16(0) + be16(0) + be16(
        ms.len() as u16,
    ) + out.1 + be16(0);
    let full = be32(magic) + be16(minor) + be16(major) + pool_bytes(out.0) + body;
    (full, out.2, ms, reg.1)
}

/// Registers a parsed method, replacing an earlier declaration of the same
/// name in place.
fn insert_method(ms: &mut Vec<Method>, m: Method)
    ensures
        final(ms)@.map_values(|x: Method| x@) == add_method(
            old(ms)@.map_values(|x: Method| x@),
            m@,
        ),
{
    let found = MethodCompiler::find_method_in(ms, m.name.as_str());
    let ghost msv = ms@.map_values(|x: Method| x@);
    match found {
        Some(i) => {
            ms.remove(i);
            ms.insert(i, m);
            proof {
                assert(ms@.map_values(|x: Method| x@) =~= msv.update(i as int, m@));
            }
        },
        None => {
            ms.push(m);
            proof {
                assert(ms@.map_values(|x: Method| x@) =~= msv.push(m@));
            }
        },
    }
}

/// Registers a parsed structure, replacing an earlier declaration of the
/// same name in place.
fn insert_structure(ss: &mut Vec<Structure>, s: Structure)
    ensures
        final(ss)@.map_values(|x: Structure| x@) == add_structure(
            old(ss)@.map_values(|x: Structure| x@),
            s@,
        ),
{
    let found = crate::structure::find_structure_in(ss, s.name.as_str());
    let ghost ssv = ss@.map_values(|x: Structure| x@);
    match found {
        Some(i) => {
            ss.remove(i);
            ss.insert(i, s);
            proof {
                assert(ss@.map_values(|x: Structure| x@) =~= ssv.update(i as int, s@));
            }
        },
        None => {
            ss.push(s);
            proof {
                assert(ss@.map_values(|x: Structure| x@) =~= ssv.push(s@));
            }
        },
    }
}


/// Compiles one registered method and appends its `method_info` record and
/// its diagnostics.
#[verifier::rlimit(100)]
#[verifier::spinoff_prover]
fn emit_method(
    class: &ClassFile,
    cp: &mut ConstantPool,
    m_idx: usize,
    errs: &mut Vec<CompileError>,
    body: &mut bytes::BytesMut,
)
    requires
        old(cp).wf(),
        m_idx < class.methods@.len(),
        ({
            let h = spec_method_out(
                class.methods_v(),
                class.this_class@,
                old(cp)@,
                class.methods_v()[m_idx as int],
            );
            buf_view(*old(body)).len() + h.1.len() + 38 <= BUF_CAP
        }),
    ensures
        ({
            let h = spec_method_out(
                class.methods_v(),
                class.this_class@,
                old(cp)@,
                class.methods_v()[m_idx as int],
            );
            &&& final(cp).wf()
            &&& final(cp)@ == h.0
            &&& buf_view(*final(body)) == buf_view(*old(body)) + h.1
            &&& final(errs)@.map_values(|e: CompileError| e@) == old(errs)@.map_values(
                |e: CompileError| e@,
            ) + h.2
        }),
{
    let ghost m = class.methods_v()[m_idx as int];
    let ghost st0 = MStateV {
        pool: old(cp)@,
        code: Seq::<u8>::empty(),
        errs: Seq::<ErrorV>::empty(),
        vars: Seq::<BindingV>::empty(),
        returned: false,
    };
    let ghost fin = spec_run(m.args, class.methods_v(), class.this_class@, st0, m.body);
    let ghost codefin = if fin.returned {
        fin.code
    } else {
        fin.code.push(177u8)
    };
    proof {
        reveal(spec_method_out);
        lemma_method_info_len(fin.pool, codefin, m.name, desc_chars(m.descriptor));
    }
    let mut ctx = MethodCompiler::new(&class.methods[m_idx]);
    proof {
        assert(class.methods@[m_idx as int]@ == m);
        assert(ctx.args_v() == m.args);
        assert(class.methods@[m_idx as int].body@.map_values(|x: crate::ast::Stmt| x@)
            == m.body);
        assert(spec_run(
            ctx.args_v(),
            class.methods_v(),
            class.this_class@,
            MStateV {
                pool: cp@,
                code: ctx.code(),
                errs: ctx.errs_v(),
                vars: ctx.vars_v(),
                returned: false,
            },
            class.methods@[m_idx as int].body@.map_values(|x: crate::ast::Stmt| x@),
        ) == fin);
    }
    let info = ctx.compile(cp, &class.methods[m_idx].body, class);
    let ghost body0 = buf_view(*body);
    put_slice(body, info.as_slice());
    let ghost errs0 = errs@.map_values(|e: CompileError| e@);
    errs.append(&mut ctx.errs);
    proof {
        let h = spec_method_out(
            class.methods_v(),
            class.this_class@,
            old(cp)@,
            class.methods_v()[m_idx as int],
        );
        assert(info@ == h.1);
        assert(cp@ == h.0);
        assert(buf_view(*body) =~= body0 + h.1);
        assert(errs@.map_values(|e: CompileError| e@) =~= errs0 + h.2);
    }
}

/// A class file under construction: identity, flags, and the tables of
/// declared methods and structures.
#[derive(Debug)]
pub struct ClassFile {
    pub magic: u32,
    pub version: Version,
    pub access_flags: u16,
    pub this_class: String,
    pub super_class: String,
    pub methods: Vec<Method>,
    pub structures: Vec<Structure>,
}

impl ClassFile {
    /// The declared methods, as their models, in declaration order.
    pub open spec fn methods_v(&self) -> Seq<MethodV> {
        self.methods@.map_values(|m: Method| m@)
    }

    /// The declared structures, as their models, in declaration order.
    pub open spec fn structures_v(&self) -> Seq<StructureV> {
        self.structures@.map_values(|s: Structure| s@)
    }

    /// The class output this class file yields for the given declarations.
    pub open spec fn spec_compile(&self, ds: Seq<DeclV>) -> (Seq<u8>, Seq<ErrorV>, Seq<
        MethodV,
    >, Seq<StructureV>) {
        spec_class_output(
            self.magic,
            self.version.minor,
            self.version.major,
            self.access_flags,
            self.this_class@,
            self.super_class@,
            self.methods_v(),
            self.structures_v(),
            ds,
        )
    }

    pub fn new(magic: u32, version: Version, access_flags: u16, this_class: String, super_class:
        String) -> (r: Self)
        ensures
            r.magic == magic,
            r.version.minor == version.minor,
            r.version.major == version.major,
            r.access_flags == access_flags,
            r.this_class@ == this_class@,
            r.super_class@ == super_class@,
            r.methods_v() == Seq::<MethodV>::empty(),
            r.structures_v() == Seq::<StructureV>::empty(),
    {
        let r = Self {
            magic,
            version,
            access_flags,
            this_class,
            super_class,
            methods: Vec::new(),
            structures: Vec::new(),
        };
        proof {
            assert(r.methods_v() =~= Seq::<MethodV>::empty());
            assert(r.structures_v() =~= Seq::<StructureV>::empty());
        }
        r
    }

    /// Compiles the whole class: registers every declaration, compiles each
    /// method in declaration order against one shared constant pool, and
    /// serializes magic, version, pool, flags, class references, the method
    /// table, and the empty interface, field, and attribute tables. Returns
    /// the binary only if no method produced a diagnostic; otherwise all
    /// accumulated diagnostics, in order.
    #[verifier::rlimit(100)]
    #[verifier::spinoff_prover]
    #[verifier::loop_isolation(false)]
    pub fn compile(&mut self, ast: Vec<Decl>) -> (r: Result<Vec<u8>, Vec<CompileError>>)
        requires
            old(self).spec_compile(ast@.map_values(|d: Decl| d@)).0.len() + 64 <= BUF_CAP,
        ensures
            ({
                let o = old(self).spec_compile(ast@.map_values(|d: Decl| d@));
                &&& final(self).methods_v() == o.2
                &&& final(self).structures_v() == o.3
                &&& final(self).magic == old(self).magic
                &&& final(self).version.minor == old(self).version.minor
                &&& final(self).version.major == old(self).version.major
                &&& final(self).access_flags == old(self).access_flags
                &&& final(self).this_class == old(self).this_class
                &&& final(self).super_class == old(self).super_class
                &&& (match r {
                    Ok(bytes) => o.1.len() == 0 && bytes@ == o.0,
                    Err(es) => o.1.len() > 0 && es@.map_values(|e: CompileError| e@) == o.1,
                })
            }),
    {
        let ghost dsv = ast@.map_values(|d: Decl| d@);
        let ghost o = old(self).spec_compile(dsv);
        let ghost reg = register_decls(old(self).methods_v(), old(self).structures_v(), dsv);
        let mut errs: Vec<CompileError> = Vec::new();
        let mut cp = ConstantPool::new();
        let mut ast = ast;
        while ast.len() > 0
            invariant
                cp.wf(),
                cp@ == Seq::<ConstantV>::empty(),
                errs@.len() == 0,
                self.magic == old(self).magic,
                self.version.minor == old(self).version.minor,
                self.version.major == old(self).version.major,
                self.access_flags == old(self).access_flags,
                self.this_class == old(self).this_class,
                self.super_class == old(self).super_class,
                register_decls(
                    self.methods_v(),
                    self.structures_v(),
                    ast@.map_values(|d: Decl| d@),
                ) == reg,
            decreases ast.len(),
        {
            let ghost ms0 = self.methods_v();
            let ghost ss0 = self.structures_v();
            let ghost rem0 = ast@.map_values(|d: Decl| d@);
            let d = ast.remove(0);
            proof {
                assert(ast@.map_values(|d: Decl| d@) =~= rem0.drop_first());
                assert(rem0[0] == d@);
            }
            match d {
                Decl::Function(f) => {
                    let m = Method::parse(f);
                    insert_method(&mut self.methods, m);
                },
                Decl::Structure(sd) => {
                    let st = Structure::parse(sd);
                    insert_structure(&mut self.structures, st);
                },
                Decl::Module(_, _) => {},
            }
        }
        proof {
            assert(ast@.map_values(|d: Decl| d@) =~= Seq::<DeclV>::empty());
            assert(self.methods_v() == reg.0);
            assert(self.structures_v() == reg.1);
        }
        let ghost msv = reg.0;
        let ghost tt = old(self).this_class@;
        let ghost out = spec_methods_out(
            msv,
            tt,
            after_class(after_class(Seq::<ConstantV>::empty(), tt), old(self).super_class@),
            msv,
        );
        let mut body = buf_new();
        put_u16(&mut body, self.access_flags);
        let ti = cp.insert_class(self.this_class.clone());
        put_u16(&mut body, ti);
        let si = cp.insert_class(self.super_class.clone());
        put_u16(&mut body, si);
        put_u16(&mut body, 0);
        put_u16(&mut body, 0);
        put_u16(&mut body, self.methods.len() as u16);
        let ghost header = be16(old(self).access_flags) + be16(
            class_idx(Seq::<ConstantV>::empty(), tt) as u16,
        ) + be16(
            class_idx(after_class(Seq::<ConstantV>::empty(), tt), old(self).super_class@) as u16,
        ) + be16(0) + be16(0) + be16(msv.len() as u16);
        proof {
            assert(buf_view(body) =~= header);
            assert(o.0.len() == 8 + pool_bytes(out.0).len() + header.len() + out.1.len() + 2);
            assert(msv.skip(0) =~= msv);
            assert(cp@ == after_class(
                after_class(Seq::<ConstantV>::empty(), tt),
                old(self).super_class@,
            ));
            assert(errs@.map_values(|e: CompileError| e@) =~= Seq::<ErrorV>::empty());
            assert(Seq::<ErrorV>::empty() + out.2 =~= out.2);
            assert(buf_view(body) + out.1 =~= header + out.1);
        }
        let mut mi: usize = 0;
        while mi < self.methods.len()
            invariant
                cp.wf(),
                mi <= self.methods.len(),
                self.methods_v() == msv,
                self.structures_v() == reg.1,
                msv.len() == self.methods.len(),
                self.magic == old(self).magic,
                self.version.minor == old(self).version.minor,
                self.version.major == old(self).version.major,
                self.access_flags == old(self).access_flags,
                self.this_class == old(self).this_class,
                self.super_class == old(self).super_class,
                o.0.len() == 8 + pool_bytes(out.0).len() + header.len() + out.1.len() + 2,
                o.0.len() + 64 <= BUF_CAP,
                spec_methods_out(msv, tt, cp@, msv.skip(mi as int)).0 == out.0,
                buf_view(body) + spec_methods_out(msv, tt, cp@, msv.skip(mi as int)).1 == header
                    + out.1,
                errs@.map_values(|e: CompileError| e@) + spec_methods_out(
                    msv,
                    tt,
                    cp@,
                    msv.skip(mi as int),
                ).2 == out.2,
            decreases self.methods.len() - mi,
        {
            let ghost tail = spec_methods_out(msv, tt, cp@, msv.skip(mi as int));
            let ghost h = spec_method_out(msv, tt, cp@, msv[mi as int]);
            let ghost rest = spec_methods_out(msv, tt, h.0, msv.skip(mi as int + 1));
            proof {
                assert(msv.skip(mi as int)[0] == msv[mi as int]);
                assert(msv.skip(mi as int).drop_first() =~= msv.skip(mi as int + 1));
                lemma_spec_methods_out_unfold(msv, tt, cp@, msv.skip(mi as int));
                assert(spec_method_out(msv, tt, cp@, msv.skip(mi as int)[0]) == h);
                assert(spec_methods_out(msv, tt, h.0, msv.skip(mi as int).drop_first()) == rest);
                assert(tail.1 == h.1 + rest.1);
                assert(tail.2 == h.2 + rest.2);
                assert((buf_view(body) + tail.1).len() == (header + out.1).len());
                assert(tail.1.len() == h.1.len() + rest.1.len());
                assert(buf_view(body).len() + h.1.len() + 38 <= BUF_CAP);
                assert(self.methods_v() == msv);
                assert(self.this_class@ == tt);
                assert(self.methods_v()[mi as int] == msv[mi as int]);
                assert(spec_method_out(
                    self.methods_v(),
                    self.this_class@,
                    cp@,
                    self.methods_v()[mi as int],
                ) == h);
            }
            let ghost body0 = buf_view(body);
            let ghost errs0 = errs@.map_values(|e: CompileError| e@);
            emit_method(self, &mut cp, mi, &mut errs, &mut body);
            proof {
                assert(cp@ == h.0);
                assert(buf_view(body) == body0 + h.1);
                assert((body0 + h.1) + rest.1 =~= body0 + (h.1 + rest.1));
                assert((errs0 + h.2) + rest.2 =~= errs0 + (h.2 + rest.2));
            }
            mi = mi + 1;
        }
        proof {
            assert(msv.skip(self.methods.len() as int) =~= Seq::<MethodV>::empty());
            assert(cp@ == out.0);
            assert(buf_view(body) + Seq::<u8>::empty() =~= buf_view(body));
            assert(buf_view(body) =~= header + out.1);
            assert(errs@.map_values(|e: CompileError| e@) + Seq::<ErrorV>::empty() =~= errs@.map_values(
                |e: CompileError| e@,
            ));
            assert(errs@.map_values(|e: CompileError| e@) =~= out.2);
        }
        put_u16(&mut body, 0);
        let pool_ser = cp.serialize();
        let mut buf = buf_new();
        put_u32(&mut buf, self.magic);
        put_u16(&mut buf, self.version.minor);
        put_u16(&mut buf, self.version.major);
        put_slice(&mut buf, pool_ser.as_slice());
        let body_vec = buf_to_vec(&body);
        put_slice(&mut buf, body_vec.as_slice());
        let result = buf_to_vec(&buf);
        proof {
            assert(result@ =~= o.0);
            assert(errs@.map_values(|e: CompileError| e@).len() == errs@.len());
        }
        if errs.len() == 0 {
            Ok(result)
        } else {
            Err(errs)
        }
    }
}

/// The result of a whole compilation: a missing module declaration fails
/// structurally with a single diagnostic; otherwise the remaining
/// declarations compile into a class named after the module.
pub open spec fn spec_compile(ds: Seq<DeclV>) -> Result<Seq<u8>, Seq<ErrorV>> {
    if ds.len() == 0 {
        Err(
            seq![
                ErrorV {
                    id: crate::error::ErrorIdV::ExpectedModule,
                    start: (1usize, 1usize),
                },
            ],
        )
    } else {
        match ds[0] {
            DeclV::Module { name, .. } => {
                let o = spec_class_output(
                    0xCAFEBABEu32,
                    0,
                    52,
                    33,
                    name,
                    "java/lang/Object"@,
                    Seq::<MethodV>::empty(),
                    Seq::<StructureV>::empty(),
                    ds.drop_first(),
                );
                if o.1.len() == 0 {
                    Ok(o.0)
                } else {
                    Err(o.1)
                }
            },
            _ => Err(
                seq![
                    ErrorV {
                        id: crate::error::ErrorIdV::ExpectedModule,
                        start: (decl_pos(ds[0]).line, decl_pos(ds[0]).col),
                    },
                ],
            ),
        }
    }
}

/// Compiles a whole parsed source tree: the tree must open with a module
/// declaration, which names the class; the class is assembled with the
/// standard magic number, format version 52.0, public-super access flags,
/// and the standard root superclass.
pub fn compile(ast: Vec<Decl>) -> (r: Result<Vec<u8>, Vec<CompileError>>)
    requires
        ({
            let ds = ast@.map_values(|d: Decl| d@);
            ds.len() > 0 && ds[0] is Module ==> spec_class_output(
                0xCAFEBABEu32,
                0,
                52,
                33,
                ds[0]->Module_name,
                "java/lang/Object"@,
                Seq::<MethodV>::empty(),
                Seq::<StructureV>::empty(),
                ds.drop_first(),
            ).0.len() + 64 <= BUF_CAP
        }),
    ensures
        ({
            let o = spec_compile(ast@.map_values(|d: Decl| d@));
            match r {
                Ok(bytes) => o is Ok && bytes@ == o->Ok_0,
                Err(es) => o is Err && es@.map_values(|e: CompileError| e@) == o->Err_0,
            }
        }),
{
    let ghost dsv = ast@.map_values(|d: Decl| d@);
    let mut ast = ast;
    if ast.len() == 0 {
        let e = CompileError::new(CompileErrorId::ExpectedModule, (1, 1));
        let mut es: Vec<CompileError> = Vec::new();
        es.push(e);
        proof {
            assert(es@.map_values(|x: CompileError| x@) =~= spec_compile(dsv)->Err_0);
        }
        return Err(es);
    }
    let first = ast.remove(0);
    proof {
        assert(dsv[0] == first@);
        assert(ast@.map_values(|d: Decl| d@) =~= dsv.drop_first());
    }
    match first {
        Decl::Module(name, _pos) => {
            let mut class = ClassFile::new(
                0xCAFEBABE,
                Version::new(0, 52),
                33,
                name,
                String::from_str("java/lang/Object"),
            );
            class.compile(ast)
        },
        Decl::Function(f) => {
            let e = CompileError::new(CompileErrorId::ExpectedModule, (f.pos.line, f.pos.col));
            let mut es: Vec<CompileError> = Vec::new();
            es.push(e);
            proof {
                assert(es@.map_values(|x: CompileError| x@) =~= spec_compile(dsv)->Err_0);
            }
            Err(es)
        },
        Decl::Structure(s) => {
            let e = CompileError::new(CompileErrorId::ExpectedModule, (s.pos.line, s.pos.col));
            let mut es: Vec<CompileError> = Vec::new();
            es.push(e);
            proof {
                assert(es@.map_values(|x: CompileError| x@) =~= spec_compile(dsv)->Err_0);
            }
            Err(es)
        },
    }
}

} // verus!
