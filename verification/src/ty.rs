//! The language's value types and method descriptors.
//!
//! A [`Type`] converts deterministically to exactly one descriptor string;
//! a [`Descriptor`] stringifies to `(T1T2...)R`.

use vstd::prelude::*;

use crate::strutil::str_eq;
use vstd::string::StringExecFns;

verus! {

/// Mathematical model of a [`TypeId`].
pub enum TypeIdV {
    I8,
    I16,
    I32,
    I64,
    Char,
    Bool,
    Void,
    Other(Seq<char>),
}

/// Mathematical model of a [`Type`].
pub struct TypeV {
    pub id: TypeIdV,
    pub array: bool,
}

/// Mathematical model of a [`Descriptor`].
pub struct DescriptorV {
    pub args: Seq<TypeV>,
    pub ret: TypeV,
}

/// Identifier of a value type: a primitive, or a named reference type.
#[derive(Debug)]
pub enum TypeId {
    I8,
    I16,
    I32,
    I64,
    Char,
    Bool,
    Void,
    Other(String),
}

impl View for TypeId {
    type V = TypeIdV;

    open spec fn view(&self) -> TypeIdV {
        match self {
            TypeId::I8 => TypeIdV::I8,
            TypeId::I16 => TypeIdV::I16,
            TypeId::I32 => TypeIdV::I32,
            TypeId::I64 => TypeIdV::I64,
            TypeId::Char => TypeIdV::Char,
            TypeId::Bool => TypeIdV::Bool,
            TypeId::Void => TypeIdV::Void,
            TypeId::Other(s) => TypeIdV::Other(s@),
        }
    }
}

impl Clone for TypeId {
    fn clone(&self) -> (r: Self)
        ensures
            r == *self,
    {
        match self {
            TypeId::I8 => TypeId::I8,
            TypeId::I16 => TypeId::I16,
            TypeId::I32 => TypeId::I32,
            TypeId::I64 => TypeId::I64,
            TypeId::Char => TypeId::Char,
            TypeId::Bool => TypeId::Bool,
            TypeId::Void => TypeId::Void,
            TypeId::Other(s) => TypeId::Other(s.clone()),
        }
    }
}

/// Maps a source type token to its [`TypeIdV`]; unrecognized tokens become a
/// named reference type holding the token verbatim.
pub open spec fn parse_type_id(s: Seq<char>) -> TypeIdV {
    if s == "i8"@ {
        TypeIdV::I8
    } else if s == "i16"@ {
        TypeIdV::I16
    } else if s == "i32"@ {
        TypeIdV::I32
    } else if s == "i64"@ {
        TypeIdV::I64
    } else if s == "char"@ {
        TypeIdV::Char
    } else if s == "bool"@ {
        TypeIdV::Bool
    } else {
        TypeIdV::Other(s)
    }
}

impl TypeId {
    /// Maps a source type token to a [`TypeId`].
    pub fn parse(s: &str) -> (r: TypeId)
        ensures
            r@ == parse_type_id(s@),
    {
        if str_eq(s, "i8") {
            TypeId::I8
        } else if str_eq(s, "i16") {
            TypeId::I16
        } else if str_eq(s, "i32") {
            TypeId::I32
        } else if str_eq(s, "i64") {
            TypeId::I64
        } else if str_eq(s, "char") {
            TypeId::Char
        } else if str_eq(s, "bool") {
            TypeId::Bool
        } else {
            TypeId::Other(s.to_owned())
        }
    }
}

/// Descriptor characters of a type identifier alone, aliases rewritten to
/// their standard-library names.
pub open spec fn type_id_chars(id: TypeIdV) -> Seq<char> {
    match id {
        TypeIdV::I8 => "B"@,
        TypeIdV::I16 => "S"@,
        TypeIdV::I32 => "I"@,
        TypeIdV::I64 => "J"@,
        TypeIdV::Char => "C"@,
        TypeIdV::Bool => "Z"@,
        TypeIdV::Void => "V"@,
        TypeIdV::Other(s) => if s == "Object"@ {
            "Ljava/lang/Object;"@
        } else if s == "String"@ {
            "Ljava/lang/String;"@
        } else {
            s
        },
    }
}

/// Descriptor characters of a full type: the array marker, then the
/// identifier's characters.
pub open spec fn type_chars(t: TypeV) -> Seq<char> {
    if t.array {
        "["@ + type_id_chars(t.id)
    } else {
        type_id_chars(t.id)
    }
}

/// A value type: a type identifier plus an array flag.
#[derive(Debug)]
pub struct Type {
    pub id: TypeId,
    pub array: bool,
}

impl View for Type {
    type V = TypeV;

    open spec fn view(&self) -> TypeV {
        TypeV { id: self.id@, array: self.array }
    }
}

impl Clone for Type {
    fn clone(&self) -> (r: Self)
        ensures
            r == *self,
    {
        Type { id: self.id.clone(), array: self.array }
    }
}

impl Type {
    pub fn new(id: TypeId, array: bool) -> (r: Self)
        ensures
            r@ == (TypeV { id: id@, array }),
    {
        Self { id, array }
    }

    /// The descriptor string of this type.
    pub fn to_string(&self) -> (r: String)
        ensures
            r@ == type_chars(self@),
    {
        let id: &str = match &self.id {
            TypeId::I8 => "B",
            TypeId::I16 => "S",
            TypeId::I32 => "I",
            TypeId::I64 => "J",
            TypeId::Char => "C",
            TypeId::Bool => "Z",
            TypeId::Void => "V",
            TypeId::Other(s) => {
                if str_eq(s.as_str(), "Object") {
                    "Ljava/lang/Object;"
                } else if str_eq(s.as_str(), "String") {
                    "Ljava/lang/String;"
                } else {
                    s.as_str()
                }
            },
        };
        if self.array {
            let mut buf = String::from_str("[");
            buf.append(id);
            buf
        } else {
            String::from_str(id)
        }
    }
}

/// Descriptor characters of a sequence of argument types, concatenated in
/// order.
pub open spec fn types_chars(ts: Seq<TypeV>) -> Seq<char>
    decreases ts.len(),
{
    if ts.len() == 0 {
        Seq::<char>::empty()
    } else {
        type_chars(ts[0]) + types_chars(ts.drop_first())
    }
}

/// Descriptor characters of a full method descriptor: `(T1T2...)R`.
pub open spec fn desc_chars(d: DescriptorV) -> Seq<char> {
    seq!['('] + types_chars(d.args) + seq![')'] + type_chars(d.ret)
}

/// Appending one type to an argument list appends its characters.
pub proof fn lemma_types_chars_push(ts: Seq<TypeV>, t: TypeV)
    ensures
        types_chars(ts.push(t)) == types_chars(ts) + type_chars(t),
    decreases ts.len(),
{
    if ts.len() == 0 {
        let p = ts.push(t);
        assert(p[0] == t);
        assert(p.drop_first() =~= Seq::<TypeV>::empty());
        assert(types_chars(Seq::<TypeV>::empty()) == Seq::<char>::empty());
        assert(types_chars(p) == type_chars(t) + Seq::<char>::empty());
        assert(types_chars(p) =~= types_chars(ts) + type_chars(t));
    } else {
        assert(ts.push(t)[0] == ts[0]);
        assert(ts.push(t).drop_first() =~= ts.drop_first().push(t));
        lemma_types_chars_push(ts.drop_first(), t);
        assert(types_chars(ts.push(t)) == type_chars(ts[0]) + types_chars(ts.drop_first().push(t)));
        assert(types_chars(ts.push(t)) =~= types_chars(ts) + type_chars(t));
    }
}

/// An ordered sequence of argument types plus one return type.
#[derive(Debug)]
pub struct Descriptor {
    pub args: Vec<Type>,
    pub return_type: Type,
}

impl View for Descriptor {
    type V = DescriptorV;

    open spec fn view(&self) -> DescriptorV {
        DescriptorV { args: self.args@.map_values(|t: Type| t@), ret: self.return_type@ }
    }
}

impl Clone for Descriptor {
    fn clone(&self) -> (r: Self)
        ensures
            r@ == self@,
    {
        let mut args: Vec<Type> = Vec::new();
        let mut i: usize = 0;
        while i < self.args.len()
            invariant
                i <= self.args.len(),
                args@ =~= self.args@.take(i as int),
            decreases self.args.len() - i,
        {
            args.push(self.args[i].clone());
            i = i + 1;
        }
        proof {
            assert(args@ =~= self.args@);
        }
        Descriptor { args, return_type: self.return_type.clone() }
    }
}

impl Descriptor {
    pub fn new(args: Vec<Type>, return_type: Type) -> (r: Self)
        ensures
            r@ == (DescriptorV {
                args: args@.map_values(|t: Type| t@),
                ret: return_type@,
            }),
    {
        Self { args, return_type }
    }

    /// The descriptor string `(T1T2...)R`.
    pub fn to_string(&self) -> (r: String)
        ensures
            r@ == desc_chars(self@),
    {
        let mut buf = String::from_str("(");
        proof {
            reveal_strlit("(");
            assert(self@.args.take(0) =~= Seq::<TypeV>::empty());
            assert(buf@ =~= seq!['('] + types_chars(self@.args.take(0)));
        }
        let mut i: usize = 0;
        while i < self.args.len()
            invariant
                i <= self.args.len(),
                buf@ =~= seq!['('] + types_chars(self@.args.take(i as int)),
            decreases self.args.len() - i,
        {
            let ts = self.args[i].to_string();
            buf.append(ts.as_str());
            proof {
                assert(self@.args.take(i + 1) =~= self@.args.take(i as int).push(self@.args[i as int]));
                lemma_types_chars_push(self@.args.take(i as int), self@.args[i as int]);
                assert(self@.args[i as int] == self.args@[i as int]@);
            }
            i = i + 1;
        }
        buf.append(")");
        let rs = self.return_type.to_string();
        buf.append(rs.as_str());
        proof {
            assert(self@.args.take(self.args.len() as int) =~= self@.args);
            reveal_strlit(")");
            assert(")"@ =~= seq![')']);
            assert(buf@ =~= desc_chars(self@));
        }
        buf
    }
}

/// Scans a descriptor's reference-type tail: the characters up to and
/// including the first `;`, and the rest.
pub open spec fn scan_to_semi(s: Seq<char>) -> Option<(Seq<char>, Seq<char>)>
    decreases s.len(),
{
    if s.len() == 0 {
        None
    } else if s[0] == ';' {
        Some((seq![';'], s.drop_first()))
    } else {
        match scan_to_semi(s.drop_first()) {
            Some(tr) => Some((seq![s[0]] + tr.0, tr.1)),
            None => None,
        }
    }
}

/// One base descriptor token: a primitive letter, or `L` up to the first
/// `;`.
pub open spec fn parse_base_token(s: Seq<char>) -> Option<(Seq<char>, Seq<char>)> {
    if s.len() == 0 {
        None
    } else if s[0] == 'B' || s[0] == 'S' || s[0] == 'I' || s[0] == 'J' || s[0] == 'C' || s[0]
        == 'Z' || s[0] == 'V' {
        Some((seq![s[0]], s.drop_first()))
    } else if s[0] == 'L' {
        match scan_to_semi(s.drop_first()) {
            Some(tr) => Some((seq!['L'] + tr.0, tr.1)),
            None => None,
        }
    } else {
        None
    }
}

/// One descriptor token: a base token, optionally prefixed by one array
/// marker.
pub open spec fn parse_desc_token(s: Seq<char>) -> Option<(Seq<char>, Seq<char>)> {
    if s.len() == 0 {
        None
    } else if s[0] == '[' {
        match parse_base_token(s.drop_first()) {
            Some(tr) => Some((seq!['['] + tr.0, tr.1)),
            None => None,
        }
    } else {
        parse_base_token(s)
    }
}

/// The argument tokens up to the closing parenthesis, and the rest.
pub open spec fn parse_arg_tokens(s: Seq<char>) -> Option<(Seq<Seq<char>>, Seq<char>)>
    decreases s.len(),
{
    if s.len() == 0 {
        None
    } else if s[0] == ')' {
        Some((Seq::<Seq<char>>::empty(), s.drop_first()))
    } else {
        match parse_desc_token(s) {
            None => None,
            Some(tr) => if tr.1.len() < s.len() {
                match parse_arg_tokens(tr.1) {
                    None => None,
                    Some(rr) => Some((seq![tr.0] + rr.0, rr.1)),
                }
            } else {
                None
            },
        }
    }
}

/// A conforming reader's view of a whole descriptor string: the argument
/// tokens followed by the return token.
pub open spec fn parse_descriptor(s: Seq<char>) -> Option<Seq<Seq<char>>> {
    if s.len() == 0 || s[0] != '(' {
        None
    } else {
        match parse_arg_tokens(s.drop_first()) {
            None => None,
            Some(tr) => match parse_desc_token(tr.1) {
                Some(rr) => if rr.1.len() == 0 {
                    Some(tr.0.push(rr.0))
                } else {
                    None
                },
                None => None,
            },
        }
    }
}

/// A type the language itself can produce with a well-formed descriptor:
/// any primitive, or one of the two known named reference types. Any other
/// named type passes its name through verbatim, which is not a well-formed
/// descriptor token.
pub open spec fn lang_type(t: TypeV) -> bool {
    match t.id {
        TypeIdV::Other(s) => s == "Object"@ || s == "String"@,
        _ => true,
    }
}

/// Scanning a `;`-terminated token followed by anything recovers exactly
/// that token.
proof fn lemma_scan_to_semi(tok: Seq<char>, rest: Seq<char>)
    requires
        tok.len() > 0,
        tok.last() == ';',
        forall|j: int| 0 <= j < tok.len() - 1 ==> tok[j] != ';',
    ensures
        scan_to_semi(tok + rest) == Some((tok, rest)),
    decreases tok.len(),
{
    let s = tok + rest;
    if tok.len() == 1 {
        assert(s[0] == ';');
        assert(s.drop_first() =~= rest);
        assert(seq![';'] =~= tok);
    } else {
        assert(s[0] == tok[0]);
        assert(tok[0] != ';');
        assert(s.drop_first() =~= tok.drop_first() + rest);
        assert(tok.drop_first().last() == ';');
        assert(forall|j: int| 0 <= j < tok.drop_first().len() - 1 ==> tok.drop_first()[j] != ';');
        lemma_scan_to_semi(tok.drop_first(), rest);
        assert(seq![s[0]] + tok.drop_first() =~= tok);
    }
}

/// The descriptor characters of a language type, followed by anything,
/// parse back as exactly one token.
proof fn lemma_parse_token(t: TypeV, rest: Seq<char>)
    requires
        lang_type(t),
    ensures
        ({
            let tok = type_chars(t);
            &&& tok.len() > 0
            &&& tok[0] != ')'
            &&& parse_desc_token(tok + rest) == Some((tok, rest))
        }),
{
    reveal_strlit("B");
    reveal_strlit("S");
    reveal_strlit("I");
    reveal_strlit("J");
    reveal_strlit("C");
    reveal_strlit("Z");
    reveal_strlit("V");
    reveal_strlit("[");
    reveal_strlit("Ljava/lang/Object;");
    reveal_strlit("Ljava/lang/String;");
    reveal_strlit("Object");
    reveal_strlit("String");
    let idc = type_id_chars(t.id);
    let s0 = idc + rest;
    match t.id {
        TypeIdV::Other(name) => {
            assert(s0[0] == 'L');
            let inner = idc.drop_first();
            assert(s0.drop_first() =~= inner + rest);
            assert(inner.last() == ';');
            assert(forall|j: int| 0 <= j < inner.len() - 1 ==> inner[j] != ';');
            lemma_scan_to_semi(inner, rest);
            assert(seq!['L'] + inner =~= idc);
            assert(parse_base_token(s0) == Some((idc, rest)));
        },
        _ => {
            assert(s0[0] == idc[0]);
            assert(s0.drop_first() =~= rest);
            assert(seq![s0[0]] =~= idc);
            assert(parse_base_token(s0) == Some((idc, rest)));
        },
    }
    if t.array {
        let tok = type_chars(t);
        let s = tok + rest;
        assert(s[0] == '[');
        assert(s.drop_first() =~= idc + rest);
        assert(seq!['['] + idc =~= tok);
    } else {
        assert(type_chars(t) == idc);
        assert(idc[0] != '[');
    }
}

/// The characters of an argument list, a closing parenthesis, and a tail
/// parse back as exactly the argument tokens.
proof fn lemma_parse_args(ts: Seq<TypeV>, tail: Seq<char>)
    requires
        forall|i: int| 0 <= i < ts.len() ==> lang_type(#[trigger] ts[i]),
    ensures
        parse_arg_tokens(types_chars(ts) + seq![')'] + tail) == Some(
            (ts.map_values(|t: TypeV| type_chars(t)), tail),
        ),
    decreases ts.len(),
{
    let s = types_chars(ts) + seq![')'] + tail;
    if ts.len() == 0 {
        assert(types_chars(ts) == Seq::<char>::empty());
        assert(s =~= seq![')'] + tail);
        assert(s[0] == ')');
        assert(s.drop_first() =~= tail);
        assert(ts.map_values(|t: TypeV| type_chars(t)) =~= Seq::<Seq<char>>::empty());
    } else {
        let tok = type_chars(ts[0]);
        let restchars = types_chars(ts.drop_first()) + seq![')'] + tail;
        assert(types_chars(ts) == tok + types_chars(ts.drop_first()));
        assert(s =~= tok + restchars);
        lemma_parse_token(ts[0], restchars);
        assert(s[0] == tok[0]);
        assert(s[0] != ')');
        assert(restchars.len() < s.len());
        assert(forall|i: int|
            0 <= i < ts.drop_first().len() ==> lang_type(#[trigger] ts.drop_first()[i]));
        lemma_parse_args(ts.drop_first(), tail);
        assert(seq![tok] + ts.drop_first().map_values(|t: TypeV| type_chars(t)) =~= ts.map_values(
            |t: TypeV| type_chars(t),
        ));
    }
}

/// Law: for every parameter and return type the language can produce, the
/// descriptor string parses back into exactly the sequence of its argument
/// tokens followed by its return token.
pub proof fn lemma_descriptor_round_trip(d: DescriptorV)
    requires
        forall|i: int| 0 <= i < d.args.len() ==> lang_type(#[trigger] d.args[i]),
        lang_type(d.ret),
    ensures
        parse_descriptor(desc_chars(d)) == Some(
            d.args.map_values(|t: TypeV| type_chars(t)).push(type_chars(d.ret)),
        ),
{
    let s = desc_chars(d);
    assert(s[0] == '(');
    assert(s.drop_first() =~= types_chars(d.args) + seq![')'] + type_chars(d.ret));
    lemma_parse_args(d.args, type_chars(d.ret));
    lemma_parse_token(d.ret, Seq::<char>::empty());
    assert(type_chars(d.ret) + Seq::<char>::empty() =~= type_chars(d.ret));
}

} // verus!
