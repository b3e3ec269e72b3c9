//! Structure (record) declarations: parsed into a name/member-type/slot
//! table as a forward-looking data holder; they are not yet compiled into
//! the binary format.

use vstd::prelude::*;

use crate::ast::{StructDecl, StructDeclV};
use crate::method::{param_type, Binding, BindingV, Method, MethodV};
use crate::ty::{Type, TypeId};

verus! {

/// Mathematical model of a parsed structure.
pub struct StructureV {
    pub name: Seq<char>,
    pub members: Seq<BindingV>,
}

/// A parsed structure declaration: its name and its members, each bound to
/// a type and a member slot in declaration order.
#[derive(Debug)]
pub struct Structure {
    pub name: String,
    pub members: Vec<Binding>,
    pub methods: Vec<Method>,
}

impl View for Structure {
    type V = StructureV;

    open spec fn view(&self) -> StructureV {
        StructureV {
            name: self.name@,
            members: self.members@.map_values(|b: Binding| b@),
        }
    }
}

/// The structure a declaration parses to: members receive slots 0.. in
/// declaration order.
pub open spec fn parse_structure(s: StructDeclV) -> StructureV {
    StructureV {
        name: s.name,
        members: Seq::new(
            s.members.len(),
            |i: int| BindingV {
                name: s.members[i].name,
                ty: param_type(s.members[i]),
                slot: ((i % 256) as u8),
            },
        ),
    }
}

impl Structure {
    /// Parses one structure declaration, assigning member slots in
    /// declaration order. Structures hold no methods yet.
    pub fn parse(decl: StructDecl) -> (r: Structure)
        ensures
            r@ == parse_structure(decl@),
            r.methods@.len() == 0,
    {
        let StructDecl { name, members, pos: _ } = decl;
        let mut ms: Vec<Binding> = Vec::new();
        let mut i: usize = 0;
        while i < members.len()
            invariant
                i <= members.len(),
                ms@.len() == i,
                forall|j: int|
                    0 <= j < i ==> ms@[j]@ == (BindingV {
                        name: members@[j]@.name,
                        ty: param_type(members@[j]@),
                        slot: ((j % 256) as u8),
                    }),
            decreases members.len() - i,
        {
            let p = &members[i];
            let t = Type::new(TypeId::parse(p.ty.name.as_str()), p.ty.array);
            ms.push(Binding { name: p.name.clone(), ty: t, slot: ((i % 256) as u8) });
            i = i + 1;
        }
        let r = Structure { name, members: ms, methods: Vec::new() };
        proof {
            assert(r@.members =~= parse_structure(decl@).members);
        }
        r
    }
}

/// Position of the first structure of the given name, or -1 if none.
pub open spec fn structure_find(ss: Seq<StructureV>, name: Seq<char>) -> int
    decreases ss.len(),
{
    if ss.len() == 0 {
        -1
    } else if ss[0].name == name {
        0
    } else {
        let r = structure_find(ss.drop_first(), name);
        if r < 0 {
            -1
        } else {
            r + 1
        }
    }
}

/// `structure_find` returns either -1 with no match, or the position of the
/// first structure of the name.
pub proof fn lemma_structure_find(ss: Seq<StructureV>, name: Seq<char>)
    ensures
        -1 <= structure_find(ss, name) < ss.len(),
        structure_find(ss, name) == -1 <==> (forall|j: int|
            0 <= j < ss.len() ==> ss[j].name != name),
        structure_find(ss, name) >= 0 ==> ss[structure_find(ss, name)].name == name,
        structure_find(ss, name) >= 0 ==> (forall|j: int|
            0 <= j < structure_find(ss, name) ==> ss[j].name != name),
    decreases ss.len(),
{
    if ss.len() > 0 && ss[0].name != name {
        lemma_structure_find(ss.drop_first(), name);
        assert(forall|j: int| 1 <= j < ss.len() ==> ss[j] == ss.drop_first()[j - 1]);
    }
}

/// The position of the first structure of the name in the table, if any.
pub(crate) fn find_structure_in(ss: &Vec<Structure>, name: &str) -> (r: Option<usize>)
    ensures
        ({
            let f = structure_find(ss@.map_values(|s: Structure| s@), name@);
            match r {
                Some(i) => i < ss@.len() && f == i,
                None => f == -1,
            }
        }),
{
    let ghost ssv = ss@.map_values(|s: Structure| s@);
    let mut i: usize = 0;
    while i < ss.len()
        invariant
            i <= ss.len(),
            ssv == ss@.map_values(|s: Structure| s@),
            ssv.len() == ss.len(),
            forall|j: int| 0 <= j < i ==> ssv[j].name != name@,
        decreases ss.len() - i,
    {
        if crate::strutil::str_eq(ss[i].name.as_str(), name) {
            proof {
                lemma_structure_find(ssv, name@);
                assert(ssv[i as int].name == name@);
                assert(structure_find(ssv, name@) == i);
            }
            return Some(i);
        }
        i = i + 1;
    }
    proof {
        lemma_structure_find(ssv, name@);
    }
    None
}

} // verus!
