//! The deduplicating constant pool.
//!
//! Structurally equal constants collapse to one index; indices are assigned
//! densely starting at 1, in first-insertion order, and are never reused or
//! reassigned. Index 0 is reserved and means "no reference"; it is issued
//! only in the unreachable situation that the pool already holds the format's
//! maximum number of entries.
//!
//! The pool's model is the sequence of its entries, [`ConstantV`], in index
//! order: the entry at position `i` has pool index `i + 1`. Every operation
//! is specified exactly through [`pool_ins`] and [`pool_idx`] and their
//! composites.

use vstd::prelude::*;

use crate::bytebuf::{be16, buf_new, buf_to_vec, buf_view, put_slice, put_u16, put_u8, BUF_CAP};
use crate::strutil::str_eq;
use vstd::utf8::{decode_utf8, encode_utf8, encode_utf8_decode_utf8, encode_utf8_valid_utf8, valid_utf8};

verus! {

/// Most entries the pool may hold: the serialized count is one more than the
/// number of entries and must fit in 16 bits.
pub const POOL_CAP: usize = 0xFFFE;

/// The kind of a reference constant.
#[derive(Debug, Clone, Copy, PartialEq, Eq, Structural)]
pub enum Ref {
    Field,
    Method,
    InterfaceMethod,
}

/// Mathematical model of a pool entry.
pub enum ConstantV {
    UTF8(Seq<char>),
    Class(u16),
    String(u16),
    NameAndType(u16, u16),
    Ref(Ref, u16, u16),
}

/// A tagged constant value; composite constants refer to other entries by
/// their pool index.
#[derive(Debug)]
pub enum Constant {
    UTF8(String),
    Class(u16),
    String(u16),
    NameAndType(u16, u16),
    Ref(Ref, u16, u16),
}

impl View for Constant {
    type V = ConstantV;

    open spec fn view(&self) -> ConstantV {
        match self {
            Constant::UTF8(s) => ConstantV::UTF8(s@),
            Constant::Class(i) => ConstantV::Class(*i),
            Constant::String(i) => ConstantV::String(*i),
            Constant::NameAndType(n, t) => ConstantV::NameAndType(*n, *t),
            Constant::Ref(k, c, n) => ConstantV::Ref(*k, *c, *n),
        }
    }
}

/// Position of the first occurrence of `c` in `p`, or -1 if absent.
pub open spec fn pool_find(p: Seq<ConstantV>, c: ConstantV) -> int
    decreases p.len(),
{
    if p.len() == 0 {
        -1
    } else if p[0] == c {
        0
    } else {
        let r = pool_find(p.drop_first(), c);
        if r < 0 {
            -1
        } else {
            r + 1
        }
    }
}

/// Whether the pool already holds `c`.
pub open spec fn pool_contains(p: Seq<ConstantV>, c: ConstantV) -> bool {
    pool_find(p, c) >= 0
}

/// The pool after requesting an index for `c`: unchanged if `c` is present
/// (or the pool is full), else extended by `c`.
pub open spec fn pool_ins(p: Seq<ConstantV>, c: ConstantV) -> Seq<ConstantV> {
    if pool_contains(p, c) || p.len() >= POOL_CAP {
        p
    } else {
        p.push(c)
    }
}

/// The index issued when requesting `c` from `p`: the existing index if `c`
/// is present, the next dense index if there is room, and the reserved index
/// 0 otherwise.
pub open spec fn pool_idx(p: Seq<ConstantV>, c: ConstantV) -> int {
    if pool_contains(p, c) {
        pool_find(p, c) + 1
    } else if p.len() < POOL_CAP {
        p.len() as int + 1
    } else {
        0
    }
}

/// `pool_find` returns either -1 with no occurrence, or the position of the
/// first occurrence.
pub proof fn lemma_pool_find(p: Seq<ConstantV>, c: ConstantV)
    ensures
        -1 <= pool_find(p, c) < p.len(),
        pool_find(p, c) == -1 <==> (forall|j: int| 0 <= j < p.len() ==> p[j] != c),
        pool_find(p, c) >= 0 ==> p[pool_find(p, c)] == c,
        pool_find(p, c) >= 0 ==> (forall|j: int| 0 <= j < pool_find(p, c) ==> p[j] != c),
    decreases p.len(),
{
    if p.len() > 0 && p[0] != c {
        lemma_pool_find(p.drop_first(), c);
        assert(forall|j: int| 1 <= j < p.len() ==> p[j] == p.drop_first()[j - 1]);
    }
}

/// Well-formed pool: within capacity and free of duplicate entries.
pub open spec fn pool_wf(p: Seq<ConstantV>) -> bool {
    &&& p.len() <= POOL_CAP
    &&& forall|i: int, j: int| 0 <= i < j < p.len() ==> p[i] != p[j]
}

/// Issued indices always fit in 16 bits.
pub proof fn lemma_pool_idx_range(p: Seq<ConstantV>, c: ConstantV)
    requires
        pool_wf(p),
    ensures
        0 <= pool_idx(p, c) <= 0xFFFF,
{
    lemma_pool_find(p, c);
}

/// Requesting an index keeps the pool well formed and extends it by at most
/// the requested entry.
pub proof fn lemma_pool_ins_wf(p: Seq<ConstantV>, c: ConstantV)
    requires
        pool_wf(p),
    ensures
        pool_wf(pool_ins(p, c)),
        pool_contains(pool_ins(p, c), c) || p.len() >= POOL_CAP,
{
    lemma_pool_find(p, c);
    if !pool_contains(p, c) && p.len() < POOL_CAP {
        let q = p.push(c);
        assert(forall|j: int| 0 <= j < p.len() ==> q[j] == p[j]);
        assert(q[p.len() as int] == c);
        lemma_pool_find(q, c);
        assert(pool_wf(q));
    }
}

/// The deduplicating table: entries in index order plus the monotonic
/// counter of issued indices.
#[derive(Debug)]
pub struct ConstantPool {
    count: u16,
    pool: Vec<Constant>,
}

impl View for ConstantPool {
    type V = Seq<ConstantV>;

    closed spec fn view(&self) -> Seq<ConstantV> {
        self.pool@.map_values(|c: Constant| c@)
    }
}

impl ConstantPool {
    /// The pool's internal invariant: the counter matches the number of
    /// entries and the entries are deduplicated.
    pub closed spec fn wf(&self) -> bool {
        &&& self.count == self@.len()
        &&& pool_wf(self@)
    }

    pub fn new() -> (r: Self)
        ensures
            r@ == Seq::<ConstantV>::empty(),
            r.wf(),
    {
        let r = Self { count: 0, pool: Vec::new() };
        proof {
            assert(r@ =~= Seq::<ConstantV>::empty());
        }
        r
    }

    /// Structural equality of two constants.
    fn constant_eq(a: &Constant, b: &Constant) -> (r: bool)
        ensures
            r == (a@ == b@),
    {
        match (a, b) {
            (Constant::UTF8(x), Constant::UTF8(y)) => str_eq(x.as_str(), y.as_str()),
            (Constant::Class(x), Constant::Class(y)) => x == y,
            (Constant::String(x), Constant::String(y)) => x == y,
            (Constant::NameAndType(n1, t1), Constant::NameAndType(n2, t2)) => n1 == n2 && t1 == t2,
            (Constant::Ref(k1, c1, n1), Constant::Ref(k2, c2, n2)) => k1 == k2 && c1 == c2
                && n1 == n2,
            _ => false,
        }
    }

    /// The index of `constant`, issuing the next dense index if it is new.
    fn get_or_insert(&mut self, constant: Constant) -> (r: u16)
        requires
            old(self).wf(),
        ensures
            final(self).wf(),
            final(self)@ == pool_ins(old(self)@, constant@),
            r == pool_idx(old(self)@, constant@),
    {
        proof {
            lemma_pool_find(self@, constant@);
            lemma_pool_ins_wf(self@, constant@);
        }
        let mut i: usize = 0;
        while i < self.pool.len()
            invariant
                self == old(self),
                old(self).wf(),
                i <= self.pool.len(),
                self@.len() == self.pool.len(),
                forall|j: int| 0 <= j < i ==> self@[j] != constant@,
            decreases self.pool.len() - i,
        {
            if Self::constant_eq(&self.pool[i], &constant) {
                proof {
                    assert(self@[i as int] == constant@);
                    lemma_pool_find(self@, constant@);
                    assert(pool_find(self@, constant@) == i);
                }
                return (i + 1) as u16;
            }
            i = i + 1;
        }
        proof {
            lemma_pool_find(self@, constant@);
            assert(!pool_contains(self@, constant@));
        }
        if (self.count as usize) < POOL_CAP {
            self.count = self.count + 1;
            let ghost oldv = self@;
            self.pool.push(constant);
            proof {
                assert(self@ =~= oldv.push(constant@));
            }
            self.count
        } else {
            0
        }
    }

    /// The UTF-8 entry for `value`.
    pub fn insert_utf8(&mut self, value: String) -> (r: u16)
        requires
            old(self).wf(),
        ensures
            final(self).wf(),
            final(self)@ == after_utf8(old(self)@, value@),
            r == utf8_idx(old(self)@, value@),
    {
        self.get_or_insert(Constant::UTF8(value))
    }

    /// The class entry for `class`, inserting its UTF-8 name first.
    pub fn insert_class(&mut self, class: String) -> (r: u16)
        requires
            old(self).wf(),
        ensures
            final(self).wf(),
            final(self)@ == after_class(old(self)@, class@),
            r == class_idx(old(self)@, class@),
    {
        proof {
            lemma_pool_idx_range(self@, ConstantV::UTF8(class@));
        }
        let idx = self.insert_utf8(class);
        self.get_or_insert(Constant::Class(idx))
    }

    /// The string-literal entry for `string`, inserting its UTF-8 text first.
    pub fn insert_string(&mut self, string: String) -> (r: u16)
        requires
            old(self).wf(),
        ensures
            final(self).wf(),
            final(self)@ == after_string(old(self)@, string@),
            r == string_idx(old(self)@, string@),
    {
        proof {
            lemma_pool_idx_range(self@, ConstantV::UTF8(string@));
        }
        let idx = self.insert_utf8(string);
        self.get_or_insert(Constant::String(idx))
    }

    /// The name-and-type entry for `name` and descriptor `t`, inserting both
    /// UTF-8 dependencies first.
    pub fn insert_name_and_type(&mut self, name: String, t: String) -> (r: u16)
        requires
            old(self).wf(),
        ensures
            final(self).wf(),
            final(self)@ == after_nat(old(self)@, name@, t@),
            r == nat_idx(old(self)@, name@, t@),
    {
        proof {
            lemma_pool_idx_range(self@, ConstantV::UTF8(name@));
            lemma_pool_ins_wf(self@, ConstantV::UTF8(name@));
            lemma_pool_idx_range(after_utf8(self@, name@), ConstantV::UTF8(t@));
            lemma_pool_ins_wf(after_utf8(self@, name@), ConstantV::UTF8(t@));
        }
        let name_idx = self.insert_utf8(name);
        let t_idx = self.insert_utf8(t);
        self.get_or_insert(Constant::NameAndType(name_idx, t_idx))
    }

    /// The reference entry of kind `reference` to member `name` of type `t`
    /// in class `class`, inserting the class and name-and-type dependencies
    /// first.
    pub fn insert_ref(&mut self, reference: Ref, class: String, name: String, t: String) -> (r:
        u16)
        requires
            old(self).wf(),
        ensures
            final(self).wf(),
            final(self)@ == after_ref(old(self)@, reference, class@, name@, t@),
            r == ref_idx(old(self)@, reference, class@, name@, t@),
    {
        proof {
            lemma_pool_idx_range(self@, ConstantV::UTF8(class@));
            lemma_pool_ins_wf(self@, ConstantV::UTF8(class@));
            lemma_pool_idx_range(after_utf8(self@, class@), ConstantV::Class(
                utf8_idx(self@, class@) as u16,
            ));
        }
        let class_i = self.insert_class(class);
        let ghost p1 = self@;
        proof {
            lemma_pool_ins_wf(p1, ConstantV::UTF8(name@));
            lemma_pool_idx_range(p1, ConstantV::UTF8(name@));
            lemma_pool_ins_wf(after_utf8(p1, name@), ConstantV::UTF8(t@));
            lemma_pool_idx_range(after_utf8(p1, name@), ConstantV::UTF8(t@));
            lemma_pool_idx_range(
                after_utf8(after_utf8(p1, name@), t@),
                ConstantV::NameAndType(
                    utf8_idx(p1, name@) as u16,
                    utf8_idx(after_utf8(p1, name@), t@) as u16,
                ),
            );
        }
        let nat_i = self.insert_name_and_type(name, t);
        self.get_or_insert(Constant::Ref(reference, class_i, nat_i))
    }
}

/// Pool after inserting the UTF-8 entry for `s`.
pub open spec fn after_utf8(p: Seq<ConstantV>, s: Seq<char>) -> Seq<ConstantV> {
    pool_ins(p, ConstantV::UTF8(s))
}

/// Index issued for the UTF-8 entry of `s`.
pub open spec fn utf8_idx(p: Seq<ConstantV>, s: Seq<char>) -> int {
    pool_idx(p, ConstantV::UTF8(s))
}

/// Pool after inserting the class entry for `s` and its UTF-8 dependency.
pub open spec fn after_class(p: Seq<ConstantV>, s: Seq<char>) -> Seq<ConstantV> {
    pool_ins(after_utf8(p, s), ConstantV::Class(utf8_idx(p, s) as u16))
}

/// Index issued for the class entry of `s`.
pub open spec fn class_idx(p: Seq<ConstantV>, s: Seq<char>) -> int {
    pool_idx(after_utf8(p, s), ConstantV::Class(utf8_idx(p, s) as u16))
}

/// Pool after inserting the string-literal entry for `s` and its UTF-8
/// dependency.
pub open spec fn after_string(p: Seq<ConstantV>, s: Seq<char>) -> Seq<ConstantV> {
    pool_ins(after_utf8(p, s), ConstantV::String(utf8_idx(p, s) as u16))
}

/// Index issued for the string-literal entry of `s`.
pub open spec fn string_idx(p: Seq<ConstantV>, s: Seq<char>) -> int {
    pool_idx(after_utf8(p, s), ConstantV::String(utf8_idx(p, s) as u16))
}

/// Pool after inserting the name-and-type entry for `name` and `t` and their
/// UTF-8 dependencies.
pub open spec fn after_nat(p: Seq<ConstantV>, name: Seq<char>, t: Seq<char>) -> Seq<ConstantV> {
    pool_ins(
        after_utf8(after_utf8(p, name), t),
        ConstantV::NameAndType(utf8_idx(p, name) as u16, utf8_idx(after_utf8(p, name), t) as u16),
    )
}

/// Index issued for the name-and-type entry of `name` and `t`.
pub open spec fn nat_idx(p: Seq<ConstantV>, name: Seq<char>, t: Seq<char>) -> int {
    pool_idx(
        after_utf8(after_utf8(p, name), t),
        ConstantV::NameAndType(utf8_idx(p, name) as u16, utf8_idx(after_utf8(p, name), t) as u16),
    )
}

/// Pool after inserting the reference entry of kind `k` and all its
/// dependencies.
pub open spec fn after_ref(
    p: Seq<ConstantV>,
    k: Ref,
    class: Seq<char>,
    name: Seq<char>,
    t: Seq<char>,
) -> Seq<ConstantV> {
    pool_ins(
        after_nat(after_class(p, class), name, t),
        ConstantV::Ref(
            k,
            class_idx(p, class) as u16,
            nat_idx(after_class(p, class), name, t) as u16,
        ),
    )
}

/// Index issued for the reference entry of kind `k`.
pub open spec fn ref_idx(
    p: Seq<ConstantV>,
    k: Ref,
    class: Seq<char>,
    name: Seq<char>,
    t: Seq<char>,
) -> int {
    pool_idx(
        after_nat(after_class(p, class), name, t),
        ConstantV::Ref(
            k,
            class_idx(p, class) as u16,
            nat_idx(after_class(p, class), name, t) as u16,
        ),
    )
}

/// The record tag of a reference kind.
pub open spec fn rec_tag(k: Ref) -> u8 {
    match k {
        Ref::Field => 9,
        Ref::Method => 10,
        Ref::InterfaceMethod => 11,
    }
}

/// The serialized record of one pool entry: its tag followed by its
/// payload; UTF-8 text is written as a length-prefixed byte sequence.
pub open spec fn record_bytes(c: ConstantV) -> Seq<u8> {
    match c {
        ConstantV::UTF8(t) => seq![1u8] + be16(encode_utf8(t).len() as u16) + encode_utf8(t),
        ConstantV::Class(i) => seq![7u8] + be16(i),
        ConstantV::String(i) => seq![8u8] + be16(i),
        ConstantV::NameAndType(n, t) => seq![12u8] + be16(n) + be16(t),
        ConstantV::Ref(k, c2, n) => seq![rec_tag(k)] + be16(c2) + be16(n),
    }
}

/// The records of all entries, concatenated in index order.
pub open spec fn records_bytes(p: Seq<ConstantV>) -> Seq<u8>
    decreases p.len(),
{
    if p.len() == 0 {
        Seq::<u8>::empty()
    } else {
        record_bytes(p[0]) + records_bytes(p.drop_first())
    }
}

/// The serialized pool section: the count (one more than the number of
/// entries) followed by the records in index order.
pub open spec fn pool_bytes(p: Seq<ConstantV>) -> Seq<u8> {
    be16((p.len() + 1) as u16) + records_bytes(p)
}

/// Appending one entry appends its record.
pub proof fn lemma_records_push(p: Seq<ConstantV>, c: ConstantV)
    ensures
        records_bytes(p.push(c)) == records_bytes(p) + record_bytes(c),
    decreases p.len(),
{
    if p.len() == 0 {
        let q = p.push(c);
        assert(q[0] == c);
        assert(q.drop_first() =~= Seq::<ConstantV>::empty());
        assert(records_bytes(Seq::<ConstantV>::empty()) == Seq::<u8>::empty());
        assert(records_bytes(q) =~= records_bytes(p) + record_bytes(c));
    } else {
        assert(p.push(c)[0] == p[0]);
        assert(p.push(c).drop_first() =~= p.drop_first().push(c));
        lemma_records_push(p.drop_first(), c);
        assert(records_bytes(p.push(c)) == record_bytes(p[0]) + records_bytes(
            p.drop_first().push(c),
        ));
        assert(records_bytes(p.push(c)) =~= records_bytes(p) + record_bytes(c));
    }
}

/// The records of a pool split at any position.
pub proof fn lemma_records_cat(p: Seq<ConstantV>, i: int)
    requires
        0 <= i <= p.len(),
    ensures
        records_bytes(p) == records_bytes(p.take(i)) + records_bytes(p.skip(i)),
    decreases i,
{
    if i == 0 {
        assert(p.take(0) =~= Seq::<ConstantV>::empty());
        assert(p.skip(0) =~= p);
        assert(records_bytes(p) =~= records_bytes(p.take(0)) + records_bytes(p.skip(0)));
    } else {
        lemma_records_cat(p, i - 1);
        assert(p.take(i) =~= p.take(i - 1).push(p[i - 1]));
        lemma_records_push(p.take(i - 1), p[i - 1]);
        assert(p.skip(i - 1)[0] == p[i - 1]);
        assert(p.skip(i - 1).drop_first() =~= p.skip(i));
        assert(records_bytes(p.skip(i - 1)) == record_bytes(p[i - 1]) + records_bytes(p.skip(i)));
        assert(records_bytes(p.take(i)) + records_bytes(p.skip(i)) =~= records_bytes(
            p.take(i - 1),
        ) + records_bytes(p.skip(i - 1)));
    }
}

impl ConstantPool {
    /// Serializes the pool section: the count, then one tagged record per
    /// entry in index order.
    pub fn serialize(&self) -> (r: Vec<u8>)
        requires
            self.wf(),
            pool_bytes(self@).len() <= BUF_CAP,
        ensures
            r@ == pool_bytes(self@),
    {
        let mut buf = buf_new();
        proof {
            assert(pool_bytes(self@).len() >= 2);
        }
        put_u16(&mut buf, self.count + 1);
        proof {
            assert(buf_view(buf) =~= be16(((self@.len() + 1) as u16)));
            assert(self@.take(0) =~= Seq::<ConstantV>::empty());
            assert(buf_view(buf) + records_bytes(self@.take(0)) =~= buf_view(buf));
        }
        let mut i: usize = 0;
        while i < self.pool.len()
            invariant
                self.wf(),
                pool_bytes(self@).len() <= BUF_CAP,
                i <= self.pool.len(),
                self@.len() == self.pool.len(),
                buf_view(buf) == be16(((self@.len() + 1) as u16)) + records_bytes(
                    self@.take(i as int),
                ),
            decreases self.pool.len() - i,
        {
            proof {
                lemma_records_cat(self@, i as int);
                assert(self@.skip(i as int)[0] == self@[i as int]);
                assert(self@.skip(i as int).drop_first() =~= self@.skip(i as int + 1));
                assert(records_bytes(self@.skip(i as int)) == record_bytes(self@[i as int])
                    + records_bytes(self@.skip(i as int + 1)));
                assert(buf_view(buf).len() + record_bytes(self@[i as int]).len() <= pool_bytes(
                    self@,
                ).len());
                assert(self@[i as int] == self.pool@[i as int]@);
            }
            let ghost buf0 = buf_view(buf);
            match &self.pool[i] {
                Constant::UTF8(s) => {
                    let bs = s.as_str().as_bytes();
                    proof {
                        assert(bs@ == encode_utf8(s@));
                    }
                    put_u8(&mut buf, 1);
                    put_u16(&mut buf, bs.len() as u16);
                    put_slice(&mut buf, bs);
                    proof {
                        assert(buf_view(buf) =~= buf0 + record_bytes(self@[i as int]));
                    }
                },
                Constant::Class(x) => {
                    put_u8(&mut buf, 7);
                    put_u16(&mut buf, *x);
                    proof {
                        assert(buf_view(buf) =~= buf0 + record_bytes(self@[i as int]));
                    }
                },
                Constant::String(x) => {
                    put_u8(&mut buf, 8);
                    put_u16(&mut buf, *x);
                    proof {
                        assert(buf_view(buf) =~= buf0 + record_bytes(self@[i as int]));
                    }
                },
                Constant::NameAndType(n, t) => {
                    put_u8(&mut buf, 12);
                    put_u16(&mut buf, *n);
                    put_u16(&mut buf, *t);
                    proof {
                        assert(buf_view(buf) =~= buf0 + record_bytes(self@[i as int]));
                    }
                },
                Constant::Ref(k, c2, n) => {
                    let tag: u8 = match k {
                        Ref::Field => 9,
                        Ref::Method => 10,
                        Ref::InterfaceMethod => 11,
                    };
                    put_u8(&mut buf, tag);
                    put_u16(&mut buf, *c2);
                    put_u16(&mut buf, *n);
                    proof {
                        assert(buf_view(buf) =~= buf0 + record_bytes(self@[i as int]));
                    }
                },
            }
            proof {
                assert(self@.take(i as int + 1) =~= self@.take(i as int).push(self@[i as int]));
                lemma_records_push(self@.take(i as int), self@[i as int]);
                assert(buf_view(buf) =~= be16(((self@.len() + 1) as u16)) + records_bytes(
                    self@.take(i as int + 1),
                ));
            }
            i = i + 1;
        }
        proof {
            assert(self@.take(self.pool.len() as int) =~= self@);
        }
        buf_to_vec(&buf)
    }
}

/// How the first occurrence of `c` moves when an entry is appended.
pub proof fn lemma_pool_find_push(p: Seq<ConstantV>, x: ConstantV, c: ConstantV)
    ensures
        pool_find(p.push(x), c) == if pool_find(p, c) >= 0 {
            pool_find(p, c)
        } else if c == x {
            p.len() as int
        } else {
            -1
        },
    decreases p.len(),
{
    lemma_pool_find(p, c);
    if p.len() == 0 {
        assert(p.push(x)[0] == x);
        assert(p.push(x).drop_first() =~= Seq::<ConstantV>::empty());
        assert(pool_find(p, c) == -1);
        if c == x {
            assert(pool_find(p.push(x), c) == 0);
        } else {
            assert(pool_find(p.push(x).drop_first(), c) == -1);
            assert(pool_find(p.push(x), c) == -1);
        }
    } else {
        assert(p.push(x)[0] == p[0]);
        assert(p.push(x).drop_first() =~= p.drop_first().push(x));
        lemma_pool_find_push(p.drop_first(), x, c);
        if p[0] == c {
            assert(pool_find(p, c) == 0);
            assert(pool_find(p.push(x), c) == 0);
        } else {
            let r = pool_find(p.drop_first().push(x), c);
            assert(pool_find(p.push(x), c) == if r < 0 {
                -1
            } else {
                r + 1
            });
            lemma_pool_find(p.drop_first(), c);
        }
    }
}

/// Law: requesting the same constant twice issues the same index both
/// times. Every composite entry point deduplicates each of its dependent
/// entries through the same request, so this holds at every level.
pub proof fn lemma_pool_dedup_same(p: Seq<ConstantV>, c: ConstantV)
    requires
        pool_wf(p),
    ensures
        pool_idx(pool_ins(p, c), c) == pool_idx(p, c),
{
    lemma_pool_find(p, c);
    if !pool_contains(p, c) && p.len() < POOL_CAP {
        lemma_pool_find_push(p, c, c);
    }
}

/// Law: an index, once issued, is never reassigned: later requests for
/// other constants leave it unchanged.
pub proof fn lemma_pool_index_stable(p: Seq<ConstantV>, c: ConstantV, d: ConstantV)
    requires
        pool_wf(p),
        pool_contains(p, c),
    ensures
        pool_idx(pool_ins(p, d), c) == pool_idx(p, c),
{
    lemma_pool_find(p, c);
    lemma_pool_find(p, d);
    if !pool_contains(p, d) && p.len() < POOL_CAP {
        lemma_pool_find_push(p, d, c);
    }
}

/// Law: two distinct constants always receive two distinct indices.
pub proof fn lemma_pool_dedup_distinct(p: Seq<ConstantV>, c1: ConstantV, c2: ConstantV)
    requires
        pool_wf(p),
        c1 != c2,
        p.len() + 2 <= POOL_CAP,
    ensures
        pool_idx(pool_ins(p, c1), c2) != pool_idx(p, c1),
{
    lemma_pool_find(p, c1);
    lemma_pool_find(p, c2);
    let p1 = pool_ins(p, c1);
    lemma_pool_ins_wf(p, c1);
    if pool_contains(p, c1) {
        if pool_contains(p, c2) {
            assert(p[pool_find(p, c1)] == c1);
            assert(p[pool_find(p, c2)] == c2);
            assert(pool_find(p, c1) != pool_find(p, c2));
        }
    } else {
        lemma_pool_find_push(p, c1, c2);
        lemma_pool_find_push(p, c1, c1);
    }
}

/// The integer a big-endian byte pair denotes.
pub open spec fn u16_of(hi: u8, lo: u8) -> int {
    hi * 256 + lo
}

/// Decoding a big-endian pair recovers the encoded integer.
pub proof fn lemma_be16_decode(x: u16)
    ensures
        u16_of(be16(x)[0], be16(x)[1]) == x,
{
    assert(((x >> 8) as u8) as int * 256 + (x as u8) as int == x as int) by (bit_vector);
}

/// A conforming reader's view of one record: the entry it denotes and the
/// bytes that follow it.
pub open spec fn parse_record(b: Seq<u8>) -> Option<(ConstantV, Seq<u8>)> {
    if b.len() < 3 {
        None
    } else {
        let tag = b[0];
        if tag == 1 {
            let n = u16_of(b[1], b[2]);
            if b.len() < 3 + n {
                None
            } else {
                let payload = b.subrange(3, 3 + n);
                if valid_utf8(payload) {
                    Some((ConstantV::UTF8(decode_utf8(payload)), b.skip(3 + n)))
                } else {
                    None
                }
            }
        } else if tag == 7 {
            Some((ConstantV::Class(u16_of(b[1], b[2]) as u16), b.skip(3)))
        } else if tag == 8 {
            Some((ConstantV::String(u16_of(b[1], b[2]) as u16), b.skip(3)))
        } else if tag == 12 {
            if b.len() < 5 {
                None
            } else {
                Some(
                    (
                        ConstantV::NameAndType(
                            u16_of(b[1], b[2]) as u16,
                            u16_of(b[3], b[4]) as u16,
                        ),
                        b.skip(5),
                    ),
                )
            }
        } else if tag == 9 || tag == 10 || tag == 11 {
            if b.len() < 5 {
                None
            } else {
                let k = if tag == 9 {
                    Ref::Field
                } else if tag == 10 {
                    Ref::Method
                } else {
                    Ref::InterfaceMethod
                };
                Some(
                    (
                        ConstantV::Ref(k, u16_of(b[1], b[2]) as u16, u16_of(b[3], b[4]) as u16),
                        b.skip(5),
                    ),
                )
            }
        } else {
            None
        }
    }
}

/// A conforming reader's view of `n` consecutive records.
pub open spec fn parse_records(b: Seq<u8>, n: nat) -> Option<Seq<ConstantV>>
    decreases n,
{
    if n == 0 {
        if b.len() == 0 {
            Some(Seq::<ConstantV>::empty())
        } else {
            None
        }
    } else {
        match parse_record(b) {
            None => None,
            Some(pr) => match parse_records(pr.1, (n - 1) as nat) {
                None => None,
                Some(rest) => Some(seq![pr.0] + rest),
            },
        }
    }
}

/// A conforming reader's view of a whole pool section: the count followed
/// by one fewer records.
pub open spec fn parse_pool(b: Seq<u8>) -> Option<Seq<ConstantV>> {
    if b.len() < 2 {
        None
    } else {
        let cnt = u16_of(b[0], b[1]);
        if cnt < 1 {
            None
        } else {
            parse_records(b.skip(2), (cnt - 1) as nat)
        }
    }
}

/// Whether an entry's record carries its full payload: UTF-8 text must fit
/// the record's 16-bit length field.
pub open spec fn record_fits(c: ConstantV) -> bool {
    match c {
        ConstantV::UTF8(t) => encode_utf8(t).len() <= 0xFFFF,
        _ => true,
    }
}

/// One record followed by anything reads back as exactly its entry.
pub proof fn lemma_parse_record(c: ConstantV, rest: Seq<u8>)
    requires
        record_fits(c),
    ensures
        parse_record(record_bytes(c) + rest) == Some((c, rest)),
{
    let b = record_bytes(c) + rest;
    match c {
        ConstantV::UTF8(t) => {
            let enc = encode_utf8(t);
            let n = enc.len() as int;
            lemma_be16_decode(n as u16);
            assert(b[0] == 1);
            assert(b[1] == be16(n as u16)[0] && b[2] == be16(n as u16)[1]);
            assert(u16_of(b[1], b[2]) == n);
            assert(b.len() == 3 + n + rest.len());
            assert(b.subrange(3, 3 + n) =~= enc);
            encode_utf8_valid_utf8(t);
            encode_utf8_decode_utf8(t);
            assert(b.skip(3 + n) =~= rest);
        },
        ConstantV::Class(i) => {
            lemma_be16_decode(i);
            assert(b[0] == 7 && b[1] == be16(i)[0] && b[2] == be16(i)[1]);
            assert(u16_of(b[1], b[2]) == i);
            assert(b.skip(3) =~= rest);
        },
        ConstantV::String(i) => {
            lemma_be16_decode(i);
            assert(b[0] == 8 && b[1] == be16(i)[0] && b[2] == be16(i)[1]);
            assert(u16_of(b[1], b[2]) == i);
            assert(b.skip(3) =~= rest);
        },
        ConstantV::NameAndType(n, t) => {
            lemma_be16_decode(n);
            lemma_be16_decode(t);
            assert(b[0] == 12);
            assert(b[1] == be16(n)[0] && b[2] == be16(n)[1]);
            assert(b[3] == be16(t)[0] && b[4] == be16(t)[1]);
            assert(b.skip(5) =~= rest);
        },
        ConstantV::Ref(k, c2, n) => {
            lemma_be16_decode(c2);
            lemma_be16_decode(n);
            assert(b[0] == rec_tag(k));
            assert(b[1] == be16(c2)[0] && b[2] == be16(c2)[1]);
            assert(b[3] == be16(n)[0] && b[4] == be16(n)[1]);
            assert(b.skip(5) =~= rest);
        },
    }
}

/// The records of a pool, followed by nothing, read back as exactly its
/// entries.
pub proof fn lemma_parse_records(p: Seq<ConstantV>)
    requires
        forall|i: int| 0 <= i < p.len() ==> record_fits(#[trigger] p[i]),
    ensures
        parse_records(records_bytes(p), p.len()) == Some(p),
    decreases p.len(),
{
    if p.len() == 0 {
        assert(records_bytes(p).len() == 0);
    } else {
        lemma_parse_record(p[0], records_bytes(p.drop_first()));
        assert(forall|i: int|
            0 <= i < p.drop_first().len() ==> record_fits(#[trigger] p.drop_first()[i]));
        lemma_parse_records(p.drop_first());
        assert(seq![p[0]] + p.drop_first() =~= p);
    }
}

/// Law: a serialized pool decodes, by a conforming reader, back to exactly
/// the entries that were inserted, in index order, with the count one more
/// than the number of entries.
pub proof fn lemma_pool_round_trip(p: Seq<ConstantV>)
    requires
        pool_wf(p),
        forall|i: int| 0 <= i < p.len() ==> record_fits(#[trigger] p[i]),
    ensures
        parse_pool(pool_bytes(p)) == Some(p),
{
    let b = pool_bytes(p);
    let cnt16 = (p.len() + 1) as u16;
    lemma_be16_decode(cnt16);
    assert(b[0] == be16(cnt16)[0] && b[1] == be16(cnt16)[1]);
    assert(u16_of(b[0], b[1]) == p.len() + 1);
    assert(b.skip(2) =~= records_bytes(p));
    lemma_parse_records(p);
}

/// Law: indices are dense. A fresh constant, inserted while there is room,
/// extends the pool by exactly one entry and receives the next index, so
/// after N distinct insertions the pool holds N entries and the serialized
/// count is N + 1.
pub proof fn lemma_pool_insert_fresh(p: Seq<ConstantV>, c: ConstantV)
    requires
        !pool_contains(p, c),
        p.len() < POOL_CAP,
    ensures
        pool_ins(p, c).len() == p.len() + 1,
        pool_idx(p, c) == p.len() + 1,
        pool_bytes(pool_ins(p, c))[0] == be16(((p.len() + 2) as u16))[0],
        pool_bytes(pool_ins(p, c))[1] == be16(((p.len() + 2) as u16))[1],
{
}

} // verus!
