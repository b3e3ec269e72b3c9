use leac::constant_pool::{ConstantPool, Ref};

fn be16(b: &[u8], i: usize) -> u16 {
    ((b[i] as u16) << 8) | b[i + 1] as u16
}

#[derive(Debug, PartialEq)]
enum Rec {
    Utf8(String),
    Class(u16),
    Str(u16),
    Nat(u16, u16),
    RefRec(u8, u16, u16),
}

fn decode_pool(b: &[u8]) -> (u16, Vec<Rec>) {
    let cnt = be16(b, 0);
    let mut recs = Vec::new();
    let mut i = 2;
    for _ in 0..cnt - 1 {
        match b[i] {
            1 => {
                let n = be16(b, i + 1) as usize;
                let text = String::from_utf8(b[i + 3..i + 3 + n].to_vec()).unwrap();
                recs.push(Rec::Utf8(text));
                i += 3 + n;
            }
            7 => {
                recs.push(Rec::Class(be16(b, i + 1)));
                i += 3;
            }
            8 => {
                recs.push(Rec::Str(be16(b, i + 1)));
                i += 3;
            }
            12 => {
                recs.push(Rec::Nat(be16(b, i + 1), be16(b, i + 3)));
                i += 5;
            }
            t @ (9 | 10 | 11) => {
                recs.push(Rec::RefRec(t, be16(b, i + 1), be16(b, i + 3)));
                i += 5;
            }
            t => panic!("unknown tag {t}"),
        }
    }
    assert_eq!(i, b.len());
    (cnt, recs)
}

#[test]
fn utf8_dedup_direct() {
    let mut p = ConstantPool::new();
    let i1 = p.insert_utf8("hello".to_string());
    let i2 = p.insert_utf8("hello".to_string());
    assert_eq!(i1, 1);
    assert_eq!(i1, i2);
    let j = p.insert_utf8("world".to_string());
    assert_eq!(j, 2);
    assert_ne!(i1, j);
}

#[test]
fn utf8_dedup_via_class() {
    let mut p = ConstantPool::new();
    let u = p.insert_utf8("Main".to_string());
    let c = p.insert_class("Main".to_string());
    assert_eq!(u, 1);
    assert_eq!(c, 2);
    assert_eq!(p.insert_utf8("Main".to_string()), u);
    assert_eq!(p.insert_class("Main".to_string()), c);
}

#[test]
fn utf8_dedup_via_ref() {
    let mut p = ConstantPool::new();
    let r = p.insert_ref(
        Ref::Field,
        "C".to_string(),
        "n".to_string(),
        "T".to_string(),
    );
    // dependencies: C=1, Class(C)=2, n=3, T=4, NameAndType=5, the reference=6
    assert_eq!(r, 6);
    assert_eq!(p.insert_utf8("n".to_string()), 3);
    assert_eq!(p.insert_utf8("T".to_string()), 4);
    assert_eq!(p.insert_class("C".to_string()), 2);
    assert_eq!(p.insert_name_and_type("n".to_string(), "T".to_string()), 5);
    assert_eq!(
        p.insert_ref(Ref::Field, "C".to_string(), "n".to_string(), "T".to_string()),
        r
    );
}

#[test]
fn string_entry_reuses_text() {
    let mut p = ConstantPool::new();
    let u = p.insert_utf8("hi".to_string());
    let s = p.insert_string("hi".to_string());
    assert_eq!(u, 1);
    assert_eq!(s, 2);
    let (_, recs) = decode_pool(&p.serialize());
    assert_eq!(recs[1], Rec::Str(1));
}

#[test]
fn index_density_and_round_trip() {
    let mut p = ConstantPool::new();
    p.insert_utf8("alpha".to_string());
    p.insert_utf8("beta".to_string());
    let c = p.insert_class("gamma".to_string());
    let n = p.insert_name_and_type("f".to_string(), "(I)V".to_string());
    let r = p.insert_ref(
        Ref::Method,
        "gamma".to_string(),
        "f".to_string(),
        "(I)V".to_string(),
    );
    let bytes = p.serialize();
    let (cnt, recs) = decode_pool(&bytes);
    // 8 distinct entries were created
    assert_eq!(cnt, 9);
    assert_eq!(recs.len(), 8);
    assert_eq!(recs[0], Rec::Utf8("alpha".to_string()));
    assert_eq!(recs[1], Rec::Utf8("beta".to_string()));
    assert_eq!(recs[2], Rec::Utf8("gamma".to_string()));
    assert_eq!(recs[3], Rec::Class(3));
    assert_eq!(c, 4);
    assert_eq!(recs[4], Rec::Utf8("f".to_string()));
    assert_eq!(recs[5], Rec::Utf8("(I)V".to_string()));
    assert_eq!(recs[6], Rec::Nat(5, 6));
    assert_eq!(n, 7);
    assert_eq!(recs[7], Rec::RefRec(10, 4, 7));
    assert_eq!(r, 8);
}

#[test]
fn serialize_exact_bytes() {
    let mut p = ConstantPool::new();
    p.insert_utf8("AB".to_string());
    assert_eq!(p.serialize(), vec![0, 2, 1, 0, 2, 65, 66]);
}

#[test]
fn serialize_multibyte_text() {
    let mut p = ConstantPool::new();
    p.insert_utf8("é".to_string());
    // the record length counts UTF-8 bytes, not characters
    assert_eq!(p.serialize(), vec![0, 2, 1, 0, 2, 0xC3, 0xA9]);
}

#[test]
fn empty_pool_serializes_count_one() {
    let p = ConstantPool::new();
    assert_eq!(p.serialize(), vec![0, 1]);
}
