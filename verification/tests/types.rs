use leac::ty::{Descriptor, Type, TypeId};

#[test]
fn parse_known_tokens() {
    assert!(matches!(TypeId::parse("i8"), TypeId::I8));
    assert!(matches!(TypeId::parse("i16"), TypeId::I16));
    assert!(matches!(TypeId::parse("i32"), TypeId::I32));
    assert!(matches!(TypeId::parse("i64"), TypeId::I64));
    assert!(matches!(TypeId::parse("char"), TypeId::Char));
    assert!(matches!(TypeId::parse("bool"), TypeId::Bool));
}

#[test]
fn parse_unknown_token_is_named_type() {
    match TypeId::parse("Point") {
        TypeId::Other(s) => assert_eq!(s, "Point"),
        t => panic!("expected a named type, got {t:?}"),
    }
}

#[test]
fn primitive_descriptors() {
    assert_eq!(Type::new(TypeId::I8, false).to_string(), "B");
    assert_eq!(Type::new(TypeId::I16, false).to_string(), "S");
    assert_eq!(Type::new(TypeId::I32, false).to_string(), "I");
    assert_eq!(Type::new(TypeId::I64, false).to_string(), "J");
    assert_eq!(Type::new(TypeId::Char, false).to_string(), "C");
    assert_eq!(Type::new(TypeId::Bool, false).to_string(), "Z");
    assert_eq!(Type::new(TypeId::Void, false).to_string(), "V");
}

#[test]
fn named_descriptors_expand_aliases() {
    assert_eq!(
        Type::new(TypeId::Other("Object".to_string()), false).to_string(),
        "Ljava/lang/Object;"
    );
    assert_eq!(
        Type::new(TypeId::Other("String".to_string()), false).to_string(),
        "Ljava/lang/String;"
    );
    assert_eq!(
        Type::new(TypeId::Other("Point".to_string()), false).to_string(),
        "Point"
    );
}

#[test]
fn array_descriptors_prefix_bracket() {
    assert_eq!(Type::new(TypeId::I32, true).to_string(), "[I");
    assert_eq!(
        Type::new(TypeId::Other("String".to_string()), true).to_string(),
        "[Ljava/lang/String;"
    );
}

#[test]
fn descriptor_string_layout() {
    let d = Descriptor::new(
        vec![
            Type::new(TypeId::I32, false),
            Type::new(TypeId::Other("String".to_string()), false),
            Type::new(TypeId::Bool, true),
        ],
        Type::new(TypeId::Void, false),
    );
    assert_eq!(d.to_string(), "(ILjava/lang/String;[Z)V");
}

#[test]
fn empty_descriptor() {
    let d = Descriptor::new(vec![], Type::new(TypeId::Void, false));
    assert_eq!(d.to_string(), "()V");
}

/// A small conforming reader for descriptor strings: splits one into its
/// argument tokens plus the return token.
fn tokenize(desc: &str) -> Vec<String> {
    let cs: Vec<char> = desc.chars().collect();
    assert_eq!(cs[0], '(');
    let mut toks = Vec::new();
    let mut i = 1;
    let mut ret_seen = false;
    while i < cs.len() {
        if cs[i] == ')' {
            ret_seen = true;
            i += 1;
            continue;
        }
        let start = i;
        if cs[i] == '[' {
            i += 1;
        }
        if cs[i] == 'L' {
            while cs[i] != ';' {
                i += 1;
            }
            i += 1;
        } else {
            assert!("BSIJCZV".contains(cs[i]));
            i += 1;
        }
        toks.push(cs[start..i].iter().collect());
    }
    assert!(ret_seen);
    toks
}

#[test]
fn descriptor_round_trip() {
    let args = vec![
        Type::new(TypeId::I8, false),
        Type::new(TypeId::I64, true),
        Type::new(TypeId::Other("Object".to_string()), false),
        Type::new(TypeId::Other("String".to_string()), true),
        Type::new(TypeId::Char, false),
    ];
    let expect: Vec<String> = vec![
        "B".into(),
        "[J".into(),
        "Ljava/lang/Object;".into(),
        "[Ljava/lang/String;".into(),
        "C".into(),
        "I".into(),
    ];
    let d = Descriptor::new(args, Type::new(TypeId::I32, false));
    assert_eq!(tokenize(&d.to_string()), expect);
}
