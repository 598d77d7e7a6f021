use sarah::types::{make_optional, swift_optional_to_rust, swift_to_rust};

#[test]
fn primitives_map_correctly() {
    assert_eq!(swift_to_rust("Int").as_deref(), Some("i64"));
    assert_eq!(swift_to_rust("Bool").as_deref(), Some("bool"));
    assert_eq!(swift_to_rust("String").as_deref(), Some("String"));
    assert_eq!(swift_to_rust("Double").as_deref(), Some("f64"));
}

#[test]
fn optional_wraps_correctly() {
    assert_eq!(swift_optional_to_rust("Int"), Some("Option<i64>".to_owned()));
    assert_eq!(swift_optional_to_rust("Bool"), Some("Option<bool>".to_owned()));
}

#[test]
fn unknown_type_returns_none() {
    assert_eq!(swift_to_rust("MyCustomClass").as_deref(), None);
}

#[test]
fn whole_mapping_table() {
    let table = [
        ("Int", "i64"),
        ("Int8", "i8"),
        ("Int16", "i16"),
        ("Int32", "i32"),
        ("Int64", "i64"),
        ("UInt", "u64"),
        ("UInt8", "u8"),
        ("UInt16", "u16"),
        ("UInt32", "u32"),
        ("UInt64", "u64"),
        ("Float", "f32"),
        ("Double", "f64"),
        ("Bool", "bool"),
        ("String", "String"),
        ("Character", "char"),
        ("[String]", "Vec<String>"),
        ("[Int]", "Vec<i64>"),
        ("[Double]", "Vec<f64>"),
        ("[Bool]", "Vec<bool>"),
        ("[UInt8]", "Vec<u8>"),
        ("Void", "()"),
        ("()", "()"),
        ("", "()"),
    ];
    for (swift, rust) in table {
        assert_eq!(swift_to_rust(swift).as_deref(), Some(rust), "mapping of {swift:?}");
    }
}

#[test]
fn surrounding_whitespace_is_ignored() {
    assert_eq!(swift_to_rust("  Int \t").as_deref(), Some("i64"));
    assert_eq!(swift_to_rust("   ").as_deref(), Some("()"));
    assert_eq!(swift_to_rust("\u{3000}Bool\u{a0}").as_deref(), Some("bool"));
}

#[test]
fn case_matters_and_optionals_are_not_mapped_here() {
    assert_eq!(swift_to_rust("int").as_deref(), None);
    assert_eq!(swift_to_rust("Int?").as_deref(), None);
}

#[test]
fn arrays_of_any_mapped_type() {
    assert_eq!(swift_to_rust("[Float]").as_deref(), Some("Vec<f32>"));
    assert_eq!(swift_to_rust("[Character]").as_deref(), Some("Vec<char>"));
    assert_eq!(swift_to_rust("[ Int ]").as_deref(), Some("Vec<i64>"));
    assert_eq!(swift_to_rust("[[Int]]").as_deref(), Some("Vec<Vec<i64>>"));
    assert_eq!(swift_to_rust("[Void]").as_deref(), None);
    assert_eq!(swift_to_rust("[]").as_deref(), None);
    assert_eq!(swift_to_rust("[URL]").as_deref(), None);
    assert_eq!(swift_to_rust("[Int").as_deref(), None);
}

#[test]
fn dictionaries_of_mapped_types() {
    assert_eq!(swift_to_rust("[String: Int]").as_deref(), Some("HashMap<String, i64>"));
    assert_eq!(swift_to_rust("[String: [Double]]").as_deref(), Some("HashMap<String, Vec<f64>>"));
    assert_eq!(swift_to_rust("[[Int]: Bool]").as_deref(), Some("HashMap<Vec<i64>, bool>"));
    assert_eq!(swift_to_rust("[String: URL]").as_deref(), None);
    assert_eq!(swift_to_rust("[: Int]").as_deref(), None);
    assert_eq!(swift_optional_to_rust("[String: Bool]"), Some("Option<HashMap<String, bool>>".to_owned()));
}

#[test]
fn make_optional_wraps_any_text() {
    assert_eq!(make_optional("Vec<u8>"), "Option<Vec<u8>>");
    assert_eq!(make_optional(""), "Option<>");
}

#[test]
fn unknown_optional_is_none() {
    assert_eq!(swift_optional_to_rust("URL"), None);
    assert_eq!(swift_optional_to_rust(" [Int] "), Some("Option<Vec<i64>>".to_owned()));
}
