use sarah::parser::{parse, parse_is_total, SwiftFunc, SwiftParam};

#[test]
fn parses_struct_with_fields() {
    let src = r#"
struct Point {
    var x: Double
    var y: Double
    let label: String
}
"#;
    let f = parse(src);
    assert_eq!(f.structs.len(), 1);
    let s = &f.structs[0];
    assert_eq!(s.name, "Point");
    assert_eq!(s.fields.len(), 3);
    assert_eq!(s.fields[0].name, "x");
    assert_eq!(s.fields[0].rust_type(), Some("f64".into()));
    assert_eq!(s.fields[2].mutable, false);
}

#[test]
fn parses_enum_with_cases() {
    let src = r#"
enum Direction {
    case north
    case south
    case coordinate(Double, Double)
}
"#;
    let f = parse(src);
    assert_eq!(f.enums.len(), 1);
    let e = &f.enums[0];
    assert_eq!(e.cases.len(), 3);
    assert_eq!(e.cases[2].name, "coordinate");
    assert_eq!(e.cases[2].associated_types.len(), 2);
}

#[test]
fn parses_func_with_params_and_return() {
    let src = "func add(lhs: Int, rhs: Int) -> Int { lhs + rhs }";
    let f = parse(src);
    assert_eq!(f.funcs.len(), 1);
    let func = &f.funcs[0];
    assert_eq!(func.name, "add");
    assert_eq!(func.params.len(), 2);
    assert_eq!(func.return_type, "Int");
    assert_eq!(func.rust_signature(), "pub fn add(lhs: i64, rhs: i64) -> i64");
}

#[test]
fn optional_field_maps_to_option() {
    let src = r#"
struct User {
    var name: String
    var email: String?
}
"#;
    let f = parse(src);
    let user = &f.structs[0];
    assert_eq!(user.fields[1].rust_type(), Some("Option<String>".into()));
}

#[test]
fn class_with_deinit_detected() {
    let src = r#"
class Resource {
    var handle: Int
    deinit { close(handle) }
}
"#;
    let f = parse(src);
    assert_eq!(f.classes.len(), 1);
    assert!(f.classes[0].has_deinit);
}

#[test]
fn lines_are_numbered_from_one() {
    let src = "\nstruct A {\n}\nfunc f() {}\nenum E {\n  case a\n}\n";
    let f = parse(src);
    assert_eq!(f.structs[0].line, 2);
    assert_eq!(f.funcs[0].line, 4);
    assert_eq!(f.enums[0].line, 5);
}

#[test]
fn method_lines_are_source_lines() {
    let src = "class C {\n  var x: Int\n  func a() {}\n  static func b() -> Int { 0 }\n}";
    let f = parse(src);
    let m = &f.classes[0].methods;
    assert_eq!(m.len(), 2);
    assert_eq!(m[0].line, 3);
    assert_eq!(m[1].line, 4);
    assert!(m[1].is_static);
}

#[test]
fn superclass_is_first_name_after_colon() {
    let f = parse("class Dog: Animal, Codable {\n}\n");
    assert_eq!(f.classes[0].superclass.as_deref(), Some("Animal"));
    let g = parse("class Cat {\n}\n");
    assert_eq!(g.classes[0].superclass, None);
}

#[test]
fn field_with_default_and_computed_property() {
    let src = "struct S {\n  var a: Int = 3\n  var b: Int { 4 }\n  let c: String? = nil\n}";
    let f = parse(src);
    let fs = &f.structs[0].fields;
    assert_eq!(fs.len(), 2);
    assert_eq!(fs[0].swift_type, "Int");
    assert!(!fs[0].optional);
    assert_eq!(fs[1].name, "c");
    assert_eq!(fs[1].swift_type, "String");
    assert!(fs[1].optional);
    assert!(!fs[1].mutable);
}

#[test]
fn params_labels_defaults_and_optionals() {
    let f = parse("func m(to dest: String, _ x: Int? = nil, y: Bool) -> Void {}");
    let p = &f.funcs[0].params;
    assert_eq!(p.len(), 3);
    assert_eq!(p[0].label.as_deref(), Some("to"));
    assert_eq!(p[0].name, "dest");
    assert!(p[1].label.is_none());
    assert!(p[1].optional);
    assert!(p[1].has_default);
    assert_eq!(p[1].swift_type, "Int");
    assert_eq!(p[2].name, "y");
    assert_eq!(f.funcs[0].rust_signature(), "pub fn m(dest: String, x: Option<i64>, y: bool) -> ()");
}

#[test]
fn unmapped_and_throwing_signature() {
    let f = parse("func load(url: URL) throws -> Data {");
    let func = &f.funcs[0];
    assert!(func.is_throws);
    assert_eq!(func.return_type, "Data");
    assert_eq!(func.rust_signature(), "pub fn load() /* throws */ -> () /* UNMAPPED */");
}

#[test]
fn unterminated_body_runs_to_end() {
    let f = parse("struct Open {\n  var a: Int\n  var b: Int\n");
    assert_eq!(f.structs.len(), 1);
    assert_eq!(f.structs[0].fields.len(), 2);
}

#[test]
fn generic_declaration_name() {
    let f = parse("struct Box<T> {\n  var value: Int\n}\n");
    assert_eq!(f.structs[0].name, "Box");
}

#[test]
fn empty_case_parentheses_give_one_empty_type() {
    let f = parse("enum E {\n  case a()\n  case b(x: Int, y: Double)\n}");
    let cs = &f.enums[0].cases;
    assert_eq!(cs[0].associated_types, vec![String::new()]);
    assert_eq!(cs[1].associated_types, vec!["Int".to_string(), "Double".to_string()]);
}

#[test]
fn readability_check() {
    assert!(parse_is_total("func f(a: Int) {}"));
    assert!(!parse_is_total("func f) -> Int ("));
    assert!(!parse_is_total("enum E {\n  case a)(\n}"));
    assert!(parse_is_total("enum E {\n  case a(Int\n}"));
    assert!(parse_is_total(""));
}

#[test]
fn param_and_field_rust_types() {
    let p = SwiftParam {
        label: None,
        name: "n".to_string(),
        swift_type: "Int".to_string(),
        optional: true,
        has_default: false,
    };
    assert_eq!(p.rust_type(), Some("Option<i64>".to_string()));
    assert_eq!(p.as_rust_arg(), Some("n: Option<i64>".to_string()));
    let q = SwiftParam { swift_type: "Thing".to_string(), ..p.clone() };
    assert_eq!(q.as_rust_arg(), None);
    let f = SwiftFunc {
        name: "go".to_string(),
        params: vec![p, q],
        return_type: "Bool".to_string(),
        is_async: false,
        is_throws: false,
        is_static: false,
        line: 1,
    };
    assert_eq!(f.rust_signature(), "pub fn go(n: Option<i64>) -> bool");
}

#[test]
fn session_manager_methods_carry_source_lines() {
    let src = "\nclass SessionManager {\n    var token: String\n    func login(user: String) {}\n    async func refresh() throws {}\n}\n";
    let f = parse(src);
    let m = &f.classes[0].methods;
    assert_eq!(m.len(), 2);
    assert_eq!(m[0].name, "login");
    assert!(m[1].is_async && m[1].is_throws);
    assert_eq!(m[0].line, 4);
    assert_eq!(m[1].line, 5);
}

#[test]
fn brace_on_next_line_starts_the_body() {
    let f = parse("struct S\n{\n  func a() {}\n}\n");
    assert_eq!(f.structs[0].methods[0].line, 3);
}

#[test]
fn access_modified_fields_are_kept() {
    let f = parse("\npublic struct Point {\n    public var x: Double\n    private let y: Double\n}\n");
    let s = &f.structs[0];
    assert_eq!(s.name, "Point");
    assert_eq!(s.fields.len(), 2);
    assert_eq!(s.fields[0].name, "x");
    assert!(s.fields[0].mutable);
    assert_eq!(s.fields[1].name, "y");
    assert!(!s.fields[1].mutable);
}

#[test]
fn closure_parameter_arrow_is_not_the_return_type() {
    let f = parse("func run(_ work: () -> Void) {}");
    let func = &f.funcs[0];
    assert_eq!(func.name, "run");
    assert_eq!(func.params.len(), 1);
    assert_eq!(func.params[0].name, "work");
    assert!(func.params[0].label.is_none());
    assert_eq!(func.return_type, "Void");
    assert_eq!(func.line, 1);
}

#[test]
fn return_type_after_closure_parameter() {
    let f = parse("func map(_ g: (Int) -> Int) -> [Int] {}");
    assert_eq!(f.funcs[0].return_type, "[Int]");
}

#[test]
fn nameless_declarations_are_unknown() {
    let f = parse("struct {\n}\nclass {\n}\n");
    assert_eq!(f.structs[0].name, "Unknown");
    assert_eq!(f.classes[0].name, "Unknown");
    let g = parse("enum E {\n  case (Int)\n}\nfunc (x: Int) {}\nstruct S {\n  var : Int\n}\n");
    assert_eq!(g.enums[0].cases[0].name, "Unknown");
    assert_eq!(g.funcs[0].name, "Unknown");
    assert_eq!(g.structs[0].fields[0].name, "Unknown");
}

#[test]
fn optional_type_never_keeps_a_question_mark() {
    let f = parse("struct S {\n  var a: Int? ?\n  var b: String??\n}\n");
    let fs = &f.structs[0].fields;
    assert_eq!(fs[0].swift_type, "Int");
    assert!(fs[0].optional);
    assert_eq!(fs[1].swift_type, "String");
    assert!(fs[1].optional);
}

#[test]
fn case_lists_give_one_case_each() {
    let f = parse("enum Color {\n  case red, green, blue\n  case rgb(Int, Int, Int), named(String)\n}\n");
    let cs = &f.enums[0].cases;
    assert_eq!(cs.len(), 5);
    assert_eq!(cs[0].name, "red");
    assert_eq!(cs[1].name, "green");
    assert_eq!(cs[2].name, "blue");
    assert_eq!(cs[3].name, "rgb");
    assert_eq!(cs[3].associated_types, vec!["Int".to_string(), "Int".to_string(), "Int".to_string()]);
    assert_eq!(cs[4].name, "named");
    assert_eq!(cs[4].associated_types, vec!["String".to_string()]);
}

#[test]
fn direction_enum_has_two_cases() {
    let f = parse("enum Direction { case north, south }");
    assert_eq!(f.enums.len(), 1);
    let g = parse("enum Direction {\n  case north, south\n}");
    assert_eq!(g.enums[0].cases.len(), 2);
    assert_eq!(g.enums[0].cases[1].name, "south");
}
