use sarah::parser::parse;

#[test]
fn rt_empty_file() {
    let f = parse("");
    assert!(f.structs.is_empty() && f.enums.is_empty() && f.classes.is_empty() && f.funcs.is_empty());
}

#[test]
fn rt_simple_struct() {
    let src = r#"
struct Point {
    var x: Double
    var y: Double
    let label: String
}
"#;
    let ts = parse(src);
    assert_eq!(ts.structs.len(), 1);
    assert_eq!(ts.structs[0].fields.len(), 3);
}

#[test]
fn rt_optional_field() {
    let src = r#"
struct User {
    var name: String
    var email: String?
    let id: Int
}
"#;
    let ts = parse(src);
    assert!(ts.structs[0].fields[1].optional);
    assert!(!ts.structs[0].fields[0].optional);
}

#[test]
fn rt_simple_enum() {
    let src = r#"
enum Direction {
    case north
    case south
    case east
    case west
}
"#;
    let ts = parse(src);
    assert_eq!(ts.enums[0].cases.len(), 4);
}

#[test]
fn rt_enum_with_associated_values() {
    let src = r#"
enum Shape {
    case circle(Double)
    case rectangle(Double, Double)
    case point
}
"#;
    let ts = parse(src);
    assert_eq!(ts.enums[0].cases[0].associated_types.len(), 1);
    assert_eq!(ts.enums[0].cases[1].associated_types.len(), 2);
    assert!(ts.enums[0].cases[2].associated_types.is_empty());
}

#[test]
fn rt_simple_class() {
    let src = r#"
class Counter {
    var count: Int
    let name: String
}
"#;
    let ts = parse(src);
    assert_eq!(ts.classes[0].fields.len(), 2);
    assert!(!ts.classes[0].has_deinit);
}

#[test]
fn rt_class_with_deinit() {
    let src = r#"
class Resource {
    var handle: Int
    deinit { closeHandle(handle) }
}
"#;
    let ts = parse(src);
    assert!(ts.classes[0].has_deinit);
}

#[test]
fn rt_top_level_func_no_params() {
    let ts = parse("func greet() {}");
    assert_eq!(ts.funcs[0].name, "greet");
    assert!(ts.funcs[0].params.is_empty());
    assert_eq!(ts.funcs[0].return_type, "Void");
}

#[test]
fn rt_func_with_params_and_return() {
    let ts = parse("func add(lhs: Int, rhs: Int) -> Int { lhs + rhs }");
    assert_eq!(ts.funcs[0].params.len(), 2);
    assert_eq!(ts.funcs[0].return_type, "Int");
}

#[test]
fn rt_async_func() {
    let ts = parse("async func fetchData() throws -> String {}");
    assert!(ts.funcs[0].is_async);
    assert!(ts.funcs[0].is_throws);
}

#[test]
fn rt_static_func() {
    let ts = parse("static func make() -> Int { 0 }");
    assert!(ts.funcs[0].is_static);
}

#[test]
fn rt_func_external_label() {
    let ts = parse("func move(to destination: String) {}");
    let param = &ts.funcs[0].params[0];
    assert_eq!(param.label.as_deref(), Some("to"));
    assert_eq!(param.name, "destination");
}

#[test]
fn rt_func_underscore_label() {
    let ts = parse("func log(_ message: String) {}");
    assert!(ts.funcs[0].params[0].label.is_none());
}

#[test]
fn rt_class_with_methods() {
    let src = r#"
class SessionManager {
    var token: String
    func login(user: String) {}
    async func refresh() throws {}
}
"#;
    let ts = parse(src);
    assert_eq!(ts.classes[0].methods.len(), 2);
    assert!(ts.classes[0].methods[1].is_async);
}

#[test]
fn rt_struct_with_methods() {
    let src = r#"
struct Vector {
    var x: Double
    var y: Double
    func length() -> Double { 0.0 }
}
"#;
    let ts = parse(src);
    assert_eq!(ts.structs[0].methods.len(), 1);
}

#[test]
fn rt_multiple_declarations() {
    let src = r#"
struct Config {
    var timeout: Int
}

enum Status {
    case active
    case inactive
}

class Manager {
    var config: Config
}

func start() {}
"#;
    let ts = parse(src);
    assert_eq!(ts.structs.len(), 1);
    assert_eq!(ts.enums.len(), 1);
    assert_eq!(ts.classes.len(), 1);
    assert_eq!(ts.funcs.len(), 1);
}

#[test]
fn rt_public_access_modifier() {
    let src = r#"
public struct Point {
    public var x: Double
    public var y: Double
}
"#;
    let ts = parse(src);
    assert_eq!(ts.structs[0].name, "Point");
}
