use sarah::classify::classify_file;
use sarah::codegen::{lower_tier1, lower_tier1_with_ir, transpile, transpile_with_ir, AsyncMode};
use sarah::parser::parse;

fn path() -> &'static str {
    "test.swift"
}

#[test]
fn struct_with_fields_emits_correct_rust() {
    let src = r#"struct Point {
    var x: Double
    var y: Double
    let label: String
}"#;
    let ir = parse(src);
    let cr = classify_file(path(), src);
    let out = transpile_with_ir(&cr, &ir, AsyncMode::Bridge);
    assert!(out.contains("pub x: f64"));
    assert!(out.contains("pub y: f64"));
    assert!(out.contains("pub label: String"));
    assert!(out.contains("uniffi::Record"));
}

#[test]
fn enum_with_cases_emits_variants() {
    let src = r#"enum Direction {
    case north
    case south
    case coordinate(Double, Double)
}"#;
    let ir = parse(src);
    let cr = classify_file(path(), src);
    let out = transpile_with_ir(&cr, &ir, AsyncMode::Bridge);
    assert!(out.contains("north,"));
    assert!(out.contains("south,"));
    assert!(out.contains("coordinate(f64, f64)"));
}

#[test]
fn class_emits_arc_mutex_with_fields() {
    let src = r#"class SessionManager {
    var token: String
    var userId: Int
}"#;
    let ir = parse(src);
    let cr = classify_file(path(), src);
    let out = transpile_with_ir(&cr, &ir, AsyncMode::Bridge);
    assert!(out.contains("pub token: String"));
    assert!(out.contains("pub userId: i64"));
    assert!(out.contains("Arc::new"));
    assert!(out.contains("Mutex::new"));
}

#[test]
fn async_func_emits_callback_interface() {
    let src = "async func loadData() {}";
    let ir = parse(src);
    let cr = classify_file(path(), src);
    let out = transpile_with_ir(&cr, &ir, AsyncMode::Bridge);
    assert!(out.contains("callback_interface"));
    assert!(out.contains("tokio::spawn"));
}

const PREAMBLE: &str = "// Generated by sarah-cli — DO NOT EDIT\n// Source: test.swift\n// Phase 2b output — IR-aware Tier 1 / Tier 2 lowering\n// See: SPEC-002, SPEC-003, SPEC-004, SPEC-006\n\nuse std::sync::{Arc, Mutex};\n\n";

#[test]
fn exact_struct_output() {
    let src = "struct P {\n  var x: Int?\n  var u: URL\n}";
    let out = lower_tier1_with_ir(&classify_file(path(), src), &parse(src));
    let expected = format!(
        "{PREAMBLE}/// Transpiled from Swift `struct P` (SPEC-002 Tier 1)\n#[derive(Debug, Clone, uniffi::Record)]\npub struct P {{\n    pub x: Option<i64>,\n    pub u: () /* UNMAPPED: URL */,\n}}\n\n"
    );
    assert_eq!(out, expected);
}

#[test]
fn exact_native_async_and_empty_enum() {
    let src = "enum E {\n}\nasync func go() {}";
    let out = transpile_with_ir(&classify_file(path(), src), &parse(src), AsyncMode::Native);
    let expected = format!(
        "{PREAMBLE}/// Transpiled from Swift `enum E` (SPEC-002 Tier 1)\n#[derive(Debug, Clone, uniffi::Enum)]\npub enum E {{\n    // (no cases)\n}}\n\n/// Transpiled from Swift `async func go` (native UniFFI async — Stage 2)\n#[uniffi::export]\npub async fn go() {{\n\ttodo!(\"Phase 2c: implement go\")\n}}\n\n"
    );
    assert_eq!(out, expected);
}

#[test]
fn class_notes_defaults_and_methods() {
    let src = "class Dog: Animal {\n  var a: Int\n  let b: Bool\n  func bark() {}\n  deinit {}\n}";
    let out = transpile_with_ir(&classify_file(path(), src), &parse(src), AsyncMode::Bridge);
    assert!(out.contains("/// NOTE: Swift `deinit` present — Drop impl required (SPEC-003, CLASS-DEINIT)\n/// NOTE: superclass `Animal` — flattened to composition (CLASS-SUBCLASS)\n"));
    assert!(out.contains("Mutex::new(DogInner { a: Default::default(), b: Default::default() })"));
    assert!(out.contains("pub fn bark() -> () {\n\ttodo!(\"Phase 2c: implement bark\")\n}\n\n"));
}

#[test]
fn tier3_declarations_are_noted() {
    let src = "protocol P {\n  associatedtype T\n}";
    let out = transpile_with_ir(&classify_file(path(), src), &parse(src), AsyncMode::Bridge);
    assert!(out.ends_with("// TIER-3 SKIP: `P` (protocol) is Shell-only — see T3 diagnostics.\n\n"));
}

#[test]
fn classify_only_path() {
    let src = "struct S {}\nclass C {}\nfunc f() {}";
    let out = lower_tier1(&classify_file(path(), src));
    assert!(out.starts_with(PREAMBLE));
    assert!(out.contains("pub struct S {\n    // fields: run `sarah transpile` for full IR output\n}\n\n"));
    assert!(out.contains("pub struct C { inner: Mutex<CInner> }\n"));
    assert!(out.ends_with("#[uniffi::export]\npub fn f() { todo!() }\n\n"));
    let native = transpile(&classify_file(path(), "async func g() {}"), AsyncMode::Native);
    assert!(native.contains("pub async fn g() {"));
}

#[test]
fn async_mode_names() {
    assert_eq!(AsyncMode::from_name("bridge"), Ok(AsyncMode::Bridge));
    assert_eq!(AsyncMode::from_name("native"), Ok(AsyncMode::Native));
    assert_eq!(AsyncMode::from_name("x"), Err("unknown async mode: x".to_string()));
}

#[test]
fn shell_file_gets_no_rust_items() {
    let src = "import SwiftUI\nstruct LoginView {\n  var name: String\n}\nfunc f() {}";
    let cr = classify_file(path(), src);
    assert_eq!(cr.file_tier, "Shell");
    let note = "// T3-MANUAL: Shell file — left in the Swift Shell, no Rust output generated.\n\n";
    let with_ir = transpile_with_ir(&cr, &parse(src), AsyncMode::Bridge);
    assert_eq!(with_ir, format!("{PREAMBLE}{note}"));
    assert_eq!(transpile(&cr, AsyncMode::Native), with_ir);
    assert!(!with_ir.contains("pub struct"));
}

#[test]
fn shell_file_keeps_its_tier3_notes() {
    let src = "struct S {}\nprotocol P {\n  associatedtype T\n}";
    let out = lower_tier1(&classify_file(path(), src));
    assert!(!out.contains("pub struct S"));
    assert!(out.ends_with("no Rust output generated.\n\n// TIER-3 SKIP: `P` (protocol) is Shell-only — see T3 diagnostics.\n\n"));
}

#[test]
fn class_with_deinit_gets_a_drop_impl() {
    let src = "class Res {\n  var h: Int\n  deinit {\n    close(h)\n  }\n}";
    let out = transpile_with_ir(&classify_file(path(), src), &parse(src), AsyncMode::Bridge);
    assert!(out.contains("}\n\nimpl Drop for ResInner {\n    fn drop(&mut self) {}\n}\n\n"));
    let plain = "class P {\n  var h: Int\n}";
    let out2 = transpile_with_ir(&classify_file(path(), plain), &parse(plain), AsyncMode::Bridge);
    assert!(!out2.contains("impl Drop"));
}
