use sarah::drop_gen::{close_pattern_in, emit_drop, emit_drop_in};
use sarah::diagnostics::Severity;
use sarah::parser::SwiftClass;

fn class(name: &str) -> SwiftClass {
    SwiftClass {
        name: name.to_owned(),
        superclass: None,
        fields: vec![],
        methods: vec![],
        has_deinit: true,
        line: 1,
    }
}

#[test]
fn empty_deinit_generates_trivial_drop() {
    let (rust, diags) = emit_drop(&class("MyClass"), &[]);
    assert!(rust.contains("impl Drop for MyClassInner"));
    assert!(rust.contains("fn drop(&mut self) {}"));
    assert!(diags.is_empty());
}

#[test]
fn nil_assign_translates_to_none() {
    let body = vec!["delegate = nil"];
    let (rust, diags) = emit_drop(&class("Session"), &body);
    assert!(rust.contains("self.delegate = None;"));
    assert!(diags.is_empty());
}

#[test]
fn notification_center_emits_warning() {
    let body = vec!["NotificationCenter.default.removeObserver(self)"];
    let (rust, diags) = emit_drop(&class("Observer"), &body);
    assert!(diags.iter().any(|d| d.code == "T2-OBSERVER"));
    assert!(rust.contains("T2-OBSERVER:"));
}

#[test]
fn close_call_emits_close_warning() {
    let body = vec!["handle.close()"];
    let (_rust, diags) = emit_drop(&class("Resource"), &body);
    assert!(diags.iter().any(|d| d.code == "T2-DEINIT-CLOSE"));
}

#[test]
fn unknown_statement_emits_todo() {
    let body = vec!["someComplexOperation()"];
    let (rust, diags) = emit_drop(&class("Fx"), &body);
    assert!(rust.contains("todo!"));
    assert!(diags.iter().any(|d| d.code == "T2-DEINIT"));
}

#[test]
fn exact_drop_text() {
    let body = vec!["  // cleanup", "", "delegate = nil;", "Free(ptr)"];
    let (rust, diags) = emit_drop(&class("Res"), &body);
    assert_eq!(
        rust,
        "/// Drop impl generated from Swift `deinit` in `Res` (SPEC-003 §6)\nimpl Drop for ResInner {\n    fn drop(&mut self) {\n        self.delegate = None;\n        // T2-DEINIT-CLOSE: Free(ptr)\n    }\n}\n\n"
    );
    assert_eq!(diags.len(), 1);
    assert_eq!(diags[0].level, Severity::Warn);
    assert_eq!(diags[0].line, 1);
    assert_eq!(diags[0].file, "");
}

#[test]
fn comments_only_body_does_nothing() {
    let (rust, diags) = emit_drop(&class("C"), &["// a", "   "]);
    assert!(rust.contains("        // (nothing to do)\n"));
    assert!(diags.is_empty());
}

#[test]
fn dotted_nil_assignment_is_untranslatable() {
    let (rust, diags) = emit_drop(&class("C"), &["self.delegate = nil"]);
    assert!(rust.contains("todo!(\"T2-DEINIT: C\", /* self.delegate = nil */)"));
    assert_eq!(diags[0].code, "T2-DEINIT");
}

#[test]
fn close_patterns() {
    assert!(close_pattern_in("fclose(f)"));
    assert!(close_pattern_in("x.release(y)"));
    assert!(!close_pattern_in("closehandle"));
    assert!(!close_pattern_in("CLOSE(f)"));
}

#[test]
fn every_deinit_warning_has_a_hint() {
    let body = vec!["NotificationCenter.default.removeObserver(self)", "handle.close()", "weird()"];
    let (_rust, diags) = emit_drop(&class("R"), &body);
    assert_eq!(diags.len(), 3);
    for d in &diags {
        assert_eq!(d.level, Severity::Warn);
        assert!(d.hint.is_some());
        assert_eq!(d.line, 1);
    }
}

#[test]
fn deinit_warnings_name_the_file() {
    let (rust, diags) = emit_drop_in("Sources/R.swift", &class("R"), &["handle.close()"]);
    assert!(rust.contains("// T2-DEINIT-CLOSE: handle.close()"));
    assert_eq!(diags.len(), 1);
    assert_eq!(diags[0].file, "Sources/R.swift");
    assert_eq!(diags[0].code, "T2-DEINIT-CLOSE");
}
