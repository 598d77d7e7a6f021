use sarah::classify::{classify_file, AsyncTier, SyncTier};
use sarah::diagnostics::Severity;

#[test]
fn struct_is_tier1() {
    let src = "struct Point { var x: Double; var y: Double }";
    let r = classify_file("test.swift", src);
    assert_eq!(r.file_tier, "Core");
    assert_eq!(r.declarations[0].tier, SyncTier::Tier1);
}

#[test]
fn class_is_tier2() {
    let src = "class SessionManager { var token: String = \"\" }";
    let r = classify_file("test.swift", src);
    assert_eq!(r.file_tier, "Core (Tier 2 present)");
    assert_eq!(r.declarations[0].tier, SyncTier::Tier2);
}

#[test]
fn objc_is_tier3() {
    let src = "@objc class LegacyBridge: NSObject {}";
    let r = classify_file("test.swift", src);
    assert!(r.diagnostics.iter().any(|d| d.code == "T3-OBJC"));
}

#[test]
fn async_func_no_await_is_a1sync() {
    let src = "struct Foo {}\nasync func compute() -> Int { return 42 }";
    let r = classify_file("test.swift", src);
    let func_decl = r.declarations.iter().find(|d| d.name == "compute");
    assert!(func_decl.is_some());
    assert_eq!(func_decl.unwrap().async_tier, Some(AsyncTier::A1Sync));
}

#[test]
fn class_diagnostic_and_exit_code() {
    let r = classify_file("a.swift", "\nclass Box {}\n");
    assert_eq!(r.diagnostics.len(), 1);
    let d = &r.diagnostics[0];
    assert_eq!(d.code, "T2-CLASS");
    assert_eq!(d.level, Severity::Info);
    assert_eq!(d.message, "`class Box` → Arc<Mutex<T>> in Rust output");
    assert_eq!(d.file, "a.swift");
    assert_eq!(d.line, 2);
    assert_eq!(d.see.as_deref(), Some("SPEC-003"));
    assert_eq!(r.declarations[0].diagnostics, vec!["T2-CLASS".to_string()]);
    assert_eq!(r.exit_code(), 0);
}

#[test]
fn protocol_with_associated_type_is_shell() {
    let src = "protocol Store {\n  associatedtype Item\n}\nstruct A {}";
    let r = classify_file("p.swift", src);
    assert_eq!(r.file_tier, "Shell");
    assert_eq!(r.declarations[0].kind, "protocol");
    assert_eq!(r.declarations[0].tier, SyncTier::Tier3);
    assert_eq!(r.diagnostics[0].code, "T3-PAT");
    assert_eq!(r.diagnostics[0].level, Severity::Error);
    assert_eq!(r.exit_code(), 2);
}

#[test]
fn protocol_without_associated_type_is_skipped() {
    let r = classify_file("p.swift", "protocol Plain {\n  func f()\n}");
    assert_eq!(r.file_tier, "Core");
    assert_eq!(r.declarations.len(), 1);
    assert_eq!(r.declarations[0].kind, "func");
    assert!(r.diagnostics.is_empty());
}

#[test]
fn async_on_class_is_a2_with_lock_warning() {
    let src = "class S {\nasync func refresh() {\n}";
    let r = classify_file("s.swift", src);
    let f = &r.declarations[1];
    assert_eq!(f.name, "refresh");
    assert_eq!(f.tier, SyncTier::Tier2);
    assert_eq!(f.async_tier, Some(AsyncTier::A2));
    assert_eq!(f.combined_tier.as_deref(), Some("2/A2"));
    assert_eq!(r.diagnostics[1].code, "ASYNC-LOCK-RISK");
    assert_eq!(r.diagnostics[1].level, Severity::Warn);
    assert!(r.diagnostics[1].hint.is_some());
    assert_eq!(r.exit_code(), 1);
}

#[test]
fn async_with_await_is_a1() {
    let src = "func a() {}\nasync func load() {\n  let x = await fetch()\n}";
    let r = classify_file("s.swift", src);
    let f = &r.declarations[1];
    assert_eq!(f.async_tier, Some(AsyncTier::A1));
    assert_eq!(f.combined_tier.as_deref(), Some("1/A1"));
    assert!(r.diagnostics.is_empty());
}

#[test]
fn plain_func_has_no_async_tier() {
    let r = classify_file("s.swift", "public func go(x: Int) {}");
    assert_eq!(r.declarations[0].name, "go");
    assert_eq!(r.declarations[0].async_tier, None);
    assert_eq!(r.declarations[0].combined_tier, None);
}

#[test]
fn empty_source_is_core() {
    let r = classify_file("e.swift", "");
    assert_eq!(r.file, "e.swift");
    assert_eq!(r.file_tier, "Core");
    assert!(r.declarations.is_empty());
    assert_eq!(r.exit_code(), 0);
}

#[test]
fn shell_framework_import_makes_the_file_shell() {
    let r = classify_file("test.swift", "import SwiftUI\nstruct LoginView {}");
    assert_eq!(r.file_tier, "Shell");
    assert_eq!(r.diagnostics[0].code, "T3-MANUAL");
    assert_eq!(r.diagnostics[0].level, Severity::Error);
    assert_eq!(r.diagnostics[0].line, 1);
    assert_eq!(r.diagnostics[0].file, "test.swift");
    assert!(r.diagnostics[0].hint.is_some());
    assert!(r.diagnostics[0].see.is_some());
    assert_eq!(r.declarations[0].name, "LoginView");
    assert_eq!(r.exit_code(), 2);
}

#[test]
fn shell_import_acceptance_cases() {
    assert_eq!(classify_file("a.swift", "import Foundation\nstruct A {}").file_tier, "Core");
    assert_eq!(classify_file("a.swift", "import UIKit\nimport Foundation").file_tier, "Shell");
    assert_eq!(classify_file("a.swift", "struct A {}").file_tier, "Core");
    assert_eq!(classify_file("a.swift", "@testable import XCTest\n").file_tier, "Shell");
    assert_eq!(classify_file("a.swift", "import AppKit.NSView\n").file_tier, "Shell");
    assert_eq!(classify_file("a.swift", "import SwiftUIHelpers\n").file_tier, "Core");
}

#[test]
fn inheritance_warns() {
    let r = classify_file("test.swift", "class A: B { }");
    assert_eq!(r.declarations[0].name, "A");
    assert_eq!(r.declarations[0].tier, SyncTier::Tier2);
    assert_eq!(
        r.declarations[0].diagnostics,
        vec!["T2-CLASS".to_string(), "T2-INHERITANCE".to_string()]
    );
    let d = r.diagnostics.iter().find(|d| d.code == "T2-INHERITANCE").unwrap();
    assert_eq!(d.level, Severity::Warn);
    assert!(d.hint.is_some());
    assert_eq!(
        d.message,
        "class 'A' inherits from 'B'. Inheritance is not supported in Tier 2. Translate to trait composition manually."
    );
    assert_eq!(r.exit_code(), 1);
}

#[test]
fn colon_inside_class_body_is_not_inheritance() {
    let r = classify_file("test.swift", "class S { var token: String = \"\" }");
    assert_eq!(r.diagnostics.len(), 1);
    assert_eq!(r.exit_code(), 0);
}

#[test]
fn conditional_shell_triggers() {
    let cl = "import CoreLocation\nclass Tracker: CLLocationManagerDelegate {}";
    assert_eq!(classify_file("a.swift", cl).file_tier, "Shell");
    let cl_plain = "import CoreLocation\nstruct Point {}";
    assert_eq!(classify_file("a.swift", cl_plain).file_tier, "Core");
    let vm = "import Combine\nclass VM: ObservableObject {\n  @Published var n = 0\n}";
    let r = classify_file("a.swift", vm);
    assert_eq!(r.file_tier, "Shell");
    assert_eq!(r.diagnostics[0].code, "T3-MANUAL");
    assert_eq!(r.exit_code(), 2);
}

#[test]
fn combine_in_business_logic_is_a_yellow_flag() {
    let r = classify_file("a.swift", "import Combine\nstruct Feed {}");
    assert_eq!(r.file_tier, "Core");
    assert_eq!(r.diagnostics.len(), 1);
    assert_eq!(r.diagnostics[0].code, "COMBINE-YELLOW-FLAG");
    assert_eq!(r.diagnostics[0].level, Severity::Warn);
    assert!(r.diagnostics[0].hint.is_some());
    assert_eq!(r.exit_code(), 1);
}
