use sarah::diagnostics::{exit_code, Diagnostic, OutputMode, Severity};

#[test]
fn constructors_set_level_and_column() {
    let d = Diagnostic::error("E1", "bad", "f.swift", 3);
    assert_eq!(d.level, Severity::Error);
    assert_eq!(d.column, 1);
    assert_eq!(d.line, 3);
    assert!(d.hint.is_none() && d.see.is_none() && d.span.is_none());
    assert_eq!(Diagnostic::warn("W", "m", "f", 1).level, Severity::Warn);
    assert_eq!(Diagnostic::info("I", "m", "f", 1).level, Severity::Info);
    assert_eq!(Diagnostic::hint("H", "m", "f", 1).level, Severity::Hint);
}

#[test]
fn builders_fill_optional_fields() {
    let d = Diagnostic::warn("W", "m", "f", 1).with_hint("do x").with_see("SPEC-005").with_span("func f()");
    assert_eq!(d.hint.as_deref(), Some("do x"));
    assert_eq!(d.see.as_deref(), Some("SPEC-005"));
    assert_eq!(d.span.as_deref(), Some("func f()"));
    assert_eq!(d.code, "W");
}

#[test]
fn exit_code_follows_worst_level() {
    assert_eq!(exit_code(&[]), 0);
    let info = Diagnostic::info("I", "m", "f", 1);
    let hint = Diagnostic::hint("H", "m", "f", 1);
    let warn = Diagnostic::warn("W", "m", "f", 1);
    let err = Diagnostic::error("E", "m", "f", 1);
    assert_eq!(exit_code(&[info.clone(), hint.clone()]), 0);
    assert_eq!(exit_code(&[info.clone(), warn.clone()]), 1);
    assert_eq!(exit_code(&[err.clone(), warn.clone(), info]), 2);
    assert_eq!(exit_code(&[warn, err]), 2);
}

#[test]
fn output_mode_names() {
    assert_eq!(OutputMode::from_name("terminal"), Ok(OutputMode::Terminal));
    assert_eq!(OutputMode::from_name("json"), Ok(OutputMode::Json));
    assert_eq!(OutputMode::from_name("sarif"), Err("unknown diagnostic mode: sarif".to_string()));
}

#[test]
fn severity_labels() {
    assert_eq!(Severity::Info.label(), "INFO");
    assert_eq!(Severity::Hint.label(), "HINT");
    assert_eq!(Severity::Warn.label(), "WARN");
    assert_eq!(Severity::Error.label(), "ERROR");
}
