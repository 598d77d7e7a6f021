//! Diagnostic engine: structured diagnostic records, severity levels, and the
//! exit-code protocol.
//!
//! Printing diagnostics to a terminal or as JSON is the command-line program's
//! business; this module holds the records and the rules over them.
use vstd::prelude::*;
use crate::text::{chars_of, eq_str};

verus! {

/// How serious a diagnostic is, from least to most.
#[derive(Debug, Clone, Copy, PartialEq, Eq, PartialOrd, Ord)]
pub enum Severity {
    /// Informational — no action required.
    Info,
    /// Hint — suggested refactor, not blocking.
    Hint,
    /// Warning — output generated with mitigation; developer review required.
    Warn,
    /// Error — output not generated for this declaration.
    Error,
}

impl Severity {
    /// The upper-case label of the level, as shown to users.
    pub fn label(&self) -> (s: &'static str)
        ensures
            s@ == spec_label(*self),
    {
        match self {
            Severity::Info => "INFO",
            Severity::Hint => "HINT",
            Severity::Warn => "WARN",
            Severity::Error => "ERROR",
        }
    }
}

/// The upper-case label of a level.
pub open spec fn spec_label(l: Severity) -> Seq<char> {
    match l {
        Severity::Info => "INFO"@,
        Severity::Hint => "HINT"@,
        Severity::Warn => "WARN"@,
        Severity::Error => "ERROR"@,
    }
}

/// One diagnostic record.
#[derive(Debug, Clone)]
pub struct Diagnostic {
    pub code: String,
    pub level: Severity,
    pub message: String,
    pub file: String,
    pub line: usize,
    pub column: usize,
    pub span: Option<String>,
    pub hint: Option<String>,
    pub see: Option<String>,
}

/// The content of a diagnostic record, its strings taken as character sequences.
pub struct DiagnosticView {
    pub code: Seq<char>,
    pub level: Severity,
    pub message: Seq<char>,
    pub file: Seq<char>,
    pub line: usize,
    pub column: usize,
    pub span: Option<Seq<char>>,
    pub hint: Option<Seq<char>>,
    pub see: Option<Seq<char>>,
}

/// The view of an optional `String`.
pub open spec fn opt_view(o: Option<String>) -> Option<Seq<char>> {
    match o {
        Some(s) => Some(s@),
        None => None,
    }
}

impl View for Diagnostic {
    type V = DiagnosticView;

    open spec fn view(&self) -> DiagnosticView {
        DiagnosticView {
            code: self.code@,
            level: self.level,
            message: self.message@,
            file: self.file@,
            line: self.line,
            column: self.column,
            span: opt_view(self.span),
            hint: opt_view(self.hint),
            see: opt_view(self.see),
        }
    }
}

/// A fresh diagnostic: column 1, and no span, hint or reference.
pub open spec fn spec_diagnostic(
    level: Severity,
    code: Seq<char>,
    message: Seq<char>,
    file: Seq<char>,
    line: usize,
) -> DiagnosticView {
    DiagnosticView {
        code,
        level,
        message,
        file,
        line,
        column: 1,
        span: None,
        hint: None,
        see: None,
    }
}

/// The views of a sequence of diagnostics.
pub open spec fn diag_views(ds: Seq<Diagnostic>) -> Seq<DiagnosticView> {
    ds.map_values(|d: Diagnostic| d@)
}

/// Whether some diagnostic of `ds` has level `l`.
pub open spec fn has_level(ds: Seq<DiagnosticView>, l: Severity) -> bool {
    exists|i: int| 0 <= i < ds.len() && #[trigger] ds[i].level == l
}

/// The exit code for a set of diagnostics: 2 when any is an error, else 1 when
/// any is a warning, else 0.
pub open spec fn spec_exit_code(ds: Seq<DiagnosticView>) -> i32 {
    if has_level(ds, Severity::Error) {
        2
    } else if has_level(ds, Severity::Warn) {
        1
    } else {
        0
    }
}

impl Diagnostic {
    /// A new error-level diagnostic.
    pub fn error(code: &str, message: &str, file: &str, line: usize) -> (d: Self)
        ensures
            d@ == spec_diagnostic(Severity::Error, code@, message@, file@, line),
    {
        Self::new(Severity::Error, code, message, file, line)
    }

    /// A new warning-level diagnostic.
    pub fn warn(code: &str, message: &str, file: &str, line: usize) -> (d: Self)
        ensures
            d@ == spec_diagnostic(Severity::Warn, code@, message@, file@, line),
    {
        Self::new(Severity::Warn, code, message, file, line)
    }

    /// A new informational diagnostic.
    pub fn info(code: &str, message: &str, file: &str, line: usize) -> (d: Self)
        ensures
            d@ == spec_diagnostic(Severity::Info, code@, message@, file@, line),
    {
        Self::new(Severity::Info, code, message, file, line)
    }

    /// A new hint-level diagnostic.
    pub fn hint(code: &str, message: &str, file: &str, line: usize) -> (d: Self)
        ensures
            d@ == spec_diagnostic(Severity::Hint, code@, message@, file@, line),
    {
        Self::new(Severity::Hint, code, message, file, line)
    }

    fn new(level: Severity, code: &str, message: &str, file: &str, line: usize) -> (d: Self)
        ensures
            d@ == spec_diagnostic(level, code@, message@, file@, line),
    {
        Self {
            code: String::from_str(code),
            level,
            message: String::from_str(message),
            file: String::from_str(file),
            line,
            column: 1,
            span: None,
            hint: None,
            see: None,
        }
    }

    /// The same diagnostic with the corrective hint `hint`.
    pub fn with_hint(self, hint: &str) -> (d: Self)
        ensures
            d@ == (DiagnosticView { hint: Some(hint@), ..self@ }),
    {
        let mut d = self;
        d.hint = Some(String::from_str(hint));
        d
    }

    /// The same diagnostic with the reference `see`.
    pub fn with_see(self, see: &str) -> (d: Self)
        ensures
            d@ == (DiagnosticView { see: Some(see@), ..self@ }),
    {
        let mut d = self;
        d.see = Some(String::from_str(see));
        d
    }

    /// The same diagnostic with the source span `span`.
    pub fn with_span(self, span: &str) -> (d: Self)
        ensures
            d@ == (DiagnosticView { span: Some(span@), ..self@ }),
    {
        let mut d = self;
        d.span = Some(String::from_str(span));
        d
    }
}

/// Where diagnostics are written.
#[derive(Debug, Clone, Copy, PartialEq, Eq)]
pub enum OutputMode {
    Terminal,
    Json,
}

/// The output mode named `s`, or the message for an unknown name.
pub open spec fn spec_output_mode(s: Seq<char>) -> Result<OutputMode, Seq<char>> {
    if s == "terminal"@ {
        Ok(OutputMode::Terminal)
    } else if s == "json"@ {
        Ok(OutputMode::Json)
    } else {
        Err("unknown diagnostic mode: "@ + s)
    }
}

impl OutputMode {
    /// The output mode named `s` (`terminal` or `json`).
    pub fn from_name(s: &str) -> (r: Result<OutputMode, String>)
        ensures
            match (r, spec_output_mode(s@)) {
                (Ok(m), Ok(n)) => m == n,
                (Err(e), Err(f)) => e@ == f,
                _ => false,
            },
    {
        let v = chars_of(s);
        if eq_str(&v, "terminal") {
            Ok(OutputMode::Terminal)
        } else if eq_str(&v, "json") {
            Ok(OutputMode::Json)
        } else {
            let mut e = String::from_str("unknown diagnostic mode: ");
            e.append(s);
            Err(e)
        }
    }
}

impl core::str::FromStr for OutputMode {
    type Err = String;

    fn from_str(s: &str) -> (r: Result<OutputMode, String>)
        ensures
            match (r, spec_output_mode(s@)) {
                (Ok(m), Ok(n)) => m == n,
                (Err(e), Err(f)) => e@ == f,
                _ => false,
            },
    {
        OutputMode::from_name(s)
    }
}

/// Compute the exit code from a slice of diagnostics: 2 when the worst is an
/// error, 1 when it is a warning, 0 otherwise.
pub fn exit_code(diags: &[Diagnostic]) -> (code: i32)
    ensures
        code == spec_exit_code(diag_views(diags@)),
{
    let ghost ds = diag_views(diags@);
    let mut seen_error = false;
    let mut seen_warn = false;
    let mut i: usize = 0;
    while i < diags.len()
        invariant
            i <= diags.len(),
            ds == diag_views(diags@),
            seen_error == exists|j: int| 0 <= j < i && #[trigger] ds[j].level == Severity::Error,
            seen_warn == exists|j: int| 0 <= j < i && #[trigger] ds[j].level == Severity::Warn,
        decreases diags.len() - i,
    {
        assert(ds[i as int] == diags@[i as int]@);
        let ghost before = i as int;
        let lvl = diags[i].level;
        assert(ds[before].level == lvl);
        match lvl {
            Severity::Error => {
                seen_error = true;
            },
            Severity::Warn => {
                seen_warn = true;
            },
            _ => {},
        }
        i = i + 1;
    }
    if seen_error {
        2
    } else if seen_warn {
        1
    } else {
        0
    }
}

// ── Laws ───────────────────────────────────────────────────────────────────

proof fn lemma_has_level_concat(a: Seq<DiagnosticView>, b: Seq<DiagnosticView>, l: Severity)
    ensures
        has_level(a + b, l) <==> (has_level(a, l) || has_level(b, l)),
{
    if has_level(a + b, l) {
        let k = choose|k: int| 0 <= k < (a + b).len() && #[trigger] (a + b)[k].level == l;
        if k >= a.len() {
            assert(b[k - a.len()] == (a + b)[k]);
        }
    }
    if has_level(a, l) {
        let k = choose|k: int| 0 <= k < a.len() && #[trigger] a[k].level == l;
        assert((a + b)[k] == a[k]);
    }
    if has_level(b, l) {
        let k = choose|k: int| 0 <= k < b.len() && #[trigger] b[k].level == l;
        assert((a + b)[a.len() + k] == b[k]);
    }
}

proof fn lemma_has_level_perm(a: Seq<DiagnosticView>, b: Seq<DiagnosticView>, l: Severity)
    requires
        a.to_multiset() == b.to_multiset(),
        has_level(a, l),
    ensures
        has_level(b, l),
{
    let k = choose|k: int| 0 <= k < a.len() && #[trigger] a[k].level == l;
    let x = a[k];
    vstd::seq_lib::to_multiset_contains(a, x);
    vstd::seq_lib::to_multiset_contains(b, x);
    assert(a.contains(x));
    assert(b.contains(x));
    let j = choose|j: int| 0 <= j < b.len() && b[j] == x;
    assert(b[j].level == l);
}

/// No diagnostics give exit code 0.
pub proof fn law_exit_code_empty()
    ensures
        spec_exit_code(Seq::<DiagnosticView>::empty()) == 0,
{
}

/// The exit code of two runs of diagnostics together is the larger of their
/// exit codes.
pub proof fn law_exit_code_concat(a: Seq<DiagnosticView>, b: Seq<DiagnosticView>)
    ensures
        spec_exit_code(a + b) == (if spec_exit_code(a) >= spec_exit_code(b) {
            spec_exit_code(a)
        } else {
            spec_exit_code(b)
        }),
{
    lemma_has_level_concat(a, b, Severity::Error);
    lemma_has_level_concat(a, b, Severity::Warn);
}

/// The exit code does not depend on the order of the diagnostics.
pub proof fn law_exit_code_order_free(a: Seq<DiagnosticView>, b: Seq<DiagnosticView>)
    requires
        a.to_multiset() == b.to_multiset(),
    ensures
        spec_exit_code(a) == spec_exit_code(b),
{
    if has_level(a, Severity::Error) {
        lemma_has_level_perm(a, b, Severity::Error);
    }
    if has_level(b, Severity::Error) {
        lemma_has_level_perm(b, a, Severity::Error);
    }
    if has_level(a, Severity::Warn) {
        lemma_has_level_perm(a, b, Severity::Warn);
    }
    if has_level(b, Severity::Warn) {
        lemma_has_level_perm(b, a, Severity::Warn);
    }
}

} // verus!
