//! Core/Shell tier classifier: Swift source → tier assignments.
//!
//! A line-oriented classifier. It does not parse a full Swift syntax tree; it
//! recognises declarations by the way their lines begin, and derives a tier
//! for each declaration and for the file as a whole, with the diagnostics that
//! explain each decision.
use vstd::prelude::*;
use crate::diagnostics::{
    diag_views, exit_code, spec_diagnostic, spec_exit_code, Diagnostic, DiagnosticView, Severity,
};
use crate::parser::{extract_superclass, superclass_of};
use crate::text::{
    before_any, before_any_chars, chars_of, contains, contains_str, find, find_str,
    ident_prefix, ident_prefix_chars, lines, lines_of, push_chars, starts_with, starts_with_str,
    strip_prefix, strip_prefix_chars, strip_prefix_str, eq_str, subseq, trim, trim_chars, trim_start, trim_start_chars,
    views,
};

verus! {

/// The synchronous lowering tier of a declaration.
#[derive(Debug, Clone, Copy, PartialEq, Eq)]
pub enum SyncTier {
    Tier1,
    Tier2,
    Tier3,
}

/// The asynchronous lowering tier of a function.
#[derive(Debug, Clone, Copy, PartialEq, Eq)]
pub enum AsyncTier {
    A1,
    A1Sync,
    A2,
}

/// The classification of one declaration.
#[derive(Debug, Clone)]
pub struct DeclarationResult {
    pub name: String,
    pub kind: String,
    pub tier: SyncTier,
    pub async_tier: Option<AsyncTier>,
    pub combined_tier: Option<String>,
    /// Diagnostic codes only.
    pub diagnostics: Vec<String>,
}

/// The content of a declaration's classification.
pub struct DeclView {
    pub name: Seq<char>,
    pub kind: Seq<char>,
    pub tier: SyncTier,
    pub async_tier: Option<AsyncTier>,
    pub combined_tier: Option<Seq<char>>,
    pub diagnostics: Seq<Seq<char>>,
}

/// The view of an optional `String`.
pub open spec fn opt_text(o: Option<String>) -> Option<Seq<char>> {
    match o {
        Some(s) => Some(s@),
        None => None,
    }
}

/// The texts of a sequence of `String`s.
pub open spec fn texts(v: Seq<String>) -> Seq<Seq<char>> {
    v.map_values(|s: String| s@)
}

impl View for DeclarationResult {
    type V = DeclView;

    open spec fn view(&self) -> DeclView {
        DeclView {
            name: self.name@,
            kind: self.kind@,
            tier: self.tier,
            async_tier: self.async_tier,
            combined_tier: opt_text(self.combined_tier),
            diagnostics: texts(self.diagnostics@),
        }
    }
}

/// The views of a sequence of declaration results.
pub open spec fn decl_views(ds: Seq<DeclarationResult>) -> Seq<DeclView> {
    ds.map_values(|d: DeclarationResult| d@)
}

/// The classification of a whole file.
#[derive(Debug, Clone)]
pub struct ClassificationResult {
    pub file: String,
    pub file_tier: String,
    pub declarations: Vec<DeclarationResult>,
    pub diagnostics: Vec<Diagnostic>,
}

/// The content of a file's classification.
pub struct ClassificationView {
    pub file: Seq<char>,
    pub file_tier: Seq<char>,
    pub declarations: Seq<DeclView>,
    pub diagnostics: Seq<DiagnosticView>,
}

impl View for ClassificationResult {
    type V = ClassificationView;

    open spec fn view(&self) -> ClassificationView {
        ClassificationView {
            file: self.file@,
            file_tier: self.file_tier@,
            declarations: decl_views(self.declarations@),
            diagnostics: diag_views(self.diagnostics@),
        }
    }
}

impl ClassificationResult {
    /// The exit code for the worst diagnostic of the classification.
    pub fn exit_code(&self) -> (code: i32)
        ensures
            code == spec_exit_code(self@.diagnostics),
    {
        exit_code(self.diagnostics.as_slice())
    }
}

// ── Specification of the classifier ───────────────────────────────────────

/// What follows the keyword `kw` (itself ending in a space) on a declaration
/// line, with or without one access modifier in front.
pub open spec fn decl_rest(line: Seq<char>, kw: Seq<char>) -> Option<Seq<char>> {
    match strip_prefix(line, kw) {
        Some(r) => Some(r),
        None => match strip_prefix(line, "public "@ + kw) {
            Some(r) => Some(r),
            None => match strip_prefix(line, "internal "@ + kw) {
                Some(r) => Some(r),
                None => strip_prefix(line, "private "@ + kw),
            },
        },
    }
}

/// The name declared by a line that begins with the keyword `kw`: the
/// identifier right after it, when there is one.
pub open spec fn decl_name(line: Seq<char>, kw: Seq<char>) -> Option<Seq<char>> {
    match decl_rest(line, kw) {
        Some(rest) => if ident_prefix(rest).len() > 0 {
            Some(ident_prefix(rest))
        } else {
            None
        },
        None => None,
    }
}

/// The name after the first `func ` of a line, up to `(`, `<` or a space.
pub open spec fn func_name(line: Seq<char>) -> Option<Seq<char>> {
    match find(line, "func "@) {
        Some(i) => {
            let name = before_any(line.skip(i as int + 5), "(< "@);
            if name.len() > 0 {
                Some(name)
            } else {
                None
            }
        },
        None => None,
    }
}

/// Whether a trimmed line declares a function.
pub open spec fn is_func_line(t: Seq<char>) -> bool {
    ||| starts_with(t, "func "@)
    ||| starts_with(t, "public func "@)
    ||| starts_with(t, "internal func "@)
    ||| starts_with(t, "private func "@)
    ||| starts_with(t, "async func "@)
    ||| contains(t, " async func "@)
}

/// Whether a line declares an associated type.
pub open spec fn assoc_line(l: Seq<char>) -> bool {
    starts_with(trim_start(l), "associatedtype "@)
}

/// Whether one of the 30 lines from line `n` on declares an associated type.
pub open spec fn has_assoc_type(ls: Seq<Seq<char>>, n: int) -> bool {
    exists|k: int| n <= k < n + 30 && k < ls.len() && #[trigger] assoc_line(ls[k])
}

/// Whether a line awaits.
pub open spec fn await_line(l: Seq<char>) -> bool {
    contains(l, "await "@)
}

/// Whether one of the 20 lines after line `n` awaits.
pub open spec fn has_await(ls: Seq<Seq<char>>, n: int) -> bool {
    exists|k: int| n + 1 <= k < n + 21 && k < ls.len() && #[trigger] await_line(ls[k])
}

/// The classifier's state after some lines.
pub struct ClassState {
    pub decls: Seq<DeclView>,
    pub diags: Seq<DiagnosticView>,
    pub worst: SyncTier,
}

/// A declaration without async tier or diagnostics.
pub open spec fn plain_decl(name: Seq<char>, kind: Seq<char>, tier: SyncTier) -> DeclView {
    DeclView {
        name,
        kind,
        tier,
        async_tier: None,
        combined_tier: None,
        diagnostics: seq![],
    }
}

pub open spec fn class_diag(name: Seq<char>, file: Seq<char>, line: usize) -> DiagnosticView {
    DiagnosticView {
        see: Some("SPEC-003"@),
        ..spec_diagnostic(
            Severity::Info,
            "T2-CLASS"@,
            "`class "@ + name + "` → Arc<Mutex<T>> in Rust output"@,
            file,
            line,
        )
    }
}

pub open spec fn protocol_diag(name: Seq<char>, file: Seq<char>, line: usize) -> DiagnosticView {
    DiagnosticView {
        hint: Some("Move protocol conformances to the Swift Shell layer."@),
        see: Some("SPEC-001 §3.2"@),
        ..spec_diagnostic(
            Severity::Error,
            "T3-PAT"@,
            "Protocol `"@ + name + "` has associated types — Shell only"@,
            file,
            line,
        )
    }
}

pub open spec fn objc_diag(file: Seq<char>, line: usize) -> DiagnosticView {
    DiagnosticView {
        hint: Some("Keep ObjC-dependent code in the Swift Shell."@),
        see: Some("SPEC-001 §3.2"@),
        ..spec_diagnostic(
            Severity::Error,
            "T3-OBJC"@,
            "ObjC interop detected — not transpilable"@,
            file,
            line,
        )
    }
}

pub open spec fn lock_risk_diag(name: Seq<char>, file: Seq<char>, line: usize) -> DiagnosticView {
    DiagnosticView {
        hint: Some("Acquire Mutex, clone state, release lock before any .await point."@),
        see: Some("SPEC-006 §4, SPEC-003 §5"@),
        ..spec_diagnostic(
            Severity::Warn,
            "ASYNC-LOCK-RISK"@,
            "Async func `"@ + name
                + "` on class receiver — lock-before-await pattern applied"@,
            file,
            line,
        )
    }
}

pub open spec fn no_await_diag(name: Seq<char>, file: Seq<char>, line: usize) -> DiagnosticView {
    spec_diagnostic(
        Severity::Info,
        "ASYNC-NO-AWAIT"@,
        "Async func `"@ + name + "` has no await — spawn_blocking used"@,
        file,
        line,
    )
}

/// The label of an async tier in a combined tier.
pub open spec fn async_label(at: AsyncTier) -> Seq<char> {
    match at {
        AsyncTier::A1 => "A1"@,
        AsyncTier::A1Sync => "A1-sync"@,
        AsyncTier::A2 => "A2"@,
    }
}

/// Whether the declaration seen last is a class.
pub open spec fn receiver_is_class(decls: Seq<DeclView>) -> bool {
    decls.len() > 0 && decls.last().kind == "class"@
}

/// The classifier's step for the function declared on line `n` (trimmed: `t`).
pub open spec fn classify_func(
    st: ClassState,
    file: Seq<char>,
    ls: Seq<Seq<char>>,
    n: int,
    t: Seq<char>,
) -> ClassState {
    let is_async = contains(t, "async func"@) || contains(t, "async "@);
    let name = match func_name(t) {
        Some(nm) => nm,
        None => "unknown"@,
    };
    let is_class = receiver_is_class(st.decls);
    let line = (n + 1) as usize;
    let diags = if is_async && is_class {
        st.diags.push(lock_risk_diag(name, file, line))
    } else if is_async && !has_await(ls, n) {
        st.diags.push(no_await_diag(name, file, line))
    } else {
        st.diags
    };
    let async_tier = if !is_async {
        None
    } else if is_class {
        Some(AsyncTier::A2)
    } else if has_await(ls, n) {
        Some(AsyncTier::A1)
    } else {
        Some(AsyncTier::A1Sync)
    };
    let combined = match async_tier {
        Some(at) => Some(
            (if is_class {
                "2"@
            } else {
                "1"@
            }) + "/"@ + async_label(at),
        ),
        None => None,
    };
    let decl = DeclView {
        name,
        kind: "func"@,
        tier: if is_class {
            SyncTier::Tier2
        } else {
            SyncTier::Tier1
        },
        async_tier,
        combined_tier: combined,
        diagnostics: seq![],
    };
    ClassState { decls: st.decls.push(decl), diags, worst: st.worst }
}

/// Whether importing the module `m` ties a file to the Swift Shell.
pub open spec fn shell_trigger(m: Seq<char>) -> bool {
    ||| m == "SwiftUI"@
    ||| m == "UIKit"@
    ||| m == "AppKit"@
    ||| m == "WatchKit"@
    ||| m == "TVUIKit"@
    ||| m == "StoreKit"@
    ||| m == "ARKit"@
    ||| m == "RealityKit"@
    ||| m == "SceneKit"@
    ||| m == "MapKit"@
    ||| m == "XCTest"@
}

/// The module imported by a trimmed line, if the line is an import.
pub open spec fn import_module(t: Seq<char>) -> Option<Seq<char>> {
    let rest = match strip_prefix(t, "@testable import "@) {
        Some(r) => Some(r),
        None => strip_prefix(t, "import "@),
    };
    match rest {
        Some(r) => Some(before_any(trim(r), " .;"@)),
        None => None,
    }
}

/// Whether some line of `ls` contains `p`.
pub open spec fn file_mentions(ls: Seq<Seq<char>>, p: Seq<char>) -> bool {
    exists|k: int| 0 <= k < ls.len() && #[trigger] contains(ls[k], p)
}

/// Whether importing `m` into the file `ls` ties it to the Swift Shell: a
/// module of the trigger list; `CoreLocation` when the file uses
/// `CLLocationManagerDelegate`; `Combine` when it uses `@Published` or
/// `ObservableObject`.
pub open spec fn shell_module(m: Seq<char>, ls: Seq<Seq<char>>) -> bool {
    ||| shell_trigger(m)
    ||| (m == "CoreLocation"@ && file_mentions(ls, "CLLocationManagerDelegate"@))
    ||| (m == "Combine"@ && (file_mentions(ls, "@Published"@) || file_mentions(
        ls,
        "ObservableObject"@,
    )))
}

pub open spec fn combine_diag(file: Seq<char>, line: usize) -> DiagnosticView {
    DiagnosticView {
        hint: Some(
            "Prefer callbacks or async functions in Core logic, and keep publishers in the Swift Shell."@,
        ),
        see: Some("SPEC-001 Shell Import Trigger List"@),
        ..spec_diagnostic(
            Severity::Warn,
            "COMBINE-YELLOW-FLAG"@,
            "`Combine` used in business logic — a yellow flag, not a Shell trigger"@,
            file,
            line,
        )
    }
}

pub open spec fn import_diag(m: Seq<char>, file: Seq<char>, line: usize) -> DiagnosticView {
    DiagnosticView {
        hint: Some(
            "Keep this file in the Swift Shell; move platform-independent logic to a file that imports only Foundation."@,
        ),
        see: Some("SPEC-001 Shell Import Trigger List"@),
        ..spec_diagnostic(
            Severity::Error,
            "T3-MANUAL"@,
            "Import of `"@ + m + "` ties the file to the Swift Shell — no Rust output"@,
            file,
            line,
        )
    }
}

pub open spec fn inherit_diag(
    name: Seq<char>,
    sc: Seq<char>,
    file: Seq<char>,
    line: usize,
) -> DiagnosticView {
    DiagnosticView {
        hint: Some(
            "Replace inheritance with a struct that holds the base state and a trait for the shared behaviour."@,
        ),
        see: Some("SPEC-002 Diagnostics"@),
        ..spec_diagnostic(
            Severity::Warn,
            "T2-INHERITANCE"@,
            "class '"@ + name + "' inherits from '"@ + sc
                + "'. Inheritance is not supported in Tier 2. Translate to trait composition manually."@,
            file,
            line,
        )
    }
}

/// The classifier's step for a class named `name` declared on line `n`
/// (trimmed: `t`).
pub open spec fn classify_class(
    st: ClassState,
    file: Seq<char>,
    t: Seq<char>,
    name: Seq<char>,
    line: usize,
) -> ClassState {
    let worst = if st.worst == SyncTier::Tier1 {
        SyncTier::Tier2
    } else {
        st.worst
    };
    match superclass_of(t) {
        Some(sc) => ClassState {
            decls: st.decls.push(
                DeclView {
                    diagnostics: seq!["T2-CLASS"@, "T2-INHERITANCE"@],
                    ..plain_decl(name, "class"@, SyncTier::Tier2)
                },
            ),
            diags: st.diags.push(class_diag(name, file, line)).push(
                inherit_diag(name, sc, file, line),
            ),
            worst,
        },
        None => ClassState {
            decls: st.decls.push(
                DeclView { diagnostics: seq!["T2-CLASS"@], ..plain_decl(name, "class"@, SyncTier::Tier2) },
            ),
            diags: st.diags.push(class_diag(name, file, line)),
            worst,
        },
    }
}

/// The classifier's step for line `n` of `ls`.
pub open spec fn classify_line(
    st: ClassState,
    file: Seq<char>,
    ls: Seq<Seq<char>>,
    n: int,
) -> ClassState {
    let t = trim(ls[n]);
    let line = (n + 1) as usize;
    match import_module(t) {
        Some(m) => if shell_module(m, ls) {
            ClassState {
                diags: st.diags.push(import_diag(m, file, line)),
                worst: SyncTier::Tier3,
                ..st
            }
        } else if m == "Combine"@ {
            ClassState { diags: st.diags.push(combine_diag(file, line)), ..st }
        } else {
            classify_decl_line(st, file, ls, n, t, line)
        },
        None => classify_decl_line(st, file, ls, n, t, line),
    }
}

/// The classifier's step for line `n` (trimmed: `t`) when it imports nothing
/// that decides the file.
pub open spec fn classify_decl_line(
    st: ClassState,
    file: Seq<char>,
    ls: Seq<Seq<char>>,
    n: int,
    t: Seq<char>,
    line: usize,
) -> ClassState {
    match decl_name(t, "struct "@) {
        Some(name) => ClassState {
            decls: st.decls.push(plain_decl(name, "struct"@, SyncTier::Tier1)),
            ..st
        },
        None => match decl_name(t, "enum "@) {
            Some(name) => ClassState {
                decls: st.decls.push(plain_decl(name, "enum"@, SyncTier::Tier1)),
                ..st
            },
            None => match decl_name(t, "class "@) {
                Some(name) => classify_class(st, file, t, name, line),
                None => match decl_name(t, "protocol "@) {
                    Some(name) => if has_assoc_type(ls, n) {
                        ClassState {
                            decls: st.decls.push(
                                DeclView {
                                    diagnostics: seq!["T3-PAT"@],
                                    ..plain_decl(name, "protocol"@, SyncTier::Tier3)
                                },
                            ),
                            diags: st.diags.push(protocol_diag(name, file, line)),
                            worst: SyncTier::Tier3,
                        }
                    } else {
                        st
                    },
                    None => if contains(t, "@objc"@) || contains(t, ": NSObject"@) {
                        ClassState {
                            diags: st.diags.push(objc_diag(file, line)),
                            worst: SyncTier::Tier3,
                            ..st
                        }
                    } else if is_func_line(t) {
                        classify_func(st, file, ls, n, t)
                    } else {
                        st
                    },
                },
            },
        },
    }
}

/// The classifier's state before any line.
pub open spec fn initial_state() -> ClassState {
    ClassState { decls: seq![], diags: seq![], worst: SyncTier::Tier1 }
}

/// The classifier's state after the first `n` lines of `ls`.
pub open spec fn classify_prefix(file: Seq<char>, ls: Seq<Seq<char>>, n: nat) -> ClassState
    decreases n,
{
    if n == 0 {
        initial_state()
    } else {
        classify_line(classify_prefix(file, ls, (n - 1) as nat), file, ls, n - 1)
    }
}

/// The label of a file's worst tier.
pub open spec fn file_tier_label(t: SyncTier) -> Seq<char> {
    match t {
        SyncTier::Tier1 => "Core"@,
        SyncTier::Tier2 => "Core (Tier 2 present)"@,
        SyncTier::Tier3 => "Shell"@,
    }
}

/// The classification of the Swift source `source`, reported under the name `file`.
pub open spec fn spec_classify_file(file: Seq<char>, source: Seq<char>) -> ClassificationView {
    let ls = lines(source);
    let st = classify_prefix(file, ls, ls.len());
    ClassificationView {
        file,
        file_tier: file_tier_label(st.worst),
        declarations: st.decls,
        diagnostics: st.diags,
    }
}

// ── Implementation ─────────────────────────────────────────────────────────

/// The classifier's running state.
struct Classifier {
    decls: Vec<DeclarationResult>,
    diags: Vec<Diagnostic>,
    worst: SyncTier,
}

impl View for Classifier {
    type V = ClassState;

    closed spec fn view(&self) -> ClassState {
        ClassState {
            decls: decl_views(self.decls@),
            diags: diag_views(self.diags@),
            worst: self.worst,
        }
    }
}

/// `a`, then the characters of `mid`, then `b`.
fn text3(a: &str, mid: &Vec<char>, b: &str) -> (r: String)
    ensures
        r@ == a@ + mid@ + b@,
{
    let mut r = String::from_str(a);
    push_chars(&mut r, mid);
    r.append(b);
    r
}

/// The characters of `a` followed by those of `b`.
fn concat_str(a: &str, b: &str) -> (r: Vec<char>)
    ensures
        r@ == a@ + b@,
{
    let mut s = String::from_str(a);
    s.append(b);
    chars_of(s.as_str())
}

/// The text after the keyword `kw` on a declaration line.
fn decl_rest_exec(line: &Vec<char>, kw: &str) -> (r: Option<Vec<char>>)
    ensures
        match r {
            Some(v) => decl_rest(line@, kw@) == Some(v@),
            None => decl_rest(line@, kw@) is None,
        },
{
    let k = chars_of(kw);
    if let Some(r) = strip_prefix_chars(line, &k) {
        return Some(r);
    }
    let p = concat_str("public ", kw);
    if let Some(r) = strip_prefix_chars(line, &p) {
        return Some(r);
    }
    let p = concat_str("internal ", kw);
    if let Some(r) = strip_prefix_chars(line, &p) {
        return Some(r);
    }
    let p = concat_str("private ", kw);
    strip_prefix_chars(line, &p)
}

/// The name declared after the keyword `kw`.
fn extract_decl_name(line: &Vec<char>, kw: &str) -> (r: Option<Vec<char>>)
    ensures
        match r {
            Some(v) => decl_name(line@, kw@) == Some(v@),
            None => decl_name(line@, kw@) is None,
        },
{
    match decl_rest_exec(line, kw) {
        Some(rest) => {
            let name = ident_prefix_chars(&rest);
            if name.len() > 0 {
                Some(name)
            } else {
                None
            }
        },
        None => None,
    }
}

/// The name of the function declared on a line.
fn extract_func_name(line: &Vec<char>) -> (r: Option<Vec<char>>)
    ensures
        match r {
            Some(v) => func_name(line@) == Some(v@),
            None => func_name(line@) is None,
        },
{
    let found = find_str(line, "func ");
    proof {
        crate::text::lemma_find_from_bounds(line@, "func "@, 0);
        reveal_strlit("func ");
    }
    match found {
        Some(i) => {
            assert(i + 5 <= line.len());
            let after = subseq(line, i + 5, line.len());
            assert(after@ =~= line@.skip(i as int + 5));
            let name = before_any_chars(&after, "(< ");
            if name.len() > 0 {
                Some(name)
            } else {
                None
            }
        },
        None => None,
    }
}

/// A one-element list of codes.
fn codes1(code: &str) -> (v: Vec<String>)
    ensures
        texts(v@) == seq![code@],
{
    let mut v: Vec<String> = Vec::new();
    v.push(String::from_str(code));
    assert(texts(v@) =~= seq![code@]);
    v
}

/// Whether one of the 30 lines from line `n` on declares an associated type.
fn has_assoc_exec(ls: &Vec<Vec<char>>, n: usize) -> (b: bool)
    requires
        n < ls.len(),
    ensures
        b == has_assoc_type(views(ls@), n as int),
{
    let end = if ls.len() - n > 30 {
        n + 30
    } else {
        ls.len()
    };
    let mut k = n;
    while k < end
        invariant
            n <= k <= end <= ls.len(),
            end <= n + 30,
            end == ls.len() || end == n + 30,
            forall|j: int| n <= j < k ==> !#[trigger] assoc_line(views(ls@)[j]),
        decreases end - k,
    {
        let t = trim_start_chars(&ls[k]);
        if starts_with_str(&t, "associatedtype ") {
            assert(assoc_line(views(ls@)[k as int]));
            return true;
        }
        k = k + 1;
    }
    false
}

/// Whether one of the 20 lines after line `n` awaits.
fn has_await_exec(ls: &Vec<Vec<char>>, n: usize) -> (b: bool)
    requires
        n < ls.len(),
    ensures
        b == has_await(views(ls@), n as int),
{
    let end = if ls.len() - n > 21 {
        n + 21
    } else {
        ls.len()
    };
    let mut k = n + 1;
    while k < end
        invariant
            n + 1 <= k <= end <= ls.len(),
            end <= n + 21,
            end == ls.len() || end == n + 21,
            forall|j: int| n + 1 <= j < k ==> !#[trigger] await_line(views(ls@)[j]),
        decreases end - k,
    {
        if contains_str(&ls[k], "await ") {
            assert(await_line(views(ls@)[k as int]));
            return true;
        }
        k = k + 1;
    }
    false
}

/// Whether a trimmed line declares a function.
fn is_func_line_exec(t: &Vec<char>) -> (b: bool)
    ensures
        b == is_func_line(t@),
{
    starts_with_str(t, "func ") || starts_with_str(t, "public func ") || starts_with_str(
        t,
        "internal func ",
    ) || starts_with_str(t, "private func ") || starts_with_str(t, "async func ")
        || contains_str(t, " async func ")
}

fn async_label_exec(at: AsyncTier) -> (s: &'static str)
    ensures
        s@ == async_label(at),
{
    match at {
        AsyncTier::A1 => "A1",
        AsyncTier::A1Sync => "A1-sync",
        AsyncTier::A2 => "A2",
    }
}

/// Records a declaration without async tier or diagnostics.
fn push_plain_decl(c: &mut Classifier, name: &Vec<char>, kind: &str, tier: SyncTier)
    ensures
        final(c)@ == (ClassState {
            decls: old(c)@.decls.push(plain_decl(name@, kind@, tier)),
            ..old(c)@
        }),
{
    let d = DeclarationResult {
        name: crate::text::string_of(name),
        kind: String::from_str(kind),
        tier,
        async_tier: None,
        combined_tier: None,
        diagnostics: Vec::new(),
    };
    assert(d@.diagnostics =~= Seq::<Seq<char>>::empty());
    let ghost before = c.decls@;
    c.decls.push(d);
    assert(decl_views(c.decls@) =~= decl_views(before).push(d@));
}

/// Whether the declaration seen last is a class.
fn is_class_receiver(c: &Classifier) -> (b: bool)
    ensures
        b == receiver_is_class(c@.decls),
{
    if c.decls.len() == 0 {
        return false;
    }
    let last = c.decls.len() - 1;
    assert(decl_views(c.decls@).last() == c.decls@[last as int]@);
    let k = chars_of(c.decls[last].kind.as_str());
    crate::text::eq_str(&k, "class")
}

/// The classifier's step for a function declared on line `n` (trimmed: `t`).
fn classify_func_exec(
    c: &mut Classifier,
    file: &str,
    ls: &Vec<Vec<char>>,
    n: usize,
    t: &Vec<char>,
)
    requires
        n < ls.len(),
    ensures
        final(c)@ == classify_func(old(c)@, file@, views(ls@), n as int, t@),
{
    let ghost st = c@;
    let is_async = contains_str(t, "async func") || contains_str(t, "async ");
    let name = match extract_func_name(t) {
        Some(nm) => nm,
        None => chars_of("unknown"),
    };
    let is_class = is_class_receiver(c);
    let line = n + 1;
    let mut async_tier: Option<AsyncTier> = None;
    if is_async {
        if is_class {
            let msg = text3(
                "Async func `",
                &name,
                "` on class receiver — lock-before-await pattern applied",
            );
            let d = Diagnostic::warn("ASYNC-LOCK-RISK", msg.as_str(), file, line).with_hint(
                "Acquire Mutex, clone state, release lock before any .await point.",
            ).with_see("SPEC-006 §4, SPEC-003 §5");
            let ghost before = c.diags@;
            c.diags.push(d);
            assert(diag_views(c.diags@) =~= diag_views(before).push(d@));
            async_tier = Some(AsyncTier::A2);
        } else if has_await_exec(ls, n) {
            async_tier = Some(AsyncTier::A1);
        } else {
            let msg = text3("Async func `", &name, "` has no await — spawn_blocking used");
            let d = Diagnostic::info("ASYNC-NO-AWAIT", msg.as_str(), file, line);
            let ghost before = c.diags@;
            c.diags.push(d);
            assert(diag_views(c.diags@) =~= diag_views(before).push(d@));
            async_tier = Some(AsyncTier::A1Sync);
        }
    }
    let combined = match async_tier {
        Some(at) => {
            let mut s = String::from_str(
                if is_class {
                    "2"
                } else {
                    "1"
                },
            );
            s.append("/");
            s.append(async_label_exec(at));
            Some(s)
        },
        None => None,
    };
    let d = DeclarationResult {
        name: crate::text::string_of(&name),
        kind: String::from_str("func"),
        tier: if is_class {
            SyncTier::Tier2
        } else {
            SyncTier::Tier1
        },
        async_tier,
        combined_tier: combined,
        diagnostics: Vec::new(),
    };
    assert(d@.diagnostics =~= Seq::<Seq<char>>::empty());
    let ghost before = c.decls@;
    c.decls.push(d);
    assert(decl_views(c.decls@) =~= decl_views(before).push(d@));
}

/// The module imported by the trimmed line `t`, if it is an import.
fn import_module_exec(t: &Vec<char>) -> (r: Option<Vec<char>>)
    ensures
        match r {
            Some(m) => import_module(t@) == Some(m@),
            None => import_module(t@) is None,
        },
{
    let rest = match strip_prefix_str(t, "@testable import ") {
        Some(r) => r,
        None => match strip_prefix_str(t, "import ") {
            Some(r) => r,
            None => {
                return None;
            },
        },
    };
    Some(before_any_chars(&trim_chars(&rest), " .;"))
}

/// Whether some line of `ls` contains `p`.
fn file_mentions_exec(ls: &Vec<Vec<char>>, p: &str) -> (b: bool)
    ensures
        b == file_mentions(views(ls@), p@),
{
    let ghost lv = views(ls@);
    let mut k: usize = 0;
    while k < ls.len()
        invariant
            k <= ls.len(),
            lv == views(ls@),
            forall|j: int| 0 <= j < k ==> !contains(#[trigger] lv[j], p@),
        decreases ls.len() - k,
    {
        assert(lv[k as int] == ls@[k as int]@);
        if contains_str(&ls[k], p) {
            assert(contains(lv[k as int], p@));
            return true;
        }
        k = k + 1;
    }
    false
}

/// Whether importing `m` ties the file `ls` to the Swift Shell.
fn shell_module_exec(m: &Vec<char>, ls: &Vec<Vec<char>>) -> (b: bool)
    ensures
        b == shell_module(m@, views(ls@)),
{
    let listed = eq_str(m, "SwiftUI") || eq_str(m, "UIKit") || eq_str(m, "AppKit") || eq_str(
        m,
        "WatchKit",
    ) || eq_str(m, "TVUIKit") || eq_str(m, "StoreKit") || eq_str(m, "ARKit") || eq_str(
        m,
        "RealityKit",
    ) || eq_str(m, "SceneKit") || eq_str(m, "MapKit") || eq_str(m, "XCTest");
    if listed {
        return true;
    }
    if eq_str(m, "CoreLocation") {
        proof {
            reveal_strlit("CoreLocation");
            reveal_strlit("Combine");
            assert("CoreLocation"@[2] != "Combine"@[2]);
        }
        return file_mentions_exec(ls, "CLLocationManagerDelegate");
    }
    if eq_str(m, "Combine") {
        return file_mentions_exec(ls, "@Published") || file_mentions_exec(ls, "ObservableObject");
    }
    false
}

fn classify_line_exec(c: &mut Classifier, file: &str, ls: &Vec<Vec<char>>, n: usize)
    requires
        n < ls.len(),
    ensures
        final(c)@ == classify_line(old(c)@, file@, views(ls@), n as int),
{
    let t = trim_chars(&ls[n]);
    assert(t@ == trim(views(ls@)[n as int]));
    let line = n + 1;
    if let Some(m) = import_module_exec(&t) {
        if shell_module_exec(&m, ls) {
            c.worst = SyncTier::Tier3;
        let msg = text3("Import of `", &m, "` ties the file to the Swift Shell — no Rust output");
        let d = Diagnostic::error("T3-MANUAL", msg.as_str(), file, line).with_hint(
            "Keep this file in the Swift Shell; move platform-independent logic to a file that imports only Foundation.",
        ).with_see("SPEC-001 Shell Import Trigger List");
            let ghost before = c.diags@;
            c.diags.push(d);
            assert(diag_views(c.diags@) =~= diag_views(before).push(d@));
            return ;
        }
        if eq_str(&m, "Combine") {
            let d = Diagnostic::warn(
                "COMBINE-YELLOW-FLAG",
                "`Combine` used in business logic — a yellow flag, not a Shell trigger",
                file,
                line,
            ).with_hint(
                "Prefer callbacks or async functions in Core logic, and keep publishers in the Swift Shell.",
            ).with_see("SPEC-001 Shell Import Trigger List");
            let ghost before = c.diags@;
            c.diags.push(d);
            assert(diag_views(c.diags@) =~= diag_views(before).push(d@));
            return ;
        }
    }
    if let Some(name) = extract_decl_name(&t, "struct ") {
        push_plain_decl(c, &name, "struct", SyncTier::Tier1);
        return ;
    }
    if let Some(name) = extract_decl_name(&t, "enum ") {
        push_plain_decl(c, &name, "enum", SyncTier::Tier1);
        return ;
    }
    if let Some(name) = extract_decl_name(&t, "class ") {
        match c.worst {
            SyncTier::Tier1 => {
                c.worst = SyncTier::Tier2;
            },
            _ => {},
        }
        let msg = text3("`class ", &name, "` → Arc<Mutex<T>> in Rust output");
        let d = Diagnostic::info("T2-CLASS", msg.as_str(), file, line).with_see("SPEC-003");
        let ghost before = c.diags@;
        c.diags.push(d);
        assert(diag_views(c.diags@) =~= diag_views(before).push(d@));
        let codes = match extract_superclass(&t) {
            Some(sc) => {
                let mut msg = text3("class '", &name, "' inherits from '");
                msg.append(sc.as_str());
                msg.append(
                    "'. Inheritance is not supported in Tier 2. Translate to trait composition manually.",
                );
                let d = Diagnostic::warn("T2-INHERITANCE", msg.as_str(), file, line).with_hint(
                    "Replace inheritance with a struct that holds the base state and a trait for the shared behaviour.",
                ).with_see("SPEC-002 Diagnostics");
                let ghost before = c.diags@;
                c.diags.push(d);
                assert(diag_views(c.diags@) =~= diag_views(before).push(d@));
                let mut v = codes1("T2-CLASS");
                let ghost b = v@;
                let code = String::from_str("T2-INHERITANCE");
                v.push(code);
                assert(texts(v@) =~= texts(b).push(code@));
                assert(texts(v@) =~= seq!["T2-CLASS"@, "T2-INHERITANCE"@]);
                v
            },
            None => codes1("T2-CLASS"),
        };
        let decl = DeclarationResult {
            name: crate::text::string_of(&name),
            kind: String::from_str("class"),
            tier: SyncTier::Tier2,
            async_tier: None,
            combined_tier: None,
            diagnostics: codes,
        };
        let ghost before = c.decls@;
        c.decls.push(decl);
        assert(decl_views(c.decls@) =~= decl_views(before).push(decl@));
        return ;
    }
    if let Some(name) = extract_decl_name(&t, "protocol ") {
        if has_assoc_exec(ls, n) {
            c.worst = SyncTier::Tier3;
            let msg = text3("Protocol `", &name, "` has associated types — Shell only");
            let d = Diagnostic::error("T3-PAT", msg.as_str(), file, line).with_hint(
                "Move protocol conformances to the Swift Shell layer.",
            ).with_see("SPEC-001 §3.2");
            let ghost before = c.diags@;
            c.diags.push(d);
            assert(diag_views(c.diags@) =~= diag_views(before).push(d@));
            let decl = DeclarationResult {
                name: crate::text::string_of(&name),
                kind: String::from_str("protocol"),
                tier: SyncTier::Tier3,
                async_tier: None,
                combined_tier: None,
                diagnostics: codes1("T3-PAT"),
            };
            let ghost before = c.decls@;
            c.decls.push(decl);
            assert(decl_views(c.decls@) =~= decl_views(before).push(decl@));
        }
        return ;
    }
    if contains_str(&t, "@objc") || contains_str(&t, ": NSObject") {
        c.worst = SyncTier::Tier3;
        let d = Diagnostic::error("T3-OBJC", "ObjC interop detected — not transpilable", file, line)
            .with_hint("Keep ObjC-dependent code in the Swift Shell.").with_see("SPEC-001 §3.2");
        let ghost before = c.diags@;
        c.diags.push(d);
        assert(diag_views(c.diags@) =~= diag_views(before).push(d@));
        return ;
    }
    if is_func_line_exec(&t) {
        classify_func_exec(c, file, ls, n, &t);
    }
}

/// Classify a Swift source file and return a `ClassificationResult`.
/// `file` names the source only in the result and its diagnostics.
pub fn classify_file(file: &str, source: &str) -> (r: ClassificationResult)
    ensures
        r@ == spec_classify_file(file@, source@),
{
    let ls = lines_of(&chars_of(source));
    let mut c = Classifier { decls: Vec::new(), diags: Vec::new(), worst: SyncTier::Tier1 };
    assert(c@.decls =~= Seq::<DeclView>::empty());
    assert(c@.diags =~= Seq::<DiagnosticView>::empty());
    let mut i: usize = 0;
    while i < ls.len()
        invariant
            i <= ls.len(),
            views(ls@) == lines(source@),
            c@ == classify_prefix(file@, views(ls@), i as nat),
        decreases ls.len() - i,
    {
        classify_line_exec(&mut c, file, &ls, i);
        i = i + 1;
    }
    let file_tier = match c.worst {
        SyncTier::Tier1 => "Core",
        SyncTier::Tier2 => "Core (Tier 2 present)",
        SyncTier::Tier3 => "Shell",
    };
    ClassificationResult {
        file: String::from_str(file),
        file_tier: String::from_str(file_tier),
        declarations: c.decls,
        diagnostics: c.diags,
    }
}

// ── Laws ───────────────────────────────────────────────────────────────────

/// Every error carries a reference to its governing rule, and every warning a
/// corrective hint.
pub open spec fn diags_well_formed(ds: Seq<DiagnosticView>) -> bool {
    forall|i: int|
        0 <= i < ds.len() ==> (#[trigger] ds[i].level == Severity::Error ==> ds[i].see is Some)
            && (ds[i].level == Severity::Warn ==> ds[i].hint is Some)
}

/// Every diagnostic points at one of the first `n` lines (counted from 1).
pub open spec fn diags_within(ds: Seq<DiagnosticView>, n: int) -> bool {
    forall|i: int| 0 <= i < ds.len() ==> 1 <= #[trigger] ds[i].line <= n
}

/// What holds of the classifier's state after each line.
pub open spec fn state_ok(st: ClassState, n: int) -> bool {
    &&& diags_well_formed(st.diags)
    &&& diags_within(st.diags, n)
    &&& (st.worst == SyncTier::Tier3 <==> crate::diagnostics::has_level(st.diags, Severity::Error))
    &&& (has_a2(st.decls) ==> crate::diagnostics::has_level(st.diags, Severity::Warn))
}

/// Whether some declaration has the async tier A2 (async on a class receiver).
pub open spec fn has_a2(ds: Seq<DeclView>) -> bool {
    exists|i: int| 0 <= i < ds.len() && #[trigger] ds[i].async_tier == Some(AsyncTier::A2)
}

proof fn lemma_step_ok(st: ClassState, file: Seq<char>, ls: Seq<Seq<char>>, n: int)
    requires
        0 <= n < ls.len(),
        n + 1 <= usize::MAX,
        state_ok(st, n),
    ensures
        state_ok(classify_line(st, file, ls, n), n + 1),
{
    let next = classify_line(st, file, ls, n);
    assert forall|i: int| 0 <= i < next.diags.len() implies 1 <= #[trigger] next.diags[i].line <= n
        + 1 by {
        if i < st.diags.len() {
            assert(next.diags[i] == st.diags[i]);
        }
    }
    assert forall|i: int|
        0 <= i < next.diags.len() implies (#[trigger] next.diags[i].level == Severity::Error
        ==> next.diags[i].see is Some) && (next.diags[i].level == Severity::Warn
        ==> next.diags[i].hint is Some) by {
        if i < st.diags.len() {
            assert(next.diags[i] == st.diags[i]);
        }
    }
    if next.worst == SyncTier::Tier3 {
        if st.worst != SyncTier::Tier3 {
            let k = st.diags.len() as int;
            assert(next.diags[k].level == Severity::Error);
        } else {
            let k = choose|k: int| 0 <= k < st.diags.len() && #[trigger] st.diags[k].level == Severity::Error;
            assert(next.diags[k] == st.diags[k]);
        }
    }
    if crate::diagnostics::has_level(next.diags, Severity::Error) {
        let k = choose|k: int| 0 <= k < next.diags.len() && #[trigger] next.diags[k].level == Severity::Error;
        if k < st.diags.len() {
            assert(next.diags[k] == st.diags[k]);
        }
    }
    if has_a2(next.decls) {
        let j = choose|j: int| 0 <= j < next.decls.len() && #[trigger] next.decls[j].async_tier == Some(AsyncTier::A2);
        if j < st.decls.len() {
            assert(next.decls[j] == st.decls[j]);
            let k = choose|k: int| 0 <= k < st.diags.len() && #[trigger] st.diags[k].level == Severity::Warn;
            assert(next.diags[k] == st.diags[k]);
        } else {
            let k = st.diags.len() as int;
            assert(next.diags[k].level == Severity::Warn);
        }
    }
}

proof fn lemma_prefix_ok(file: Seq<char>, ls: Seq<Seq<char>>, n: nat)
    requires
        n <= ls.len(),
        ls.len() <= usize::MAX,
    ensures
        state_ok(classify_prefix(file, ls, n), n as int),
    decreases n,
{
    if n > 0 {
        lemma_prefix_ok(file, ls, (n - 1) as nat);
        lemma_step_ok(classify_prefix(file, ls, (n - 1) as nat), file, ls, n - 1);
    }
}

/// A classification whose file tier is "Shell" is exactly one with an error
/// diagnostic, and so one whose exit code is 2: no error is produced silently,
/// and no file is sent to the Shell without an error that says why.
pub proof fn law_shell_iff_error(file: Seq<char>, source: Seq<char>)
    requires
        source.len() <= usize::MAX,
    ensures
        spec_classify_file(file, source).file_tier == "Shell"@ <==> spec_exit_code(
            spec_classify_file(file, source).diagnostics,
        ) == 2,
{
    let ls = lines(source);
    crate::parser::lemma_lines_count(source);
    lemma_prefix_ok(file, ls, ls.len());
    reveal_strlit("Shell");
    reveal_strlit("Core");
    reveal_strlit("Core (Tier 2 present)");
    let st = classify_prefix(file, ls, ls.len());
    if st.worst != SyncTier::Tier3 {
        assert(file_tier_label(st.worst).len() != "Shell"@.len());
    }
}

/// A declaration with async tier A2 (an async function on a class receiver)
/// always comes with a warning, so the exit code is at least 1.
pub proof fn law_a2_warns(file: Seq<char>, source: Seq<char>)
    requires
        source.len() <= usize::MAX,
    ensures
        has_a2(spec_classify_file(file, source).declarations) ==> spec_exit_code(
            spec_classify_file(file, source).diagnostics,
        ) >= 1,
{
    let ls = lines(source);
    crate::parser::lemma_lines_count(source);
    lemma_prefix_ok(file, ls, ls.len());
}

/// Every error the classifier reports names the rule that governs it, every
/// warning carries a corrective hint, and every diagnostic points at a line of
/// the source (counted from 1).
pub proof fn law_classify_diagnostics_well_formed(file: Seq<char>, source: Seq<char>)
    requires
        source.len() <= usize::MAX,
    ensures
        diags_well_formed(spec_classify_file(file, source).diagnostics),
        diags_within(spec_classify_file(file, source).diagnostics, lines(source).len() as int),
{
    let ls = lines(source);
    crate::parser::lemma_lines_count(source);
    lemma_prefix_ok(file, ls, ls.len());
}

/// An async function that is not on a class receiver is tier A1 (combined
/// `1/A1`, no diagnostic) exactly when one of the 20 source lines after its
/// declaration line contains `await `; otherwise it is A1-sync (combined
/// `1/A1-sync`) with one `ASYNC-NO-AWAIT` info diagnostic on its line.
pub proof fn law_await_window(
    st: ClassState,
    file: Seq<char>,
    ls: Seq<Seq<char>>,
    n: int,
    t: Seq<char>,
)
    requires
        0 <= n < ls.len() <= usize::MAX,
        contains(t, "async "@),
        !receiver_is_class(st.decls),
    ensures
        ({
            let r = classify_func(st, file, ls, n, t);
            let found = exists|k: int|
                n + 1 <= k < n + 21 && k < ls.len() && #[trigger] contains(ls[k], "await "@);
            &&& r.decls.len() == st.decls.len() + 1
            &&& r.decls.last().tier == SyncTier::Tier1
            &&& found ==> r.decls.last().async_tier == Some(AsyncTier::A1)
                && r.decls.last().combined_tier == Some("1/A1"@) && r.diags == st.diags
            &&& !found ==> r.decls.last().async_tier == Some(AsyncTier::A1Sync)
                && r.decls.last().combined_tier == Some("1/A1-sync"@) && r.diags.len()
                == st.diags.len() + 1 && r.diags.last().code == "ASYNC-NO-AWAIT"@
                && r.diags.last().level == Severity::Info && r.diags.last().line == n + 1
        }),
{
    reveal_strlit("1");
    reveal_strlit("/");
    reveal_strlit("A1");
    reveal_strlit("A1-sync");
    reveal_strlit("1/A1");
    reveal_strlit("1/A1-sync");
    assert("1"@ + "/"@ + "A1"@ =~= "1/A1"@);
    assert("1"@ + "/"@ + "A1-sync"@ =~= "1/A1-sync"@);
    let found = exists|k: int|
        n + 1 <= k < n + 21 && k < ls.len() && #[trigger] contains(ls[k], "await "@);
    if found {
        let k = choose|k: int|
            n + 1 <= k < n + 21 && k < ls.len() && #[trigger] contains(ls[k], "await "@);
        assert(await_line(ls[k]));
    }
    if has_await(ls, n) {
        let k = choose|k: int| n + 1 <= k < n + 21 && k < ls.len() && #[trigger] await_line(ls[k]);
        assert(contains(ls[k], "await "@));
    }
}

} // verus!
