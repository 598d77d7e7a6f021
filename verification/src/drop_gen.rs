//! Drop / deinit emitter.
//!
//! When a Swift `class` contains a `deinit` block, its Rust translation
//! implements `Drop` on the inner struct. This module reads the deinit body
//! line by line and generates a best-effort `impl Drop` block; for statements
//! it cannot translate it emits a warning and a stub so the project still
//! compiles.
//!
//! | Swift deinit statement | Rust output |
//! |---|---|
//! | `close(handle)` / `handle.close()` | a comment stub and a warning |
//! | `NotificationCenter.default.removeObserver(self)` | a comment stub and a warning |
//! | `delegate = nil` | `self.delegate = None;` |
//! | empty deinit | an empty `drop` |
//! | anything else | a `todo!` stub and a warning |
use vstd::prelude::*;
use crate::diagnostics::{diag_views, spec_diagnostic, Diagnostic, DiagnosticView, Severity};
use crate::parser::SwiftClass;
use crate::text::{
    chars_of, contains, contains_str, ends_with, ends_with_str, join, join_chars, lowercase,
    push_chars, starts_with, starts_with_str, string_of, to_lowercase, trim, trim_chars,
    trim_end_char, trim_end_char_chars, trim_end_seq, trim_end_str, views,
};

verus! {

// ── Specification ──────────────────────────────────────────────────────────

/// The field that a `field = nil` statement clears, if the statement is one.
pub open spec fn nil_assign(line: Seq<char>) -> Option<Seq<char>> {
    let stripped = trim(trim_end_char(line, ';'));
    if ends_with(stripped, "= nil"@) {
        let field = trim(trim_end_seq(stripped, "= nil"@));
        if !contains(field, " "@) && !contains(field, "."@) {
            Some(field)
        } else {
            None
        }
    } else {
        None
    }
}

/// Whether lower-cased statement text closes or frees a resource.
pub open spec fn close_pattern(lowered: Seq<char>) -> bool {
    ||| contains(lowered, "close("@)
    ||| contains(lowered, ".close()"@)
    ||| contains(lowered, "free("@)
    ||| contains(lowered, "release("@)
    ||| contains(lowered, "destroy("@)
}

/// The warning, with its corrective hint, for a statement of a class declared
/// on `line` of `file`.
pub open spec fn drop_warning(
    code: Seq<char>,
    message: Seq<char>,
    hint: Seq<char>,
    file: Seq<char>,
    line: usize,
) -> DiagnosticView {
    DiagnosticView { hint: Some(hint), ..spec_diagnostic(Severity::Warn, code, message, file, line) }
}

/// The hint for a deinit that removes a notification observer.
pub open spec fn observer_hint() -> Seq<char> {
    "Remove the observer in the Rust owner's teardown, or keep the observation in the Swift Shell."@
}

/// The hint for a deinit that closes or frees a resource.
pub open spec fn close_hint() -> Seq<char> {
    "Hold the resource in a field whose own Drop releases it, and check that it is released once."@
}

/// The hint for a deinit statement that could not be translated.
pub open spec fn untranslated_hint() -> Seq<char> {
    "Write the statement by hand in the generated Drop impl and remove the todo!() stub."@
}

/// The state of the translation: the Rust body lines so far and the
/// diagnostics so far.
pub struct DropState {
    pub body: Seq<Seq<char>>,
    pub diags: Seq<DiagnosticView>,
}

/// The translation of one deinit statement `raw` of class `name`.
pub open spec fn drop_step(
    st: DropState,
    name: Seq<char>,
    file: Seq<char>,
    line: usize,
    raw: Seq<char>,
) -> DropState {
    let t = trim(raw);
    if t.len() == 0 || starts_with(t, "//"@) {
        st
    } else if contains(t, "NotificationCenter"@) {
        DropState {
            body: st.body.push("        // T2-OBSERVER: "@ + t),
            diags: st.diags.push(
                drop_warning(
                    "T2-OBSERVER"@,
                    "`"@ + name
                        + "` deinit removes NotificationCenter observer — stub generated; wire up manually after transpilation."@,
                    observer_hint(),
                    file,
                    line,
                ),
            ),
        }
    } else if nil_assign(t) is Some {
        DropState {
            body: st.body.push("        self."@ + nil_assign(t).unwrap() + " = None;"@),
            ..st
        }
    } else if close_pattern(lowercase(t)) {
        DropState {
            body: st.body.push("        // T2-DEINIT-CLOSE: "@ + t),
            diags: st.diags.push(
                drop_warning(
                    "T2-DEINIT-CLOSE"@,
                    "`"@ + name
                        + "` deinit calls close/free — verify the Rust resource handle is correct."@,
                    close_hint(),
                    file,
                    line,
                ),
            ),
        }
    } else {
        DropState {
            body: st.body.push(
                "        todo!(\"T2-DEINIT: "@ + name + "\", /* "@ + t + " */)"@,
            ),
            diags: st.diags.push(
                drop_warning(
                    "T2-DEINIT"@,
                    "`"@ + name
                        + "` deinit contains untranslatable statement — `todo!()` stub generated."@,
                    untranslated_hint(),
                    file,
                    line,
                ),
            ),
        }
    }
}

/// The translation of the statements of `body`.
pub open spec fn drop_lines(
    body: Seq<Seq<char>>,
    name: Seq<char>,
    file: Seq<char>,
    line: usize,
) -> DropState
    decreases body.len(),
{
    if body.len() == 0 {
        DropState { body: seq![], diags: seq![] }
    } else {
        drop_step(drop_lines(body.drop_last(), name, file, line), name, file, line, body.last())
    }
}

/// The `Drop` impl, and the diagnostics, for the deinit body `body` of class
/// `name` (declared on `line` of `file`).
pub open spec fn spec_emit_drop(
    body: Seq<Seq<char>>,
    name: Seq<char>,
    file: Seq<char>,
    line: usize,
) -> (
    Seq<char>,
    Seq<DiagnosticView>,
) {
    if body.len() == 0 {
        ("impl Drop for "@ + name + "Inner {\n    fn drop(&mut self) {}\n}\n\n"@, seq![])
    } else {
        let st = drop_lines(body, name, file, line);
        let text = if st.body.len() == 0 {
            "        // (nothing to do)"@
        } else {
            join(st.body, "\n"@)
        };
        (
            "/// Drop impl generated from Swift `deinit` in `"@ + name
                + "` (SPEC-003 §6)\nimpl Drop for "@ + name
                + "Inner {\n    fn drop(&mut self) {\n"@ + text + "\n    }\n}\n\n"@,
            st.diags,
        )
    }
}

/// The texts of a slice of string slices.
pub open spec fn str_views(v: Seq<&str>) -> Seq<Seq<char>> {
    v.map_values(|s: &str| s@)
}

// ── Implementation ─────────────────────────────────────────────────────────

fn extract_nil_assign(line: &Vec<char>) -> (r: Option<Vec<char>>)
    ensures
        match r {
            Some(v) => nil_assign(line@) == Some(v@),
            None => nil_assign(line@) is None,
        },
{
    let stripped = trim_chars(&trim_end_char_chars(line, ';'));
    if ends_with_str(&stripped, "= nil") {
        let field = trim_chars(&trim_end_str(&stripped, "= nil"));
        if !contains_str(&field, " ") && !contains_str(&field, ".") {
            return Some(field);
        }
    }
    None
}

/// Whether lower-cased statement text closes or frees a resource: whether it
/// holds `close(`, `.close()`, `free(`, `release(` or `destroy(`.
pub fn close_pattern_in(lowered: &str) -> (b: bool)
    ensures
        b == close_pattern(lowered@),
{
    let l = chars_of(lowered);
    contains_str(&l, "close(") || contains_str(&l, ".close()") || contains_str(&l, "free(")
        || contains_str(&l, "release(") || contains_str(&l, "destroy(")
}

fn looks_like_close(line: &Vec<char>) -> (b: bool)
    ensures
        b == close_pattern(lowercase(line@)),
{
    let l = to_lowercase(line);
    let s = string_of(&l);
    close_pattern_in(s.as_str())
}

/// `a`, then the characters of `mid`, then `b`.
fn text3(a: &str, mid: &Vec<char>, b: &str) -> (r: Vec<char>)
    ensures
        r@ == a@ + mid@ + b@,
{
    let mut s = String::from_str(a);
    push_chars(&mut s, mid);
    s.append(b);
    chars_of(s.as_str())
}

/// `a` followed by the characters of `mid`.
fn text2(a: &str, mid: &Vec<char>) -> (r: Vec<char>)
    ensures
        r@ == a@ + mid@,
{
    let mut s = String::from_str(a);
    push_chars(&mut s, mid);
    chars_of(s.as_str())
}

/// Emit a Rust `impl Drop` block for a Swift class with `deinit`.
///
/// Returns `(rust_source, diagnostics)`. The class carries no source file, so
/// its diagnostics name none; `emit_drop_in` names the file.
pub fn emit_drop(class: &SwiftClass, deinit_body: &[&str]) -> (r: (String, Vec<Diagnostic>))
    ensures
        r.0@ == spec_emit_drop(str_views(deinit_body@), class@.name, ""@, class@.line).0,
        diag_views(r.1@) == spec_emit_drop(str_views(deinit_body@), class@.name, ""@, class@.line).1,
{
    emit_drop_in("", class, deinit_body)
}

/// Emit a Rust `impl Drop` block for a Swift class with `deinit`, declared in
/// the source file `file`.
///
/// Returns `(rust_source, diagnostics)`; each diagnostic names `file`.
pub fn emit_drop_in(file: &str, class: &SwiftClass, deinit_body: &[&str]) -> (r: (
    String,
    Vec<Diagnostic>,
))
    ensures
        r.0@ == spec_emit_drop(str_views(deinit_body@), class@.name, file@, class@.line).0,
        diag_views(r.1@) == spec_emit_drop(str_views(deinit_body@), class@.name, file@, class@.line).1,
{
    let mut diags: Vec<Diagnostic> = Vec::new();
    let name = chars_of(class.name.as_str());
    if deinit_body.len() == 0 {
        let mut r = String::from_str("impl Drop for ");
        r.append(class.name.as_str());
        r.append("Inner {\n    fn drop(&mut self) {}\n}\n\n");
        assert(diag_views(diags@) =~= Seq::<DiagnosticView>::empty());
        return (r, diags);
    }
    let ghost body = str_views(deinit_body@);
    let mut lines: Vec<Vec<char>> = Vec::new();
    let mut i: usize = 0;
    assert(views(lines@) =~= drop_lines(body.take(0), name@, file@, class.line).body);
    assert(diag_views(diags@) =~= drop_lines(body.take(0), name@, file@, class.line).diags);
    while i < deinit_body.len()
        invariant
            i <= deinit_body.len(),
            body == str_views(deinit_body@),
            name@ == class.name@,
            views(lines@) == drop_lines(body.take(i as int), name@, file@, class.line).body,
            diag_views(diags@) == drop_lines(body.take(i as int), name@, file@, class.line).diags,
        decreases deinit_body.len() - i,
    {
        assert(body.take(i as int + 1).drop_last() =~= body.take(i as int));
        assert(body.take(i as int + 1).last() == deinit_body@[i as int]@);
        let ghost lv = views(lines@);
        let ghost dv = diag_views(diags@);
        let t = trim_chars(&chars_of(deinit_body[i]));
        if t.len() == 0 || starts_with_str(&t, "//") {
        } else if contains_str(&t, "NotificationCenter") {
            let msg = text3(
                "`",
                &name,
                "` deinit removes NotificationCenter observer — stub generated; wire up manually after transpilation.",
            );
            let m = string_of(&msg);
            let d = Diagnostic::warn("T2-OBSERVER", m.as_str(), file, class.line).with_hint(
                "Remove the observer in the Rust owner's teardown, or keep the observation in the Swift Shell.",
            );
            diags.push(d);
            assert(diag_views(diags@) =~= dv.push(d@));
            let l = text2("        // T2-OBSERVER: ", &t);
            lines.push(l);
            assert(views(lines@) =~= lv.push(l@));
        } else if let Some(field) = extract_nil_assign(&t) {
            let l = text3("        self.", &field, " = None;");
            lines.push(l);
            assert(views(lines@) =~= lv.push(l@));
        } else if looks_like_close(&t) {
            let msg = text3(
                "`",
                &name,
                "` deinit calls close/free — verify the Rust resource handle is correct.",
            );
            let m = string_of(&msg);
            let d = Diagnostic::warn("T2-DEINIT-CLOSE", m.as_str(), file, class.line).with_hint(
                "Hold the resource in a field whose own Drop releases it, and check that it is released once.",
            );
            diags.push(d);
            assert(diag_views(diags@) =~= dv.push(d@));
            let l = text2("        // T2-DEINIT-CLOSE: ", &t);
            lines.push(l);
            assert(views(lines@) =~= lv.push(l@));
        } else {
            let msg = text3(
                "`",
                &name,
                "` deinit contains untranslatable statement — `todo!()` stub generated.",
            );
            let m = string_of(&msg);
            let d = Diagnostic::warn("T2-DEINIT", m.as_str(), file, class.line).with_hint(
                "Write the statement by hand in the generated Drop impl and remove the todo!() stub.",
            );
            diags.push(d);
            assert(diag_views(diags@) =~= dv.push(d@));
            let head = text3("        todo!(\"T2-DEINIT: ", &name, "\", /* ");
            let mut s = string_of(&head);
            push_chars(&mut s, &t);
            s.append(" */)");
            let l = chars_of(s.as_str());
            assert(l@ =~= "        todo!(\"T2-DEINIT: "@ + name@ + "\", /* "@ + t@ + " */)"@);
            lines.push(l);
            assert(views(lines@) =~= lv.push(l@));
        }
        i = i + 1;
    }
    assert(body.take(deinit_body.len() as int) =~= body);
    let text = if lines.len() == 0 {
        chars_of("        // (nothing to do)")
    } else {
        join_chars(&lines, "\n")
    };
    let mut r = String::from_str("/// Drop impl generated from Swift `deinit` in `");
    r.append(class.name.as_str());
    r.append("` (SPEC-003 §6)\nimpl Drop for ");
    r.append(class.name.as_str());
    r.append("Inner {\n    fn drop(&mut self) {\n");
    push_chars(&mut r, &text);
    r.append("\n    }\n}\n\n");
    (r, diags)
}

// ── Laws ───────────────────────────────────────────────────────────────────

/// Each diagnostic is a warning with a corrective hint that names `file` and
/// points at the class's declaration line.
pub open spec fn warnings_at(ds: Seq<DiagnosticView>, file: Seq<char>, line: usize) -> bool {
    forall|i: int|
        0 <= i < ds.len() ==> #[trigger] ds[i].level == Severity::Warn && ds[i].hint is Some
            && ds[i].line == line && ds[i].file == file
}

proof fn lemma_drop_lines(body: Seq<Seq<char>>, name: Seq<char>, file: Seq<char>, line: usize)
    ensures
        warnings_at(drop_lines(body, name, file, line).diags, file, line),
        drop_lines(body, name, file, line).diags.len() <= body.len(),
        drop_lines(body, name, file, line).body.len() <= body.len(),
    decreases body.len(),
{
    if body.len() > 0 {
        lemma_drop_lines(body.drop_last(), name, file, line);
        let st = drop_lines(body.drop_last(), name, file, line);
        let next = drop_lines(body, name, file, line);
        assert forall|i: int| 0 <= i < next.diags.len() implies #[trigger] next.diags[i].level
            == Severity::Warn && next.diags[i].hint is Some && next.diags[i].line == line
            && next.diags[i].file == file by {
            if i < st.diags.len() {
                assert(next.diags[i] == st.diags[i]);
            }
        }
    }
}

/// Translating a deinit reports at most one diagnostic per statement, each a
/// warning with a corrective hint, naming the source file and the class's
/// declaration line; an empty deinit reports none.
pub proof fn law_drop_diagnostics(
    body: Seq<Seq<char>>,
    name: Seq<char>,
    file: Seq<char>,
    line: usize,
)
    ensures
        warnings_at(spec_emit_drop(body, name, file, line).1, file, line),
        spec_emit_drop(body, name, file, line).1.len() <= body.len(),
{
    lemma_drop_lines(body, name, file, line);
}

/// A deinit statement that closes or frees a resource (its lower-cased text
/// holds `close(`, `.close()`, `free(`, `release(` or `destroy(`), and is no
/// comment, observer removal or `field = nil`, becomes a `T2-DEINIT-CLOSE`
/// comment with one `T2-DEINIT-CLOSE` warning, never a `todo!()` stub.
pub proof fn law_close_statement_is_commented(
    st: DropState,
    name: Seq<char>,
    file: Seq<char>,
    line: usize,
    raw: Seq<char>,
)
    requires
        trim(raw).len() > 0,
        !starts_with(trim(raw), "//"@),
        !contains(trim(raw), "NotificationCenter"@),
        nil_assign(trim(raw)) is None,
        contains(lowercase(trim(raw)), "close("@) || contains(lowercase(trim(raw)), ".close()"@)
            || contains(lowercase(trim(raw)), "free("@) || contains(
            lowercase(trim(raw)),
            "release("@,
        ) || contains(lowercase(trim(raw)), "destroy("@),
    ensures
        drop_step(st, name, file, line, raw).body == st.body.push(
            "        // T2-DEINIT-CLOSE: "@ + trim(raw),
        ),
        drop_step(st, name, file, line, raw).diags.len() == st.diags.len() + 1,
        drop_step(st, name, file, line, raw).diags.last().code == "T2-DEINIT-CLOSE"@,
        drop_step(st, name, file, line, raw).diags.last().level == Severity::Warn,
{
}

} // verus!
