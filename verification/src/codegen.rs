//! Code generator: Tier 1 lowering and async shell generation.
//!
//! Emits Rust source text for the declarations of a parsed Swift file (the
//! IR-aware path), or for the declarations found by the classifier alone
//! (the classify-only path).
use vstd::prelude::*;
use crate::classify::{decl_views, ClassificationResult, DeclView, DeclarationResult, SyncTier};
use crate::parser::{
    case_views, class_views, enum_views, field_views, func_views, spec_rust_signature,
    spec_rust_type, struct_views, texts, CaseView, ClassDeclView, EnumView, FieldView, FileView,
    FuncView, StructView, SwiftClass, SwiftEnum, SwiftEnumCase, SwiftField, SwiftFile, SwiftFunc,
    SwiftStruct,
};
use crate::text::{chars_of, contains, eq_str, join, join_chars, push_chars, views};
use crate::types::{spec_swift_to_rust, swift_to_rust};

verus! {

/// How async Swift functions are lowered.
#[derive(Debug, Clone, Copy, PartialEq, Eq)]
pub enum AsyncMode {
    /// A callback interface that the Swift Shell bridges.
    Bridge,
    /// A native async export.
    Native,
}

/// The async mode named `s`, or the message for an unknown name.
pub open spec fn spec_async_mode(s: Seq<char>) -> Result<AsyncMode, Seq<char>> {
    if s == "bridge"@ {
        Ok(AsyncMode::Bridge)
    } else if s == "native"@ {
        Ok(AsyncMode::Native)
    } else {
        Err("unknown async mode: "@ + s)
    }
}

impl AsyncMode {
    /// The async mode named `s` (`bridge` or `native`).
    pub fn from_name(s: &str) -> (r: Result<AsyncMode, String>)
        ensures
            match (r, spec_async_mode(s@)) {
                (Ok(m), Ok(n)) => m == n,
                (Err(e), Err(f)) => e@ == f,
                _ => false,
            },
    {
        let v = chars_of(s);
        if eq_str(&v, "bridge") {
            Ok(AsyncMode::Bridge)
        } else if eq_str(&v, "native") {
            Ok(AsyncMode::Native)
        } else {
            let mut e = String::from_str("unknown async mode: ");
            e.append(s);
            Err(e)
        }
    }
}

impl core::str::FromStr for AsyncMode {
    type Err = String;

    fn from_str(s: &str) -> (r: Result<AsyncMode, String>)
        ensures
            match (r, spec_async_mode(s@)) {
                (Ok(m), Ok(n)) => m == n,
                (Err(e), Err(f)) => e@ == f,
                _ => false,
            },
    {
        AsyncMode::from_name(s)
    }
}

// ── Specification ──────────────────────────────────────────────────────────

/// The header every generated file starts with.
pub open spec fn spec_preamble(source_file: Seq<char>) -> Seq<char> {
    "// Generated by sarah-cli — DO NOT EDIT\n// Source: "@ + source_file
        + "\n// Phase 2b output — IR-aware Tier 1 / Tier 2 lowering\n// See: SPEC-002, SPEC-003, SPEC-004, SPEC-006\n\nuse std::sync::{Arc, Mutex};\n\n"@
}

/// The placeholder for a Swift type with no Rust mapping.
pub open spec fn unmapped(t: Seq<char>) -> Seq<char> {
    "() /* UNMAPPED: "@ + t + " */"@
}

/// The Rust type text of a field.
pub open spec fn field_type_text(f: FieldView) -> Seq<char> {
    match spec_rust_type(f.swift_type, f.optional) {
        Some(t) => t,
        None => unmapped(f.swift_type),
    }
}

/// The Rust field line of a field.
pub open spec fn field_line(f: FieldView) -> Seq<char> {
    "    pub "@ + f.name + ": "@ + field_type_text(f) + ",\n"@
}

/// The field lines of a sequence of fields.
pub open spec fn field_lines(fs: Seq<FieldView>) -> Seq<char>
    decreases fs.len(),
{
    if fs.len() == 0 {
        seq![]
    } else {
        field_lines(fs.drop_last()) + field_line(fs.last())
    }
}

/// The field lines, or a note that there are none.
pub open spec fn fields_block(fs: Seq<FieldView>) -> Seq<char> {
    if field_lines(fs).len() == 0 {
        "    // (no fields)\n"@
    } else {
        field_lines(fs)
    }
}

/// The Rust item for an async Swift function.
pub open spec fn spec_async_item(name: Seq<char>, mode: AsyncMode) -> Seq<char> {
    match mode {
        AsyncMode::Bridge => "/// Transpiled from Swift `async func "@ + name
            + "` (SPEC-006 §3, Tier A1)\n/// Swift Shell wraps with `withCheckedThrowingContinuation`.\n#[uniffi::export(callback_interface)]\npub trait "@
            + name
            + "Callback: Send + Sync {\n\tfn on_result(&self, result: ());  // TODO: typed result\n\tfn on_error(&self, error: String);\n}\n\n#[uniffi::export]\npub fn "@
            + name + "(callback: Arc<dyn "@ + name
            + "Callback>) {\n\ttokio::spawn(async move {\n\t\t// TODO: implement "@ + name
            + " (Phase 2c)\n\t\tcallback.on_result(());\n\t});\n}\n\n"@,
        AsyncMode::Native => "/// Transpiled from Swift `async func "@ + name
            + "` (native UniFFI async — Stage 2)\n#[uniffi::export]\npub async fn "@ + name
            + "() {\n\ttodo!(\"Phase 2c: implement "@ + name + "\")\n}\n\n"@,
    }
}

/// The Rust item for a Swift function.
pub open spec fn spec_emit_func(f: FuncView, mode: AsyncMode) -> Seq<char> {
    if f.is_async {
        spec_async_item(f.name, mode)
    } else {
        "/// Transpiled from Swift `func "@ + f.name + "` (SPEC-002 Tier 1)\n#[uniffi::export]\n"@
            + spec_rust_signature(f) + " {\n\ttodo!(\"Phase 2c: implement "@ + f.name
            + "\")\n}\n\n"@
    }
}

/// The Rust items for a sequence of Swift functions.
pub open spec fn funcs_text(fs: Seq<FuncView>, mode: AsyncMode) -> Seq<char>
    decreases fs.len(),
{
    if fs.len() == 0 {
        seq![]
    } else {
        funcs_text(fs.drop_last(), mode) + spec_emit_func(fs.last(), mode)
    }
}

/// The Rust record for a Swift struct, followed by its methods.
pub open spec fn spec_emit_struct(s: StructView) -> Seq<char> {
    "/// Transpiled from Swift `struct "@ + s.name
        + "` (SPEC-002 Tier 1)\n#[derive(Debug, Clone, uniffi::Record)]\npub struct "@ + s.name
        + " {\n"@ + fields_block(s.fields) + "}\n\n"@ + funcs_text(s.methods, AsyncMode::Bridge)
}

/// The Rust type text of an associated value.
pub open spec fn assoc_type_text(t: Seq<char>) -> Seq<char> {
    match spec_swift_to_rust(t) {
        Some(r) => r,
        None => unmapped(t),
    }
}

/// The Rust variant line of an enum case.
pub open spec fn case_line(c: CaseView) -> Seq<char> {
    if c.associated_types.len() == 0 {
        "    "@ + c.name + ",\n"@
    } else {
        "    "@ + c.name + "("@ + join(
            c.associated_types.map_values(|t: Seq<char>| assoc_type_text(t)),
            ", "@,
        ) + "),\n"@
    }
}

/// The variant lines of a sequence of cases.
pub open spec fn case_lines(cs: Seq<CaseView>) -> Seq<char>
    decreases cs.len(),
{
    if cs.len() == 0 {
        seq![]
    } else {
        case_lines(cs.drop_last()) + case_line(cs.last())
    }
}

/// The Rust enum for a Swift enum.
pub open spec fn spec_emit_enum(e: EnumView) -> Seq<char> {
    "/// Transpiled from Swift `enum "@ + e.name
        + "` (SPEC-002 Tier 1)\n#[derive(Debug, Clone, uniffi::Enum)]\npub enum "@ + e.name
        + " {\n"@ + (if case_lines(e.cases).len() == 0 {
        "    // (no cases)\n"@
    } else {
        case_lines(e.cases)
    }) + "}\n\n"@
}

/// The default-initialiser list of a class's fields.
pub open spec fn defaults_text(fs: Seq<FieldView>) -> Seq<char> {
    join(fs.map_values(|f: FieldView| f.name + ": Default::default()"@), ", "@)
}

/// The Rust object for a Swift class, followed by its methods.
pub open spec fn spec_emit_class(c: ClassDeclView) -> Seq<char> {
    (if c.has_deinit {
        "/// NOTE: Swift `deinit` present — Drop impl required (SPEC-003, CLASS-DEINIT)\n"@
    } else {
        ""@
    }) + match c.superclass {
        Some(sc) => "/// NOTE: superclass `"@ + sc
            + "` — flattened to composition (CLASS-SUBCLASS)\n"@,
        None => ""@,
    } + "/// Transpiled from Swift `class "@ + c.name
        + "` (SPEC-003 Tier 2 — Arc<Mutex<T>>)\n#[derive(uniffi::Object)]\npub struct "@ + c.name
        + " {\n\tinner: Mutex<"@ + c.name + "Inner>,\n}\n\npub struct "@ + c.name + "Inner {\n"@
        + fields_block(c.fields) + "}\n\n#[uniffi::export]\nimpl "@ + c.name
        + " {\n\t#[uniffi::constructor]\n\tpub fn new() -> Arc<Self> {\n\t\tArc::new(Self { inner: Mutex::new("@
        + c.name + "Inner { "@ + defaults_text(c.fields) + " }) })\n\t}\n}\n\n"@ + (if c.has_deinit {
        crate::drop_gen::spec_emit_drop(seq![], c.name, ""@, c.line).0
    } else {
        ""@
    }) + funcs_text(c.methods, AsyncMode::Bridge)
}

pub open spec fn structs_text(ss: Seq<StructView>) -> Seq<char>
    decreases ss.len(),
{
    if ss.len() == 0 {
        seq![]
    } else {
        structs_text(ss.drop_last()) + spec_emit_struct(ss.last())
    }
}

pub open spec fn enums_text(es: Seq<EnumView>) -> Seq<char>
    decreases es.len(),
{
    if es.len() == 0 {
        seq![]
    } else {
        enums_text(es.drop_last()) + spec_emit_enum(es.last())
    }
}

pub open spec fn classes_text(cs: Seq<ClassDeclView>) -> Seq<char>
    decreases cs.len(),
{
    if cs.len() == 0 {
        seq![]
    } else {
        classes_text(cs.drop_last()) + spec_emit_class(cs.last())
    }
}

/// The note for a declaration that only the Swift Shell can hold (IR path).
pub open spec fn tier3_note(d: DeclView) -> Seq<char> {
    if d.tier == SyncTier::Tier3 {
        "// TIER-3 SKIP: `"@ + d.name + "` ("@ + d.kind
            + ") is Shell-only — see T3 diagnostics.\n\n"@
    } else {
        seq![]
    }
}

pub open spec fn tier3_notes(ds: Seq<DeclView>) -> Seq<char>
    decreases ds.len(),
{
    if ds.len() == 0 {
        seq![]
    } else {
        tier3_notes(ds.drop_last()) + tier3_note(ds.last())
    }
}

/// The note that replaces all Rust items in the output for a Shell file.
pub open spec fn shell_note() -> Seq<char> {
    "// T3-MANUAL: Shell file — left in the Swift Shell, no Rust output generated.\n\n"@
}

/// Whether a classification sends the whole file to the Swift Shell.
pub open spec fn is_shell_file(result: crate::classify::ClassificationView) -> bool {
    result.file_tier == "Shell"@
}

/// The Rust source for a classified and parsed Swift file: a Shell file gets
/// no Rust items, only the Shell note and its Tier 3 notes.
pub open spec fn spec_transpile_with_ir(
    result: crate::classify::ClassificationView,
    ir: FileView,
    mode: AsyncMode,
) -> Seq<char> {
    if is_shell_file(result) {
        spec_preamble(result.file) + shell_note() + tier3_notes(result.declarations)
    } else {
        spec_preamble(result.file) + structs_text(ir.structs) + enums_text(ir.enums)
            + classes_text(ir.classes) + funcs_text(ir.funcs, mode) + tier3_notes(
            result.declarations,
        )
    }
}

/// The Tier 1 item for a declaration known only from classification.
pub open spec fn spec_emit_tier1_decl(d: DeclView, mode: AsyncMode) -> Seq<char> {
    if d.kind == "struct"@ {
        "/// Transpiled from Swift `struct "@ + d.name
            + "` (SPEC-002 Tier 1)\n#[derive(Debug, Clone, uniffi::Record)]\npub struct "@ + d.name
            + " {\n    // fields: run `sarah transpile` for full IR output\n}\n\n"@
    } else if d.kind == "enum"@ {
        "/// Transpiled from Swift `enum "@ + d.name
            + "` (SPEC-002 Tier 1)\n#[derive(Debug, Clone, uniffi::Enum)]\npub enum "@ + d.name
            + " {\n    // variants: run `sarah transpile` for full IR output\n}\n\n"@
    } else if d.kind == "func"@ {
        if d.async_tier is Some {
            spec_async_item(d.name, mode)
        } else {
            "#[uniffi::export]\npub fn "@ + d.name + "() { todo!() }\n\n"@
        }
    } else {
        "// UNSUPPORTED: "@ + d.kind + " "@ + d.name + "\n\n"@
    }
}

/// The Tier 2 item for a declaration known only from classification.
pub open spec fn spec_emit_tier2_decl(d: DeclView, mode: AsyncMode) -> Seq<char> {
    if d.kind == "class"@ {
        "/// Transpiled from Swift `class "@ + d.name
            + "` (SPEC-003 Tier 2)\n#[derive(uniffi::Object)]\npub struct "@ + d.name
            + " { inner: Mutex<"@ + d.name + "Inner> }\npub struct "@ + d.name
            + "Inner { /* fields: run `sarah transpile` */ }\n#[uniffi::export]\nimpl "@ + d.name
            + " {\n\t#[uniffi::constructor]\n\tpub fn new() -> Arc<Self> { Arc::new(Self { inner: Mutex::new("@
            + d.name + "Inner {}) }) }\n}\n\n"@
    } else {
        spec_emit_tier1_decl(d, mode)
    }
}

/// The item for one declaration on the classify-only path.
pub open spec fn decl_text(d: DeclView, mode: AsyncMode) -> Seq<char> {
    match d.tier {
        SyncTier::Tier1 => spec_emit_tier1_decl(d, mode),
        SyncTier::Tier2 => spec_emit_tier2_decl(d, mode),
        SyncTier::Tier3 => "// TIER-3 SKIP: `"@ + d.name + "` ("@ + d.kind + ") is Shell-only.\n\n"@,
    }
}

pub open spec fn decls_text(ds: Seq<DeclView>, mode: AsyncMode) -> Seq<char>
    decreases ds.len(),
{
    if ds.len() == 0 {
        seq![]
    } else {
        decls_text(ds.drop_last(), mode) + decl_text(ds.last(), mode)
    }
}

/// The Rust source for a file known only from classification.
pub open spec fn spec_transpile(
    result: crate::classify::ClassificationView,
    mode: AsyncMode,
) -> Seq<char> {
    if is_shell_file(result) {
        spec_preamble(result.file) + shell_note() + tier3_notes(result.declarations)
    } else {
        spec_preamble(result.file) + decls_text(result.declarations, mode)
    }
}

// ── Implementation ─────────────────────────────────────────────────────────

fn preamble(source_file: &str) -> (r: String)
    ensures
        r@ == spec_preamble(source_file@),
{
    let mut r = String::from_str("// Generated by sarah-cli — DO NOT EDIT\n// Source: ");
    r.append(source_file);
    r.append(
        "\n// Phase 2b output — IR-aware Tier 1 / Tier 2 lowering\n// See: SPEC-002, SPEC-003, SPEC-004, SPEC-006\n\nuse std::sync::{Arc, Mutex};\n\n",
    );
    r
}

/// Appends the placeholder for the unmapped Swift type `t`.
fn push_unmapped(out: &mut String, t: &str)
    ensures
        final(out)@ == old(out)@ + unmapped(t@),
{
    out.append("() /* UNMAPPED: ");
    out.append(t);
    out.append(" */");
}

fn field_lines_exec(fields: &Vec<SwiftField>) -> (r: String)
    ensures
        r@ == field_lines(field_views(fields@)),
{
    let mut out = String::new();
    let mut i: usize = 0;
    assert(out@ =~= field_lines(field_views(fields@).take(0)));
    while i < fields.len()
        invariant
            i <= fields.len(),
            out@ == field_lines(field_views(fields@).take(i as int)),
        decreases fields.len() - i,
    {
        let ghost fv = field_views(fields@);
        assert(fv.take(i as int + 1).drop_last() =~= fv.take(i as int));
        assert(fv.take(i as int + 1).last() == fields@[i as int]@);
        let f = &fields[i];
        out.append("    pub ");
        out.append(f.name.as_str());
        out.append(": ");
        match f.rust_type() {
            Some(t) => out.append(t.as_str()),
            None => push_unmapped(&mut out, f.swift_type.as_str()),
        }
        out.append(",\n");
        i = i + 1;
    }
    assert(field_views(fields@).take(fields.len() as int) =~= field_views(fields@));
    out
}

fn fields_block_exec(fields: &Vec<SwiftField>) -> (r: String)
    ensures
        r@ == fields_block(field_views(fields@)),
{
    let fl = field_lines_exec(fields);
    if fl.as_str().is_empty() {
        String::from_str("    // (no fields)\n")
    } else {
        fl
    }
}

/// The Rust item for the async Swift function `name`; the signature `sig` is
/// not part of it.
fn emit_async_func_sig(name: &str, sig: &str, async_mode: AsyncMode) -> (r: String)
    ensures
        r@ == spec_async_item(name@, async_mode),
{
    match async_mode {
        AsyncMode::Bridge => {
            let mut r = String::from_str("/// Transpiled from Swift `async func ");
            r.append(name);
            r.append(
                "` (SPEC-006 §3, Tier A1)\n/// Swift Shell wraps with `withCheckedThrowingContinuation`.\n#[uniffi::export(callback_interface)]\npub trait ",
            );
            r.append(name);
            r.append(
                "Callback: Send + Sync {\n\tfn on_result(&self, result: ());  // TODO: typed result\n\tfn on_error(&self, error: String);\n}\n\n#[uniffi::export]\npub fn ",
            );
            r.append(name);
            r.append("(callback: Arc<dyn ");
            r.append(name);
            r.append("Callback>) {\n\ttokio::spawn(async move {\n\t\t// TODO: implement ");
            r.append(name);
            r.append(" (Phase 2c)\n\t\tcallback.on_result(());\n\t});\n}\n\n");
            r
        },
        AsyncMode::Native => {
            let mut r = String::from_str("/// Transpiled from Swift `async func ");
            r.append(name);
            r.append("` (native UniFFI async — Stage 2)\n#[uniffi::export]\npub async fn ");
            r.append(name);
            r.append("() {\n\ttodo!(\"Phase 2c: implement ");
            r.append(name);
            r.append("\")\n}\n\n");
            r
        },
    }
}

fn emit_func_ir(f: &SwiftFunc, async_mode: AsyncMode) -> (r: String)
    ensures
        r@ == spec_emit_func(f@, async_mode),
{
    let sig = f.rust_signature();
    if f.is_async {
        emit_async_func_sig(f.name.as_str(), sig.as_str(), async_mode)
    } else {
        let mut r = String::from_str("/// Transpiled from Swift `func ");
        r.append(f.name.as_str());
        r.append("` (SPEC-002 Tier 1)\n#[uniffi::export]\n");
        r.append(sig.as_str());
        r.append(" {\n\ttodo!(\"Phase 2c: implement ");
        r.append(f.name.as_str());
        r.append("\")\n}\n\n");
        r
    }
}

fn funcs_text_exec(fs: &Vec<SwiftFunc>, async_mode: AsyncMode) -> (r: String)
    ensures
        r@ == funcs_text(func_views(fs@), async_mode),
{
    let mut out = String::new();
    let mut i: usize = 0;
    assert(out@ =~= funcs_text(func_views(fs@).take(0), async_mode));
    while i < fs.len()
        invariant
            i <= fs.len(),
            out@ == funcs_text(func_views(fs@).take(i as int), async_mode),
        decreases fs.len() - i,
    {
        let ghost fv = func_views(fs@);
        assert(fv.take(i as int + 1).drop_last() =~= fv.take(i as int));
        assert(fv.take(i as int + 1).last() == fs@[i as int]@);
        let t = emit_func_ir(&fs[i], async_mode);
        out.append(t.as_str());
        i = i + 1;
    }
    assert(func_views(fs@).take(fs.len() as int) =~= func_views(fs@));
    out
}

fn emit_struct_ir(s: &SwiftStruct) -> (r: String)
    ensures
        r@ == spec_emit_struct(s@),
{
    let fields = fields_block_exec(&s.fields);
    let methods = funcs_text_exec(&s.methods, AsyncMode::Bridge);
    let mut r = String::from_str("/// Transpiled from Swift `struct ");
    r.append(s.name.as_str());
    r.append("` (SPEC-002 Tier 1)\n#[derive(Debug, Clone, uniffi::Record)]\npub struct ");
    r.append(s.name.as_str());
    r.append(" {\n");
    r.append(fields.as_str());
    r.append("}\n\n");
    r.append(methods.as_str());
    r
}

fn case_line_exec(c: &SwiftEnumCase) -> (r: String)
    ensures
        r@ == case_line(c@),
{
    let mut r = String::from_str("    ");
    r.append(c.name.as_str());
    if c.associated_types.len() == 0 {
        r.append(",\n");
        return r;
    }
    let ghost target = c@.associated_types.map_values(|t: Seq<char>| assoc_type_text(t));
    let mut mapped: Vec<Vec<char>> = Vec::new();
    let mut k: usize = 0;
    while k < c.associated_types.len()
        invariant
            k <= c.associated_types.len(),
            target == c@.associated_types.map_values(|t: Seq<char>| assoc_type_text(t)),
            views(mapped@) == target.take(k as int),
        decreases c.associated_types.len() - k,
    {
        let t = &c.associated_types[k];
        let text = match swift_to_rust(t.as_str()) {
            Some(rt) => chars_of(rt.as_str()),
            None => {
                let mut u = String::new();
                push_unmapped(&mut u, t.as_str());
                chars_of(u.as_str())
            },
        };
        assert(c@.associated_types[k as int] == t@);
        assert(text@ == target[k as int]);
        let ghost before = mapped@;
        let ghost tv = text@;
        mapped.push(text);
        assert(views(mapped@) =~= views(before).push(tv));
        assert(views(mapped@) =~= target.take(k as int + 1));
        k = k + 1;
    }
    assert(target.take(c.associated_types.len() as int) =~= target);
    let joined = join_chars(&mapped, ", ");
    r.append("(");
    push_chars(&mut r, &joined);
    r.append("),\n");
    r
}

fn emit_enum_ir(e: &SwiftEnum) -> (r: String)
    ensures
        r@ == spec_emit_enum(e@),
{
    let mut cases = String::new();
    let mut i: usize = 0;
    assert(cases@ =~= case_lines(case_views(e.cases@).take(0)));
    while i < e.cases.len()
        invariant
            i <= e.cases.len(),
            cases@ == case_lines(case_views(e.cases@).take(i as int)),
        decreases e.cases.len() - i,
    {
        let ghost cv = case_views(e.cases@);
        assert(cv.take(i as int + 1).drop_last() =~= cv.take(i as int));
        assert(cv.take(i as int + 1).last() == e.cases@[i as int]@);
        let t = case_line_exec(&e.cases[i]);
        cases.append(t.as_str());
        i = i + 1;
    }
    assert(case_views(e.cases@).take(e.cases.len() as int) =~= case_views(e.cases@));
    let mut r = String::from_str("/// Transpiled from Swift `enum ");
    r.append(e.name.as_str());
    r.append("` (SPEC-002 Tier 1)\n#[derive(Debug, Clone, uniffi::Enum)]\npub enum ");
    r.append(e.name.as_str());
    r.append(" {\n");
    if cases.as_str().is_empty() {
        r.append("    // (no cases)\n");
    } else {
        r.append(cases.as_str());
    }
    r.append("}\n\n");
    r
}

fn defaults_exec(fields: &Vec<SwiftField>) -> (r: Vec<char>)
    ensures
        r@ == defaults_text(field_views(fields@)),
{
    let ghost target = field_views(fields@).map_values(
        |f: FieldView| f.name + ": Default::default()"@,
    );
    let mut parts: Vec<Vec<char>> = Vec::new();
    let mut k: usize = 0;
    while k < fields.len()
        invariant
            k <= fields.len(),
            target == field_views(fields@).map_values(
                |f: FieldView| f.name + ": Default::default()"@,
            ),
            views(parts@) == target.take(k as int),
        decreases fields.len() - k,
    {
        let mut s = String::from_str(fields[k].name.as_str());
        s.append(": Default::default()");
        let text = chars_of(s.as_str());
        assert(text@ == target[k as int]);
        let ghost before = parts@;
        let ghost tv = text@;
        parts.push(text);
        assert(views(parts@) =~= views(before).push(tv));
        assert(views(parts@) =~= target.take(k as int + 1));
        k = k + 1;
    }
    assert(target.take(fields.len() as int) =~= target);
    join_chars(&parts, ", ")
}

#[verifier::spinoff_prover]
fn emit_class_ir(c: &SwiftClass) -> (r: String)
    ensures
        r@ == spec_emit_class(c@),
{
    let fields = fields_block_exec(&c.fields);
    let methods = funcs_text_exec(&c.methods, AsyncMode::Bridge);
    let defaults = defaults_exec(&c.fields);
    let mut r = String::new();
    if c.has_deinit {
        r.append(
            "/// NOTE: Swift `deinit` present — Drop impl required (SPEC-003, CLASS-DEINIT)\n",
        );
    } else {
        r.append("");
    }
    match &c.superclass {
        Some(sc) => {
            r.append("/// NOTE: superclass `");
            r.append(sc.as_str());
            r.append("` — flattened to composition (CLASS-SUBCLASS)\n");
        },
        None => {
            r.append("");
        },
    }
    r.append("/// Transpiled from Swift `class ");
    r.append(c.name.as_str());
    r.append("` (SPEC-003 Tier 2 — Arc<Mutex<T>>)\n#[derive(uniffi::Object)]\npub struct ");
    r.append(c.name.as_str());
    r.append(" {\n\tinner: Mutex<");
    r.append(c.name.as_str());
    r.append("Inner>,\n}\n\npub struct ");
    r.append(c.name.as_str());
    r.append("Inner {\n");
    r.append(fields.as_str());
    r.append("}\n\n#[uniffi::export]\nimpl ");
    r.append(c.name.as_str());
    r.append(
        " {\n\t#[uniffi::constructor]\n\tpub fn new() -> Arc<Self> {\n\t\tArc::new(Self { inner: Mutex::new(",
    );
    r.append(c.name.as_str());
    r.append("Inner { ");
    push_chars(&mut r, &defaults);
    r.append(" }) })\n\t}\n}\n\n");
    if c.has_deinit {
        let no_statements: Vec<&str> = Vec::new();
        assert(crate::drop_gen::str_views(no_statements@) =~= Seq::<Seq<char>>::empty());
        let (d, _diags) = crate::drop_gen::emit_drop(c, no_statements.as_slice());
        r.append(d.as_str());
    } else {
        r.append("");
    }
    r.append(methods.as_str());
    r
}

fn structs_text_exec(ss: &Vec<SwiftStruct>) -> (r: String)
    ensures
        r@ == structs_text(struct_views(ss@)),
{
    let mut out = String::new();
    let mut i: usize = 0;
    assert(out@ =~= structs_text(struct_views(ss@).take(0)));
    while i < ss.len()
        invariant
            i <= ss.len(),
            out@ == structs_text(struct_views(ss@).take(i as int)),
        decreases ss.len() - i,
    {
        let ghost v = struct_views(ss@);
        assert(v.take(i as int + 1).drop_last() =~= v.take(i as int));
        assert(v.take(i as int + 1).last() == ss@[i as int]@);
        let t = emit_struct_ir(&ss[i]);
        out.append(t.as_str());
        i = i + 1;
    }
    assert(struct_views(ss@).take(ss.len() as int) =~= struct_views(ss@));
    out
}

fn enums_text_exec(es: &Vec<SwiftEnum>) -> (r: String)
    ensures
        r@ == enums_text(enum_views(es@)),
{
    let mut out = String::new();
    let mut i: usize = 0;
    assert(out@ =~= enums_text(enum_views(es@).take(0)));
    while i < es.len()
        invariant
            i <= es.len(),
            out@ == enums_text(enum_views(es@).take(i as int)),
        decreases es.len() - i,
    {
        let ghost v = enum_views(es@);
        assert(v.take(i as int + 1).drop_last() =~= v.take(i as int));
        assert(v.take(i as int + 1).last() == es@[i as int]@);
        let t = emit_enum_ir(&es[i]);
        out.append(t.as_str());
        i = i + 1;
    }
    assert(enum_views(es@).take(es.len() as int) =~= enum_views(es@));
    out
}

fn classes_text_exec(cs: &Vec<SwiftClass>) -> (r: String)
    ensures
        r@ == classes_text(class_views(cs@)),
{
    let mut out = String::new();
    let mut i: usize = 0;
    assert(out@ =~= classes_text(class_views(cs@).take(0)));
    while i < cs.len()
        invariant
            i <= cs.len(),
            out@ == classes_text(class_views(cs@).take(i as int)),
        decreases cs.len() - i,
    {
        let ghost v = class_views(cs@);
        assert(v.take(i as int + 1).drop_last() =~= v.take(i as int));
        assert(v.take(i as int + 1).last() == cs@[i as int]@);
        let t = emit_class_ir(&cs[i]);
        out.append(t.as_str());
        i = i + 1;
    }
    assert(class_views(cs@).take(cs.len() as int) =~= class_views(cs@));
    out
}

/// Whether the text of `s` is exactly `lit`.
fn string_is(s: &String, lit: &str) -> (b: bool)
    ensures
        b == (s@ == lit@),
{
    eq_str(&chars_of(s.as_str()), lit)
}

fn tier3_notes_exec(ds: &Vec<DeclarationResult>) -> (r: String)
    ensures
        r@ == tier3_notes(decl_views(ds@)),
{
    let mut out = String::new();
    let mut i: usize = 0;
    assert(out@ =~= tier3_notes(decl_views(ds@).take(0)));
    while i < ds.len()
        invariant
            i <= ds.len(),
            out@ == tier3_notes(decl_views(ds@).take(i as int)),
        decreases ds.len() - i,
    {
        let ghost v = decl_views(ds@);
        assert(v.take(i as int + 1).drop_last() =~= v.take(i as int));
        assert(v.take(i as int + 1).last() == ds@[i as int]@);
        let d = &ds[i];
        match d.tier {
            SyncTier::Tier3 => {
                out.append("// TIER-3 SKIP: `");
                out.append(d.name.as_str());
                out.append("` (");
                out.append(d.kind.as_str());
                out.append(") is Shell-only — see T3 diagnostics.\n\n");
            },
            _ => {
                assert(tier3_note(d@) =~= Seq::<char>::empty());
            },
        }
        i = i + 1;
    }
    assert(decl_views(ds@).take(ds.len() as int) =~= decl_views(ds@));
    out
}

fn is_shell_exec(result: &ClassificationResult) -> (b: bool)
    ensures
        b == is_shell_file(result@),
{
    eq_str(&chars_of(result.file_tier.as_str()), "Shell")
}

/// Lower Tier 1 declarations using the full parsed IR, with bridged async.
pub fn lower_tier1_with_ir(result: &ClassificationResult, ir: &SwiftFile) -> (r: String)
    ensures
        r@ == spec_transpile_with_ir(result@, ir@, AsyncMode::Bridge),
{
    transpile_with_ir(result, ir, AsyncMode::Bridge)
}

/// Full transpile using parsed IR, with the chosen async mode: the structs,
/// enums, classes and free functions of the IR in turn, then a note for each
/// declaration that the classifier sent to the Shell.
pub fn transpile_with_ir(result: &ClassificationResult, ir: &SwiftFile, async_mode: AsyncMode) -> (r:
    String)
    ensures
        r@ == spec_transpile_with_ir(result@, ir@, async_mode),
{
    let mut out = preamble(result.file.as_str());
    if is_shell_exec(result) {
        out.append("// T3-MANUAL: Shell file — left in the Swift Shell, no Rust output generated.\n\n");
        let t = tier3_notes_exec(&result.declarations);
        out.append(t.as_str());
        return out;
    }
    let t = structs_text_exec(&ir.structs);
    out.append(t.as_str());
    let t = enums_text_exec(&ir.enums);
    out.append(t.as_str());
    let t = classes_text_exec(&ir.classes);
    out.append(t.as_str());
    let t = funcs_text_exec(&ir.funcs, async_mode);
    out.append(t.as_str());
    let t = tier3_notes_exec(&result.declarations);
    out.append(t.as_str());
    out
}

fn emit_tier1_decl(decl: &DeclarationResult, async_mode: AsyncMode) -> (r: String)
    ensures
        r@ == spec_emit_tier1_decl(decl@, async_mode),
{
    if string_is(&decl.kind, "struct") {
        let mut r = String::from_str("/// Transpiled from Swift `struct ");
        r.append(decl.name.as_str());
        r.append("` (SPEC-002 Tier 1)\n#[derive(Debug, Clone, uniffi::Record)]\npub struct ");
        r.append(decl.name.as_str());
        r.append(" {\n    // fields: run `sarah transpile` for full IR output\n}\n\n");
        r
    } else if string_is(&decl.kind, "enum") {
        let mut r = String::from_str("/// Transpiled from Swift `enum ");
        r.append(decl.name.as_str());
        r.append("` (SPEC-002 Tier 1)\n#[derive(Debug, Clone, uniffi::Enum)]\npub enum ");
        r.append(decl.name.as_str());
        r.append(" {\n    // variants: run `sarah transpile` for full IR output\n}\n\n");
        r
    } else if string_is(&decl.kind, "func") {
        if decl.async_tier.is_some() {
            let mut sig = String::from_str("pub fn ");
            sig.append(decl.name.as_str());
            sig.append("()");
            emit_async_func_sig(decl.name.as_str(), sig.as_str(), async_mode)
        } else {
            let mut r = String::from_str("#[uniffi::export]\npub fn ");
            r.append(decl.name.as_str());
            r.append("() { todo!() }\n\n");
            r
        }
    } else {
        let mut r = String::from_str("// UNSUPPORTED: ");
        r.append(decl.kind.as_str());
        r.append(" ");
        r.append(decl.name.as_str());
        r.append("\n\n");
        r
    }
}

fn emit_tier2_decl(decl: &DeclarationResult, async_mode: AsyncMode) -> (r: String)
    ensures
        r@ == spec_emit_tier2_decl(decl@, async_mode),
{
    if string_is(&decl.kind, "class") {
        let mut r = String::from_str("/// Transpiled from Swift `class ");
        r.append(decl.name.as_str());
        r.append("` (SPEC-003 Tier 2)\n#[derive(uniffi::Object)]\npub struct ");
        r.append(decl.name.as_str());
        r.append(" { inner: Mutex<");
        r.append(decl.name.as_str());
        r.append("Inner> }\npub struct ");
        r.append(decl.name.as_str());
        r.append("Inner { /* fields: run `sarah transpile` */ }\n#[uniffi::export]\nimpl ");
        r.append(decl.name.as_str());
        r.append(
            " {\n\t#[uniffi::constructor]\n\tpub fn new() -> Arc<Self> { Arc::new(Self { inner: Mutex::new(",
        );
        r.append(decl.name.as_str());
        r.append("Inner {}) }) }\n}\n\n");
        r
    } else {
        emit_tier1_decl(decl, async_mode)
    }
}

/// Lower the classified declarations with bridged async, without the IR.
pub fn lower_tier1(result: &ClassificationResult) -> (r: String)
    ensures
        r@ == spec_transpile(result@, AsyncMode::Bridge),
{
    transpile(result, AsyncMode::Bridge)
}

/// Transpile the classified declarations without the IR: each declaration by
/// its tier, in order.
pub fn transpile(result: &ClassificationResult, async_mode: AsyncMode) -> (r: String)
    ensures
        r@ == spec_transpile(result@, async_mode),
{
    let mut out = preamble(result.file.as_str());
    if is_shell_exec(result) {
        out.append("// T3-MANUAL: Shell file — left in the Swift Shell, no Rust output generated.\n\n");
        let t = tier3_notes_exec(&result.declarations);
        out.append(t.as_str());
        return out;
    }
    let ghost pre = out@;
    let ds = &result.declarations;
    let mut i: usize = 0;
    assert(decls_text(decl_views(ds@).take(0), async_mode) =~= Seq::<char>::empty());
    assert(out@ =~= pre + decls_text(decl_views(ds@).take(0), async_mode));
    while i < ds.len()
        invariant
            i <= ds.len(),
            out@ == pre + decls_text(decl_views(ds@).take(i as int), async_mode),
        decreases ds.len() - i,
    {
        let ghost v = decl_views(ds@);
        assert(v.take(i as int + 1).drop_last() =~= v.take(i as int));
        assert(v.take(i as int + 1).last() == ds@[i as int]@);
        let d = &ds[i];
        match d.tier {
            SyncTier::Tier1 => {
                let t = emit_tier1_decl(d, async_mode);
                out.append(t.as_str());
            },
            SyncTier::Tier2 => {
                let t = emit_tier2_decl(d, async_mode);
                out.append(t.as_str());
            },
            SyncTier::Tier3 => {
                out.append("// TIER-3 SKIP: `");
                out.append(d.name.as_str());
                out.append("` (");
                out.append(d.kind.as_str());
                out.append(") is Shell-only.\n\n");
            },
        }
        i = i + 1;
    }
    assert(decl_views(ds@).take(ds.len() as int) =~= decl_views(ds@));
    out
}

// ── Laws ───────────────────────────────────────────────────────────────────

proof fn lemma_take_prefix(p: Seq<char>, x: Seq<char>)
    ensures
        (p + x).take(p.len() as int) == p,
{
    assert((p + x).take(p.len() as int) =~= p);
}

/// Every generated file, on either path, starts with the header naming its
/// source.
#[verifier::spinoff_prover]
#[verifier::rlimit(30)]
pub proof fn law_output_starts_with_preamble(
    result: crate::classify::ClassificationView,
    ir: FileView,
    mode: AsyncMode,
)
    ensures
        spec_transpile_with_ir(result, ir, mode).take(spec_preamble(result.file).len() as int)
            == spec_preamble(result.file),
        spec_transpile(result, mode).take(spec_preamble(result.file).len() as int) == spec_preamble(
            result.file,
        ),
{
    let p = spec_preamble(result.file);
    if is_shell_file(result) {
        let x = shell_note() + tier3_notes(result.declarations);
        assert(spec_transpile_with_ir(result, ir, mode) =~= p + x);
        assert(spec_transpile(result, mode) =~= p + x);
        lemma_take_prefix(p, x);
    } else {
        let x = structs_text(ir.structs) + enums_text(ir.enums) + classes_text(ir.classes)
            + funcs_text(ir.funcs, mode) + tier3_notes(result.declarations);
        assert(spec_transpile_with_ir(result, ir, mode) =~= p + x);
        lemma_take_prefix(p, x);
        lemma_take_prefix(p, decls_text(result.declarations, mode));
    }
}

proof fn lemma_funcs_text_mode(fs: Seq<FuncView>, m1: AsyncMode, m2: AsyncMode)
    requires
        forall|i: int| 0 <= i < fs.len() ==> !(#[trigger] fs[i]).is_async,
    ensures
        funcs_text(fs, m1) == funcs_text(fs, m2),
    decreases fs.len(),
{
    if fs.len() > 0 {
        assert(!fs[fs.len() - 1].is_async);
        lemma_funcs_text_mode(fs.drop_last(), m1, m2);
    }
}

/// The async mode only shapes async free functions: when no free function of
/// the IR is async, both modes give the same output.
pub proof fn law_async_mode_only_affects_async(
    result: crate::classify::ClassificationView,
    ir: FileView,
)
    requires
        forall|i: int| 0 <= i < ir.funcs.len() ==> !(#[trigger] ir.funcs[i]).is_async,
    ensures
        spec_transpile_with_ir(result, ir, AsyncMode::Bridge) == spec_transpile_with_ir(
            result,
            ir,
            AsyncMode::Native,
        ),
{
    lemma_funcs_text_mode(ir.funcs, AsyncMode::Bridge, AsyncMode::Native);
}

proof fn lemma_note_at(ds: Seq<DeclView>, i: int) -> (p: int)
    requires
        0 <= i < ds.len(),
    ensures
        0 <= p,
        p + tier3_note(ds[i]).len() <= tier3_notes(ds).len(),
        tier3_notes(ds).subrange(p, p + tier3_note(ds[i]).len()) == tier3_note(ds[i]),
    decreases ds.len(),
{
    let prev = tier3_notes(ds.drop_last());
    let last = tier3_note(ds.last());
    assert(tier3_notes(ds) == prev + last);
    if i == ds.len() - 1 {
        assert((prev + last).subrange(prev.len() as int, (prev.len() + last.len()) as int) =~= last);
        prev.len() as int
    } else {
        assert(ds.drop_last()[i] == ds[i]);
        let q = lemma_note_at(ds.drop_last(), i);
        let n = tier3_note(ds[i]);
        assert((prev + last).subrange(q, q + n.len()) =~= prev.subrange(q, q + n.len()));
        q
    }
}

/// Every Tier 3 declaration of the classification is named in the output by
/// its `TIER-3 SKIP` note.
#[verifier::spinoff_prover]
#[verifier::rlimit(30)]
pub proof fn law_tier3_noted(
    result: crate::classify::ClassificationView,
    ir: FileView,
    mode: AsyncMode,
    i: int,
)
    requires
        0 <= i < result.declarations.len(),
        result.declarations[i].tier == SyncTier::Tier3,
    ensures
        contains(
            spec_transpile_with_ir(result, ir, mode),
            "// TIER-3 SKIP: `"@ + result.declarations[i].name + "` ("@ + result.declarations[i].kind
                + ") is Shell-only — see T3 diagnostics.\n\n"@,
        ),
{
    let ds = result.declarations;
    let out = spec_transpile_with_ir(result, ir, mode);
    let head = if is_shell_file(result) {
        spec_preamble(result.file) + shell_note()
    } else {
        spec_preamble(result.file) + structs_text(ir.structs) + enums_text(ir.enums)
            + classes_text(ir.classes) + funcs_text(ir.funcs, mode)
    };
    let notes = tier3_notes(ds);
    assert(out == head + notes);
    let p = lemma_note_at(ds, i);
    let n = tier3_note(ds[i]);
    assert((head + notes).subrange(head.len() + p, head.len() + p + n.len()) =~= notes.subrange(
        p,
        p + n.len(),
    ));
    crate::text::lemma_find_from_some(out, n, 0, (head.len() + p) as nat);
}

/// A Shell file is not lowered: its output is the header, the Shell note and
/// its Tier 3 notes, the same whatever its parsed IR and async mode, and the
/// same on both paths.
pub proof fn law_shell_file_not_lowered(
    result: crate::classify::ClassificationView,
    ir1: FileView,
    ir2: FileView,
    m1: AsyncMode,
    m2: AsyncMode,
)
    requires
        is_shell_file(result),
    ensures
        spec_transpile_with_ir(result, ir1, m1) == spec_preamble(result.file) + shell_note()
            + tier3_notes(result.declarations),
        spec_transpile_with_ir(result, ir1, m1) == spec_transpile_with_ir(result, ir2, m2),
        spec_transpile(result, m1) == spec_transpile_with_ir(result, ir1, m1),
{
}

/// `p` occurs in `s` at position `q`.
pub open spec fn occurs_at(s: Seq<char>, p: Seq<char>, q: int) -> bool {
    0 <= q && q + p.len() <= s.len() && s.subrange(q, q + p.len()) == p
}

proof fn lemma_occ_left(a: Seq<char>, b: Seq<char>, p: Seq<char>, q: int)
    requires
        occurs_at(a, p, q),
    ensures
        occurs_at(a + b, p, q),
{
    assert((a + b).subrange(q, q + p.len()) =~= a.subrange(q, q + p.len()));
}

proof fn lemma_occ_right(a: Seq<char>, b: Seq<char>, p: Seq<char>, q: int)
    requires
        occurs_at(b, p, q),
    ensures
        occurs_at(a + b, p, a.len() + q),
{
    assert((a + b).subrange(a.len() + q, a.len() + q + p.len()) =~= b.subrange(q, q + p.len()));
}

proof fn lemma_occ_contains(s: Seq<char>, p: Seq<char>, q: int)
    requires
        occurs_at(s, p, q),
    ensures
        contains(s, p),
{
    crate::text::lemma_find_from_some(s, p, 0, q as nat);
}

/// The head of a Rust function item named `name`.
pub open spec fn pub_fn_head(name: Seq<char>) -> Seq<char> {
    "pub fn "@ + name + "("@
}

#[verifier::spinoff_prover]
#[verifier::rlimit(30)]
proof fn lemma_emit_func_head(f: FuncView) -> (q: int)
    ensures
        occurs_at(spec_emit_func(f, AsyncMode::Bridge), pub_fn_head(f.name), q),
{
    let h = pub_fn_head(f.name);
    if f.is_async {
        let x = "/// Transpiled from Swift `async func "@ + f.name
            + "` (SPEC-006 §3, Tier A1)\n/// Swift Shell wraps with `withCheckedThrowingContinuation`.\n#[uniffi::export(callback_interface)]\npub trait "@
            + f.name;
        let c = "Callback: Send + Sync {\n\tfn on_result(&self, result: ());  // TODO: typed result\n\tfn on_error(&self, error: String);\n}\n\n#[uniffi::export]\npub fn "@;
        let d = "(callback: Arc<dyn "@;
        let rest = d + f.name
            + "Callback>) {\n\ttokio::spawn(async move {\n\t\t// TODO: implement "@ + f.name
            + " (Phase 2c)\n\t\tcallback.on_result(());\n\t});\n}\n\n"@;
        reveal_strlit("Callback: Send + Sync {\n\tfn on_result(&self, result: ());  // TODO: typed result\n\tfn on_error(&self, error: String);\n}\n\n#[uniffi::export]\npub fn ");
        reveal_strlit("pub fn ");
        reveal_strlit("(callback: Arc<dyn ");
        reveal_strlit("(");
        let c0 = c.take(c.len() - 7);
        assert(c =~= c0 + "pub fn "@);
        assert(rest =~= "("@ + rest.skip(1));
        let e = spec_emit_func(f, AsyncMode::Bridge);
        assert(e =~= (x + c0) + h + rest.skip(1));
        assert(h.subrange(0, h.len() as int) =~= h);
        lemma_occ_right(x + c0, h, h, 0);
        lemma_occ_left(x + c0 + h, rest.skip(1), h, (x + c0).len() as int);
        (x + c0).len() as int
    } else {
        let x = "/// Transpiled from Swift `func "@ + f.name + "` (SPEC-002 Tier 1)\n#[uniffi::export]\n"@;
        let sig = spec_rust_signature(f);
        let y = " {\n\ttodo!(\"Phase 2c: implement "@ + f.name + "\")\n}\n\n"@;
        assert(sig.subrange(0, h.len() as int) =~= h);
        lemma_occ_right(x, sig, h, 0);
        lemma_occ_left(x + sig, y, h, x.len() as int);
        assert(spec_emit_func(f, AsyncMode::Bridge) =~= x + sig + y);
        x.len() as int
    }
}

proof fn lemma_funcs_head(fs: Seq<FuncView>, j: int) -> (q: int)
    requires
        0 <= j < fs.len(),
    ensures
        occurs_at(funcs_text(fs, AsyncMode::Bridge), pub_fn_head(fs[j].name), q),
    decreases fs.len(),
{
    let prev = funcs_text(fs.drop_last(), AsyncMode::Bridge);
    let last = spec_emit_func(fs.last(), AsyncMode::Bridge);
    let h = pub_fn_head(fs[j].name);
    if j == fs.len() - 1 {
        let q = lemma_emit_func_head(fs.last());
        lemma_occ_right(prev, last, h, q);
        prev.len() + q
    } else {
        assert(fs.drop_last()[j] == fs[j]);
        let q = lemma_funcs_head(fs.drop_last(), j);
        lemma_occ_left(prev, last, h, q);
        q
    }
}

proof fn lemma_structs_head(ss: Seq<StructView>, i: int, j: int) -> (q: int)
    requires
        0 <= i < ss.len(),
        0 <= j < ss[i].methods.len(),
    ensures
        occurs_at(structs_text(ss), pub_fn_head(ss[i].methods[j].name), q),
    decreases ss.len(),
{
    let prev = structs_text(ss.drop_last());
    let last = spec_emit_struct(ss.last());
    let h = pub_fn_head(ss[i].methods[j].name);
    if i == ss.len() - 1 {
        let s = ss.last();
        let head = "/// Transpiled from Swift `struct "@ + s.name
            + "` (SPEC-002 Tier 1)\n#[derive(Debug, Clone, uniffi::Record)]\npub struct "@ + s.name
            + " {\n"@ + fields_block(s.fields) + "}\n\n"@;
        let q = lemma_funcs_head(s.methods, j);
        lemma_occ_right(head, funcs_text(s.methods, AsyncMode::Bridge), h, q);
        lemma_occ_right(prev, last, h, head.len() + q);
        prev.len() + head.len() + q
    } else {
        assert(ss.drop_last()[i] == ss[i]);
        let q = lemma_structs_head(ss.drop_last(), i, j);
        lemma_occ_left(prev, last, h, q);
        q
    }
}

/// On the IR path every method of every parsed struct is emitted: for a file
/// not sent to the Shell, the output holds a `pub fn` item for it, under its
/// name.
#[verifier::spinoff_prover]
#[verifier::rlimit(30)]
pub proof fn law_struct_methods_emitted(
    result: crate::classify::ClassificationView,
    ir: FileView,
    mode: AsyncMode,
    i: int,
    j: int,
)
    requires
        !is_shell_file(result),
        0 <= i < ir.structs.len(),
        0 <= j < ir.structs[i].methods.len(),
    ensures
        contains(
            spec_transpile_with_ir(result, ir, mode),
            "pub fn "@ + ir.structs[i].methods[j].name + "("@,
        ),
{
    let h = pub_fn_head(ir.structs[i].methods[j].name);
    let pre = spec_preamble(result.file);
    let st = structs_text(ir.structs);
    let q = lemma_structs_head(ir.structs, i, j);
    lemma_occ_right(pre, st, h, q);
    let a = pre + st;
    let b = enums_text(ir.enums);
    let c = classes_text(ir.classes);
    let d = funcs_text(ir.funcs, mode);
    let e = tier3_notes(result.declarations);
    lemma_occ_left(a, b, h, pre.len() + q);
    lemma_occ_left(a + b, c, h, pre.len() + q);
    lemma_occ_left(a + b + c, d, h, pre.len() + q);
    lemma_occ_left(a + b + c + d, e, h, pre.len() + q);
    lemma_occ_contains(a + b + c + d + e, h, pre.len() + q);
}

/// The Rust enum head for an enum named `name`.
pub open spec fn enum_head(name: Seq<char>) -> Seq<char> {
    "#[derive(Debug, Clone, uniffi::Enum)]\npub enum "@ + name + " {"@
}

#[verifier::spinoff_prover]
#[verifier::rlimit(30)]
proof fn lemma_decls_enum(ds: Seq<DeclView>, i: int, mode: AsyncMode) -> (q: int)
    requires
        0 <= i < ds.len(),
        ds[i].tier == SyncTier::Tier1,
        ds[i].kind == "enum"@,
    ensures
        occurs_at(decls_text(ds, mode), enum_head(ds[i].name), q),
    decreases ds.len(),
{
    let prev = decls_text(ds.drop_last(), mode);
    let last = decl_text(ds.last(), mode);
    let h = enum_head(ds[i].name);
    if i == ds.len() - 1 {
        let d = ds.last();
        reveal_strlit("enum");
        reveal_strlit("struct");
        assert(d == ds[i]);
        assert("enum"@.len() != "struct"@.len());
        assert(d.kind != "struct"@);
        let x = "/// Transpiled from Swift `enum "@ + d.name;
        let l2 = "` (SPEC-002 Tier 1)\n#[derive(Debug, Clone, uniffi::Enum)]\npub enum "@;
        let l3 = " {\n    // variants: run `sarah transpile` for full IR output\n}\n\n"@;
        let t = "#[derive(Debug, Clone, uniffi::Enum)]\npub enum "@;
        reveal_strlit("` (SPEC-002 Tier 1)\n#[derive(Debug, Clone, uniffi::Enum)]\npub enum ");
        reveal_strlit(" {\n    // variants: run `sarah transpile` for full IR output\n}\n\n");
        reveal_strlit("#[derive(Debug, Clone, uniffi::Enum)]\npub enum ");
        reveal_strlit(" {");
        let l20 = l2.take(l2.len() - t.len());
        assert(l2 =~= l20 + t);
        assert(l3 =~= " {"@ + l3.skip(2));
        assert(last =~= (x + l20) + h + l3.skip(2));
        assert(h.subrange(0, h.len() as int) =~= h);
        lemma_occ_right(x + l20, h, h, 0);
        lemma_occ_left((x + l20) + h, l3.skip(2), h, (x + l20).len() as int);
        lemma_occ_right(prev, last, h, (x + l20).len() as int);
        (prev.len() + (x + l20).len()) as int
    } else {
        assert(ds.drop_last()[i] == ds[i]);
        let q = lemma_decls_enum(ds.drop_last(), i, mode);
        lemma_occ_left(prev, last, h, q);
        q
    }
}

/// On the classify-only path every Tier 1 enum of a file not sent to the
/// Shell is emitted as a `uniffi::Enum` Rust enum under its name.
pub proof fn law_tier1_enums_emitted(
    result: crate::classify::ClassificationView,
    mode: AsyncMode,
    i: int,
)
    requires
        !is_shell_file(result),
        0 <= i < result.declarations.len(),
        result.declarations[i].tier == SyncTier::Tier1,
        result.declarations[i].kind == "enum"@,
    ensures
        contains(
            spec_transpile(result, mode),
            "#[derive(Debug, Clone, uniffi::Enum)]\npub enum "@ + result.declarations[i].name
                + " {"@,
        ),
{
    let h = enum_head(result.declarations[i].name);
    let pre = spec_preamble(result.file);
    let dt = decls_text(result.declarations, mode);
    let q = lemma_decls_enum(result.declarations, i, mode);
    lemma_occ_right(pre, dt, h, q);
    lemma_occ_contains(pre + dt, h, pre.len() + q);
}

} // verus!
