//! Swift source parser.
//!
//! Parses Swift source into a lightweight `SwiftFile` IR that the classifier
//! and code generator consume. The parser is line-oriented: it recognises
//! declarations by the way their lines begin, takes a declaration's body to
//! be the lines up to its matching closing brace, and reads fields,
//! parameters, enum cases and return types out of single lines.
use vstd::prelude::*;
use crate::text::{
    after_last, after_last_chars, before_any, before_any_chars, chars_of, contains, contains_str,
    ends_with, ends_with_str, eq_str, find, find_any, find_in, find_str, ident_prefix,
    ident_prefix_chars, lines, lines_of, rfind, rfind_char, split_char, split_char_of, starts_with,
    join, join_chars, push_chars, starts_with_chars, starts_with_str, string_of, strip_prefix, strip_prefix_chars,
    strip_prefix_str, subseq, trim, trim_chars, trim_end_opt, trim_end_opt_chars, views, words,
    words_of,
};
use crate::types::{make_optional, opt_string_view, spec_make_optional, spec_swift_to_rust, swift_to_rust};

verus! {

// ── IR types ───────────────────────────────────────────────────────────────

/// A parsed Swift field / stored property.
#[derive(Debug, Clone)]
pub struct SwiftField {
    pub name: String,
    pub swift_type: String,
    pub optional: bool,
    /// `var` rather than `let`.
    pub mutable: bool,
}

/// A parsed Swift function parameter.
#[derive(Debug, Clone)]
pub struct SwiftParam {
    /// External label (e.g. `with` in `with value:`).
    pub label: Option<String>,
    /// Internal name.
    pub name: String,
    pub swift_type: String,
    pub optional: bool,
    pub has_default: bool,
}

/// A parsed Swift function / method.
#[derive(Debug, Clone)]
pub struct SwiftFunc {
    pub name: String,
    pub params: Vec<SwiftParam>,
    /// Swift return type as written.
    pub return_type: String,
    pub is_async: bool,
    pub is_throws: bool,
    pub is_static: bool,
    pub line: usize,
}

/// A parsed Swift struct.
#[derive(Debug, Clone)]
pub struct SwiftStruct {
    pub name: String,
    pub fields: Vec<SwiftField>,
    pub methods: Vec<SwiftFunc>,
    pub line: usize,
}

/// A parsed Swift enum case.
#[derive(Debug, Clone)]
pub struct SwiftEnumCase {
    pub name: String,
    pub associated_types: Vec<String>,
}

/// A parsed Swift enum.
#[derive(Debug, Clone)]
pub struct SwiftEnum {
    pub name: String,
    pub cases: Vec<SwiftEnumCase>,
    pub line: usize,
}

/// A parsed Swift class.
#[derive(Debug, Clone)]
pub struct SwiftClass {
    pub name: String,
    pub superclass: Option<String>,
    pub fields: Vec<SwiftField>,
    pub methods: Vec<SwiftFunc>,
    pub has_deinit: bool,
    pub line: usize,
}

/// Top-level parsed representation of a Swift source file.
#[derive(Debug, Clone)]
pub struct SwiftFile {
    pub structs: Vec<SwiftStruct>,
    pub enums: Vec<SwiftEnum>,
    pub classes: Vec<SwiftClass>,
    /// Top-level free functions.
    pub funcs: Vec<SwiftFunc>,
}

impl Default for SwiftFile {
    /// A file with no declarations.
    fn default() -> (f: SwiftFile)
        ensures
            f@ == empty_file(),
    {
        let f = SwiftFile { structs: Vec::new(), enums: Vec::new(), classes: Vec::new(), funcs: Vec::new() };
        assert(f@.structs =~= Seq::<StructView>::empty());
        assert(f@.enums =~= Seq::<EnumView>::empty());
        assert(f@.classes =~= Seq::<ClassDeclView>::empty());
        assert(f@.funcs =~= Seq::<FuncView>::empty());
        f
    }
}

// ── IR views ───────────────────────────────────────────────────────────────

pub struct FieldView {
    pub name: Seq<char>,
    pub swift_type: Seq<char>,
    pub optional: bool,
    pub mutable: bool,
}

pub struct ParamView {
    pub label: Option<Seq<char>>,
    pub name: Seq<char>,
    pub swift_type: Seq<char>,
    pub optional: bool,
    pub has_default: bool,
}

pub struct FuncView {
    pub name: Seq<char>,
    pub params: Seq<ParamView>,
    pub return_type: Seq<char>,
    pub is_async: bool,
    pub is_throws: bool,
    pub is_static: bool,
    pub line: usize,
}

pub struct StructView {
    pub name: Seq<char>,
    pub fields: Seq<FieldView>,
    pub methods: Seq<FuncView>,
    pub line: usize,
}

pub struct CaseView {
    pub name: Seq<char>,
    pub associated_types: Seq<Seq<char>>,
}

pub struct EnumView {
    pub name: Seq<char>,
    pub cases: Seq<CaseView>,
    pub line: usize,
}

pub struct ClassDeclView {
    pub name: Seq<char>,
    pub superclass: Option<Seq<char>>,
    pub fields: Seq<FieldView>,
    pub methods: Seq<FuncView>,
    pub has_deinit: bool,
    pub line: usize,
}

pub struct FileView {
    pub structs: Seq<StructView>,
    pub enums: Seq<EnumView>,
    pub classes: Seq<ClassDeclView>,
    pub funcs: Seq<FuncView>,
}

pub open spec fn opt_text(o: Option<String>) -> Option<Seq<char>> {
    match o {
        Some(s) => Some(s@),
        None => None,
    }
}

pub open spec fn texts(v: Seq<String>) -> Seq<Seq<char>> {
    v.map_values(|s: String| s@)
}

impl View for SwiftField {
    type V = FieldView;

    open spec fn view(&self) -> FieldView {
        FieldView {
            name: self.name@,
            swift_type: self.swift_type@,
            optional: self.optional,
            mutable: self.mutable,
        }
    }
}

impl View for SwiftParam {
    type V = ParamView;

    open spec fn view(&self) -> ParamView {
        ParamView {
            label: opt_text(self.label),
            name: self.name@,
            swift_type: self.swift_type@,
            optional: self.optional,
            has_default: self.has_default,
        }
    }
}

pub open spec fn field_views(v: Seq<SwiftField>) -> Seq<FieldView> {
    v.map_values(|x: SwiftField| x@)
}

pub open spec fn param_views(v: Seq<SwiftParam>) -> Seq<ParamView> {
    v.map_values(|x: SwiftParam| x@)
}

impl View for SwiftFunc {
    type V = FuncView;

    open spec fn view(&self) -> FuncView {
        FuncView {
            name: self.name@,
            params: param_views(self.params@),
            return_type: self.return_type@,
            is_async: self.is_async,
            is_throws: self.is_throws,
            is_static: self.is_static,
            line: self.line,
        }
    }
}

pub open spec fn func_views(v: Seq<SwiftFunc>) -> Seq<FuncView> {
    v.map_values(|x: SwiftFunc| x@)
}

impl View for SwiftStruct {
    type V = StructView;

    open spec fn view(&self) -> StructView {
        StructView {
            name: self.name@,
            fields: field_views(self.fields@),
            methods: func_views(self.methods@),
            line: self.line,
        }
    }
}

impl View for SwiftEnumCase {
    type V = CaseView;

    open spec fn view(&self) -> CaseView {
        CaseView { name: self.name@, associated_types: texts(self.associated_types@) }
    }
}

pub open spec fn case_views(v: Seq<SwiftEnumCase>) -> Seq<CaseView> {
    v.map_values(|x: SwiftEnumCase| x@)
}

impl View for SwiftEnum {
    type V = EnumView;

    open spec fn view(&self) -> EnumView {
        EnumView { name: self.name@, cases: case_views(self.cases@), line: self.line }
    }
}

impl View for SwiftClass {
    type V = ClassDeclView;

    open spec fn view(&self) -> ClassDeclView {
        ClassDeclView {
            name: self.name@,
            superclass: opt_text(self.superclass),
            fields: field_views(self.fields@),
            methods: func_views(self.methods@),
            has_deinit: self.has_deinit,
            line: self.line,
        }
    }
}

pub open spec fn struct_views(v: Seq<SwiftStruct>) -> Seq<StructView> {
    v.map_values(|x: SwiftStruct| x@)
}

pub open spec fn enum_views(v: Seq<SwiftEnum>) -> Seq<EnumView> {
    v.map_values(|x: SwiftEnum| x@)
}

pub open spec fn class_views(v: Seq<SwiftClass>) -> Seq<ClassDeclView> {
    v.map_values(|x: SwiftClass| x@)
}

impl View for SwiftFile {
    type V = FileView;

    open spec fn view(&self) -> FileView {
        FileView {
            structs: struct_views(self.structs@),
            enums: enum_views(self.enums@),
            classes: class_views(self.classes@),
            funcs: func_views(self.funcs@),
        }
    }
}

pub open spec fn empty_file() -> FileView {
    FileView { structs: seq![], enums: seq![], classes: seq![], funcs: seq![] }
}

// ── Specification: declarations ────────────────────────────────────────────

/// A name as read, or `Unknown` where none could be read.
pub open spec fn or_unknown(s: Seq<char>) -> Seq<char> {
    if s.len() == 0 {
        "Unknown"@
    } else {
        s
    }
}

/// `line` without one leading access modifier.
pub open spec fn spec_strip_access(line: Seq<char>) -> Seq<char> {
    match strip_prefix(line, "public "@) {
        Some(r) => r,
        None => match strip_prefix(line, "internal "@) {
            Some(r) => r,
            None => match strip_prefix(line, "private "@) {
                Some(r) => r,
                None => match strip_prefix(line, "open "@) {
                    Some(r) => r,
                    None => match strip_prefix(line, "fileprivate "@) {
                        Some(r) => r,
                        None => line,
                    },
                },
            },
        },
    }
}

/// Whether `line` declares a `kw` (e.g. `struct`), generic or not.
pub open spec fn spec_is_decl(line: Seq<char>, kw: Seq<char>) -> bool {
    let l = spec_strip_access(line);
    starts_with(l, kw + " "@) || starts_with(l, kw + "<"@)
}

/// The identifier right after the keyword `kw` on a declaration line.
pub open spec fn decl_ident(line: Seq<char>, kw: Seq<char>) -> Seq<char> {
    let l = spec_strip_access(line);
    let rest = match strip_prefix(l, kw + " "@) {
        Some(r) => r,
        None => match strip_prefix(l, kw + "<"@) {
            Some(r) => r,
            None => seq![],
        },
    };
    or_unknown(ident_prefix(rest))
}

/// The first name after the first `:` of a class line's head (the text before
/// its `{`), up to `,`.
pub open spec fn superclass_of(line: Seq<char>) -> Option<Seq<char>> {
    let head = before_any(line, "{"@);
    match find_in(head, ":"@) {
        Some(c) => {
            let after = trim(head.skip(c as int + 1));
            let name = trim(before_any(after, ","@));
            if name.len() == 0 {
                None
            } else {
                Some(name)
            }
        },
        None => None,
    }
}

/// Whether a line declares a function.
pub open spec fn spec_is_func(line: Seq<char>) -> bool {
    let l = spec_strip_access(line);
    ||| starts_with(l, "func "@)
    ||| starts_with(l, "async func "@)
    ||| starts_with(l, "static func "@)
    ||| starts_with(l, "mutating func "@)
}

// ── Specification: fields ──────────────────────────────────────────────────

/// The stored property declared on `line`, if it declares one.
pub open spec fn parse_field(line: Seq<char>) -> Option<FieldView> {
    let t = spec_strip_access(trim(line));
    let mutable = starts_with(t, "var "@);
    if !(mutable || starts_with(t, "let "@)) || contains(t, "{"@) {
        None
    } else {
        let rest = t.skip(4);
        match find_in(rest, ":"@) {
            Some(c) => {
                let name = or_unknown(trim(rest.take(c as int)));
                let type_part = trim(rest.skip(c as int + 1));
                let type_str = trim(before_any(type_part, "="@));
                Some(
                    FieldView {
                        name,
                        swift_type: trim_end_opt(type_str),
                        optional: ends_with(type_str, "?"@),
                        mutable,
                    },
                )
            },
            None => None,
        }
    }
}

/// The stored properties declared on the lines of a body, in order.
pub open spec fn fields_of(body: Seq<Seq<char>>) -> Seq<FieldView>
    decreases body.len(),
{
    if body.len() == 0 {
        seq![]
    } else {
        let prev = fields_of(body.drop_last());
        match parse_field(body.last()) {
            Some(f) => prev.push(f),
            None => prev,
        }
    }
}

// ── Specification: enum cases ──────────────────────────────────────────────

/// The associated types listed in a case's parentheses.
pub open spec fn assoc_types(inner: Seq<char>) -> Seq<Seq<char>> {
    split_char(inner, ',').map_values(|s: Seq<char>| trim(after_last(s, ':')))
}

/// Where the associated-value list of a case ends: its last `)`, or the end of
/// the line.
pub open spec fn case_list_end(rest: Seq<char>) -> nat {
    match rfind(rest, ')') {
        Some(e) => e,
        None => rest.len(),
    }
}

/// The first `,` of `s` at or after `i` that stands outside parentheses,
/// `depth` parentheses being open before `i`.
pub open spec fn comma_at(s: Seq<char>, i: nat, depth: nat) -> Option<nat>
    decreases s.len() - i,
{
    if i >= s.len() {
        None
    } else if s[i as int] == '(' {
        comma_at(s, i + 1, depth + 1)
    } else if s[i as int] == ')' {
        comma_at(
            s,
            i + 1,
            if depth > 0 {
                (depth - 1) as nat
            } else {
                0
            },
        )
    } else if s[i as int] == ',' && depth == 0 {
        Some(i)
    } else {
        comma_at(s, i + 1, depth)
    }
}

/// The comma-separated pieces of a case list, split at the commas outside
/// parentheses.
pub open spec fn case_pieces(s: Seq<char>) -> Seq<Seq<char>>
    decreases s.len(),
{
    match comma_at(s, 0, 0) {
        Some(c) => if c < s.len() {
            seq![s.take(c as int)] + case_pieces(s.skip(c as int + 1))
        } else {
            seq![s]
        },
        None => seq![s],
    }
}

/// Where the associated-value list of one case ends: its last `)` when that
/// follows its `(` at `p`, otherwise the end of the piece.
pub open spec fn piece_list_end(piece: Seq<char>, p: nat) -> nat {
    match rfind(piece, ')') {
        Some(e) => if p + 1 <= e {
            e
        } else {
            piece.len()
        },
        None => piece.len(),
    }
}

/// The case declared by one piece of a case list, if any.
pub open spec fn case_piece(piece: Seq<char>) -> Option<CaseView> {
    match find_in(piece, "("@) {
        Some(p) => Some(
            CaseView {
                name: or_unknown(trim(piece.take(p as int))),
                associated_types: assoc_types(
                    piece.subrange(p as int + 1, piece_list_end(piece, p) as int),
                ),
            },
        ),
        None => {
            let ws = words(piece);
            if ws.len() == 0 {
                None
            } else {
                Some(CaseView { name: ws[0], associated_types: seq![] })
            }
        },
    }
}

/// The cases declared by a sequence of pieces, in order.
pub open spec fn cases_from(pieces: Seq<Seq<char>>) -> Seq<CaseView>
    decreases pieces.len(),
{
    if pieces.len() == 0 {
        seq![]
    } else {
        cases_from(pieces.drop_last()) + match case_piece(pieces.last()) {
            Some(c) => seq![c],
            None => seq![],
        }
    }
}

/// The enum cases declared on `line`: `case a, b(Int)` declares two.
pub open spec fn parse_cases(line: Seq<char>) -> Seq<CaseView> {
    match strip_prefix(trim(line), "case "@) {
        Some(rest) => cases_from(case_pieces(rest)),
        None => seq![],
    }
}

/// Whether reading the case on `line` stays within the line: a case whose
/// last `)` comes before its first `(` has no associated-value list to read.
pub open spec fn case_ok(line: Seq<char>) -> bool {
    match strip_prefix(trim(line), "case "@) {
        Some(rest) => match find_in(rest, "("@) {
            Some(p) => p + 1 <= case_list_end(rest),
            None => true,
        },
        None => true,
    }
}

/// The cases declared on the lines of a body, in order.
pub open spec fn cases_of(body: Seq<Seq<char>>) -> Seq<CaseView>
    decreases body.len(),
{
    if body.len() == 0 {
        seq![]
    } else {
        cases_of(body.drop_last()) + parse_cases(body.last())
    }
}

// ── Specification: functions ───────────────────────────────────────────────

/// The parameter declared by one comma-separated piece of a parameter list.
pub open spec fn parse_param(piece: Seq<char>) -> Option<ParamView> {
    let p = trim(piece);
    match find_in(p, ":"@) {
        Some(c) => {
            let lhs = trim(p.take(c as int));
            let rhs = trim(p.skip(c as int + 1));
            let parts = words(lhs);
            let type_str = trim(before_any(rhs, "="@));
            let label_name: Option<(Option<Seq<char>>, Seq<char>)> = if parts.len() == 2 {
                if parts[0] == "_"@ {
                    Some((None, parts[1]))
                } else {
                    Some((Some(parts[0]), parts[1]))
                }
            } else if parts.len() == 1 {
                Some((None, parts[0]))
            } else {
                None
            };
            match label_name {
                Some((label, name)) => Some(
                    ParamView {
                        label,
                        name,
                        swift_type: trim_end_opt(type_str),
                        optional: ends_with(type_str, "?"@),
                        has_default: contains(rhs, "="@),
                    },
                ),
                None => None,
            }
        },
        None => None,
    }
}

/// The parameters declared by a sequence of comma-separated pieces.
pub open spec fn params_from(pieces: Seq<Seq<char>>) -> Seq<ParamView>
    decreases pieces.len(),
{
    if pieces.len() == 0 {
        seq![]
    } else {
        let prev = params_from(pieces.drop_last());
        match parse_param(pieces.last()) {
            Some(p) => prev.push(p),
            None => prev,
        }
    }
}

/// The parameters declared by the text between a function's parentheses.
pub open spec fn params_of(s: Seq<char>) -> Seq<ParamView> {
    if trim(s).len() == 0 {
        seq![]
    } else {
        params_from(split_char(s, ','))
    }
}

/// Where a function's parameter list ends: its last `)`, or the end of the text.
pub open spec fn param_list_end(after: Seq<char>) -> nat {
    match rfind(after, ')') {
        Some(e) => e,
        None => after.len(),
    }
}

/// Where the parenthesis opened at `i` of `s` closes, with `depth` levels
/// already open before `i`.
pub open spec fn paren_close(s: Seq<char>, i: nat, depth: nat) -> Option<nat>
    decreases s.len() - i,
{
    if i >= s.len() {
        None
    } else if s[i as int] == '(' {
        paren_close(s, i + 1, depth + 1)
    } else if s[i as int] == ')' {
        if depth == 1 {
            Some(i)
        } else {
            paren_close(
                s,
                i + 1,
                if depth > 0 {
                    (depth - 1) as nat
                } else {
                    0
                },
            )
        }
    } else {
        paren_close(s, i + 1, depth)
    }
}

/// The text after a function's parameter list (from after `func `): what
/// follows the `)` that closes the first `(`, or all of it when that
/// parenthesis is not closed.
pub open spec fn ret_tail(after: Seq<char>) -> Seq<char> {
    match find_in(after, "("@) {
        Some(st) => match paren_close(after, st, 0) {
            Some(e) => after.skip(e as int + 1),
            None => after,
        },
        None => after,
    }
}

/// The return type written after `-> ` in `line`, or `Void`.
pub open spec fn return_type_of(line: Seq<char>) -> Seq<char> {
    match find(line, "-> "@) {
        Some(a) => trim(before_any(trim(line.skip(a as int + 3)), "{/"@)),
        None => "Void"@,
    }
}

/// The function declared on `line` (its number in the file or body: `line_num`).
pub open spec fn spec_func_line(line: Seq<char>, line_num: usize) -> Option<FuncView> {
    match find(line, "func "@) {
        Some(i) => {
            let after = line.skip(i as int + 5);
            match find_in(after, "(<"@) {
                Some(ne) => Some(
                    FuncView {
                        name: or_unknown(trim(after.take(ne as int))),
                        params: match find_in(after, "("@) {
                            Some(st) => params_of(
                                after.subrange(st as int + 1, param_list_end(after) as int),
                            ),
                            None => seq![],
                        },
                        return_type: return_type_of(ret_tail(after)),
                        is_async: contains(line, "async "@),
                        is_throws: contains(line, " throws"@),
                        is_static: contains(line, "static "@),
                        line: line_num,
                    },
                ),
                None => None,
            }
        },
        None => None,
    }
}

/// Whether reading the function on `line` stays within the line: a function
/// whose last `)` comes before its first `(` has no parameter list to read.
pub open spec fn func_line_ok(line: Seq<char>) -> bool {
    match find(line, "func "@) {
        Some(i) => {
            let after = line.skip(i as int + 5);
            match find_in(after, "(<"@) {
                Some(_) => match find_in(after, "("@) {
                    Some(st) => st + 1 <= param_list_end(after),
                    None => true,
                },
                None => true,
            }
        },
        None => true,
    }
}

/// The methods declared on the lines of a body whose first line follows line
/// `base` of the source (counted from 1), each numbered by its source line.
pub open spec fn methods_of(body: Seq<Seq<char>>, base: nat) -> Seq<FuncView>
    decreases body.len(),
{
    if body.len() == 0 {
        seq![]
    } else {
        let prev = methods_of(body.drop_last(), base);
        let t = trim(body.last());
        if spec_is_func(t) {
            match spec_func_line(t, (base + body.len()) as usize) {
                Some(f) => prev.push(f),
                None => prev,
            }
        } else {
            prev
        }
    }
}

/// Whether every method line of a body can be read.
pub open spec fn methods_ok(body: Seq<Seq<char>>) -> bool {
    forall|i: int| 0 <= i < body.len() && spec_is_func(trim(body[i])) ==> func_line_ok(
        #[trigger] trim(body[i]),
    )
}

/// Whether every case line of a body can be read.
pub open spec fn cases_ok(body: Seq<Seq<char>>) -> bool {
    forall|i: int| 0 <= i < body.len() ==> case_ok(#[trigger] body[i])
}

/// Whether a body holds a `deinit`.
pub open spec fn has_deinit(body: Seq<Seq<char>>) -> bool {
    exists|i: int| 0 <= i < body.len() && starts_with(#[trigger] trim(body[i]), "deinit"@)
}

// ── Specification: bodies and the whole file ───────────────────────────────

/// How many times `c` occurs in `s`.
pub open spec fn count_char(s: Seq<char>, c: char) -> nat
    decreases s.len(),
{
    if s.len() == 0 {
        0
    } else {
        count_char(s.drop_last(), c) + if s.last() == c {
            1nat
        } else {
            0nat
        }
    }
}

/// Scans the lines of a declaration from line `start + offset` on, with the
/// brace depth `depth` reached so far, `found` telling whether an opening
/// brace has been seen, and the body lines `body` collected so far. Ends after
/// the line on which the depth returns to zero once a brace has opened; gives
/// the body lines (the declaration line excluded, the closing line included)
/// and how many lines were consumed, the declaration line included.
pub open spec fn body_scan(
    ls: Seq<Seq<char>>,
    start: nat,
    offset: nat,
    depth: int,
    found: bool,
    body: Seq<Seq<char>>,
) -> (Seq<Seq<char>>, nat)
    decreases ls.len() - (start + offset),
{
    if start + offset >= ls.len() {
        (body, (ls.len() - start) as nat)
    } else {
        let l = ls[(start + offset) as int];
        let d = depth + count_char(l, '{') - count_char(l, '}');
        let f = found || count_char(l, '{') > 0;
        let b = if f && offset > 0 {
            body.push(l)
        } else {
            body
        };
        if f && d == 0 {
            (b, offset + 1)
        } else {
            body_scan(ls, start, offset + 1, d, f, b)
        }
    }
}

/// The index of the first body line of the declaration that starts on line
/// `start`, looking from line `start + offset`: the line after the
/// declaration line when the declaration line opens a brace, otherwise the
/// first later line that does.
pub open spec fn body_first_from(ls: Seq<Seq<char>>, start: nat, offset: nat) -> nat
    decreases ls.len() - (start + offset),
{
    if start + offset >= ls.len() {
        start + offset
    } else if count_char(ls[(start + offset) as int], '{') > 0 {
        if offset == 0 {
            start + 1
        } else {
            start + offset
        }
    } else {
        body_first_from(ls, start, offset + 1)
    }
}

/// The index of the first body line of the declaration on line `start`.
pub open spec fn body_first(ls: Seq<Seq<char>>, start: nat) -> nat {
    body_first_from(ls, start, 0)
}

/// The body lines of the declaration that starts on line `start`, and the
/// number of lines it spans.
pub open spec fn spec_extract_body(ls: Seq<Seq<char>>, start: nat) -> (Seq<Seq<char>>, nat) {
    body_scan(ls, start, 0, 0, false, seq![])
}

pub proof fn lemma_body_scan_bounds(
    ls: Seq<Seq<char>>,
    start: nat,
    offset: nat,
    depth: int,
    found: bool,
    body: Seq<Seq<char>>,
)
    requires
        start < ls.len(),
        start + offset <= ls.len(),
    ensures
        1 <= body_scan(ls, start, offset, depth, found, body).1 <= ls.len() - start,
        body_scan(ls, start, offset, depth, found, body).1 >= offset,
    decreases ls.len() - (start + offset),
{
    if start + offset < ls.len() {
        let l = ls[(start + offset) as int];
        let d = depth + count_char(l, '{') - count_char(l, '}');
        let f = found || count_char(l, '{') > 0;
        let b = if f && offset > 0 {
            body.push(l)
        } else {
            body
        };
        if !(f && d == 0) {
            lemma_body_scan_bounds(ls, start, offset + 1, d, f, b);
        }
    }
}

proof fn lemma_body_scan_len(
    ls: Seq<Seq<char>>,
    start: nat,
    offset: nat,
    depth: int,
    found: bool,
    body: Seq<Seq<char>>,
)
    requires
        start + offset <= ls.len(),
    ensures
        body_scan(ls, start, offset, depth, found, body).0.len() <= body.len() + ls.len() - (start
            + offset),
    decreases ls.len() - (start + offset),
{
    if start + offset < ls.len() {
        let l = ls[(start + offset) as int];
        let d = depth + count_char(l, '{') - count_char(l, '}');
        let f = found || count_char(l, '{') > 0;
        let b = if f && offset > 0 {
            body.push(l)
        } else {
            body
        };
        if !(f && d == 0) {
            lemma_body_scan_len(ls, start, offset + 1, d, f, b);
        }
    }
}

proof fn lemma_body_first_fits(ls: Seq<Seq<char>>, start: nat, offset: nat, depth: int)
    requires
        start < ls.len(),
        start + offset <= ls.len(),
    ensures
        body_scan(ls, start, offset, depth, false, seq![]).0.len() + body_first_from(
            ls,
            start,
            offset,
        ) <= ls.len(),
        body_first_from(ls, start, offset) >= start + 1,
    decreases ls.len() - (start + offset),
{
    if start + offset < ls.len() {
        let l = ls[(start + offset) as int];
        let d = depth + count_char(l, '{') - count_char(l, '}');
        let f = count_char(l, '{') > 0;
        let b: Seq<Seq<char>> = if f && offset > 0 {
            seq![l]
        } else {
            seq![]
        };
        assert(b =~= (if f && offset > 0 {
            Seq::<Seq<char>>::empty().push(l)
        } else {
            Seq::<Seq<char>>::empty()
        }));
        if f {
            if d != 0 {
                lemma_body_scan_len(ls, start, offset + 1, d, f, b);
            }
        } else {
            lemma_body_first_fits(ls, start, offset + 1, d);
        }
    }
}

/// The body of a declaration fits in the source after its first body line.
pub proof fn lemma_body_first_bounds(ls: Seq<Seq<char>>, start: nat)
    requires
        start < ls.len(),
    ensures
        spec_extract_body(ls, start).0.len() + body_first(ls, start) <= ls.len(),
        body_first(ls, start) >= start + 1,
{
    lemma_body_first_fits(ls, start, 0, 0);
}

/// The struct declared on line `i`.
pub open spec fn struct_at(ls: Seq<Seq<char>>, i: nat) -> StructView {
    let line = trim(ls[i as int]);
    let body = spec_extract_body(ls, i).0;
    StructView {
        name: decl_ident(line, "struct"@),
        fields: fields_of(body),
        methods: methods_of(body, body_first(ls, i)),
        line: (i + 1) as usize,
    }
}

/// The enum declared on line `i`.
pub open spec fn enum_at(ls: Seq<Seq<char>>, i: nat) -> EnumView {
    let line = trim(ls[i as int]);
    let body = spec_extract_body(ls, i).0;
    EnumView { name: decl_ident(line, "enum"@), cases: cases_of(body), line: (i + 1) as usize }
}

/// The class declared on line `i`.
pub open spec fn class_at(ls: Seq<Seq<char>>, i: nat) -> ClassDeclView {
    let line = trim(ls[i as int]);
    let body = spec_extract_body(ls, i).0;
    ClassDeclView {
        name: decl_ident(line, "class"@),
        superclass: superclass_of(line),
        fields: fields_of(body),
        methods: methods_of(body, body_first(ls, i)),
        has_deinit: has_deinit(body),
        line: (i + 1) as usize,
    }
}

/// The file parsed from line `i` on, the declarations before it being `acc`.
pub open spec fn parse_from(ls: Seq<Seq<char>>, i: nat, acc: FileView) -> FileView
    decreases ls.len() - i,
{
    if i >= ls.len() {
        acc
    } else {
        let line = trim(ls[i as int]);
        let consumed = spec_extract_body(ls, i).1;
        proof {
            lemma_body_scan_bounds(ls, i, 0, 0, false, seq![]);
        }
        if spec_is_decl(line, "struct"@) {
            parse_from(ls, i + consumed, FileView { structs: acc.structs.push(struct_at(ls, i)), ..acc })
        } else if spec_is_decl(line, "enum"@) {
            parse_from(ls, i + consumed, FileView { enums: acc.enums.push(enum_at(ls, i)), ..acc })
        } else if spec_is_decl(line, "class"@) {
            parse_from(ls, i + consumed, FileView { classes: acc.classes.push(class_at(ls, i)), ..acc })
        } else if spec_is_func(line) {
            match spec_func_line(line, (i + 1) as usize) {
                Some(f) => parse_from(ls, i + 1, FileView { funcs: acc.funcs.push(f), ..acc }),
                None => parse_from(ls, i + 1, acc),
            }
        } else {
            parse_from(ls, i + 1, acc)
        }
    }
}

/// Whether every line that parsing visits from line `i` on can be read.
pub open spec fn parse_ok_from(ls: Seq<Seq<char>>, i: nat) -> bool
    decreases ls.len() - i,
{
    if i >= ls.len() {
        true
    } else {
        let line = trim(ls[i as int]);
        let (body, consumed) = spec_extract_body(ls, i);
        proof {
            lemma_body_scan_bounds(ls, i, 0, 0, false, seq![]);
        }
        if spec_is_decl(line, "struct"@) {
            methods_ok(body) && parse_ok_from(ls, i + consumed)
        } else if spec_is_decl(line, "enum"@) {
            cases_ok(body) && parse_ok_from(ls, i + consumed)
        } else if spec_is_decl(line, "class"@) {
            methods_ok(body) && parse_ok_from(ls, i + consumed)
        } else if spec_is_func(line) {
            func_line_ok(line) && parse_ok_from(ls, i + 1)
        } else {
            parse_ok_from(ls, i + 1)
        }
    }
}

/// The IR parsed from the Swift source `source`.
pub open spec fn spec_parse(source: Seq<char>) -> FileView {
    parse_from(lines(source), 0, empty_file())
}

/// Whether parsing `source` reads every declaration within its line: no enum
/// case and no function has its last `)` before its first `(`.
pub open spec fn parse_ok(source: Seq<char>) -> bool {
    parse_ok_from(lines(source), 0)
}

// ── Implementation: single lines ───────────────────────────────────────────

/// The characters of `a` followed by those of `b`.
fn concat_chars(a: &str, b: &str) -> (r: Vec<char>)
    ensures
        r@ == a@ + b@,
{
    let mut s = String::from_str(a);
    s.append(b);
    chars_of(s.as_str())
}

fn or_unknown_chars(s: &Vec<char>) -> (r: Vec<char>)
    ensures
        r@ == or_unknown(s@),
{
    if s.len() == 0 {
        chars_of("Unknown")
    } else {
        subseq(s, 0, s.len())
    }
}

fn strip_access(line: &Vec<char>) -> (r: Vec<char>)
    ensures
        r@ == spec_strip_access(line@),
{
    if let Some(r) = strip_prefix_str(line, "public ") {
        return r;
    }
    if let Some(r) = strip_prefix_str(line, "internal ") {
        return r;
    }
    if let Some(r) = strip_prefix_str(line, "private ") {
        return r;
    }
    if let Some(r) = strip_prefix_str(line, "open ") {
        return r;
    }
    if let Some(r) = strip_prefix_str(line, "fileprivate ") {
        return r;
    }
    subseq(line, 0, line.len())
}

fn is_decl(line: &Vec<char>, kw: &str) -> (b: bool)
    ensures
        b == spec_is_decl(line@, kw@),
{
    let l = strip_access(line);
    starts_with_chars(&l, &concat_chars(kw, " ")) || starts_with_chars(&l, &concat_chars(kw, "<"))
}

fn extract_name(line: &Vec<char>, kw: &str) -> (r: Vec<char>)
    ensures
        r@ == decl_ident(line@, kw@),
{
    let l = strip_access(line);
    let rest = match strip_prefix_chars(&l, &concat_chars(kw, " ")) {
        Some(r) => r,
        None => match strip_prefix_chars(&l, &concat_chars(kw, "<")) {
            Some(r) => r,
            None => Vec::new(),
        },
    };
    let name = ident_prefix_chars(&rest);
    if name.len() == 0 {
        chars_of("Unknown")
    } else {
        name
    }
}

pub(crate) fn extract_superclass(line: &Vec<char>) -> (r: Option<String>)
    ensures
        opt_text(r) == superclass_of(line@),
{
    let head = before_any_chars(line, "{");
    let found = find_any(&head, ":");
    proof {
        crate::text::lemma_find_in_from_bounds(head@, ":"@, 0);
    }
    match found {
        Some(c) => {
            assert(c < head.len());
            let tail = subseq(&head, c + 1, head.len());
            assert(tail@ =~= head@.skip(c as int + 1));
            let after = trim_chars(&tail);
            let name = trim_chars(&before_any_chars(&after, ","));
            if name.len() == 0 {
                None
            } else {
                Some(string_of(&name))
            }
        },
        None => None,
    }
}

fn is_func(line: &Vec<char>) -> (b: bool)
    ensures
        b == spec_is_func(line@),
{
    let l = strip_access(line);
    starts_with_str(&l, "func ") || starts_with_str(&l, "async func ") || starts_with_str(
        &l,
        "static func ",
    ) || starts_with_str(&l, "mutating func ")
}

fn parse_field_line(line: &Vec<char>) -> (r: Option<SwiftField>)
    ensures
        match r {
            Some(f) => parse_field(line@) == Some(f@),
            None => parse_field(line@) is None,
        },
{
    let t = strip_access(&trim_chars(line));
    let mutable = starts_with_str(&t, "var ");
    if !(mutable || starts_with_str(&t, "let ")) || contains_str(&t, "{") {
        return None;
    }
    proof {
        reveal_strlit("var ");
        reveal_strlit("let ");
    }
    assert(t.len() >= 4);
    let rest = subseq(&t, 4, t.len());
    assert(rest@ =~= t@.skip(4));
    let found = find_any(&rest, ":");
    proof {
        crate::text::lemma_find_in_from_bounds(rest@, ":"@, 0);
    }
    match found {
        Some(c) => {
            assert(c < rest.len());
            let head = subseq(&rest, 0, c);
            assert(head@ =~= rest@.take(c as int));
            let name = or_unknown_chars(&trim_chars(&head));
            let tail = subseq(&rest, c + 1, rest.len());
            assert(tail@ =~= rest@.skip(c as int + 1));
            let type_part = trim_chars(&tail);
            let type_str = trim_chars(&before_any_chars(&type_part, "="));
            let optional = ends_with_str(&type_str, "?");
            let swift_type = trim_end_opt_chars(&type_str);
            Some(
                SwiftField {
                    name: string_of(&name),
                    swift_type: string_of(&swift_type),
                    optional,
                    mutable,
                },
            )
        },
        None => None,
    }
}

fn parse_fields(body: &Vec<Vec<char>>) -> (r: Vec<SwiftField>)
    ensures
        field_views(r@) == fields_of(views(body@)),
{
    let mut out: Vec<SwiftField> = Vec::new();
    let mut i: usize = 0;
    assert(field_views(out@) =~= fields_of(views(body@).take(0)));
    while i < body.len()
        invariant
            i <= body.len(),
            field_views(out@) == fields_of(views(body@).take(i as int)),
        decreases body.len() - i,
    {
        let ghost before = out@;
        let ghost pre = views(body@).take(i as int + 1);
        assert(pre.drop_last() =~= views(body@).take(i as int));
        assert(pre.last() == body@[i as int]@);
        match parse_field_line(&body[i]) {
            Some(f) => {
                out.push(f);
                assert(field_views(out@) =~= field_views(before).push(f@));
            },
            None => {},
        }
        i = i + 1;
    }
    assert(views(body@).take(body.len() as int) =~= views(body@));
    out
}

fn parse_assoc_types(inner: &Vec<char>) -> (r: Vec<String>)
    ensures
        texts(r@) == assoc_types(inner@),
{
    let pieces = split_char_of(inner, ',');
    let ghost target = assoc_types(inner@);
    let mut out: Vec<String> = Vec::new();
    let mut k: usize = 0;
    while k < pieces.len()
        invariant
            k <= pieces.len(),
            views(pieces@) == split_char(inner@, ','),
            target == assoc_types(inner@),
            target.len() == pieces.len(),
            texts(out@) == target.take(k as int),
        decreases pieces.len() - k,
    {
        let t = trim_chars(&after_last_chars(&pieces[k], ':'));
        let ghost before = out@;
        let st = string_of(&t);
        out.push(st);
        assert(texts(out@) =~= texts(before).push(t@));
        assert(target[k as int] == trim(after_last(views(pieces@)[k as int], ':')));
        assert(texts(out@) =~= target.take(k as int + 1));
        k = k + 1;
    }
    assert(target.take(pieces.len() as int) =~= target);
    out
}

fn find_comma(s: &Vec<char>) -> (r: Option<usize>)
    ensures
        match r {
            Some(c) => comma_at(s@, 0, 0) == Some(c as nat),
            None => comma_at(s@, 0, 0) is None,
        },
{
    let mut i: usize = 0;
    let mut depth: usize = 0;
    while i < s.len()
        invariant
            i <= s.len(),
            depth <= i,
            comma_at(s@, 0, 0) == comma_at(s@, i as nat, depth as nat),
        decreases s.len() - i,
    {
        let c = s[i];
        if c == '(' {
            depth = depth + 1;
        } else if c == ')' {
            if depth > 0 {
                depth = depth - 1;
            }
        } else if c == ',' && depth == 0 {
            return Some(i);
        }
        i = i + 1;
    }
    None
}

fn split_case_pieces(s: &Vec<char>) -> (r: Vec<Vec<char>>)
    ensures
        views(r@) == case_pieces(s@),
{
    let mut out: Vec<Vec<char>> = Vec::new();
    let mut rest = subseq(s, 0, s.len());
    assert(rest@ =~= s@);
    assert(views(out@) =~= Seq::<Seq<char>>::empty());
    assert(views(out@) + case_pieces(rest@) =~= case_pieces(s@));
    loop
        invariant
            views(out@) + case_pieces(rest@) == case_pieces(s@),
        decreases rest.len(),
    {
        match find_comma(&rest) {
            Some(c) => {
                if c < rest.len() {
                    let head = subseq(&rest, 0, c);
                    assert(head@ =~= rest@.take(c as int));
                    let tail = subseq(&rest, c + 1, rest.len());
                    assert(tail@ =~= rest@.skip(c as int + 1));
                    let ghost before = views(out@);
                    let ghost hv = head@;
                    out.push(head);
                    assert(views(out@) =~= before.push(hv));
                    assert(case_pieces(rest@) == seq![hv] + case_pieces(tail@));
                    assert(views(out@) + case_pieces(tail@) =~= before + case_pieces(rest@));
                    rest = tail;
                } else {
                    let ghost before = views(out@);
                    let ghost rv = rest@;
                    out.push(rest);
                    assert(views(out@) =~= before + seq![rv]);
                    return out;
                }
            },
            None => {
                let ghost before = views(out@);
                let ghost rv = rest@;
                out.push(rest);
                assert(views(out@) =~= before + seq![rv]);
                return out;
            },
        }
    }
}

fn parse_case_piece(piece: &Vec<char>) -> (r: Option<SwiftEnumCase>)
    ensures
        match r {
            Some(c) => case_piece(piece@) == Some(c@),
            None => case_piece(piece@) is None,
        },
{
    let found = find_any(piece, "(");
    let last = rfind_char(piece, ')');
    proof {
        crate::text::lemma_find_in_from_bounds(piece@, "("@, 0);
        crate::text::lemma_rfind_bounds(piece@, ')', piece@.len());
    }
    match found {
        Some(p) => {
            assert(p < piece.len());
            let head = subseq(piece, 0, p);
            assert(head@ =~= piece@.take(p as int));
            let name = or_unknown_chars(&trim_chars(&head));
            let end = match last {
                Some(e) => {
                    if p + 1 <= e {
                        e
                    } else {
                        piece.len()
                    }
                },
                None => piece.len(),
            };
            assert(end == piece_list_end(piece@, p as nat));
            let inner = subseq(piece, p + 1, end);
            let types = parse_assoc_types(&inner);
            Some(SwiftEnumCase { name: string_of(&name), associated_types: types })
        },
        None => {
            let ws = words_of(piece);
            if ws.len() == 0 {
                None
            } else {
                assert(views(ws@)[0] == ws@[0]@);
                let c = SwiftEnumCase { name: string_of(&ws[0]), associated_types: Vec::new() };
                assert(c@.associated_types =~= Seq::<Seq<char>>::empty());
                Some(c)
            }
        },
    }
}

/// Appends to `out` the cases declared on `line`.
fn parse_case_line(line: &Vec<char>, out: &mut Vec<SwiftEnumCase>)
    ensures
        case_views(final(out)@) == case_views(old(out)@) + parse_cases(line@),
{
    let ghost start = case_views(out@);
    let t = trim_chars(line);
    let rest = match strip_prefix_str(&t, "case ") {
        Some(r) => r,
        None => {
            assert(case_views(out@) =~= start + Seq::<CaseView>::empty());
            return ;
        },
    };
    let pieces = split_case_pieces(&rest);
    let ghost pv = views(pieces@);
    let mut k: usize = 0;
    assert(case_views(out@) =~= start + cases_from(pv.take(0)));
    while k < pieces.len()
        invariant
            k <= pieces.len(),
            pv == views(pieces@),
            case_views(out@) == start + cases_from(pv.take(k as int)),
        decreases pieces.len() - k,
    {
        assert(pv.take(k as int + 1).drop_last() =~= pv.take(k as int));
        assert(pv.take(k as int + 1).last() == pieces@[k as int]@);
        let ghost before = case_views(out@);
        match parse_case_piece(&pieces[k]) {
            Some(c) => {
                out.push(c);
                assert(case_views(out@) =~= before.push(c@));
                assert(case_views(out@) =~= start + cases_from(pv.take(k as int + 1)));
            },
            None => {
                assert(case_views(out@) =~= start + cases_from(pv.take(k as int + 1)));
            },
        }
        k = k + 1;
    }
    assert(pv.take(pieces.len() as int) =~= pv);
}

fn parse_enum_cases(body: &Vec<Vec<char>>) -> (r: Vec<SwiftEnumCase>)
    requires
        cases_ok(views(body@)),
    ensures
        case_views(r@) == cases_of(views(body@)),
{
    let mut out: Vec<SwiftEnumCase> = Vec::new();
    let mut i: usize = 0;
    assert(case_views(out@) =~= cases_of(views(body@).take(0)));
    while i < body.len()
        invariant
            i <= body.len(),
            cases_ok(views(body@)),
            case_views(out@) == cases_of(views(body@).take(i as int)),
        decreases body.len() - i,
    {
        let ghost before = out@;
        let ghost pre = views(body@).take(i as int + 1);
        assert(pre.drop_last() =~= views(body@).take(i as int));
        assert(pre.last() == body@[i as int]@);
        parse_case_line(&body[i], &mut out);
        assert(case_views(out@) =~= cases_of(pre));
        i = i + 1;
    }
    assert(views(body@).take(body.len() as int) =~= views(body@));
    out
}

fn find_deinit(body: &Vec<Vec<char>>) -> (b: bool)
    ensures
        b == has_deinit(views(body@)),
{
    let mut i: usize = 0;
    while i < body.len()
        invariant
            i <= body.len(),
            forall|j: int| 0 <= j < i ==> !starts_with(#[trigger] trim(views(body@)[j]), "deinit"@),
        decreases body.len() - i,
    {
        let t = trim_chars(&body[i]);
        if starts_with_str(&t, "deinit") {
            assert(starts_with(trim(views(body@)[i as int]), "deinit"@));
            return true;
        }
        i = i + 1;
    }
    false
}

fn parse_param_piece(piece: &Vec<char>) -> (r: Option<SwiftParam>)
    ensures
        match r {
            Some(x) => parse_param(piece@) == Some(x@),
            None => parse_param(piece@) is None,
        },
{
    let p = trim_chars(piece);
    let found = find_any(&p, ":");
    proof {
        crate::text::lemma_find_in_from_bounds(p@, ":"@, 0);
    }
    match found {
        Some(c) => {
            assert(c < p.len());
            let head = subseq(&p, 0, c);
            assert(head@ =~= p@.take(c as int));
            let lhs = trim_chars(&head);
            let tail = subseq(&p, c + 1, p.len());
            assert(tail@ =~= p@.skip(c as int + 1));
            let rhs = trim_chars(&tail);
            let parts = words_of(&lhs);
            let type_str = trim_chars(&before_any_chars(&rhs, "="));
            let label: Option<String>;
            let name: String;
            if parts.len() == 2 {
                assert(views(parts@)[0] == parts@[0]@);
                assert(views(parts@)[1] == parts@[1]@);
                if eq_str(&parts[0], "_") {
                    label = None;
                } else {
                    label = Some(string_of(&parts[0]));
                }
                name = string_of(&parts[1]);
            } else if parts.len() == 1 {
                assert(views(parts@)[0] == parts@[0]@);
                label = None;
                name = string_of(&parts[0]);
            } else {
                return None;
            }
            let swift_type = trim_end_opt_chars(&type_str);
            Some(
                SwiftParam {
                    label,
                    name,
                    swift_type: string_of(&swift_type),
                    optional: ends_with_str(&type_str, "?"),
                    has_default: contains_str(&rhs, "="),
                },
            )
        },
        None => None,
    }
}

fn parse_params(s: &Vec<char>) -> (r: Vec<SwiftParam>)
    ensures
        param_views(r@) == params_of(s@),
{
    let mut out: Vec<SwiftParam> = Vec::new();
    if trim_chars(s).len() == 0 {
        assert(param_views(out@) =~= Seq::<ParamView>::empty());
        return out;
    }
    let pieces = split_char_of(s, ',');
    let mut i: usize = 0;
    assert(param_views(out@) =~= params_from(views(pieces@).take(0)));
    while i < pieces.len()
        invariant
            i <= pieces.len(),
            views(pieces@) == split_char(s@, ','),
            param_views(out@) == params_from(views(pieces@).take(i as int)),
        decreases pieces.len() - i,
    {
        let ghost before = out@;
        let ghost pre = views(pieces@).take(i as int + 1);
        assert(pre.drop_last() =~= views(pieces@).take(i as int));
        assert(pre.last() == pieces@[i as int]@);
        match parse_param_piece(&pieces[i]) {
            Some(x) => {
                out.push(x);
                assert(param_views(out@) =~= param_views(before).push(x@));
            },
            None => {},
        }
        i = i + 1;
    }
    assert(views(pieces@).take(pieces.len() as int) =~= views(pieces@));
    out
}

fn extract_return_type(line: &Vec<char>) -> (r: Vec<char>)
    ensures
        r@ == return_type_of(line@),
{
    let found = find_str(line, "-> ");
    proof {
        crate::text::lemma_find_from_bounds(line@, "-> "@, 0);
        reveal_strlit("-> ");
    }
    match found {
        Some(a) => {
            assert(a + 3 <= line.len());
            let tail = subseq(line, a + 3, line.len());
            assert(tail@ =~= line@.skip(a as int + 3));
            trim_chars(&before_any_chars(&trim_chars(&tail), "{/"))
        },
        None => chars_of("Void"),
    }
}

fn find_paren_close(s: &Vec<char>, st: usize) -> (r: Option<usize>)
    requires
        st <= s.len(),
    ensures
        match r {
            Some(e) => paren_close(s@, st as nat, 0) == Some(e as nat) && e < s.len(),
            None => paren_close(s@, st as nat, 0) is None,
        },
{
    let mut i: usize = st;
    let mut depth: usize = 0;
    while i < s.len()
        invariant
            st <= i <= s.len(),
            depth <= i,
            paren_close(s@, st as nat, 0) == paren_close(s@, i as nat, depth as nat),
        decreases s.len() - i,
    {
        let c = s[i];
        if c == '(' {
            depth = depth + 1;
        } else if c == ')' {
            if depth == 1 {
                return Some(i);
            }
            if depth > 0 {
                depth = depth - 1;
            }
        }
        i = i + 1;
    }
    None
}

fn return_tail(after: &Vec<char>) -> (r: Vec<char>)
    ensures
        r@ == ret_tail(after@),
{
    let open = find_any(after, "(");
    proof {
        crate::text::lemma_find_in_from_bounds(after@, "("@, 0);
    }
    match open {
        Some(st) => match find_paren_close(after, st) {
            Some(e) => {
                let t = subseq(after, e + 1, after.len());
                assert(t@ =~= after@.skip(e as int + 1));
                t
            },
            None => subseq(after, 0, after.len()),
        },
        None => subseq(after, 0, after.len()),
    }
}

fn parse_func_line(line: &Vec<char>, line_num: usize) -> (r: Option<SwiftFunc>)
    requires
        func_line_ok(line@),
    ensures
        match r {
            Some(f) => spec_func_line(line@, line_num) == Some(f@),
            None => spec_func_line(line@, line_num) is None,
        },
{
    let is_async = contains_str(line, "async ");
    let is_throws = contains_str(line, " throws");
    let is_static = contains_str(line, "static ");
    let found = find_str(line, "func ");
    proof {
        crate::text::lemma_find_from_bounds(line@, "func "@, 0);
        reveal_strlit("func ");
    }
    let i = match found {
        Some(i) => i,
        None => {
            return None;
        },
    };
    assert(i + 5 <= line.len());
    let after = subseq(line, i + 5, line.len());
    assert(after@ =~= line@.skip(i as int + 5));
    let name_end = find_any(&after, "(<");
    proof {
        crate::text::lemma_find_in_from_bounds(after@, "(<"@, 0);
    }
    let ne = match name_end {
        Some(ne) => ne,
        None => {
            return None;
        },
    };
    assert(ne <= after.len());
    let head = subseq(&after, 0, ne);
    assert(head@ =~= after@.take(ne as int));
    let name = or_unknown_chars(&trim_chars(&head));
    let open = find_any(&after, "(");
    let close = rfind_char(&after, ')');
    proof {
        crate::text::lemma_find_in_from_bounds(after@, "("@, 0);
        crate::text::lemma_rfind_bounds(after@, ')', after@.len());
    }
    let params = match open {
        Some(st) => {
            let end = match close {
                Some(e) => e,
                None => after.len(),
            };
            assert(end == param_list_end(after@));
            assert(end <= after.len());
            let inner = subseq(&after, st + 1, end);
            parse_params(&inner)
        },
        None => {
            let v: Vec<SwiftParam> = Vec::new();
            assert(param_views(v@) =~= Seq::<ParamView>::empty());
            v
        },
    };
    let ret = extract_return_type(&return_tail(&after));
    Some(
        SwiftFunc {
            name: string_of(&name),
            params,
            return_type: string_of(&ret),
            is_async,
            is_throws,
            is_static,
            line: line_num,
        },
    )
}

fn find_body_first(ls: &Vec<Vec<char>>, start: usize) -> (r: usize)
    requires
        start < ls.len(),
    ensures
        r == body_first(views(ls@), start as nat),
{
    let ghost lv = views(ls@);
    let mut off: usize = 0;
    while off < ls.len() - start
        invariant
            start < ls.len(),
            start + off <= ls.len(),
            lv == views(ls@),
            body_first(lv, start as nat) == body_first_from(lv, start as nat, off as nat),
        decreases ls.len() - start - off,
    {
        assert(lv[(start + off) as int] == ls@[(start + off) as int]@);
        let (opens, _closes) = count_braces(&ls[start + off]);
        if opens > 0 {
            if off == 0 {
                return start + 1;
            } else {
                return start + off;
            }
        }
        off = off + 1;
    }
    start + off
}

fn parse_methods(body: &Vec<Vec<char>>, base: usize) -> (r: Vec<SwiftFunc>)
    requires
        methods_ok(views(body@)),
        base + body.len() <= usize::MAX,
    ensures
        func_views(r@) == methods_of(views(body@), base as nat),
{
    let mut out: Vec<SwiftFunc> = Vec::new();
    let mut i: usize = 0;
    assert(func_views(out@) =~= methods_of(views(body@).take(0), base as nat));
    while i < body.len()
        invariant
            i <= body.len(),
            base + body.len() <= usize::MAX,
            methods_ok(views(body@)),
            func_views(out@) == methods_of(views(body@).take(i as int), base as nat),
        decreases body.len() - i,
    {
        let ghost before = out@;
        let ghost pre = views(body@).take(i as int + 1);
        assert(pre.drop_last() =~= views(body@).take(i as int));
        assert(pre.last() == body@[i as int]@);
        assert(pre.len() == i + 1);
        let t = trim_chars(&body[i]);
        if is_func(&t) {
            assert(func_line_ok(trim(views(body@)[i as int])));
            match parse_func_line(&t, base + i + 1) {
                Some(f) => {
                    out.push(f);
                    assert(func_views(out@) =~= func_views(before).push(f@));
                },
                None => {},
            }
        }
        i = i + 1;
    }
    assert(views(body@).take(body.len() as int) =~= views(body@));
    out
}

// ── Implementation: bodies and the whole file ──────────────────────────────

/// The number of characters in a sequence of lines.
pub open spec fn total_len(ls: Seq<Seq<char>>) -> nat
    decreases ls.len(),
{
    if ls.len() == 0 {
        0
    } else {
        total_len(ls.drop_last()) + ls.last().len()
    }
}

proof fn lemma_total_len_prepend(x: Seq<char>, ls: Seq<Seq<char>>)
    ensures
        total_len(seq![x] + ls) == x.len() + total_len(ls),
    decreases ls.len(),
{
    if ls.len() == 0 {
        assert(seq![x] + ls =~= seq![x]);
        assert(seq![x].drop_last() =~= Seq::<Seq<char>>::empty());
        assert(seq![x].last() == x);
        assert(total_len(seq![x]) == total_len(seq![x].drop_last()) + x.len());
    } else {
        lemma_total_len_prepend(x, ls.drop_last());
        assert((seq![x] + ls).drop_last() =~= seq![x] + ls.drop_last());
        assert((seq![x] + ls).last() == ls.last());
    }
}

proof fn lemma_total_len_lines(s: Seq<char>)
    ensures
        total_len(lines(s)) <= s.len(),
    decreases s.len(),
{
    if s.len() == 0 {
    } else {
        crate::text::lemma_find_in_from_bounds(s, seq!['\n'], 0);
        match find_in(s, seq!['\n']) {
            Some(i) => {
                if i < s.len() {
                    let rest = s.skip(i as int + 1);
                    let x = crate::text::strip_cr(s.take(i as int));
                    lemma_total_len_lines(rest);
                    lemma_total_len_prepend(x, lines(rest));
                    assert(lines(s) == seq![x] + lines(rest));
                    assert(x.len() <= i);
                    assert(rest.len() == s.len() - i - 1);
                } else {
                    assert(false);
                }
            },
            None => {
                assert(lines(s) == seq![s]);
                assert(seq![s].drop_last() =~= Seq::<Seq<char>>::empty());
                assert(total_len(seq![s]) == total_len(seq![s].drop_last()) + s.len());
            },
        }
    }
}

proof fn lemma_total_len_take(ls: Seq<Seq<char>>, b: int)
    requires
        0 <= b <= ls.len(),
    ensures
        total_len(ls.take(b)) <= total_len(ls),
    decreases ls.len(),
{
    if b == ls.len() {
        assert(ls.take(b) =~= ls);
    } else {
        lemma_total_len_take(ls.drop_last(), b);
        assert(ls.drop_last().take(b) =~= ls.take(b));
    }
}

proof fn lemma_total_len_sub(ls: Seq<Seq<char>>, a: int, b: int)
    requires
        0 <= a <= b <= ls.len(),
    ensures
        total_len(ls.subrange(a, b)) + total_len(ls.take(a)) == total_len(ls.take(b)),
    decreases b - a,
{
    if a == b {
        assert(ls.subrange(a, b) =~= Seq::<Seq<char>>::empty());
        assert(ls.take(a) =~= ls.take(b));
    } else {
        lemma_total_len_sub(ls, a, b - 1);
        assert(ls.subrange(a, b).drop_last() =~= ls.subrange(a, b - 1));
        assert(ls.take(b).drop_last() =~= ls.take(b - 1));
    }
}

proof fn lemma_count_le_len(s: Seq<char>, c: char)
    ensures
        count_char(s, c) <= s.len(),
    decreases s.len(),
{
    if s.len() > 0 {
        lemma_count_le_len(s.drop_last(), c);
    }
}

/// The numbers of `{` and of `}` in `l`.
fn count_braces(l: &Vec<char>) -> (r: (usize, usize))
    ensures
        r.0 == count_char(l@, '{'),
        r.1 == count_char(l@, '}'),
{
    let mut opens: usize = 0;
    let mut closes: usize = 0;
    let mut k: usize = 0;
    while k < l.len()
        invariant
            k <= l.len(),
            opens == count_char(l@.take(k as int), '{'),
            closes == count_char(l@.take(k as int), '}'),
        decreases l.len() - k,
    {
        proof {
            assert(l@.take(k as int + 1).drop_last() =~= l@.take(k as int));
            lemma_count_le_len(l@.take(k as int), '{');
            lemma_count_le_len(l@.take(k as int), '}');
        }
        if l[k] == '{' {
            opens = opens + 1;
        } else if l[k] == '}' {
            closes = closes + 1;
        }
        k = k + 1;
    }
    assert(l@.take(l.len() as int) =~= l@);
    (opens, closes)
}

/// The body lines of the declaration starting on line `start`, and the number
/// of lines it spans.
fn extract_body(ls: &Vec<Vec<char>>, start: usize) -> (r: (Vec<Vec<char>>, usize))
    requires
        start < ls.len(),
        total_len(views(ls@)) <= usize::MAX,
    ensures
        views(r.0@) == spec_extract_body(views(ls@), start as nat).0,
        r.1 == spec_extract_body(views(ls@), start as nat).1,
{
    let ghost lv = views(ls@);
    let mut depth: i128 = 0;
    let mut found = false;
    let mut body: Vec<Vec<char>> = Vec::new();
    let mut offset: usize = 0;
    assert(views(body@) =~= Seq::<Seq<char>>::empty());
    assert(lv.subrange(start as int, start as int) =~= Seq::<Seq<char>>::empty());
    while offset < ls.len() - start
        invariant
            lv == views(ls@),
            start < ls.len(),
            start + offset <= ls.len(),
            total_len(lv) <= usize::MAX,
            body_scan(lv, start as nat, offset as nat, depth as int, found, views(body@))
                == spec_extract_body(lv, start as nat),
            -2 * total_len(lv.subrange(start as int, start + offset)) <= depth <= 2 * total_len(
                lv.subrange(start as int, start + offset),
            ),
        decreases ls.len() - start - offset,
    {
        let ghost sub_before = lv.subrange(start as int, start + offset);
        proof {
            lemma_total_len_sub(lv, start as int, start + offset + 1);
            lemma_total_len_take(lv, start + offset + 1);
            assert(lv.subrange(start as int, start + offset + 1).drop_last() =~= sub_before);
            lemma_count_le_len(lv[start + offset], '{');
            lemma_count_le_len(lv[start + offset], '}');
        }
        let (opens, closes) = count_braces(&ls[start + offset]);
        depth = depth + opens as i128 - closes as i128;
        found = found || opens > 0;
        if found && offset > 0 {
            let l = subseq(&ls[start + offset], 0, ls[start + offset].len());
            assert(l@ =~= lv[start + offset]);
            let ghost before = body@;
            body.push(l);
            assert(views(body@) =~= views(before).push(l@));
        }
        if found && depth == 0 {
            return (body, offset + 1);
        }
        offset = offset + 1;
    }
    (body, ls.len() - start)
}

/// Whether parsing `source` reads every declaration within its line.
pub fn parse_is_total(source: &str) -> (b: bool)
    ensures
        b == parse_ok(source@),
{
    let chars = chars_of(source);
    let n = chars.len();
    let ls = lines_of(&chars);
    proof {
        lemma_total_len_lines(source@);
    }
    assert(source@.len() == n);
    let mut i: usize = 0;
    while i < ls.len()
        invariant
            views(ls@) == lines(source@),
            total_len(views(ls@)) <= usize::MAX,
            parse_ok_from(views(ls@), i as nat) == parse_ok(source@),
        decreases ls.len() - i,
    {
        let line = trim_chars(&ls[i]);
        let (body, consumed) = extract_body(&ls, i);
        proof {
            lemma_body_scan_bounds(views(ls@), i as nat, 0, 0, false, seq![]);
        }
        if is_decl(&line, "struct") {
            if !check_methods(&body) {
                return false;
            }
            i = i + consumed;
        } else if is_decl(&line, "enum") {
            if !check_cases(&body) {
                return false;
            }
            i = i + consumed;
        } else if is_decl(&line, "class") {
            if !check_methods(&body) {
                return false;
            }
            i = i + consumed;
        } else if is_func(&line) {
            if !check_func_line(&line) {
                return false;
            }
            i = i + 1;
        } else {
            i = i + 1;
        }
    }
    true
}

fn check_func_line(line: &Vec<char>) -> (b: bool)
    ensures
        b == func_line_ok(line@),
{
    let found = find_str(line, "func ");
    proof {
        crate::text::lemma_find_from_bounds(line@, "func "@, 0);
        reveal_strlit("func ");
    }
    let i = match found {
        Some(i) => i,
        None => {
            return true;
        },
    };
    assert(i + 5 <= line.len());
    let after = subseq(line, i + 5, line.len());
    assert(after@ =~= line@.skip(i as int + 5));
    match find_any(&after, "(<") {
        Some(_) => {},
        None => {
            return true;
        },
    }
    let close = rfind_char(&after, ')');
    let open = find_any(&after, "(");
    proof {
        crate::text::lemma_find_in_from_bounds(after@, "("@, 0);
    }
    match open {
        Some(st) => match close {
            Some(e) => {
                assert(param_list_end(after@) == e);
                st < e
            },
            None => true,
        },
        None => true,
    }
}

fn check_case_line(line: &Vec<char>) -> (b: bool)
    ensures
        b == case_ok(line@),
{
    let t = trim_chars(line);
    let rest = match strip_prefix_str(&t, "case ") {
        Some(r) => r,
        None => {
            return true;
        },
    };
    let close = rfind_char(&rest, ')');
    let open = find_any(&rest, "(");
    proof {
        crate::text::lemma_find_in_from_bounds(rest@, "("@, 0);
    }
    match open {
        Some(p) => match close {
            Some(e) => {
                assert(case_list_end(rest@) == e);
                p < e
            },
            None => true,
        },
        None => true,
    }
}

fn check_methods(body: &Vec<Vec<char>>) -> (b: bool)
    ensures
        b == methods_ok(views(body@)),
{
    let mut i: usize = 0;
    while i < body.len()
        invariant
            i <= body.len(),
            forall|j: int|
                0 <= j < i && spec_is_func(trim(views(body@)[j])) ==> func_line_ok(
                    #[trigger] trim(views(body@)[j]),
                ),
        decreases body.len() - i,
    {
        let t = trim_chars(&body[i]);
        assert(t@ == trim(views(body@)[i as int]));
        if is_func(&t) && !check_func_line(&t) {
            return false;
        }
        i = i + 1;
    }
    true
}

fn check_cases(body: &Vec<Vec<char>>) -> (b: bool)
    ensures
        b == cases_ok(views(body@)),
{
    let mut i: usize = 0;
    while i < body.len()
        invariant
            i <= body.len(),
            forall|j: int| 0 <= j < i ==> case_ok(#[trigger] views(body@)[j]),
        decreases body.len() - i,
    {
        assert(views(body@)[i as int] == body@[i as int]@);
        if !check_case_line(&body[i]) {
            return false;
        }
        i = i + 1;
    }
    true
}

/// Parse a Swift source string into a `SwiftFile` IR.
///
/// Requires that every declaration can be read within its line (see
/// [`parse_is_total`]).
pub fn parse(source: &str) -> (f: SwiftFile)
    requires
        parse_ok(source@),
    ensures
        f@ == spec_parse(source@),
{
    let chars = chars_of(source);
    let n = chars.len();
    let ls = lines_of(&chars);
    proof {
        lemma_total_len_lines(source@);
    }
    assert(source@.len() == n);
    let mut file = SwiftFile::default();
    let mut i: usize = 0;
    while i < ls.len()
        invariant
            views(ls@) == lines(source@),
            total_len(views(ls@)) <= usize::MAX,
            parse_from(views(ls@), i as nat, file@) == spec_parse(source@),
            parse_ok_from(views(ls@), i as nat),
        decreases ls.len() - i,
    {
        let ghost lv = views(ls@);
        let line = trim_chars(&ls[i]);
        assert(line@ == trim(lv[i as int]));
        proof {
            lemma_body_scan_bounds(lv, i as nat, 0, 0, false, seq![]);
        }
        if is_decl(&line, "struct") {
            let (body, consumed) = extract_body(&ls, i);
            let name = extract_name(&line, "struct");
            let fields = parse_fields(&body);
            let base = find_body_first(&ls, i);
            proof {
                lemma_body_first_bounds(lv, i as nat);
            }
            let methods = parse_methods(&body, base);
            let s = SwiftStruct { name: string_of(&name), fields, methods, line: i + 1 };
            assert(s@ == struct_at(lv, i as nat));
            let ghost before = file.structs@;
            file.structs.push(s);
            assert(struct_views(file.structs@) =~= struct_views(before).push(s@));
            i = i + consumed;
        } else if is_decl(&line, "enum") {
            let (body, consumed) = extract_body(&ls, i);
            let name = extract_name(&line, "enum");
            let cases = parse_enum_cases(&body);
            let e = SwiftEnum { name: string_of(&name), cases, line: i + 1 };
            assert(e@ == enum_at(lv, i as nat));
            let ghost before = file.enums@;
            file.enums.push(e);
            assert(enum_views(file.enums@) =~= enum_views(before).push(e@));
            i = i + consumed;
        } else if is_decl(&line, "class") {
            let (body, consumed) = extract_body(&ls, i);
            let name = extract_name(&line, "class");
            let superclass = extract_superclass(&line);
            let fields = parse_fields(&body);
            let base = find_body_first(&ls, i);
            proof {
                lemma_body_first_bounds(lv, i as nat);
            }
            let methods = parse_methods(&body, base);
            let has_deinit = find_deinit(&body);
            let c = SwiftClass {
                name: string_of(&name),
                superclass,
                fields,
                methods,
                has_deinit,
                line: i + 1,
            };
            assert(c@ == class_at(lv, i as nat));
            let ghost before = file.classes@;
            file.classes.push(c);
            assert(class_views(file.classes@) =~= class_views(before).push(c@));
            i = i + consumed;
        } else if is_func(&line) {
            match parse_func_line(&line, i + 1) {
                Some(f) => {
                    let ghost before = file.funcs@;
                    file.funcs.push(f);
                    assert(func_views(file.funcs@) =~= func_views(before).push(f@));
                },
                None => {},
            }
            i = i + 1;
        } else {
            i = i + 1;
        }
    }
    file
}

// ── Rust types and signatures of IR items ──────────────────────────────────

/// The Rust type for a Swift type, wrapped in `Option<…>` when optional.
pub open spec fn spec_rust_type(swift_type: Seq<char>, optional: bool) -> Option<Seq<char>> {
    match spec_swift_to_rust(swift_type) {
        Some(b) => Some(
            if optional {
                spec_make_optional(b)
            } else {
                b
            },
        ),
        None => None,
    }
}

/// The Rust argument `name: Type` for a parameter.
pub open spec fn spec_rust_arg(p: ParamView) -> Option<Seq<char>> {
    match spec_rust_type(p.swift_type, p.optional) {
        Some(t) => Some(p.name + ": "@ + t),
        None => None,
    }
}

/// The Rust arguments of the parameters that have one, in order.
pub open spec fn rust_args(ps: Seq<ParamView>) -> Seq<Seq<char>>
    decreases ps.len(),
{
    if ps.len() == 0 {
        seq![]
    } else {
        let prev = rust_args(ps.drop_last());
        match spec_rust_arg(ps.last()) {
            Some(a) => prev.push(a),
            None => prev,
        }
    }
}

/// The Rust return type for a Swift return type.
pub open spec fn rust_return(ret: Seq<char>) -> Seq<char> {
    match spec_swift_to_rust(ret) {
        Some(r) => r,
        None => "() /* UNMAPPED */"@,
    }
}

/// The Rust signature of a function: `pub fn name(args) -> Ret`.
pub open spec fn spec_rust_signature(f: FuncView) -> Seq<char> {
    "pub fn "@ + f.name + "("@ + join(rust_args(f.params), ", "@) + ") "@ + (if f.is_throws {
        "/* throws */ "@
    } else {
        ""@
    }) + "-> "@ + rust_return(f.return_type)
}

/// The Rust type for a Swift type, wrapped in `Option<…>` when optional.
fn rust_type_of(swift_type: &String, optional: bool) -> (r: Option<String>)
    ensures
        opt_string_view(r) == spec_rust_type(swift_type@, optional),
{
    match swift_to_rust(swift_type.as_str()) {
        Some(b) => {
            if optional {
                Some(make_optional(b.as_str()))
            } else {
                Some(b)
            }
        },
        None => None,
    }
}

impl SwiftField {
    /// Map this field to its Rust type string.
    /// Returns `None` when the Swift type has no Tier 1 mapping.
    pub fn rust_type(&self) -> (r: Option<String>)
        ensures
            opt_string_view(r) == spec_rust_type(self@.swift_type, self@.optional),
    {
        rust_type_of(&self.swift_type, self.optional)
    }
}

impl SwiftParam {
    /// Map this parameter to its Rust type string.
    /// Returns `None` when the Swift type has no Tier 1 mapping.
    pub fn rust_type(&self) -> (r: Option<String>)
        ensures
            opt_string_view(r) == spec_rust_type(self@.swift_type, self@.optional),
    {
        rust_type_of(&self.swift_type, self.optional)
    }

    /// Rust function argument: `name: RustType`
    pub fn as_rust_arg(&self) -> (r: Option<String>)
        ensures
            opt_string_view(r) == spec_rust_arg(self@),
    {
        match self.rust_type() {
            Some(t) => {
                let mut a = String::from_str(self.name.as_str());
                a.append(": ");
                a.append(t.as_str());
                Some(a)
            },
            None => None,
        }
    }
}

impl SwiftFunc {
    /// Rust function signature string (without body).
    pub fn rust_signature(&self) -> (r: String)
        ensures
            r@ == spec_rust_signature(self@),
    {
        let mut args: Vec<Vec<char>> = Vec::new();
        let mut i: usize = 0;
        assert(views(args@) =~= rust_args(param_views(self.params@).take(0)));
        while i < self.params.len()
            invariant
                i <= self.params.len(),
                views(args@) == rust_args(param_views(self.params@).take(i as int)),
            decreases self.params.len() - i,
        {
            let ghost pv = param_views(self.params@);
            assert(pv.take(i as int + 1).drop_last() =~= pv.take(i as int));
            assert(pv.take(i as int + 1).last() == self.params@[i as int]@);
            match self.params[i].as_rust_arg() {
                Some(a) => {
                    let ghost before = args@;
                    let av = chars_of(a.as_str());
                    args.push(av);
                    assert(views(args@) =~= views(before).push(a@));
                },
                None => {},
            }
            i = i + 1;
        }
        assert(param_views(self.params@).take(self.params.len() as int) =~= param_views(
            self.params@,
        ));
        let joined = join_chars(&args, ", ");
        let mut r = String::from_str("pub fn ");
        r.append(self.name.as_str());
        r.append("(");
        push_chars(&mut r, &joined);
        r.append(") ");
        if self.is_throws {
            r.append("/* throws */ ");
        } else {
            r.append("");
        }
        r.append("-> ");
        match swift_to_rust(self.return_type.as_str()) {
            Some(ret) => r.append(ret.as_str()),
            None => r.append("() /* UNMAPPED */"),
        }
        r
    }
}

// ── Laws ───────────────────────────────────────────────────────────────────

/// Line numbers that count from 1, stay within `hi`, and strictly increase.
pub open spec fn ordered_lines(ns: Seq<usize>, hi: int) -> bool {
    &&& forall|j: int| 0 <= j < ns.len() ==> 1 <= #[trigger] ns[j] <= hi
    &&& forall|j: int, k: int| 0 <= j < k < ns.len() ==> #[trigger] ns[j] < #[trigger] ns[k]
}

pub open spec fn struct_lines(v: Seq<StructView>) -> Seq<usize> {
    v.map_values(|x: StructView| x.line)
}

pub open spec fn enum_lines(v: Seq<EnumView>) -> Seq<usize> {
    v.map_values(|x: EnumView| x.line)
}

pub open spec fn class_lines(v: Seq<ClassDeclView>) -> Seq<usize> {
    v.map_values(|x: ClassDeclView| x.line)
}

pub open spec fn func_lines(v: Seq<FuncView>) -> Seq<usize> {
    v.map_values(|x: FuncView| x.line)
}

/// The declarations of each kind are numbered from 1, within `hi`, in
/// source order.
pub open spec fn file_ordered(f: FileView, hi: int) -> bool {
    &&& ordered_lines(struct_lines(f.structs), hi)
    &&& ordered_lines(enum_lines(f.enums), hi)
    &&& ordered_lines(class_lines(f.classes), hi)
    &&& ordered_lines(func_lines(f.funcs), hi)
}

proof fn lemma_ordered_push(ns: Seq<usize>, hi: int, n: usize, hi2: int)
    requires
        ordered_lines(ns, hi),
        0 <= hi < n <= hi2,
    ensures
        ordered_lines(ns.push(n), hi2),
{
    assert forall|j: int, k: int| 0 <= j < k < ns.push(n).len() implies #[trigger] ns.push(n)[j]
        < #[trigger] ns.push(n)[k] by {
        if k < ns.len() {
            assert(ns.push(n)[j] == ns[j]);
            assert(ns.push(n)[k] == ns[k]);
        } else {
            assert(ns.push(n)[j] == ns[j]);
        }
    }
    assert forall|j: int| 0 <= j < ns.push(n).len() implies 1 <= #[trigger] ns.push(n)[j] <= hi2 by {
        if j < ns.len() {
            assert(ns.push(n)[j] == ns[j]);
        }
    }
}

proof fn lemma_file_widen(f: FileView, hi: int, hi2: int)
    requires
        file_ordered(f, hi),
        hi <= hi2,
    ensures
        file_ordered(f, hi2),
{
}

proof fn lemma_parse_from_ordered(ls: Seq<Seq<char>>, i: nat, acc: FileView)
    requires
        i <= ls.len(),
        ls.len() <= usize::MAX,
        file_ordered(acc, i as int),
    ensures
        file_ordered(parse_from(ls, i, acc), ls.len() as int),
    decreases ls.len() - i,
{
    if i < ls.len() {
        let line = trim(ls[i as int]);
        let consumed = spec_extract_body(ls, i).1;
        lemma_body_scan_bounds(ls, i, 0, 0, false, seq![]);
        let n = (i + 1) as usize;
        if spec_is_decl(line, "struct"@) {
            let next = FileView { structs: acc.structs.push(struct_at(ls, i)), ..acc };
            assert(struct_lines(next.structs) =~= struct_lines(acc.structs).push(n));
            lemma_ordered_push(struct_lines(acc.structs), i as int, n, (i + consumed) as int);
            lemma_file_widen(acc, i as int, (i + consumed) as int);
            lemma_parse_from_ordered(ls, i + consumed, next);
        } else if spec_is_decl(line, "enum"@) {
            let next = FileView { enums: acc.enums.push(enum_at(ls, i)), ..acc };
            assert(enum_lines(next.enums) =~= enum_lines(acc.enums).push(n));
            lemma_ordered_push(enum_lines(acc.enums), i as int, n, (i + consumed) as int);
            lemma_file_widen(acc, i as int, (i + consumed) as int);
            lemma_parse_from_ordered(ls, i + consumed, next);
        } else if spec_is_decl(line, "class"@) {
            let next = FileView { classes: acc.classes.push(class_at(ls, i)), ..acc };
            assert(class_lines(next.classes) =~= class_lines(acc.classes).push(n));
            lemma_ordered_push(class_lines(acc.classes), i as int, n, (i + consumed) as int);
            lemma_file_widen(acc, i as int, (i + consumed) as int);
            lemma_parse_from_ordered(ls, i + consumed, next);
        } else if spec_is_func(line) {
            lemma_file_widen(acc, i as int, i as int + 1);
            match spec_func_line(line, n) {
                Some(f) => {
                    let next = FileView { funcs: acc.funcs.push(f), ..acc };
                    assert(func_lines(next.funcs) =~= func_lines(acc.funcs).push(n));
                    lemma_ordered_push(func_lines(acc.funcs), i as int, n, i as int + 1);
                    lemma_parse_from_ordered(ls, i + 1, next);
                },
                None => {
                    lemma_parse_from_ordered(ls, i + 1, acc);
                },
            }
        } else {
            lemma_file_widen(acc, i as int, i as int + 1);
            lemma_parse_from_ordered(ls, i + 1, acc);
        }
    }
}

/// The lines of a text are no more than its characters.
pub proof fn lemma_lines_count(s: Seq<char>)
    ensures
        lines(s).len() <= s.len(),
    decreases s.len(),
{
    if s.len() > 0 {
        crate::text::lemma_find_in_from_bounds(s, seq!['\n'], 0);
        match find_in(s, seq!['\n']) {
            Some(i) => {
                if i < s.len() {
                    lemma_lines_count(s.skip(i as int + 1));
                }
            },
            None => {},
        }
    }
}

/// Parsing keeps source order and numbers lines from 1: within each kind of
/// declaration (structs, enums, classes, free functions) the recorded lines
/// count from 1, do not pass the last line of the source, and strictly
/// increase in the order the declarations are listed.
pub proof fn law_parse_source_order(source: Seq<char>)
    requires
        source.len() <= usize::MAX,
    ensures
        file_ordered(spec_parse(source), lines(source).len() as int),
{
    lemma_lines_count(source);
    let e = empty_file();
    assert(struct_lines(e.structs) =~= Seq::<usize>::empty());
    assert(enum_lines(e.enums) =~= Seq::<usize>::empty());
    assert(class_lines(e.classes) =~= Seq::<usize>::empty());
    assert(func_lines(e.funcs) =~= Seq::<usize>::empty());
    lemma_parse_from_ordered(lines(source), 0, e);
}

/// Names are never empty: a struct, enum or class with no identifier after
/// its keyword, and a field, enum case or function whose name cannot be read,
/// is named `Unknown`.
pub proof fn law_names_nonempty(line: Seq<char>, kw: Seq<char>, line_num: usize)
    ensures
        decl_ident(line, kw).len() > 0,
        parse_field(line) matches Some(f) ==> f.name.len() > 0,
        spec_func_line(line, line_num) matches Some(f) ==> f.name.len() > 0,
        case_piece(line) matches Some(c) ==> c.name.len() > 0,
{
    reveal_strlit("Unknown");
    if find_in(line, "("@) is None {
        let ws = words(line);
        if ws.len() > 0 {
            let t = crate::text::trim_start(line);
            if 0 < crate::text::word_len(t) <= t.len() {
                assert(ws[0] == t.take(crate::text::word_len(t) as int));
            }
        }
    }
}

/// A field's Swift type never ends with `?`: optionality is kept in the
/// `optional` flag alone.
pub proof fn law_field_type_unmarked(line: Seq<char>)
    ensures
        parse_field(line) matches Some(f) ==> !ends_with(f.swift_type, "?"@),
{
    let t = spec_strip_access(trim(line));
    let rest = t.skip(4);
    match find_in(rest, ":"@) {
        Some(c) => {
            let type_part = trim(rest.skip(c as int + 1));
            crate::text::lemma_trim_end_opt_unmarked(trim(before_any(type_part, "="@)));
        },
        None => {},
    }
}

/// A parameter's Swift type never ends with `?`.
pub proof fn law_param_type_unmarked(piece: Seq<char>)
    ensures
        parse_param(piece) matches Some(p) ==> !ends_with(p.swift_type, "?"@),
{
    let p = trim(piece);
    match find_in(p, ":"@) {
        Some(c) => {
            let rhs = trim(p.skip(c as int + 1));
            crate::text::lemma_trim_end_opt_unmarked(trim(before_any(rhs, "="@)));
        },
        None => {},
    }
}

/// A function gets the return type `Void` when no `-> ` follows its
/// parameter list, and in particular when its line has no `-> ` at all.
pub proof fn law_missing_return_type_is_void(line: Seq<char>, line_num: usize)
    ensures
        spec_func_line(line, line_num) matches Some(f) ==> (!contains(
            ret_tail(line.skip(find(line, "func "@).unwrap() as int + 5)),
            "-> "@,
        ) ==> f.return_type == "Void"@),
        spec_func_line(line, line_num) matches Some(f) ==> (!contains(line, "-> "@)
            ==> f.return_type == "Void"@),
{
    if let Some(i) = find(line, "func "@) {
        crate::text::lemma_find_from_bounds(line, "func "@, 0);
        reveal_strlit("func ");
        let after = line.skip(i as int + 5);
        let t = ret_tail(after);
        if contains(t, "-> "@) {
            match find_in(after, "("@) {
                Some(st) => match paren_close(after, st, 0) {
                    Some(e) => {
                        lemma_paren_close_bounds(after, st, 0);
                        crate::text::lemma_contains_suffix(after, "-> "@, e as int + 1);
                    },
                    None => {},
                },
                None => {},
            }
            assert(after =~= line.skip(i as int + 5));
            crate::text::lemma_contains_suffix(line, "-> "@, i as int + 5);
        }
    }
}

proof fn lemma_paren_close_bounds(s: Seq<char>, i: nat, depth: nat)
    ensures
        paren_close(s, i, depth) matches Some(e) ==> i <= e < s.len(),
    decreases s.len() - i,
{
    if i < s.len() {
        if s[i as int] == '(' {
            lemma_paren_close_bounds(s, i + 1, depth + 1);
        } else if s[i as int] == ')' {
            if depth != 1 {
                lemma_paren_close_bounds(s, i + 1, if depth > 0 { (depth - 1) as nat } else { 0 });
            }
        } else {
            lemma_paren_close_bounds(s, i + 1, depth);
        }
    }
}

/// Line numbers that lie in `(lo, hi]` and strictly increase.
pub open spec fn lines_within(ns: Seq<usize>, lo: int, hi: int) -> bool {
    &&& forall|j: int| 0 <= j < ns.len() ==> lo < #[trigger] ns[j] <= hi
    &&& forall|j: int, k: int| 0 <= j < k < ns.len() ==> #[trigger] ns[j] < #[trigger] ns[k]
}

/// Methods of a body that follows source line `base` are numbered by their
/// source lines: after `base`, within the body, and in order.
pub proof fn law_methods_numbered(body: Seq<Seq<char>>, base: nat)
    requires
        base + body.len() <= usize::MAX,
    ensures
        lines_within(func_lines(methods_of(body, base)), base as int, (base + body.len()) as int),
    decreases body.len(),
{
    if body.len() == 0 {
        assert(func_lines(methods_of(body, base)) =~= Seq::<usize>::empty());
    } else {
        let prev = methods_of(body.drop_last(), base);
        law_methods_numbered(body.drop_last(), base);
        let t = trim(body.last());
        let n = (base + body.len()) as usize;
        if spec_is_func(t) {
            match spec_func_line(t, n) {
                Some(f) => {
                    let ns = func_lines(prev);
                    assert(func_lines(prev.push(f)) =~= ns.push(n));
                    assert forall|j: int, k: int|
                        0 <= j < k < ns.push(n).len() implies #[trigger] ns.push(n)[j]
                        < #[trigger] ns.push(n)[k] by {
                        assert(ns.push(n)[j] == ns[j]);
                        if k < ns.len() {
                            assert(ns.push(n)[k] == ns[k]);
                        }
                    }
                    assert forall|j: int| 0 <= j < ns.push(n).len() implies base < #[trigger] ns.push(
                        n,
                    )[j] <= base + body.len() by {
                        if j < ns.len() {
                            assert(ns.push(n)[j] == ns[j]);
                        }
                    }
                },
                None => {},
            }
        }
    }
}

/// The methods of a struct or class come after its declaration line and
/// within the source, in source order.
pub proof fn law_member_lines_in_source(ls: Seq<Seq<char>>, i: nat)
    requires
        i < ls.len() <= usize::MAX,
    ensures
        lines_within(func_lines(class_at(ls, i).methods), (i + 1) as int, ls.len() as int),
        lines_within(func_lines(struct_at(ls, i).methods), (i + 1) as int, ls.len() as int),
{
    let body = spec_extract_body(ls, i).0;
    let bf = body_first(ls, i);
    lemma_body_first_bounds(ls, i);
    law_methods_numbered(body, bf);
    let ns = func_lines(methods_of(body, bf));
    assert forall|j: int| 0 <= j < ns.len() implies i + 1 < #[trigger] ns[j] <= ls.len() by {}
}

/// An empty source parses to the file with no declarations.
pub proof fn law_parse_empty()
    ensures
        spec_parse(Seq::<char>::empty()) == empty_file(),
        parse_ok(Seq::<char>::empty()),
{
}

proof fn lemma_method_kept(body: Seq<Seq<char>>, base: nat, i: int, f: FuncView)
    requires
        0 <= i < body.len(),
        spec_is_func(trim(body[i])),
        spec_func_line(trim(body[i]), (base + i + 1) as usize) == Some(f),
    ensures
        methods_of(body, base).contains(f),
    decreases body.len(),
{
    let prev = methods_of(body.drop_last(), base);
    if i == body.len() - 1 {
        assert(methods_of(body, base) == prev.push(f));
        assert(prev.push(f)[prev.len() as int] == f);
    } else {
        assert(body.drop_last()[i] == body[i]);
        lemma_method_kept(body.drop_last(), base, i, f);
        let j = choose|j: int| 0 <= j < prev.len() && prev[j] == f;
        let t = trim(body.last());
        if spec_is_func(t) {
            if let Some(g) = spec_func_line(t, (base + body.len()) as usize) {
                assert(prev.push(g)[j] == f);
            }
        }
    }
}

/// A `mutating func` line in the body of a struct or class (after at most one
/// access modifier) is kept as a method of that declaration, with its source
/// line, wherever the function line can be read.
pub proof fn law_mutating_methods_kept(body: Seq<Seq<char>>, base: nat, i: int, f: FuncView)
    requires
        0 <= i < body.len(),
        base + body.len() <= usize::MAX,
        starts_with(spec_strip_access(trim(body[i])), "mutating func "@),
        spec_func_line(trim(body[i]), (base + i + 1) as usize) == Some(f),
    ensures
        methods_of(body, base).contains(f),
        f.line == base + i + 1,
{
    lemma_method_kept(body, base, i, f);
}

} // verus!
