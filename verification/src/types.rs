//! Swift → Rust type mapping table.
//!
//! Maps Swift primitive and common standard-library type names to their Rust
//! equivalents, the reference used by the Tier 1 code generator.
use vstd::prelude::*;
use crate::text::{chars_of, eq_str, subseq, trim, trim_chars, trim_start};

verus! {

/// The Rust type that the Swift type named exactly `t` maps to, if it is a
/// primitive or `Void`.
pub open spec fn rust_type_of(t: Seq<char>) -> Option<Seq<char>> {
    if t == "Int"@ {
        Some("i64"@)
    } else if t == "Int8"@ {
        Some("i8"@)
    } else if t == "Int16"@ {
        Some("i16"@)
    } else if t == "Int32"@ {
        Some("i32"@)
    } else if t == "Int64"@ {
        Some("i64"@)
    } else if t == "UInt"@ {
        Some("u64"@)
    } else if t == "UInt8"@ {
        Some("u8"@)
    } else if t == "UInt16"@ {
        Some("u16"@)
    } else if t == "UInt32"@ {
        Some("u32"@)
    } else if t == "UInt64"@ {
        Some("u64"@)
    } else if t == "Float"@ {
        Some("f32"@)
    } else if t == "Double"@ {
        Some("f64"@)
    } else if t == "Bool"@ {
        Some("bool"@)
    } else if t == "String"@ {
        Some("String"@)
    } else if t == "Character"@ {
        Some("char"@)
    } else if t == "Void"@ || t == "()"@ || t == ""@ {
        Some("()"@)
    } else {
        None
    }
}

/// The first `:` of `s` at or after `i` that stands outside square brackets,
/// `depth` brackets being open before `i`.
pub open spec fn colon_at(s: Seq<char>, i: nat, depth: nat) -> Option<nat>
    decreases s.len() - i,
{
    if i >= s.len() {
        None
    } else if s[i as int] == '[' {
        colon_at(s, i + 1, depth + 1)
    } else if s[i as int] == ']' {
        colon_at(
            s,
            i + 1,
            if depth > 0 {
                (depth - 1) as nat
            } else {
                0
            },
        )
    } else if s[i as int] == ':' && depth == 0 {
        Some(i)
    } else {
        colon_at(s, i + 1, depth)
    }
}

/// Wraps a mapped element type as a `Vec`, when it maps to a value type.
pub open spec fn vec_of(r: Option<Seq<char>>) -> Option<Seq<char>> {
    match r {
        Some(e) => if e != "()"@ {
            Some("Vec<"@ + e + ">"@)
        } else {
            None
        },
        None => None,
    }
}

/// Combines mapped key and value types as a `HashMap`, when both map to value
/// types.
pub open spec fn map_of(k: Option<Seq<char>>, v: Option<Seq<char>>) -> Option<Seq<char>> {
    match (k, v) {
        (Some(a), Some(b)) => if a != "()"@ && b != "()"@ {
            Some("HashMap<"@ + a + ", "@ + b + ">"@)
        } else {
            None
        },
        _ => None,
    }
}

/// The Rust type for a Swift type as written in source, surrounding
/// whitespace ignored: a primitive by the table, `[T]` as `Vec<T>` and
/// `[K: V]` as `HashMap<K, V>` for mapped `T`, `K` and `V`.
pub open spec fn spec_swift_to_rust(swift_type: Seq<char>) -> Option<Seq<char>>
    decreases swift_type.len(),
{
    let t = trim(swift_type);
    if rust_type_of(t) is Some {
        rust_type_of(t)
    } else if t.len() >= 2 && t[0] == '[' && t.last() == ']' {
        proof {
            crate::text::lemma_trim_start_len(swift_type);
            crate::text::lemma_trim_end_shape(trim_start(swift_type));
        }
        let inner = t.subrange(1, t.len() - 1);
        match colon_at(inner, 0, 0) {
            Some(c) => if c < inner.len() {
                map_of(
                    spec_swift_to_rust(inner.take(c as int)),
                    spec_swift_to_rust(inner.skip(c as int + 1)),
                )
            } else {
                None
            },
            None => vec_of(spec_swift_to_rust(inner)),
        }
    } else {
        None
    }
}

/// `Option<T>` around the Rust type `t`.
pub open spec fn spec_make_optional(t: Seq<char>) -> Seq<char> {
    "Option<"@ + t + ">"@
}

/// The view of an optional string slice.
pub open spec fn opt_str_view(o: Option<&str>) -> Option<Seq<char>> {
    match o {
        Some(s) => Some(s@),
        None => None,
    }
}

/// The view of an optional `String`.
pub open spec fn opt_string_view(o: Option<String>) -> Option<Seq<char>> {
    match o {
        Some(s) => Some(s@),
        None => None,
    }
}

/// Map a Swift type name (as it appears in source) to the equivalent Rust type.
///
/// Returns `None` when the type has no direct Tier 1 mapping and must be
/// handled by a higher tier or emitted as a diagnostic.
pub fn swift_to_rust(swift_type: &str) -> (r: Option<String>)
    ensures
        opt_string_view(r) == spec_swift_to_rust(swift_type@),
{
    map_type(&chars_of(swift_type))
}

fn find_colon(s: &Vec<char>) -> (r: Option<usize>)
    ensures
        match r {
            Some(c) => colon_at(s@, 0, 0) == Some(c as nat),
            None => colon_at(s@, 0, 0) is None,
        },
{
    let mut i: usize = 0;
    let mut depth: usize = 0;
    while i < s.len()
        invariant
            i <= s.len(),
            depth <= i,
            colon_at(s@, 0, 0) == colon_at(s@, i as nat, depth as nat),
        decreases s.len() - i,
    {
        let c = s[i];
        if c == '[' {
            depth = depth + 1;
        } else if c == ']' {
            if depth > 0 {
                depth = depth - 1;
            }
        } else if c == ':' && depth == 0 {
            return Some(i);
        }
        i = i + 1;
    }
    None
}

fn is_unit(r: &String) -> (b: bool)
    ensures
        b == (r@ == "()"@),
{
    eq_str(&chars_of(r.as_str()), "()")
}

/// The Rust type for the Swift type written in `s`.
fn map_type(s: &Vec<char>) -> (r: Option<String>)
    ensures
        opt_string_view(r) == spec_swift_to_rust(s@),
    decreases s.len(),
{
    let t = trim_chars(s);
    if let Some(b) = rust_type_of_chars(&t) {
        return Some(String::from_str(b));
    }
    if t.len() >= 2 && t[0] == '[' && t[t.len() - 1] == ']' {
        proof {
            crate::text::lemma_trim_start_len(s@);
            crate::text::lemma_trim_end_shape(trim_start(s@));
        }
        let inner = subseq(&t, 1, t.len() - 1);
        assert(inner@ =~= t@.subrange(1, t@.len() - 1));
        match find_colon(&inner) {
            Some(c) => {
                if c < inner.len() {
                    let k = subseq(&inner, 0, c);
                    assert(k@ =~= inner@.take(c as int));
                    let v = subseq(&inner, c + 1, inner.len());
                    assert(v@ =~= inner@.skip(c as int + 1));
                    let rk = map_type(&k);
                    let rv = map_type(&v);
                    match (rk, rv) {
                        (Some(a), Some(b)) => {
                            if !is_unit(&a) && !is_unit(&b) {
                                let mut r = String::from_str("HashMap<");
                                r.append(a.as_str());
                                r.append(", ");
                                r.append(b.as_str());
                                r.append(">");
                                Some(r)
                            } else {
                                None
                            }
                        },
                        _ => None,
                    }
                } else {
                    None
                }
            },
            None => {
                match map_type(&inner) {
                    Some(e) => {
                        if !is_unit(&e) {
                            let mut r = String::from_str("Vec<");
                            r.append(e.as_str());
                            r.append(">");
                            Some(r)
                        } else {
                            None
                        }
                    },
                    None => None,
                }
            },
        }
    } else {
        None
    }
}

/// Looks up the exact type name held in `t`.
fn rust_type_of_chars(t: &Vec<char>) -> (r: Option<&'static str>)
    ensures
        opt_str_view(r) == rust_type_of(t@),
{
    if eq_str(t, "Int") {
        Some("i64")
    } else if eq_str(t, "Int8") {
        Some("i8")
    } else if eq_str(t, "Int16") {
        Some("i16")
    } else if eq_str(t, "Int32") {
        Some("i32")
    } else if eq_str(t, "Int64") {
        Some("i64")
    } else if eq_str(t, "UInt") {
        Some("u64")
    } else if eq_str(t, "UInt8") {
        Some("u8")
    } else if eq_str(t, "UInt16") {
        Some("u16")
    } else if eq_str(t, "UInt32") {
        Some("u32")
    } else if eq_str(t, "UInt64") {
        Some("u64")
    } else if eq_str(t, "Float") {
        Some("f32")
    } else if eq_str(t, "Double") {
        Some("f64")
    } else if eq_str(t, "Bool") {
        Some("bool")
    } else if eq_str(t, "String") {
        Some("String")
    } else if eq_str(t, "Character") {
        Some("char")
    } else if eq_str(t, "Void") || eq_str(t, "()") || eq_str(t, "") {
        Some("()")
    } else {
        None
    }
}

/// Wrap a Rust type in `Option<T>` to represent Swift's `T?` optional.
pub fn make_optional(rust_type: &str) -> (r: String)
    ensures
        r@ == spec_make_optional(rust_type@),
{
    let mut r = String::new();
    r.append("Option<");
    r.append(rust_type);
    r.append(">");
    r
}

/// Map an optional Swift type `T?` to `Option<RustT>`.
/// Returns `None` when the inner type has no Tier 1 mapping.
pub fn swift_optional_to_rust(inner: &str) -> (r: Option<String>)
    ensures
        opt_string_view(r) == match spec_swift_to_rust(inner@) {
            Some(t) => Some(spec_make_optional(t)),
            None => None,
        },
{
    match swift_to_rust(inner) {
        Some(t) => Some(make_optional(t.as_str())),
        None => None,
    }
}

/// A bracketed type never names a primitive of the table.
proof fn lemma_bracketed_not_primitive(s: Seq<char>)
    requires
        s.len() >= 2,
        s[0] == '[',
    ensures
        rust_type_of(s) is None,
{
    reveal_strlit("Int");
    reveal_strlit("Int8");
    reveal_strlit("Int16");
    reveal_strlit("Int32");
    reveal_strlit("Int64");
    reveal_strlit("UInt");
    reveal_strlit("UInt8");
    reveal_strlit("UInt16");
    reveal_strlit("UInt32");
    reveal_strlit("UInt64");
    reveal_strlit("Float");
    reveal_strlit("Double");
    reveal_strlit("Bool");
    reveal_strlit("String");
    reveal_strlit("Character");
    reveal_strlit("Void");
    reveal_strlit("()");
    reveal_strlit("");
}

/// The array rule: where the Swift type `t` (with no `:` outside brackets)
/// maps to a Rust type other than `()`, the array type `[t]` maps to a `Vec`
/// of it.
pub proof fn law_array_maps_to_vec(t: Seq<char>, r: Seq<char>)
    requires
        colon_at(t, 0, 0) is None,
        spec_swift_to_rust(t) == Some(r),
        r != "()"@,
    ensures
        spec_swift_to_rust(seq!['['] + t + seq![']']) == Some("Vec<"@ + r + ">"@),
{
    let s = seq!['['] + t + seq![']'];
    assert(s[0] == '[');
    assert(s[s.len() - 1] == ']');
    crate::text::lemma_trim_start_skip(s, 0);
    assert(s.skip(0) =~= s);
    crate::text::lemma_trim_end_take(s, s.len() as int);
    assert(s.take(s.len() as int) =~= s);
    assert(trim(s) == s);
    lemma_bracketed_not_primitive(s);
    assert(s.subrange(1, s.len() - 1) =~= t);
}

} // verus!
