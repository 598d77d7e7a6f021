//! Character-level text primitives.
//!
//! Every routine here works on `Vec<char>` buffers and is specified over
//! `Seq<char>`, so the parsing and emission code above it can be stated and
//! proved over sequences of characters.
use vstd::prelude::*;

verus! {

// ── Specifications ─────────────────────────────────────────────────────────

/// Unicode `White_Space` code points (the set behind `char::is_whitespace`).
pub open spec fn is_ws(c: char) -> bool {
    let u = c as u32;
    ||| 0x09 <= u <= 0x0d
    ||| u == 0x20
    ||| u == 0x85
    ||| u == 0xa0
    ||| u == 0x1680
    ||| 0x2000 <= u <= 0x200a
    ||| u == 0x2028
    ||| u == 0x2029
    ||| u == 0x202f
    ||| u == 0x205f
    ||| u == 0x3000
}

/// What `char::is_alphanumeric` answers for `c` (Unicode Alphabetic or Numeric).
pub uninterp spec fn alphanumeric(c: char) -> bool;

/// What `str::to_lowercase` returns for a string.
pub uninterp spec fn lowercase(s: Seq<char>) -> Seq<char>;

/// An ASCII letter or digit.
pub open spec fn ascii_alnum(c: char) -> bool {
    ||| ('a' <= c && c <= 'z')
    ||| ('A' <= c && c <= 'Z')
    ||| ('0' <= c && c <= '9')
}

/// Whether every character of `s` is ASCII.
pub open spec fn all_ascii(s: Seq<char>) -> bool {
    forall|i: int| 0 <= i < s.len() ==> (#[trigger] s[i] as u32) < 128
}

/// The ASCII lower-case form of `c`: `A`–`Z` become `a`–`z`, all else stays.
pub open spec fn ascii_lower(c: char) -> char {
    if 'A' <= c && c <= 'Z' {
        ((c as u32) + 32) as char
    } else {
        c
    }
}

/// A character that may continue a Swift identifier.
pub open spec fn ident_char(c: char) -> bool {
    alphanumeric(c) || c == '_'
}

/// `s` with its leading whitespace removed.
pub open spec fn trim_start(s: Seq<char>) -> Seq<char>
    decreases s.len(),
{
    if s.len() > 0 && is_ws(s[0]) {
        trim_start(s.drop_first())
    } else {
        s
    }
}

/// `s` with its trailing whitespace removed.
pub open spec fn trim_end(s: Seq<char>) -> Seq<char>
    decreases s.len(),
{
    if s.len() > 0 && is_ws(s.last()) {
        trim_end(s.drop_last())
    } else {
        s
    }
}

/// `s` with leading and trailing whitespace removed.
pub open spec fn trim(s: Seq<char>) -> Seq<char> {
    trim_end(trim_start(s))
}

pub open spec fn starts_with(s: Seq<char>, p: Seq<char>) -> bool {
    p.len() <= s.len() && s.take(p.len() as int) == p
}

pub open spec fn ends_with(s: Seq<char>, p: Seq<char>) -> bool {
    p.len() <= s.len() && s.skip(s.len() - p.len()) == p
}

/// `s` without the prefix `p`, when `s` starts with `p`.
pub open spec fn strip_prefix(s: Seq<char>, p: Seq<char>) -> Option<Seq<char>> {
    if starts_with(s, p) {
        Some(s.skip(p.len() as int))
    } else {
        None
    }
}

/// Index of the leftmost occurrence of `p` in `s` at or after `i`.
pub open spec fn find_from(s: Seq<char>, p: Seq<char>, i: nat) -> Option<nat>
    decreases s.len() + 1 - i,
{
    if i + p.len() > s.len() {
        None
    } else if s.subrange(i as int, i + p.len() as int) == p {
        Some(i)
    } else {
        find_from(s, p, i + 1)
    }
}

/// Index of the leftmost occurrence of `p` in `s`.
pub open spec fn find(s: Seq<char>, p: Seq<char>) -> Option<nat> {
    find_from(s, p, 0)
}

pub open spec fn contains(s: Seq<char>, p: Seq<char>) -> bool {
    find(s, p) is Some
}

/// Index of the leftmost character of `s` at or after `i` that belongs to `cs`.
pub open spec fn find_in_from(s: Seq<char>, cs: Seq<char>, i: nat) -> Option<nat>
    decreases s.len() - i,
{
    if i >= s.len() {
        None
    } else if cs.contains(s[i as int]) {
        Some(i)
    } else {
        find_in_from(s, cs, i + 1)
    }
}

/// Index of the leftmost character of `s` that belongs to `cs`.
pub open spec fn find_in(s: Seq<char>, cs: Seq<char>) -> Option<nat> {
    find_in_from(s, cs, 0)
}

/// Index of the rightmost `c` among the first `j` characters of `s`.
pub open spec fn rfind_below(s: Seq<char>, c: char, j: nat) -> Option<nat>
    decreases j,
{
    if j == 0 {
        None
    } else if s[j - 1] == c {
        Some((j - 1) as nat)
    } else {
        rfind_below(s, c, (j - 1) as nat)
    }
}

/// Index of the rightmost `c` in `s`.
pub open spec fn rfind(s: Seq<char>, c: char) -> Option<nat> {
    rfind_below(s, c, s.len())
}

/// The part of `s` before its first character in `cs` (all of `s` if there is none):
/// the first piece that splitting `s` at `cs` yields.
pub open spec fn before_any(s: Seq<char>, cs: Seq<char>) -> Seq<char> {
    match find_in(s, cs) {
        Some(i) => s.take(i as int),
        None => s,
    }
}

/// The pieces of `s` between occurrences of `c`, empty pieces included.
pub open spec fn split_char(s: Seq<char>, c: char) -> Seq<Seq<char>>
    decreases s.len(),
{
    match find_in(s, seq![c]) {
        Some(i) => if i < s.len() {
            seq![s.take(i as int)] + split_char(s.skip(i as int + 1), c)
        } else {
            seq![s]
        },
        None => seq![s],
    }
}

/// The part of `s` after its last `c` (all of `s` if there is none):
/// the last piece that splitting `s` at `c` yields.
pub open spec fn after_last(s: Seq<char>, c: char) -> Seq<char> {
    match rfind(s, c) {
        Some(i) => s.skip(i as int + 1),
        None => s,
    }
}

/// Index of the first whitespace character of `s`.
pub open spec fn find_ws_from(s: Seq<char>, i: nat) -> Option<nat>
    decreases s.len() - i,
{
    if i >= s.len() {
        None
    } else if is_ws(s[i as int]) {
        Some(i)
    } else {
        find_ws_from(s, i + 1)
    }
}

/// The length of the first whitespace-free run at the start of `s`.
pub open spec fn word_len(s: Seq<char>) -> nat {
    match find_ws_from(s, 0) {
        Some(i) => i,
        None => s.len(),
    }
}

/// The whitespace-separated words of `s`, in order, none of them empty.
pub open spec fn words(s: Seq<char>) -> Seq<Seq<char>>
    decreases s.len(),
{
    let t = trim_start(s);
    if t.len() == 0 || t.len() > s.len() {
        seq![]
    } else {
        let n = word_len(t);
        if 0 < n <= t.len() {
            seq![t.take(n as int)] + words(t.skip(n as int))
        } else {
            seq![t]
        }
    }
}

/// The texts held by a sequence of character buffers.
pub open spec fn views(v: Seq<Vec<char>>) -> Seq<Seq<char>> {
    v.map_values(|x: Vec<char>| x@)
}

/// A line without its `'\r'` when the line ended with `"\r\n"`.
pub open spec fn strip_cr(l: Seq<char>) -> Seq<char> {
    if l.len() > 0 && l.last() == '\r' {
        l.drop_last()
    } else {
        l
    }
}

/// The lines of `s`: split at `'\n'` (or `"\r\n"`), with no empty last line
/// for a trailing line ending.
pub open spec fn lines(s: Seq<char>) -> Seq<Seq<char>>
    decreases s.len(),
{
    if s.len() == 0 {
        seq![]
    } else {
        match find_in(s, seq!['\n']) {
            Some(i) => if i < s.len() {
                seq![strip_cr(s.take(i as int))] + lines(s.skip(i as int + 1))
            } else {
                seq![s]
            },
            None => seq![s],
        }
    }
}

/// `s` with every trailing `c` removed.
pub open spec fn trim_end_char(s: Seq<char>, c: char) -> Seq<char>
    decreases s.len(),
{
    if s.len() > 0 && s.last() == c {
        trim_end_char(s.drop_last(), c)
    } else {
        s
    }
}

/// Whether `c` may end an optional type mark: `?` or whitespace.
pub open spec fn opt_mark(c: char) -> bool {
    c == '?' || is_ws(c)
}

/// `s` without its trailing `?` marks and the whitespace among them.
pub open spec fn trim_end_opt(s: Seq<char>) -> Seq<char>
    decreases s.len(),
{
    if s.len() > 0 && opt_mark(s.last()) {
        trim_end_opt(s.drop_last())
    } else {
        s
    }
}

/// `s` with every trailing repetition of `p` removed.
pub open spec fn trim_end_seq(s: Seq<char>, p: Seq<char>) -> Seq<char>
    decreases s.len(),
{
    if p.len() > 0 && ends_with(s, p) {
        trim_end_seq(s.take(s.len() - p.len()), p)
    } else {
        s
    }
}

/// The longest prefix of `s` made of identifier characters.
pub open spec fn ident_prefix(s: Seq<char>) -> Seq<char>
    decreases s.len(),
{
    if s.len() > 0 && ident_char(s[0]) {
        seq![s[0]] + ident_prefix(s.drop_first())
    } else {
        seq![]
    }
}

/// Concatenation of `parts`, with `sep` between neighbours.
pub open spec fn join(parts: Seq<Seq<char>>, sep: Seq<char>) -> Seq<char>
    decreases parts.len(),
{
    if parts.len() == 0 {
        seq![]
    } else if parts.len() == 1 {
        parts[0]
    } else {
        join(parts.drop_last(), sep) + sep + parts.last()
    }
}


// ── Lemmas ─────────────────────────────────────────────────────────────────

pub proof fn lemma_trim_start_skip(s: Seq<char>, a: int)
    requires
        0 <= a <= s.len(),
        forall|k: int| 0 <= k < a ==> is_ws(#[trigger] s[k]),
        a == s.len() || !is_ws(s[a]),
    ensures
        trim_start(s) == s.skip(a),
    decreases a,
{
    if a == 0 {
        assert(s.skip(0) =~= s);
    } else {
        assert(is_ws(s[0]));
        assert forall|k: int| 0 <= k < a - 1 implies is_ws(#[trigger] s.drop_first()[k]) by {
            assert(s.drop_first()[k] == s[k + 1]);
        }
        lemma_trim_start_skip(s.drop_first(), a - 1);
        assert(s.drop_first().skip(a - 1) =~= s.skip(a));
    }
}

pub proof fn lemma_trim_end_take(s: Seq<char>, b: int)
    requires
        0 <= b <= s.len(),
        forall|k: int| b <= k < s.len() ==> is_ws(#[trigger] s[k]),
        b == 0 || !is_ws(s[b - 1]),
    ensures
        trim_end(s) == s.take(b),
    decreases s.len() - b,
{
    if b == s.len() {
        assert(s.take(b) =~= s);
    } else {
        assert(is_ws(s.last()));
        assert forall|k: int| b <= k < s.len() - 1 implies is_ws(#[trigger] s.drop_last()[k]) by {
            assert(s.drop_last()[k] == s[k]);
        }
        lemma_trim_end_take(s.drop_last(), b);
        assert(s.drop_last().take(b) =~= s.take(b));
    }
}

pub proof fn lemma_trim_start_len(s: Seq<char>)
    ensures
        trim_start(s).len() <= s.len(),
        trim_start(s).len() == 0 || !is_ws(trim_start(s)[0]),
    decreases s.len(),
{
    if s.len() > 0 && is_ws(s[0]) {
        lemma_trim_start_len(s.drop_first());
    }
}

pub proof fn lemma_trim_end_shape(s: Seq<char>)
    ensures
        trim_end(s).len() <= s.len(),
        trim_end(s) == s.take(trim_end(s).len() as int),
        trim_end(s).len() == 0 || !is_ws(trim_end(s).last()),
    decreases s.len(),
{
    if s.len() > 0 && is_ws(s.last()) {
        lemma_trim_end_shape(s.drop_last());
        assert(s.drop_last().take(trim_end(s).len() as int) =~= s.take(trim_end(s).len() as int));
    } else {
        assert(s.take(s.len() as int) =~= s);
    }
}

/// Trimming trimmed text changes nothing.
pub proof fn lemma_trim_idempotent(s: Seq<char>)
    ensures
        trim(trim(s)) == trim(s),
        trim(s).len() == 0 || (!is_ws(trim(s)[0]) && !is_ws(trim(s).last())),
{
    let a = trim_start(s);
    lemma_trim_start_len(s);
    lemma_trim_end_shape(a);
    let t = trim_end(a);
    if t.len() > 0 {
        assert(t[0] == a[0]);
    }
    assert(trim_start(t) == t);
    lemma_trim_end_shape(t);
    if t.len() > 0 {
        assert(trim_end(t) == t);
    }
}

pub proof fn lemma_find_in_from_bounds(s: Seq<char>, cs: Seq<char>, i: nat)
    ensures
        find_in_from(s, cs, i) matches Some(k) ==> i <= k < s.len() && cs.contains(s[k as int])
            && forall|j: int| i <= j < k ==> !cs.contains(#[trigger] s[j]),
        find_in_from(s, cs, i) is None ==> forall|j: int| i <= j < s.len() ==> !cs.contains(
            #[trigger] s[j],
        ),
    decreases s.len() - i,
{
    if i < s.len() && !cs.contains(s[i as int]) {
        lemma_find_in_from_bounds(s, cs, i + 1);
    }
}

pub proof fn lemma_find_from_bounds(s: Seq<char>, p: Seq<char>, i: nat)
    ensures
        find_from(s, p, i) matches Some(k) ==> i <= k && k + p.len() <= s.len() && s.subrange(k as int, k + p.len() as int) == p,
    decreases s.len() + 1 - i,
{
    if i + p.len() <= s.len() && s.subrange(i as int, i + p.len() as int) != p {
        lemma_find_from_bounds(s, p, i + 1);
    }
}

/// Where `p` occurs at or after `j` in `s`, a search from `i <= j` finds it.
pub proof fn lemma_find_from_some(s: Seq<char>, p: Seq<char>, i: nat, j: nat)
    requires
        i <= j,
        j + p.len() <= s.len(),
        s.subrange(j as int, j + p.len() as int) == p,
    ensures
        find_from(s, p, i) is Some,
    decreases j - i,
{
    if s.subrange(i as int, i + p.len() as int) != p {
        lemma_find_from_some(s, p, i + 1, j);
    }
}

/// Text found in a suffix of `s` is found in `s`.
pub proof fn lemma_contains_suffix(s: Seq<char>, p: Seq<char>, k: int)
    requires
        0 <= k <= s.len(),
        contains(s.skip(k), p),
    ensures
        contains(s, p),
{
    let t = s.skip(k);
    lemma_find_from_bounds(t, p, 0);
    let j = find(t, p).unwrap();
    assert(s.subrange(k + j, k + j + p.len()) =~= t.subrange(j as int, j + p.len() as int));
    lemma_find_from_some(s, p, 0, (k + j) as nat);
}

pub proof fn lemma_rfind_bounds(s: Seq<char>, c: char, j: nat)
    requires
        j <= s.len(),
    ensures
        rfind_below(s, c, j) matches Some(k) ==> k < j && s[k as int] == c,
    decreases j,
{
    if j > 0 && s[j - 1] != c {
        lemma_rfind_bounds(s, c, (j - 1) as nat);
    }
}

pub proof fn lemma_ident_prefix_take(s: Seq<char>, k: int)
    requires
        0 <= k <= s.len(),
        forall|i: int| 0 <= i < k ==> ident_char(#[trigger] s[i]),
        k == s.len() || !ident_char(s[k]),
    ensures
        ident_prefix(s) == s.take(k),
    decreases k,
{
    if k == 0 {
        assert(ident_prefix(s) =~= s.take(0));
    } else {
        assert(ident_char(s[0]));
        assert forall|i: int| 0 <= i < k - 1 implies ident_char(#[trigger] s.drop_first()[i]) by {
            assert(s.drop_first()[i] == s[i + 1]);
        }
        lemma_ident_prefix_take(s.drop_first(), k - 1);
        assert(seq![s[0]] + s.drop_first().take(k - 1) =~= s.take(k));
    }
}

pub proof fn lemma_trim_end_char_take(s: Seq<char>, c: char, b: int)
    requires
        0 <= b <= s.len(),
        forall|k: int| b <= k < s.len() ==> #[trigger] s[k] == c,
        b == 0 || s[b - 1] != c,
    ensures
        trim_end_char(s, c) == s.take(b),
    decreases s.len() - b,
{
    if b == s.len() {
        assert(s.take(b) =~= s);
    } else {
        assert(s.last() == c);
        assert forall|k: int| b <= k < s.len() - 1 implies #[trigger] s.drop_last()[k] == c by {
            assert(s.drop_last()[k] == s[k]);
        }
        lemma_trim_end_char_take(s.drop_last(), c, b);
        assert(s.drop_last().take(b) =~= s.take(b));
    }
}

pub proof fn lemma_trim_end_opt_take(s: Seq<char>, b: int)
    requires
        0 <= b <= s.len(),
        forall|k: int| b <= k < s.len() ==> opt_mark(#[trigger] s[k]),
        b == 0 || !opt_mark(s[b - 1]),
    ensures
        trim_end_opt(s) == s.take(b),
    decreases s.len() - b,
{
    if b == s.len() {
        assert(s.take(b) =~= s);
    } else {
        assert(opt_mark(s[s.len() - 1]));
        assert forall|k: int| b <= k < s.len() - 1 implies opt_mark(#[trigger] s.drop_last()[k]) by {
            assert(s.drop_last()[k] == s[k]);
        }
        lemma_trim_end_opt_take(s.drop_last(), b);
        assert(s.drop_last().take(b) =~= s.take(b));
    }
}

/// What `trim_end_opt` leaves never ends with `?`.
pub proof fn lemma_trim_end_opt_unmarked(s: Seq<char>)
    ensures
        !ends_with(trim_end_opt(s), "?"@),
    decreases s.len(),
{
    reveal_strlit("?");
    if s.len() > 0 && opt_mark(s.last()) {
        lemma_trim_end_opt_unmarked(s.drop_last());
    } else if s.len() > 0 {
        let t = trim_end_opt(s);
        assert(t == s);
        if ends_with(t, "?"@) {
            assert(t.skip(t.len() - 1)[0] == t.last());
        }
    }
}

// ── Executable routines ────────────────────────────────────────────────────

/// Appends `c` to `s` by calling `String::push`. Trusted: the contract claims
/// that afterwards `s` holds its former characters followed by `c`, as the
/// standard library documents.
#[verifier::external_body]
fn string_push(s: &mut String, c: char)
    ensures
        final(s)@ == old(s)@.push(c),
{
    s.push(c);
}

/// Whether `c` is alphanumeric, by calling `char::is_alphanumeric`. Trusted:
/// the contract claims that the answer is `alphanumeric(c)`, a fixed function
/// of `c` (the Unicode `Alphabetic` and `Numeric` properties, not written out
/// here), and that on ASCII it holds exactly for letters and digits.
#[verifier::external_body]
fn char_is_alphanumeric(c: char) -> (b: bool)
    ensures
        b == alphanumeric(c),
        (c as u32) < 128 ==> (b <==> ascii_alnum(c)),
{
    c.is_alphanumeric()
}

/// The lower-case form of `s`, by calling `str::to_lowercase`. Trusted: the
/// contract claims that the result is `lowercase(s@)`, a fixed function of the
/// characters of `s` (the Unicode lower-case mapping is not written out), and
/// that on ASCII text it maps `A`–`Z` to `a`–`z` and keeps every other
/// character.
#[verifier::external_body]
fn str_to_lowercase(s: &str) -> (r: String)
    ensures
        r@ == lowercase(s@),
        all_ascii(s@) ==> r@ == s@.map_values(|c: char| ascii_lower(c)),
{
    s.to_lowercase()
}

/// Whether `c` is Unicode whitespace.
pub fn is_whitespace(c: char) -> (b: bool)
    ensures
        b == is_ws(c),
{
    let u = c as u32;
    (0x09 <= u && u <= 0x0d) || u == 0x20 || u == 0x85 || u == 0xa0 || u == 0x1680 || (0x2000 <= u
        && u <= 0x200a) || u == 0x2028 || u == 0x2029 || u == 0x202f || u == 0x205f || u == 0x3000
}

/// Whether `c` may continue an identifier.
pub fn is_ident_char(c: char) -> (b: bool)
    ensures
        b == ident_char(c),
        (c as u32) < 128 ==> (b <==> (c == '_' || ascii_alnum(c))),
{
    c == '_' || char_is_alphanumeric(c)
}

/// The characters of `s`.
pub fn chars_of(s: &str) -> (v: Vec<char>)
    ensures
        v@ == s@,
{
    let mut v: Vec<char> = Vec::new();
    for c in it: s.chars()
        invariant
            v@ == it.seq().take(it.index() as int),
    {
        v.push(c);
    }
    v
}

/// Appends the characters of `v` to `out`.
pub fn push_chars(out: &mut String, v: &Vec<char>)
    ensures
        final(out)@ == old(out)@ + v@,
{
    let ghost start = out@;
    let mut i: usize = 0;
    while i < v.len()
        invariant
            i <= v.len(),
            out@ == start + v@.take(i as int),
        decreases v.len() - i,
    {
        string_push(out, v[i]);
        i = i + 1;
        assert(v@.take(i as int) =~= v@.take(i - 1).push(v@[i - 1]));
    }
    assert(v@.take(v.len() as int) =~= v@);
}

/// A `String` holding the characters of `v`.
pub fn string_of(v: &Vec<char>) -> (s: String)
    ensures
        s@ == v@,
{
    let mut s = String::new();
    push_chars(&mut s, v);
    s
}

/// The lower-case form of the text in `v`.
pub fn to_lowercase(v: &Vec<char>) -> (r: Vec<char>)
    ensures
        r@ == lowercase(v@),
        all_ascii(v@) ==> r@ == v@.map_values(|c: char| ascii_lower(c)),
{
    let s = string_of(v);
    let l = str_to_lowercase(s.as_str());
    chars_of(l.as_str())
}

/// The characters of `s` from `i` up to `j`.
pub fn subseq(s: &Vec<char>, i: usize, j: usize) -> (r: Vec<char>)
    requires
        i <= j <= s.len(),
    ensures
        r@ == s@.subrange(i as int, j as int),
{
    let mut r: Vec<char> = Vec::new();
    let mut k = i;
    while k < j
        invariant
            i <= k <= j <= s.len(),
            r@ == s@.subrange(i as int, k as int),
        decreases j - k,
    {
        r.push(s[k]);
        k = k + 1;
        assert(r@ =~= s@.subrange(i as int, k as int));
    }
    r
}

/// Whether `p` occurs in `s` at position `i`.
pub fn matches_at(s: &Vec<char>, p: &Vec<char>, i: usize) -> (b: bool)
    requires
        i + p.len() <= s.len(),
    ensures
        b == (s@.subrange(i as int, i + p.len()) == p@),
{
    let mut k: usize = 0;
    while k < p.len()
        invariant
            k <= p.len(),
            i + p.len() <= s.len(),
            forall|j: int| 0 <= j < k ==> s@[i + j] == p@[j],
        decreases p.len() - k,
    {
        if s[i + k] != p[k] {
            assert(s@.subrange(i as int, i + p.len())[k as int] != p@[k as int]);
            return false;
        }
        k = k + 1;
    }
    assert(s@.subrange(i as int, i + p.len()) =~= p@);
    true
}

/// Whether the text in `s` equals `p`.
pub fn eq_str(s: &Vec<char>, p: &str) -> (b: bool)
    ensures
        b == (s@ == p@),
{
    let pv = chars_of(p);
    if s.len() != pv.len() {
        return false;
    }
    let r = matches_at(s, &pv, 0);
    assert(s@.subrange(0, s@.len() as int) =~= s@);
    r
}

/// Whether `s` starts with the characters `p`.
pub fn starts_with_chars(s: &Vec<char>, p: &Vec<char>) -> (b: bool)
    ensures
        b == starts_with(s@, p@),
{
    if p.len() > s.len() {
        return false;
    }
    let r = matches_at(s, p, 0);
    assert(s@.subrange(0, p.len() as int) =~= s@.take(p.len() as int));
    r
}

/// `s` without the prefix `p`, when `s` starts with the characters `p`.
pub fn strip_prefix_chars(s: &Vec<char>, p: &Vec<char>) -> (r: Option<Vec<char>>)
    ensures
        match r {
            Some(v) => strip_prefix(s@, p@) == Some(v@),
            None => strip_prefix(s@, p@) is None,
        },
{
    if starts_with_chars(s, p) {
        let rest = subseq(s, p.len(), s.len());
        assert(rest@ =~= s@.skip(p@.len() as int));
        Some(rest)
    } else {
        None
    }
}

/// Whether `s` starts with `p`.
pub fn starts_with_str(s: &Vec<char>, p: &str) -> (b: bool)
    ensures
        b == starts_with(s@, p@),
{
    let pv = chars_of(p);
    if pv.len() > s.len() {
        return false;
    }
    let r = matches_at(s, &pv, 0);
    assert(s@.subrange(0, pv.len() as int) =~= s@.take(pv.len() as int));
    r
}

/// Whether `s` ends with `p`.
pub fn ends_with_str(s: &Vec<char>, p: &str) -> (b: bool)
    ensures
        b == ends_with(s@, p@),
{
    let pv = chars_of(p);
    if pv.len() > s.len() {
        return false;
    }
    let r = matches_at(s, &pv, s.len() - pv.len());
    assert(s@.subrange(s.len() - pv.len(), s.len() as int) =~= s@.skip(s.len() - pv.len()));
    r
}

/// `s` without the prefix `p`, when `s` starts with `p`.
pub fn strip_prefix_str(s: &Vec<char>, p: &str) -> (r: Option<Vec<char>>)
    ensures
        match r { Some(v) => strip_prefix(s@, p@) == Some(v@), None => strip_prefix(s@, p@) is None },
{
    if starts_with_str(s, p) {
        let pv = chars_of(p);
        let rest = subseq(s, pv.len(), s.len());
        assert(rest@ =~= s@.skip(p@.len() as int));
        Some(rest)
    } else {
        None
    }
}

/// Index of the leftmost occurrence of `p` in `s`.
pub fn find_str(s: &Vec<char>, p: &str) -> (r: Option<usize>)
    ensures
        r matches Some(k) ==> find(s@, p@) == Some(k as nat),
        r is None ==> find(s@, p@) is None,
{
    let pv = chars_of(p);
    let mut i: usize = 0;
    while i <= s.len() && pv.len() <= s.len() - i
        invariant
            pv@ == p@,
            find(s@, p@) == find_from(s@, p@, i as nat),
        decreases s.len() + 1 - i,
    {
        if matches_at(s, &pv, i) {
            return Some(i);
        }
        if pv.len() == 0 {
            assert(s@.subrange(i as int, i as int) =~= pv@);
        }
        i = i + 1;
    }
    None
}

/// Whether `p` occurs in `s`.
pub fn contains_str(s: &Vec<char>, p: &str) -> (b: bool)
    ensures
        b == contains(s@, p@),
{
    find_str(s, p).is_some()
}

/// Whether `c` is one of `cs`.
pub fn char_in(cs: &Vec<char>, c: char) -> (b: bool)
    ensures
        b == cs@.contains(c),
{
    let mut k: usize = 0;
    while k < cs.len()
        invariant
            k <= cs.len(),
            forall|j: int| 0 <= j < k ==> cs@[j] != c,
        decreases cs.len() - k,
    {
        if cs[k] == c {
            assert(cs@[k as int] == c);
            return true;
        }
        k = k + 1;
    }
    false
}

/// Index of the leftmost character of `s` that is one of `cs`.
pub fn find_any(s: &Vec<char>, cs: &str) -> (r: Option<usize>)
    ensures
        r matches Some(k) ==> find_in(s@, cs@) == Some(k as nat),
        r is None ==> find_in(s@, cs@) is None,
{
    let cv = chars_of(cs);
    let mut i: usize = 0;
    while i < s.len()
        invariant
            i <= s.len(),
            cv@ == cs@,
            find_in(s@, cs@) == find_in_from(s@, cs@, i as nat),
        decreases s.len() - i,
    {
        if char_in(&cv, s[i]) {
            return Some(i);
        }
        i = i + 1;
    }
    None
}

/// Index of the rightmost `c` in `s`.
pub fn rfind_char(s: &Vec<char>, c: char) -> (r: Option<usize>)
    ensures
        r matches Some(k) ==> rfind(s@, c) == Some(k as nat),
        r is None ==> rfind(s@, c) is None,
{
    let mut j: usize = s.len();
    while j > 0
        invariant
            j <= s.len(),
            rfind(s@, c) == rfind_below(s@, c, j as nat),
        decreases j,
    {
        if s[j - 1] == c {
            return Some(j - 1);
        }
        j = j - 1;
    }
    None
}

/// Index of the leftmost whitespace character of `s` at or after `i`.
fn find_whitespace(s: &Vec<char>, i: usize) -> (r: Option<usize>)
    requires
        i <= s.len(),
    ensures
        r matches Some(k) ==> find_ws_from(s@, i as nat) == Some(k as nat),
        r is None ==> find_ws_from(s@, i as nat) is None,
{
    let mut k = i;
    while k < s.len()
        invariant
            i <= k <= s.len(),
            find_ws_from(s@, i as nat) == find_ws_from(s@, k as nat),
        decreases s.len() - k,
    {
        if is_whitespace(s[k]) {
            return Some(k);
        }
        k = k + 1;
    }
    None
}

/// `s` without leading whitespace.
pub fn trim_start_chars(s: &Vec<char>) -> (r: Vec<char>)
    ensures
        r@ == trim_start(s@),
{
    let mut a: usize = 0;
    while a < s.len() && is_whitespace(s[a])
        invariant
            a <= s.len(),
            forall|k: int| 0 <= k < a ==> is_ws(#[trigger] s@[k]),
        decreases s.len() - a,
    {
        a = a + 1;
    }
    proof {
        lemma_trim_start_skip(s@, a as int);
    }
    subseq(s, a, s.len())
}

/// `s` without trailing whitespace.
pub fn trim_end_chars(s: &Vec<char>) -> (r: Vec<char>)
    ensures
        r@ == trim_end(s@),
{
    let mut b: usize = s.len();
    while b > 0 && is_whitespace(s[b - 1])
        invariant
            b <= s.len(),
            forall|k: int| b <= k < s.len() ==> is_ws(#[trigger] s@[k]),
        decreases b,
    {
        b = b - 1;
    }
    proof {
        lemma_trim_end_take(s@, b as int);
    }
    subseq(s, 0, b)
}

/// `s` without leading and trailing whitespace.
pub fn trim_chars(s: &Vec<char>) -> (r: Vec<char>)
    ensures
        r@ == trim(s@),
{
    let t = trim_start_chars(s);
    trim_end_chars(&t)
}

/// `s` without its trailing run of `c`.
pub fn trim_end_char_chars(s: &Vec<char>, c: char) -> (r: Vec<char>)
    ensures
        r@ == trim_end_char(s@, c),
{
    let mut b: usize = s.len();
    while b > 0 && s[b - 1] == c
        invariant
            b <= s.len(),
            forall|k: int| b <= k < s.len() ==> #[trigger] s@[k] == c,
        decreases b,
    {
        b = b - 1;
    }
    proof {
        lemma_trim_end_char_take(s@, c, b as int);
    }
    subseq(s, 0, b)
}

/// `s` without its trailing `?` marks and the whitespace among them.
pub fn trim_end_opt_chars(s: &Vec<char>) -> (r: Vec<char>)
    ensures
        r@ == trim_end_opt(s@),
{
    let mut b: usize = s.len();
    while b > 0 && (s[b - 1] == '?' || is_whitespace(s[b - 1]))
        invariant
            b <= s.len(),
            forall|k: int| b <= k < s.len() ==> opt_mark(#[trigger] s@[k]),
        decreases b,
    {
        b = b - 1;
    }
    proof {
        lemma_trim_end_opt_take(s@, b as int);
    }
    subseq(s, 0, b)
}

/// `s` without its trailing repetitions of `p`.
pub fn trim_end_str(s: &Vec<char>, p: &str) -> (r: Vec<char>)
    ensures
        r@ == trim_end_seq(s@, p@),
{
    let pv = chars_of(p);
    let mut b: usize = s.len();
    assert(s@.take(b as int) =~= s@);
    while pv.len() > 0 && pv.len() <= b && matches_at(s, &pv, b - pv.len())
        invariant
            b <= s.len(),
            pv@ == p@,
            trim_end_seq(s@, p@) == trim_end_seq(s@.take(b as int), p@),
        decreases b,
    {
        let ghost t = s@.take(b as int);
        assert(s@.subrange(b - pv.len(), b as int) =~= t.skip(t.len() - p@.len()));
        assert(t.take(t.len() - p@.len()) =~= s@.take(b - pv.len()));
        b = b - pv.len();
    }
    proof {
        let t = s@.take(b as int);
        if pv.len() > 0 && pv.len() <= b {
            assert(s@.subrange(b - pv.len(), b as int) =~= t.skip(t.len() - p@.len()));
        }
    }
    subseq(s, 0, b)
}

/// The longest identifier-character prefix of `s`.
pub fn ident_prefix_chars(s: &Vec<char>) -> (r: Vec<char>)
    ensures
        r@ == ident_prefix(s@),
{
    let mut k: usize = 0;
    while k < s.len() && is_ident_char(s[k])
        invariant
            k <= s.len(),
            forall|i: int| 0 <= i < k ==> ident_char(#[trigger] s@[i]),
        decreases s.len() - k,
    {
        k = k + 1;
    }
    proof {
        lemma_ident_prefix_take(s@, k as int);
    }
    subseq(s, 0, k)
}

/// The part of `s` before its first character among `cs`.
pub fn before_any_chars(s: &Vec<char>, cs: &str) -> (r: Vec<char>)
    ensures
        r@ == before_any(s@, cs@),
{
    match find_any(s, cs) {
        Some(i) => {
            proof {
                lemma_find_in_from_bounds(s@, cs@, 0);
            }
            subseq(s, 0, i)
        },
        None => subseq(s, 0, s.len()),
    }
}

/// The part of `s` after its last `c`.
pub fn after_last_chars(s: &Vec<char>, c: char) -> (r: Vec<char>)
    ensures
        r@ == after_last(s@, c),
{
    let found = rfind_char(s, c);
    proof {
        lemma_rfind_bounds(s@, c, s@.len());
    }
    match found {
        Some(i) => {
            assert(i < s.len());
            subseq(s, i + 1, s.len())
        },
        None => subseq(s, 0, s.len()),
    }
}

pub proof fn lemma_find_ws_bounds(s: Seq<char>, i: nat)
    ensures
        find_ws_from(s, i) matches Some(k) ==> i <= k < s.len() && is_ws(s[k as int]),
    decreases s.len() - i,
{
    if i < s.len() && !is_ws(s[i as int]) {
        lemma_find_ws_bounds(s, i + 1);
    }
}

/// Index of the leftmost `c` in `s`.
pub fn find_char(s: &Vec<char>, c: char) -> (r: Option<usize>)
    ensures
        r matches Some(k) ==> find_in(s@, seq![c]) == Some(k as nat) && k < s.len() && s@[k as int]
            == c,
        r is None ==> find_in(s@, seq![c]) is None,
{
    let mut i: usize = 0;
    while i < s.len()
        invariant
            i <= s.len(),
            find_in(s@, seq![c]) == find_in_from(s@, seq![c], i as nat),
        decreases s.len() - i,
    {
        if s[i] == c {
            assert(seq![c].contains(s@[i as int])) by {
                assert(seq![c][0] == c);
            }
            return Some(i);
        }
        assert(!seq![c].contains(s@[i as int]));
        i = i + 1;
    }
    None
}

/// `l` without a final `'\r'`.
fn strip_cr_chars(l: &Vec<char>) -> (r: Vec<char>)
    ensures
        r@ == strip_cr(l@),
{
    if l.len() > 0 && l[l.len() - 1] == '\r' {
        subseq(l, 0, l.len() - 1)
    } else {
        let r = subseq(l, 0, l.len());
        assert(r@ =~= l@);
        r
    }
}

/// The lines of `s`.
pub fn lines_of(s: &Vec<char>) -> (r: Vec<Vec<char>>)
    ensures
        views(r@) == lines(s@),
{
    let mut out: Vec<Vec<char>> = Vec::new();
    let mut rest = subseq(s, 0, s.len());
    assert(rest@ =~= s@);
    assert(views(out@) =~= Seq::<Seq<char>>::empty());
    while rest.len() > 0
        invariant
            views(out@) + lines(rest@) == lines(s@),
        decreases rest.len(),
    {
        let ghost old_out = views(out@);
        let ghost old_rest = rest@;
        match find_char(&rest, '\n') {
            Some(i) => {
                let line = subseq(&rest, 0, i);
                let line = strip_cr_chars(&line);
                let ghost lv = line@;
                out.push(line);
                rest = subseq(&rest, i + 1, rest.len());
                assert(views(out@) =~= old_out.push(lv));
                assert(old_rest.skip(i as int + 1) =~= rest@);
                assert(lines(old_rest) == seq![lv] + lines(rest@));
                assert(old_out + (seq![lv] + lines(rest@)) =~= old_out.push(lv) + lines(rest@));
            },
            None => {
                out.push(rest);
                rest = Vec::new();
                assert(views(out@) =~= old_out.push(old_rest));
                assert(lines(rest@) =~= Seq::<Seq<char>>::empty());
                assert(old_out + seq![old_rest] =~= old_out.push(old_rest) + lines(rest@));
            },
        }
    }
    assert(lines(rest@) =~= Seq::<Seq<char>>::empty());
    assert(views(out@) + lines(rest@) =~= views(out@));
    out
}

/// The pieces of `s` between occurrences of `c`.
pub fn split_char_of(s: &Vec<char>, c: char) -> (r: Vec<Vec<char>>)
    ensures
        views(r@) == split_char(s@, c),
{
    let mut out: Vec<Vec<char>> = Vec::new();
    let mut rest = subseq(s, 0, s.len());
    assert(rest@ =~= s@);
    assert(views(out@) =~= Seq::<Seq<char>>::empty());
    loop
        invariant
            views(out@) + split_char(rest@, c) == split_char(s@, c),
        decreases rest.len(),
    {
        let ghost old_out = views(out@);
        let ghost old_rest = rest@;
        match find_char(&rest, c) {
            Some(i) => {
                let piece = subseq(&rest, 0, i);
                let ghost pv = piece@;
                out.push(piece);
                rest = subseq(&rest, i + 1, rest.len());
                assert(views(out@) =~= old_out.push(pv));
                assert(old_rest.skip(i as int + 1) =~= rest@);
                assert(split_char(old_rest, c) == seq![pv] + split_char(rest@, c));
                assert(old_out + (seq![pv] + split_char(rest@, c)) =~= old_out.push(pv)
                    + split_char(rest@, c));
            },
            None => {
                out.push(rest);
                assert(views(out@) =~= old_out.push(old_rest));
                assert(old_out + seq![old_rest] =~= old_out.push(old_rest));
                return out;
            },
        }
    }
}

/// The whitespace-separated words of `s`.
pub fn words_of(s: &Vec<char>) -> (r: Vec<Vec<char>>)
    ensures
        views(r@) == words(s@),
{
    let mut out: Vec<Vec<char>> = Vec::new();
    let mut rest = subseq(s, 0, s.len());
    assert(rest@ =~= s@);
    assert(views(out@) =~= Seq::<Seq<char>>::empty());
    loop
        invariant
            views(out@) + words(rest@) == words(s@),
        decreases rest.len(),
    {
        let ghost old_out = views(out@);
        let ghost old_rest = rest@;
        let t = trim_start_chars(&rest);
        proof {
            lemma_trim_start_len(rest@);
            lemma_find_ws_bounds(t@, 0);
        }
        if t.len() == 0 {
            assert(old_out + words(old_rest) =~= old_out);
            return out;
        }
        let n = match find_whitespace(&t, 0) {
            Some(i) => i,
            None => t.len(),
        };
        assert(n == word_len(t@));
        assert(n > 0);
        let w = subseq(&t, 0, n);
        let ghost wv = w@;
        out.push(w);
        rest = subseq(&t, n, t.len());
        assert(views(out@) =~= old_out.push(wv));
        assert(t@.skip(n as int) =~= rest@);
        assert(words(old_rest) == seq![wv] + words(rest@));
        assert(old_out + (seq![wv] + words(rest@)) =~= old_out.push(wv) + words(rest@));
    }
}

/// Appends the characters of `v` to the buffer `out`.
pub fn extend_chars(out: &mut Vec<char>, v: &Vec<char>)
    ensures
        final(out)@ == old(out)@ + v@,
{
    let ghost start = out@;
    let mut i: usize = 0;
    while i < v.len()
        invariant
            i <= v.len(),
            out@ == start + v@.take(i as int),
        decreases v.len() - i,
    {
        out.push(v[i]);
        i = i + 1;
        assert(start + v@.take(i as int) =~= (start + v@.take(i - 1)).push(v@[i - 1]));
    }
    assert(v@.take(v.len() as int) =~= v@);
}

/// Concatenation of `parts` with `sep` between neighbours.
pub fn join_chars(parts: &Vec<Vec<char>>, sep: &str) -> (r: Vec<char>)
    ensures
        r@ == join(views(parts@), sep@),
{
    let sv = chars_of(sep);
    let mut out: Vec<char> = Vec::new();
    let mut i: usize = 0;
    assert(out@ =~= join(views(parts@).take(0), sep@));
    while i < parts.len()
        invariant
            i <= parts.len(),
            sv@ == sep@,
            out@ == join(views(parts@).take(i as int), sep@),
        decreases parts.len() - i,
    {
        let ghost pd = views(parts@);
        if i > 0 {
            extend_chars(&mut out, &sv);
        }
        extend_chars(&mut out, &parts[i]);
        i = i + 1;
        assert(pd.take(i as int).drop_last() =~= pd.take(i - 1));
        if i == 1 {
            assert(out@ =~= join(pd.take(i as int), sep@));
        } else {
            assert(out@ =~= join(pd.take(i as int), sep@));
        }
    }
    assert(views(parts@).take(parts.len() as int) =~= views(parts@));
    out
}

} // verus!
