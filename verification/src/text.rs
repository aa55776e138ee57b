//! Character-level text primitives used throughout the crate.
//!
//! Strings are modelled by their views, sequences of Unicode scalar values
//! (`Seq<char>`). Positions are character positions. Every pattern the crate
//! searches for is ASCII, and for an ASCII pattern the first match found by
//! character position is the same match that a byte-oriented search finds.
use vstd::prelude::*;

verus! {

// ---------------------------------------------------------------------------
// Character classes
// ---------------------------------------------------------------------------

pub open spec fn is_ascii_digit_spec(c: char) -> bool {
    '0' <= c && c <= '9'
}

pub open spec fn is_ascii_upper_spec(c: char) -> bool {
    'A' <= c && c <= 'Z'
}

pub open spec fn is_ascii_lower_spec(c: char) -> bool {
    'a' <= c && c <= 'z'
}

pub open spec fn is_ascii_alnum_spec(c: char) -> bool {
    is_ascii_digit_spec(c) || is_ascii_upper_spec(c) || is_ascii_lower_spec(c)
}

/// The Unicode `White_Space` property, which `char::is_whitespace` and
/// `str::trim` use.
pub open spec fn is_whitespace_spec(c: char) -> bool {
    ||| ('\u{9}' <= c && c <= '\u{d}')
    ||| c == ' '
    ||| c == '\u{85}'
    ||| c == '\u{a0}'
    ||| c == '\u{1680}'
    ||| ('\u{2000}' <= c && c <= '\u{200a}')
    ||| c == '\u{2028}'
    ||| c == '\u{2029}'
    ||| c == '\u{202f}'
    ||| c == '\u{205f}'
    ||| c == '\u{3000}'
}

pub open spec fn ascii_lower_char(c: char) -> char {
    if is_ascii_upper_spec(c) {
        ((c as u32) + 32) as char
    } else {
        c
    }
}

pub open spec fn ascii_upper_char(c: char) -> char {
    if is_ascii_lower_spec(c) {
        ((c as u32) - 32) as char
    } else {
        c
    }
}

pub open spec fn ascii_lower(s: Seq<char>) -> Seq<char> {
    s.map_values(|c: char| ascii_lower_char(c))
}

pub open spec fn ascii_upper(s: Seq<char>) -> Seq<char> {
    s.map_values(|c: char| ascii_upper_char(c))
}

/// The characters of `s` that are ASCII letters or digits, in order.
pub open spec fn alnum_only(s: Seq<char>) -> Seq<char> {
    s.filter(|c: char| is_ascii_alnum_spec(c))
}

pub fn is_ascii_digit(c: char) -> (r: bool)
    ensures
        r == is_ascii_digit_spec(c),
{
    '0' <= c && c <= '9'
}

pub fn is_ascii_alnum(c: char) -> (r: bool)
    ensures
        r == is_ascii_alnum_spec(c),
{
    ('0' <= c && c <= '9') || ('A' <= c && c <= 'Z') || ('a' <= c && c <= 'z')
}

pub fn is_whitespace(c: char) -> (r: bool)
    ensures
        r == is_whitespace_spec(c),
{
    ('\u{9}' <= c && c <= '\u{d}') || c == ' ' || c == '\u{85}' || c == '\u{a0}' || c
        == '\u{1680}' || ('\u{2000}' <= c && c <= '\u{200a}') || c == '\u{2028}' || c
        == '\u{2029}' || c == '\u{202f}' || c == '\u{205f}' || c == '\u{3000}'
}

pub fn lower_char(c: char) -> (r: char)
    ensures
        r == ascii_lower_char(c),
{
    if 'A' <= c && c <= 'Z' {
        let b: u8 = c as u8;
        assert(b as u32 == c as u32);
        (b + 32) as char
    } else {
        c
    }
}

pub fn upper_char(c: char) -> (r: char)
    ensures
        r == ascii_upper_char(c),
{
    if 'a' <= c && c <= 'z' {
        let b: u8 = c as u8;
        assert(b as u32 == c as u32);
        (b - 32) as char
    } else {
        c
    }
}

// ---------------------------------------------------------------------------
// Conversions between `str`, `String` and character vectors
// ---------------------------------------------------------------------------

/// `String::push` appends one character to the end of the string.
pub assume_specification[ String::push ](s: &mut String, ch: char)
    ensures
        final(s)@ == old(s)@.push(ch),
;

pub fn chars_of(s: &str) -> (r: Vec<char>)
    ensures
        r@ == s@,
{
    let n = s.unicode_len();
    let mut r: Vec<char> = Vec::new();
    let mut i: usize = 0;
    while i < n
        invariant
            n == s@.len(),
            i <= n,
            r@ == s@.take(i as int),
        decreases n - i,
    {
        r.push(s.get_char(i));
        assert(s@.take(i + 1) == s@.take(i as int).push(s@[i as int]));
        i = i + 1;
    }
    assert(s@.take(n as int) == s@);
    r
}

/// The string made of `v[from..to]`.
pub fn string_of_range(v: &Vec<char>, from: usize, to: usize) -> (r: String)
    requires
        from <= to <= v@.len(),
    ensures
        r@ == v@.subrange(from as int, to as int),
{
    let mut r = String::new();
    let mut i: usize = from;
    while i < to
        invariant
            from <= i <= to <= v@.len(),
            r@ == v@.subrange(from as int, i as int),
        decreases to - i,
    {
        r.push(v[i]);
        assert(v@.subrange(from as int, i + 1) == v@.subrange(from as int, i as int).push(
            v@[i as int],
        ));
        i = i + 1;
    }
    r
}

pub fn string_of(v: &Vec<char>) -> (r: String)
    ensures
        r@ == v@,
{
    let r = string_of_range(v, 0, v.len());
    assert(v@.subrange(0, v@.len() as int) == v@);
    r
}

pub fn to_ascii_lowercase(s: &str) -> (r: String)
    ensures
        r@ == ascii_lower(s@),
{
    let v = chars_of(s);
    let mut r = String::new();
    let mut i: usize = 0;
    while i < v.len()
        invariant
            v@ == s@,
            i <= v@.len(),
            r@ == ascii_lower(s@.take(i as int)),
        decreases v@.len() - i,
    {
        r.push(lower_char(v[i]));
        assert(ascii_lower(s@.take(i + 1)) == ascii_lower(s@.take(i as int)).push(
            ascii_lower_char(s@[i as int]),
        ));
        i = i + 1;
    }
    assert(s@.take(v@.len() as int) == s@);
    r
}

pub fn to_ascii_uppercase(s: &str) -> (r: String)
    ensures
        r@ == ascii_upper(s@),
{
    let v = chars_of(s);
    let mut r = String::new();
    let mut i: usize = 0;
    while i < v.len()
        invariant
            v@ == s@,
            i <= v@.len(),
            r@ == ascii_upper(s@.take(i as int)),
        decreases v@.len() - i,
    {
        r.push(upper_char(v[i]));
        assert(ascii_upper(s@.take(i + 1)) == ascii_upper(s@.take(i as int)).push(
            ascii_upper_char(s@[i as int]),
        ));
        i = i + 1;
    }
    assert(s@.take(v@.len() as int) == s@);
    r
}

/// Keeps only the ASCII letters and digits of `s`.
pub fn keep_ascii_alnum(s: &str) -> (r: String)
    ensures
        r@ == alnum_only(s@),
{
    let v = chars_of(s);
    let mut r = String::new();
    let mut i: usize = 0;
    while i < v.len()
        invariant
            v@ == s@,
            i <= v@.len(),
            r@ == alnum_only(s@.take(i as int)),
        decreases v@.len() - i,
    {
        let c = v[i];
        proof {
            reveal_with_fuel(Seq::filter, 1);
            assert(s@.take(i + 1).drop_last() == s@.take(i as int));
        }
        if is_ascii_alnum(c) {
            r.push(c);
        }
        i = i + 1;
    }
    assert(s@.take(v@.len() as int) == s@);
    r
}

// ---------------------------------------------------------------------------
// Trimming
// ---------------------------------------------------------------------------

/// The character sets that the crate trims from the ends of strings.
#[derive(Clone, Copy, PartialEq, Eq, Structural)]
pub enum TrimSet {
    /// Unicode white space (`str::trim`).
    Whitespace,
    /// The double quote `"`.
    Quote,
    /// The path separators `\` and `/`.
    PathSeparator,
}

pub open spec fn in_trim_set(t: TrimSet, c: char) -> bool {
    match t {
        TrimSet::Whitespace => is_whitespace_spec(c),
        TrimSet::Quote => c == '"',
        TrimSet::PathSeparator => c == '\\' || c == '/',
    }
}

pub fn is_in_trim_set(t: TrimSet, c: char) -> (r: bool)
    ensures
        r == in_trim_set(t, c),
{
    match t {
        TrimSet::Whitespace => is_whitespace(c),
        TrimSet::Quote => c == '"',
        TrimSet::PathSeparator => c == '\\' || c == '/',
    }
}

/// `s` without its leading characters from `t`.
pub open spec fn trim_start_spec(s: Seq<char>, t: TrimSet) -> Seq<char>
    decreases s.len(),
{
    if s.len() > 0 && in_trim_set(t, s[0]) {
        trim_start_spec(s.drop_first(), t)
    } else {
        s
    }
}

/// `s` without its trailing characters from `t`.
pub open spec fn trim_end_spec(s: Seq<char>, t: TrimSet) -> Seq<char>
    decreases s.len(),
{
    if s.len() > 0 && in_trim_set(t, s.last()) {
        trim_end_spec(s.drop_last(), t)
    } else {
        s
    }
}

/// `s` without leading and trailing characters from `t`.
pub open spec fn trim_both_spec(s: Seq<char>, t: TrimSet) -> Seq<char> {
    trim_end_spec(trim_start_spec(s, t), t)
}

/// What `str::trim` returns.
pub open spec fn trim_spec(s: Seq<char>) -> Seq<char> {
    trim_both_spec(s, TrimSet::Whitespace)
}

/// The number of leading characters of `v[from..]` that lie in `t`, added to `from`.
fn skip_start(v: &Vec<char>, from: usize, to: usize, t: TrimSet) -> (r: usize)
    requires
        from <= to <= v@.len(),
    ensures
        from <= r <= to,
        trim_start_spec(v@.subrange(from as int, to as int), t) == v@.subrange(
            r as int,
            to as int,
        ),
{
    let mut i = from;
    while i < to && is_in_trim_set(t, v[i])
        invariant
            from <= i <= to <= v@.len(),
            trim_start_spec(v@.subrange(from as int, to as int), t) == trim_start_spec(
                v@.subrange(i as int, to as int),
                t,
            ),
        decreases to - i,
    {
        assert(v@.subrange(i as int, to as int).drop_first() == v@.subrange(i + 1, to as int));
        i = i + 1;
    }
    i
}

/// The end of `v[from..to]` once its trailing characters from `t` are dropped.
fn skip_end(v: &Vec<char>, from: usize, to: usize, t: TrimSet) -> (r: usize)
    requires
        from <= to <= v@.len(),
    ensures
        from <= r <= to,
        trim_end_spec(v@.subrange(from as int, to as int), t) == v@.subrange(
            from as int,
            r as int,
        ),
{
    let mut j = to;
    while j > from && is_in_trim_set(t, v[j - 1])
        invariant
            from <= j <= to <= v@.len(),
            trim_end_spec(v@.subrange(from as int, to as int), t) == trim_end_spec(
                v@.subrange(from as int, j as int),
                t,
            ),
        decreases j - from,
    {
        assert(v@.subrange(from as int, j as int).drop_last() == v@.subrange(
            from as int,
            j - 1,
        ));
        j = j - 1;
    }
    j
}

/// Bounds `(a, b)` such that `v[a..b]` is `v` trimmed of `t` at both ends.
pub fn trim_bounds(v: &Vec<char>, t: TrimSet) -> (r: (usize, usize))
    ensures
        r.0 <= r.1 <= v@.len(),
        trim_both_spec(v@, t) == v@.subrange(r.0 as int, r.1 as int),
        trim_start_spec(v@, t) == v@.subrange(r.0 as int, v@.len() as int),
{
    let a = skip_start(v, 0, v.len(), t);
    assert(v@.subrange(0, v@.len() as int) == v@);
    let b = skip_end(v, a, v.len(), t);
    (a, b)
}

/// `str::trim`: `s` without leading and trailing white space.
pub fn trim(s: &str) -> (r: String)
    ensures
        r@ == trim_spec(s@),
{
    let v = chars_of(s);
    let (a, b) = trim_bounds(&v, TrimSet::Whitespace);
    string_of_range(&v, a, b)
}

/// `s` trimmed of characters from `t` at both ends.
pub fn trim_set(s: &str, t: TrimSet) -> (r: String)
    ensures
        r@ == trim_both_spec(s@, t),
{
    let v = chars_of(s);
    let (a, b) = trim_bounds(&v, t);
    string_of_range(&v, a, b)
}

/// `s` trimmed of characters from `t` at its end only.
pub fn trim_end_set(s: &str, t: TrimSet) -> (r: String)
    ensures
        r@ == trim_end_spec(s@, t),
{
    let v = chars_of(s);
    let b = skip_end(&v, 0, v.len(), t);
    assert(v@.subrange(0, v@.len() as int) == v@);
    string_of_range(&v, 0, b)
}

// ---------------------------------------------------------------------------
// Searching
// ---------------------------------------------------------------------------

/// `needle` occurs in `hay` starting at position `i`.
pub open spec fn occurs_at(hay: Seq<char>, needle: Seq<char>, i: int) -> bool {
    &&& 0 <= i
    &&& i + needle.len() <= hay.len()
    &&& hay.subrange(i, i + needle.len()) == needle
}

/// `str::contains` with a string pattern.
pub open spec fn contains_spec(hay: Seq<char>, needle: Seq<char>) -> bool {
    exists|i: int| occurs_at(hay, needle, i)
}

/// `i` is the first position at which `needle` occurs in `hay`.
pub open spec fn is_first_occurrence(hay: Seq<char>, needle: Seq<char>, i: int) -> bool {
    &&& occurs_at(hay, needle, i)
    &&& forall|j: int| 0 <= j < i ==> !occurs_at(hay, needle, j)
}

pub open spec fn starts_with_spec(hay: Seq<char>, prefix: Seq<char>) -> bool {
    occurs_at(hay, prefix, 0)
}

pub open spec fn ends_with_spec(hay: Seq<char>, suffix: Seq<char>) -> bool {
    suffix.len() <= hay.len() && occurs_at(hay, suffix, hay.len() - suffix.len())
}

/// The first position of `c` in `s`, if any.
pub open spec fn first_index_of(s: Seq<char>, c: char, i: int) -> bool {
    0 <= i < s.len() && s[i] == c && forall|j: int| 0 <= j < i ==> s[j] != c
}

/// The last position of `c` in `s`, if any.
pub open spec fn last_index_of(s: Seq<char>, c: char, i: int) -> bool {
    0 <= i < s.len() && s[i] == c && forall|j: int| i < j < s.len() ==> s[j] != c
}

/// Whether `c` occurs in `s`.
pub open spec fn has_char(s: Seq<char>, c: char) -> bool {
    exists|i: int| 0 <= i < s.len() && s[i] == c
}

/// The first position of `c` in `s` (meaningful when `has_char(s, c)`).
pub open spec fn first_pos(s: Seq<char>, c: char) -> int {
    choose|i: int| first_index_of(s, c, i)
}

/// The last position of `c` in `s` (meaningful when `has_char(s, c)`).
pub open spec fn last_pos(s: Seq<char>, c: char) -> int {
    choose|i: int| last_index_of(s, c, i)
}

pub proof fn lemma_first_pos(s: Seq<char>, c: char, i: int)
    requires
        first_index_of(s, c, i),
    ensures
        first_pos(s, c) == i,
        has_char(s, c),
{
    let j = first_pos(s, c);
    assert(first_index_of(s, c, j));
    if j < i {
        assert(s[j] != c);
    }
    if i < j {
        assert(s[i] != c);
    }
}

pub proof fn lemma_last_pos(s: Seq<char>, c: char, i: int)
    requires
        last_index_of(s, c, i),
    ensures
        last_pos(s, c) == i,
        has_char(s, c),
{
    let j = last_pos(s, c);
    assert(last_index_of(s, c, j));
    if j < i {
        assert(s[i] != c);
    }
    if i < j {
        assert(s[j] != c);
    }
}

pub fn occurs_at_exec(hay: &Vec<char>, needle: &Vec<char>, i: usize) -> (r: bool)
    ensures
        r == occurs_at(hay@, needle@, i as int),
{
    if i > hay.len() || needle.len() > hay.len() - i {
        return false;
    }
    let mut k: usize = 0;
    while k < needle.len()
        invariant
            i + needle@.len() <= hay@.len(),
            hay@.len() == hay.len(),
            k <= needle@.len(),
            forall|j: int| 0 <= j < k ==> hay@[i + j] == needle@[j],
        decreases needle@.len() - k,
    {
        let at = i + k;
        if hay[at] != needle[k] {
            assert(hay@.subrange(i as int, i + needle@.len())[k as int] != needle@[k as int]);
            return false;
        }
        k = k + 1;
    }
    assert(hay@.subrange(i as int, i + needle@.len()) == needle@);
    true
}

pub fn find_chars(hay: &Vec<char>, needle: &Vec<char>) -> (r: Option<usize>)
    ensures
        match r {
            Some(i) => is_first_occurrence(hay@, needle@, i as int),
            None => !contains_spec(hay@, needle@),
        },
{
    if needle.len() > hay.len() {
        return None;
    }
    let last = hay.len() - needle.len();
    let mut i: usize = 0;
    while i <= last
        invariant
            last + needle@.len() == hay@.len(),
            i <= last,
            forall|j: int| 0 <= j < i ==> !occurs_at(hay@, needle@, j),
        decreases last + 1 - i,
    {
        if occurs_at_exec(hay, needle, i) {
            return Some(i);
        }
        if i == last {
            return None;
        }
        i = i + 1;
    }
    None
}

pub fn contains_chars(hay: &Vec<char>, needle: &Vec<char>) -> (r: bool)
    ensures
        r == contains_spec(hay@, needle@),
{
    find_chars(hay, needle).is_some()
}

/// `str::contains` with a string pattern.
pub fn contains_str(hay: &str, needle: &str) -> (r: bool)
    ensures
        r == contains_spec(hay@, needle@),
{
    contains_chars(&chars_of(hay), &chars_of(needle))
}

pub fn starts_with_chars(hay: &Vec<char>, prefix: &Vec<char>) -> (r: bool)
    ensures
        r == starts_with_spec(hay@, prefix@),
{
    occurs_at_exec(hay, prefix, 0)
}

pub fn ends_with_chars(hay: &Vec<char>, suffix: &Vec<char>) -> (r: bool)
    ensures
        r == ends_with_spec(hay@, suffix@),
{
    if suffix.len() > hay.len() {
        false
    } else {
        occurs_at_exec(hay, suffix, hay.len() - suffix.len())
    }
}



pub fn chars_eq(a: &Vec<char>, b: &Vec<char>) -> (r: bool)
    ensures
        r == (a@ == b@),
{
    if a.len() != b.len() {
        return false;
    }
    let r = occurs_at_exec(a, b, 0);
    assert(a@.subrange(0, b@.len() as int) == a@);
    r
}

/// `str` equality.
pub fn str_eq(a: &str, b: &str) -> (r: bool)
    ensures
        r == (a@ == b@),
{
    chars_eq(&chars_of(a), &chars_of(b))
}

pub fn find_char(s: &Vec<char>, c: char) -> (r: Option<usize>)
    ensures
        match r {
            Some(i) => first_index_of(s@, c, i as int),
            None => forall|j: int| 0 <= j < s@.len() ==> s@[j] != c,
        },
{
    let mut i: usize = 0;
    while i < s.len()
        invariant
            i <= s@.len(),
            forall|j: int| 0 <= j < i ==> s@[j] != c,
        decreases s@.len() - i,
    {
        if s[i] == c {
            return Some(i);
        }
        i = i + 1;
    }
    None
}

pub fn rfind_char(s: &Vec<char>, c: char) -> (r: Option<usize>)
    ensures
        match r {
            Some(i) => last_index_of(s@, c, i as int),
            None => forall|j: int| 0 <= j < s@.len() ==> s@[j] != c,
        },
{
    let mut i: usize = s.len();
    while i > 0
        invariant
            i <= s@.len(),
            forall|j: int| i <= j < s@.len() ==> s@[j] != c,
        decreases i,
    {
        if s[i - 1] == c {
            return Some(i - 1);
        }
        i = i - 1;
    }
    None
}

// ---------------------------------------------------------------------------
// Unicode case mapping (std)
// ---------------------------------------------------------------------------

/// Names what `str::to_lowercase` returns: the full Unicode lowercase mapping
/// of a string, which depends on the string alone.
pub uninterp spec fn unicode_lowercase(s: Seq<char>) -> Seq<char>;

/// Names what `str::to_uppercase` returns: the full Unicode uppercase mapping
/// of a string, which depends on the string alone.
pub uninterp spec fn unicode_uppercase(s: Seq<char>) -> Seq<char>;

/// Calls `str::to_lowercase`. The contract claims only that the result is
/// determined by the characters of `s`; which lowercase mapping Unicode
/// assigns to each character is left unsaid.
#[verifier::external_body]
pub(crate) fn to_lowercase(s: &str) -> (r: String)
    ensures
        r@ == unicode_lowercase(s@),
{
    s.to_lowercase()
}

/// Calls `str::to_uppercase`. The contract claims only that the result is
/// determined by the characters of `s`; which uppercase mapping Unicode
/// assigns to each character is left unsaid.
#[verifier::external_body]
pub(crate) fn to_uppercase(s: &str) -> (r: String)
    ensures
        r@ == unicode_uppercase(s@),
{
    s.to_uppercase()
}

// ---------------------------------------------------------------------------
// UTF-8 length and decimal rendering
// ---------------------------------------------------------------------------

/// The number of bytes of `c` in UTF-8.
pub open spec fn utf8_char_len(c: char) -> nat {
    if (c as u32) < 0x80 {
        1
    } else if (c as u32) < 0x800 {
        2
    } else if (c as u32) < 0x10000 {
        3
    } else {
        4
    }
}

/// The number of bytes of `s` in UTF-8, which `str::len` returns.
pub open spec fn utf8_len(s: Seq<char>) -> nat
    decreases s.len(),
{
    if s.len() == 0 {
        0
    } else {
        utf8_len(s.drop_last()) + utf8_char_len(s.last())
    }
}

pub fn utf8_char_len_exec(c: char) -> (r: usize)
    ensures
        r == utf8_char_len(c),
{
    let u = c as u32;
    if u < 0x80 {
        1
    } else if u < 0x800 {
        2
    } else if u < 0x10000 {
        3
    } else {
        4
    }
}

/// Whether `v` takes exactly `n` bytes in UTF-8.
pub fn utf8_len_is(v: &Vec<char>, n: usize) -> (r: bool)
    ensures
        r == (utf8_len(v@) == n),
{
    let mut total: usize = 0;
    let mut i: usize = 0;
    while i < v.len()
        invariant
            i <= v@.len(),
            total == utf8_len(v@.take(i as int)),
            total <= n,
        decreases v@.len() - i,
    {
        assert(v@.take(i + 1).drop_last() == v@.take(i as int));
        let c = utf8_char_len_exec(v[i]);
        if c > n - total {
            proof {
                lemma_utf8_len_prefix(v@, i + 1);
            }
            return false;
        }
        total = total + c;
        i = i + 1;
    }
    assert(v@.take(v@.len() as int) == v@);
    total == n
}

/// The UTF-8 length of a prefix is at most that of the whole.
pub proof fn lemma_utf8_len_prefix(s: Seq<char>, k: int)
    requires
        0 <= k <= s.len(),
    ensures
        utf8_len(s.take(k)) <= utf8_len(s),
    decreases s.len() - k,
{
    if k < s.len() {
        lemma_utf8_len_prefix(s, k + 1);
        assert(s.take(k + 1).drop_last() == s.take(k));
    } else {
        assert(s.take(k) == s);
    }
}

/// Taking more characters always takes more bytes.
pub proof fn lemma_utf8_len_take_strict(s: Seq<char>, j: int, k: int)
    requires
        0 <= j < k <= s.len(),
    ensures
        utf8_len(s.take(j)) < utf8_len(s.take(k)),
{
    let t = s.take(k);
    assert(s.take(j + 1).drop_last() == s.take(j));
    assert(t.take(j + 1) == s.take(j + 1));
    lemma_utf8_len_prefix(t, j + 1);
}

/// Byte offset `b` of the UTF-8 form of `s` falls between two characters (or
/// at either end), so that `&str` slicing may cut there.
pub open spec fn is_char_boundary(s: Seq<char>, b: int) -> bool {
    exists|k: int| 0 <= k <= s.len() && utf8_len(s.take(k)) == b
}

/// The number of characters of `s` that fill the first `b` bytes (meaningful
/// where `b` is a character boundary).
pub open spec fn char_index_of_byte(s: Seq<char>, b: int) -> int {
    choose|k: int| 0 <= k <= s.len() && utf8_len(s.take(k)) == b
}

pub proof fn lemma_char_index_of_byte(s: Seq<char>, k: int)
    requires
        0 <= k <= s.len(),
    ensures
        is_char_boundary(s, utf8_len(s.take(k)) as int),
        char_index_of_byte(s, utf8_len(s.take(k)) as int) == k,
{
    let b = utf8_len(s.take(k)) as int;
    assert(0 <= k <= s.len() && utf8_len(s.take(k)) == b);
    let c = char_index_of_byte(s, b);
    if c < k {
        lemma_utf8_len_take_strict(s, c, k);
    } else if k < c {
        lemma_utf8_len_take_strict(s, k, c);
    }
}

/// The number of bytes of the first `k` characters of `v` in UTF-8.
pub fn utf8_prefix_len(v: &Vec<char>, k: usize) -> (r: u128)
    requires
        k <= v@.len(),
    ensures
        r == utf8_len(v@.take(k as int)),
        r <= 4 * k,
{
    let mut total: u128 = 0;
    let mut i: usize = 0;
    while i < k
        invariant
            i <= k <= v@.len(),
            total == utf8_len(v@.take(i as int)),
            total <= 4 * i,
        decreases k - i,
    {
        assert(v@.take(i + 1).drop_last() == v@.take(i as int));
        let c = utf8_char_len_exec(v[i]);
        total = total + c as u128;
        i = i + 1;
    }
    total
}

/// How many characters of `v` fill exactly `b` bytes, if `b` is a character
/// boundary of `v`.
pub fn char_index_at_byte(v: &Vec<char>, b: u128) -> (r: Option<usize>)
    ensures
        match r {
            Some(k) => k <= v@.len() && is_char_boundary(v@, b as int) && char_index_of_byte(
                v@,
                b as int,
            ) == k,
            None => !is_char_boundary(v@, b as int),
        },
{
    let mut total: u128 = 0;
    let mut i: usize = 0;
    while i < v.len() && total < b
        invariant
            i <= v@.len(),
            total == utf8_len(v@.take(i as int)),
            total <= 4 * i,
            forall|j: int| 0 <= j < i ==> utf8_len(#[trigger] v@.take(j)) < b,
        decreases v@.len() - i,
    {
        assert(v@.take(i + 1).drop_last() == v@.take(i as int));
        let c = utf8_char_len_exec(v[i]);
        total = total + c as u128;
        i = i + 1;
    }
    if total == b {
        proof {
            lemma_char_index_of_byte(v@, i as int);
        }
        return Some(i);
    }
    proof {
        assert forall|k: int| 0 <= k <= v@.len() implies utf8_len(#[trigger] v@.take(k)) != b by {
            if k > i {
                lemma_utf8_len_take_strict(v@, i as int, k);
            }
        }
    }
    None
}

pub open spec fn digit_char(d: nat) -> char {
    ((d + 48) as u32) as char
}

/// The decimal digits of `n`, without leading zeros (`"0"` for zero).
pub open spec fn decimal_digits(n: nat) -> Seq<char>
    decreases n,
{
    if n < 10 {
        seq![digit_char(n)]
    } else {
        decimal_digits(n / 10).push(digit_char(n % 10))
    }
}

/// How `Display` renders an integer: an optional minus sign and its digits.
pub open spec fn decimal_spec(n: int) -> Seq<char> {
    if n < 0 {
        seq!['-'].add(decimal_digits((-n) as nat))
    } else {
        decimal_digits(n as nat)
    }
}

fn push_digits(s: &mut String, n: u64)
    ensures
        final(s)@ == old(s)@ + decimal_digits(n as nat),
    decreases n,
{
    if n >= 10 {
        push_digits(s, n / 10);
    }
    let d: u8 = (n % 10) as u8;
    s.push((d + 48) as char);
    assert((d + 48) as u32 == (d as nat + 48) as u32);
}

/// Appends the decimal rendering of `n` to `s`.
pub fn push_decimal(s: &mut String, n: i32)
    ensures
        final(s)@ == old(s)@ + decimal_spec(n as int),
{
    if n < 0 {
        s.push('-');
        let m: i64 = -(n as i64);
        push_digits(s, m as u64);
        assert(seq!['-'].add(decimal_digits((-n) as nat)) == seq!['-'] + decimal_digits(
            (-n) as nat,
        ));
    } else {
        push_digits(s, n as u64);
    }
}

} // verus!
