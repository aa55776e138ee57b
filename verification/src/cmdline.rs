//! Splitting Windows uninstall command lines into a program and its arguments.
use vstd::prelude::*;

use crate::text::{
    char_index_at_byte, char_index_of_byte, chars_of, contains_spec, find_chars,
    is_char_boundary, is_first_occurrence, is_whitespace, occurs_at, string_of, string_of_range,
    to_lowercase, trim, trim_spec, trim_start_spec, unicode_lowercase, utf8_len, utf8_prefix_len,
    TrimSet,
};

verus! {

/// The state of the argument tokenizer after reading a prefix of the input:
/// finished tokens, the token being read, and whether a quote is open.
pub type TokenState = (Seq<Seq<char>>, Seq<char>, bool);

pub open spec fn is_blank(c: char) -> bool {
    c == ' ' || c == '\t'
}

/// One step of the tokenizer: a quote toggles quoting, a space or tab outside
/// quotes ends the current token (if it is not empty), anything else is kept.
pub open spec fn token_step(st: TokenState, c: char) -> TokenState {
    if c == '"' {
        (st.0, st.1, !st.2)
    } else if is_blank(c) && !st.2 {
        if st.1.len() > 0 {
            (st.0.push(st.1), Seq::empty(), st.2)
        } else {
            st
        }
    } else {
        (st.0, st.1.push(c), st.2)
    }
}

/// The tokenizer state after reading all of `s`.
pub open spec fn token_scan(s: Seq<char>) -> TokenState
    decreases s.len(),
{
    if s.len() == 0 {
        (Seq::empty(), Seq::empty(), false)
    } else {
        token_step(token_scan(s.drop_last()), s.last())
    }
}

/// The argument tokens of `s`: blank-separated, with double quotes grouping
/// blanks into a token and themselves dropped.
pub open spec fn arg_tokens(s: Seq<char>) -> Seq<Seq<char>> {
    let st = token_scan(s);
    if st.1.len() > 0 {
        st.0.push(st.1)
    } else {
        st.0
    }
}

pub open spec fn string_views(v: Seq<String>) -> Seq<Seq<char>> {
    v.map_values(|s: String| s@)
}

/// Splits `input` into blank-separated tokens; double quotes group blanks
/// into a token and are removed.
pub fn split_arg_tokens(input: &str) -> (r: Vec<String>)
    ensures
        string_views(r@) == arg_tokens(input@),
{
    let v = chars_of(input);
    let mut parts: Vec<String> = Vec::new();
    let mut current = String::new();
    let mut in_quotes = false;
    let mut i: usize = 0;
    while i < v.len()
        invariant
            v@ == input@,
            i <= v@.len(),
            (string_views(parts@), current@, in_quotes) == token_scan(v@.take(i as int)),
        decreases v@.len() - i,
    {
        let c = v[i];
        let ghost before = (string_views(parts@), current@, in_quotes);
        assert(v@.take(i + 1).drop_last() == v@.take(i as int));
        if c == '"' {
            in_quotes = !in_quotes;
        } else if (c == ' ' || c == '\t') && !in_quotes {
            if current.unicode_len() > 0 {
                let done = current;
                current = String::new();
                parts.push(done);
                assert(string_views(parts@) == before.0.push(before.1));
            }
        } else {
            current.push(c);
        }
        i = i + 1;
    }
    assert(v@.take(v@.len() as int) == v@);
    if current.unicode_len() > 0 {
        let ghost before = string_views(parts@);
        parts.push(current);
        assert(string_views(parts@) == before.push(token_scan(input@).1));
    }
    parts
}

/// A command line split into the program and its arguments.
pub open spec fn split_first(t: Seq<Seq<char>>) -> Option<(Seq<char>, Seq<Seq<char>>)> {
    if t.len() == 0 {
        None
    } else {
        Some((t[0], t.drop_first()))
    }
}

pub open spec fn split_view(r: Option<(String, Vec<String>)>) -> Option<(Seq<char>, Seq<Seq<char>>)> {
    match r {
        Some((p, a)) => Some((p@, string_views(a@))),
        None => None,
    }
}

fn first_and_rest(parts: Vec<String>) -> (r: Option<(String, Vec<String>)>)
    ensures
        split_view(r) == split_first(string_views(parts@)),
{
    if parts.len() == 0 {
        return None;
    }
    let mut parts = parts;
    let ghost all = string_views(parts@);
    let program = parts.remove(0);
    assert(string_views(parts@) == all.drop_first());
    Some((program, parts))
}

/// Splits a command line that starts with a quoted program path: the first
/// token is the program, the others are its arguments.
pub fn split_quoted_command_line(input: &str) -> (r: Option<(String, Vec<String>)>)
    ensures
        split_view(r) == split_first(arg_tokens(input@)),
{
    first_and_rest(split_arg_tokens(input))
}

/// The executable extensions that end an unquoted program path, in the order
/// in which they are tried.
pub open spec fn program_extensions() -> Seq<Seq<char>> {
    seq![".exe"@, ".cmd"@, ".bat"@, ".com"@]
}

/// The first position at which `needle` occurs in `hay` (meaningful when it occurs).
pub open spec fn first_position(hay: Seq<char>, needle: Seq<char>) -> int {
    choose|i: int| is_first_occurrence(hay, needle, i)
}

pub proof fn lemma_first_position(hay: Seq<char>, needle: Seq<char>, i: int)
    requires
        is_first_occurrence(hay, needle, i),
    ensures
        first_position(hay, needle) == i,
{
    let j = first_position(hay, needle);
    assert(is_first_occurrence(hay, needle, j));
    if j < i {
        assert(!occurs_at(hay, needle, j));
    } else if i < j {
        assert(!occurs_at(hay, needle, i));
    }
}



/// The first executable extension from `exts` (tried in order) that occurs
/// in `lowered`, with the position of its first occurrence there.
pub open spec fn first_extension_match(lowered: Seq<char>, exts: Seq<Seq<char>>) -> Option<
    (int, Seq<char>),
>
    decreases exts.len(),
{
    if exts.len() == 0 {
        None
    } else if contains_spec(lowered, exts[0]) {
        Some((first_position(lowered, exts[0]), exts[0]))
    } else {
        first_extension_match(lowered, exts.drop_first())
    }
}

/// The byte offset at which an unquoted program path ends, given `lowered`,
/// the lowercase form of its text: the UTF-8 length of `lowered` before the
/// first executable extension found in it, plus the extension's length
/// (every extension is ASCII, so its length in characters is its length in
/// bytes).
pub open spec fn lowered_program_byte_end(lowered: Seq<char>) -> Option<int> {
    match first_extension_match(lowered, program_extensions()) {
        Some((i, ext)) => Some((utf8_len(lowered.take(i)) + ext.len()) as int),
        None => None,
    }
}

/// The byte offset at which an unquoted program path in `s` ends, found in
/// the Unicode lowercase form of `s`. That form may be longer or shorter
/// than `s`, so this offset is not always a place in `s`.
pub open spec fn program_byte_end(s: Seq<char>) -> Option<int> {
    lowered_program_byte_end(unicode_lowercase(s))
}

/// Whether `s` can be cut where its program path ends: it names no
/// executable, or the byte offset found falls on a character boundary of `s`.
/// Cutting elsewhere is a slicing panic.
pub open spec fn program_end_on_boundary(s: Seq<char>) -> bool {
    match program_byte_end(s) {
        Some(b) => is_char_boundary(s, b),
        None => true,
    }
}

/// Where an unquoted program path ends in `s`, counted in characters, if it
/// names an executable (meaningful where `program_end_on_boundary(s)`).
pub open spec fn unquoted_program_end(s: Seq<char>) -> Option<int> {
    match program_byte_end(s) {
        Some(b) => Some(char_index_of_byte(s, b)),
        None => None,
    }
}

/// Whether a whole command line can be split without a slicing panic: once
/// trimmed it is empty, starts with a quote, or can be cut at its program end.
pub open spec fn command_line_cuts_cleanly(s: Seq<char>) -> bool {
    let t = trim_spec(s);
    t.len() == 0 || t[0] == '"' || program_end_on_boundary(t)
}

/// The outcome of looking for the end of an unquoted program path.
#[derive(Debug, Clone, Copy, PartialEq, Eq, Structural)]
pub enum ProgramEnd {
    /// No executable extension occurs in the text.
    NoExtension,
    /// The program path is this many characters long.
    At(usize),
    /// The byte offset found is not a character boundary of the text.
    NotACharBoundary,
}

/// Where the unquoted program path of `v` ends, given `lowered`, the
/// lowercase form of `v`: the byte offset found in `lowered` (see
/// `lowered_program_byte_end`), counted in characters of `v` when it falls
/// on one of its character boundaries.
pub fn program_end_in(v: &Vec<char>, lowered: &Vec<char>) -> (r: ProgramEnd)
    ensures
        match r {
            ProgramEnd::NoExtension => lowered_program_byte_end(lowered@) is None,
            ProgramEnd::At(e) => {
                &&& lowered_program_byte_end(lowered@) matches Some(b)
                &&& is_char_boundary(v@, b)
                &&& char_index_of_byte(v@, b) == e
                &&& e <= v@.len()
            },
            ProgramEnd::NotACharBoundary => {
                &&& lowered_program_byte_end(lowered@) matches Some(b)
                &&& !is_char_boundary(v@, b)
            },
        },
{
    let exts: [&str; 4] = [".exe", ".cmd", ".bat", ".com"];
    let ghost ext_views = program_extensions();
    assert(exts@.map_values(|e: &str| e@) == ext_views);
    let mut k: usize = 0;
    assert(ext_views.skip(0) == ext_views);
    while k < 4
        invariant
            k <= 4,
            ext_views == program_extensions(),
            forall|j: int| 0 <= j < 4 ==> #[trigger] exts@[j]@ == ext_views[j],
            first_extension_match(lowered@, ext_views) == first_extension_match(
                lowered@,
                ext_views.skip(k as int),
            ),
        decreases 4 - k,
    {
        let ext = chars_of(exts[k]);
        assert(ext_views.skip(k as int)[0] == ext@);
        assert(ext_views.skip(k as int).drop_first() == ext_views.skip(k + 1));
        match find_chars(lowered, &ext) {
            Some(idx) => {
                proof {
                    lemma_first_position(lowered@, ext@, idx as int);
                }
                let b = utf8_prefix_len(lowered, idx) + ext.len() as u128;
                assert(lowered_program_byte_end(lowered@) == Some(b as int));
                return match char_index_at_byte(v, b) {
                    Some(e) => ProgramEnd::At(e),
                    None => ProgramEnd::NotACharBoundary,
                };
            },
            None => {},
        }
        k = k + 1;
    }
    assert(ext_views.skip(4).len() == 0);
    ProgramEnd::NoExtension
}

/// Finds where an unquoted program path ends, as `str::find` finds it in
/// `str::to_lowercase` of the text (see `program_byte_end`).
pub fn find_program_end(v: &Vec<char>) -> (r: ProgramEnd)
    ensures
        match r {
            ProgramEnd::NoExtension => program_byte_end(v@) is None,
            ProgramEnd::At(e) => {
                &&& program_end_on_boundary(v@)
                &&& unquoted_program_end(v@) == Some(e as int)
                &&& e <= v@.len()
            },
            ProgramEnd::NotACharBoundary => !program_end_on_boundary(v@),
        },
{
    let lowered = chars_of(to_lowercase(string_of(v).as_str()).as_str());
    program_end_in(v, &lowered)
}

/// Whether `command_line` can be split without a slicing panic (see
/// `command_line_cuts_cleanly`).
pub fn cuts_cleanly(command_line: &str) -> (r: bool)
    ensures
        r == command_line_cuts_cleanly(command_line@),
{
    let t = trim(command_line);
    let v = chars_of(t.as_str());
    if v.len() == 0 || v[0] == '"' {
        return true;
    }
    match find_program_end(&v) {
        ProgramEnd::NotACharBoundary => false,
        _ => true,
    }
}

/// The program path and remaining text of an unquoted command line that
/// names an executable: the text up to the end of the first `.exe` (else
/// `.cmd`, `.bat`, `.com`) found in its lowercase form, and what follows
/// without leading white space. Where the lowercase form differs in length
/// from the text, the cut falls where the byte offset found lands in the
/// original text.
pub fn split_unquoted_exe_path<'a>(input: &'a str) -> (r: Option<(String, &'a str)>)
    requires
        program_end_on_boundary(input@),
    ensures
        match r {
            Some((program, rest)) => {
                &&& unquoted_program_end(input@) is Some
                &&& program@ == input@.take(unquoted_program_end(input@)->0)
                &&& rest@ == trim_start_spec(
                    input@.skip(unquoted_program_end(input@)->0),
                    TrimSet::Whitespace,
                )
            },
            None => unquoted_program_end(input@) is None,
        },
{
    let v = chars_of(input);
    match find_program_end(&v) {
        ProgramEnd::At(end) => {
            let program = string_of_range(&v, 0, end);
            let a = skip_start_at(&v, end);
            let rest = input.substring_char(a, v.len());
            assert(v@.subrange(0, end as int) == input@.take(end as int));
            Some((program, rest))
        },
        _ => None,
    }
}

/// The start of `v[from..]` once its leading white space is dropped.
pub fn skip_start_at(v: &Vec<char>, from: usize) -> (r: usize)
    requires
        from <= v@.len(),
    ensures
        from <= r <= v@.len(),
        trim_start_spec(v@.skip(from as int), TrimSet::Whitespace) == v@.subrange(
            r as int,
            v@.len() as int,
        ),
{
    let mut i = from;
    while i < v.len() && is_whitespace(v[i])
        invariant
            from <= i <= v@.len(),
            trim_start_spec(v@.skip(from as int), TrimSet::Whitespace) == trim_start_spec(
                v@.skip(i as int),
                TrimSet::Whitespace,
            ),
        decreases v@.len() - i,
    {
        assert(v@.skip(i as int).drop_first() == v@.skip(i + 1));
        i = i + 1;
    }
    assert(v@.skip(i as int) == v@.subrange(i as int, v@.len() as int));
    i
}

/// How `split_command_line` splits `s`.
pub open spec fn split_command_line_spec(s: Seq<char>) -> Option<(Seq<char>, Seq<Seq<char>>)> {
    let t = trim_spec(s);
    if t.len() == 0 {
        None
    } else if t[0] == '"' {
        split_first(arg_tokens(t))
    } else {
        match unquoted_program_end(t) {
            Some(e) => Some(
                (t.take(e), arg_tokens(trim_start_spec(t.skip(e), TrimSet::Whitespace))),
            ),
            None => split_first(arg_tokens(t)),
        }
    }
}

/// Splits a Windows-style command line into program and arguments.
/// A command line that starts with a quote is tokenized as a whole; otherwise
/// the program runs up to its executable extension (so unquoted paths with
/// spaces work), and without one the first token is the program. The
/// command line must cut cleanly (`command_line_cuts_cleanly`): elsewhere
/// the cut would fall inside a character.
pub fn split_command_line(input: &str) -> (r: Option<(String, Vec<String>)>)
    requires
        command_line_cuts_cleanly(input@),
    ensures
        split_view(r) == split_command_line_spec(input@),
{
    let trimmed = trim(input);
    let t = trimmed.as_str();
    let tv = chars_of(t);
    if tv.len() == 0 {
        return None;
    }
    if tv[0] == '"' {
        return split_quoted_command_line(t);
    }
    match split_unquoted_exe_path(t) {
        Some((program, rest)) => {
            let args = split_arg_tokens(rest);
            Some((program, args))
        },
        None => first_and_rest(split_arg_tokens(t)),
    }
}

/// All tokens, joined together.
pub open spec fn concat_all(t: Seq<Seq<char>>) -> Seq<char>
    decreases t.len(),
{
    if t.len() == 0 {
        Seq::empty()
    } else {
        concat_all(t.drop_last()) + t.last()
    }
}

/// The characters that tokenizing keeps from `s`, and whether a quote is
/// open at its end: quotes, and blanks outside quotes, are dropped.
pub open spec fn kept_chars(s: Seq<char>) -> (Seq<char>, bool)
    decreases s.len(),
{
    if s.len() == 0 {
        (Seq::empty(), false)
    } else {
        let (k, q) = kept_chars(s.drop_last());
        let c = s.last();
        if c == '"' {
            (k, !q)
        } else if is_blank(c) && !q {
            (k, q)
        } else {
            (k.push(c), q)
        }
    }
}

proof fn lemma_concat_push(t: Seq<Seq<char>>, x: Seq<char>)
    ensures
        concat_all(t.push(x)) == concat_all(t) + x,
{
    assert(t.push(x).drop_last() == t);
}

proof fn lemma_token_scan_keeps(s: Seq<char>)
    ensures
        concat_all(token_scan(s).0) + token_scan(s).1 == kept_chars(s).0,
        token_scan(s).2 == kept_chars(s).1,
        forall|i: int| 0 <= i < token_scan(s).0.len() ==> (#[trigger] token_scan(s).0[i]).len() > 0,
    decreases s.len(),
{
    if s.len() > 0 {
        let prev = s.drop_last();
        lemma_token_scan_keeps(prev);
        let st = token_scan(prev);
        let c = s.last();
        if c == '"' {
        } else if is_blank(c) && !st.2 {
            if st.1.len() > 0 {
                lemma_concat_push(st.0, st.1);
                assert(concat_all(st.0.push(st.1)) + Seq::<char>::empty() == concat_all(st.0) + st.1);
            }
        } else {
            assert(concat_all(st.0) + st.1.push(c) == (concat_all(st.0) + st.1).push(c));
        }
    }
}

/// Tokenizing loses nothing but the separators: every token is non-empty,
/// and the tokens joined together are the input without its double quotes
/// and without the spaces and tabs that lie outside quotes.
pub proof fn law_tokens_keep_all_other_characters(s: Seq<char>)
    ensures
        concat_all(arg_tokens(s)) == kept_chars(s).0,
        forall|i: int| 0 <= i < arg_tokens(s).len() ==> (#[trigger] arg_tokens(s)[i]).len() > 0,
{
    lemma_token_scan_keeps(s);
    let st = token_scan(s);
    if st.1.len() > 0 {
        lemma_concat_push(st.0, st.1);
    } else {
        assert(concat_all(st.0) + st.1 == concat_all(st.0));
    }
}

} // verus!
