//! The parts of a Windows path that the crate reads: its file name, its
//! parent, and how many ordinary components it has.
//!
//! The model follows `std::path` on Windows. A path may begin with a prefix:
//! a drive (`C:`); a share `\\server\share` whose two names are not empty; a
//! device `\\.\name`; or a verbatim prefix, which begins with exactly `\\?\`
//! and spans either `UNC\server\share` or the next name. In a verbatim path
//! only `\` separates components and `.` is a component of its own; in any
//! other path `\` and `/` both separate and `.` components are dropped, but
//! for a `.` at the very start of a path with neither prefix nor root. A
//! separator right after the prefix is the root; `..` is the parent-directory
//! component.
use vstd::prelude::*;

use crate::text::string_of_range;

verus! {

pub open spec fn is_sep(c: char) -> bool {
    c == '\\' || c == '/'
}

pub open spec fn is_ascii_letter(c: char) -> bool {
    ('a' <= c && c <= 'z') || ('A' <= c && c <= 'Z')
}

/// Whether `s` begins with the verbatim marker `\\?\`, written with
/// backslashes only.
pub open spec fn is_verbatim(s: Seq<char>) -> bool {
    s.len() >= 4 && s[0] == '\\' && s[1] == '\\' && s[2] == '?' && s[3] == '\\'
}

/// Whether `c` separates components; in a verbatim path only `\` does.
pub open spec fn is_sep_in(verbatim: bool, c: char) -> bool {
    if verbatim {
        c == '\\'
    } else {
        is_sep(c)
    }
}

/// The first separator at or after `i`, or the end of `s`.
pub open spec fn next_sep(s: Seq<char>, verbatim: bool, i: int) -> int
    decreases s.len() - i,
{
    if i < 0 || i >= s.len() {
        s.len() as int
    } else if is_sep_in(verbatim, s[i]) {
        i
    } else {
        next_sep(s, verbatim, i + 1)
    }
}

/// Whether `s` starts with two separators of either kind.
pub open spec fn starts_with_two_seps(s: Seq<char>) -> bool {
    s.len() >= 2 && is_sep(s[0]) && is_sep(s[1])
}

/// Whether the prefix of `s` is a drive such as `C:`, the one prefix that
/// brings no root of its own.
pub open spec fn is_drive_prefix(s: Seq<char>) -> bool {
    s.len() >= 2 && is_ascii_letter(s[0]) && s[1] == ':'
}

/// The length of the path prefix of `s` (0 when it has none).
pub open spec fn prefix_len(s: Seq<char>) -> int {
    if starts_with_two_seps(s) {
        if is_verbatim(s) {
            if s.len() >= 8 && s[4] == 'U' && s[5] == 'N' && s[6] == 'C' && is_sep(s[7]) {
                let a = next_sep(s, true, 8);
                if a >= s.len() {
                    s.len() as int
                } else {
                    let b = next_sep(s, true, a + 1);
                    if b == a + 1 {
                        a
                    } else {
                        b
                    }
                }
            } else {
                next_sep(s, true, 4)
            }
        } else if s.len() >= 4 && s[2] == '.' && is_sep(s[3]) {
            next_sep(s, false, 4)
        } else {
            let a = next_sep(s, false, 2);
            if a == 2 || a >= s.len() {
                0
            } else {
                let b = next_sep(s, false, a + 1);
                if b == a + 1 {
                    0
                } else {
                    b
                }
            }
        }
    } else if is_drive_prefix(s) {
        2
    } else {
        0
    }
}

/// Whether a separator follows the prefix right away.
pub open spec fn has_physical_root(s: Seq<char>) -> bool {
    let p = prefix_len(s);
    0 <= p < s.len() && is_sep(s[p])
}

/// Whether the path is rooted: every prefix but a drive brings a root.
pub open spec fn has_root(s: Seq<char>) -> bool {
    has_physical_root(s) || (prefix_len(s) > 0 && !is_drive_prefix(s))
}

/// Whether an unrooted path starts, after its prefix, with a `.` component.
pub open spec fn starts_with_cur_dir(s: Seq<char>) -> bool {
    let p = prefix_len(s);
    &&& !has_root(s)
    &&& 0 <= p < s.len()
    &&& s[p] == '.'
    &&& (p + 1 == s.len() || is_sep(s[p + 1]))
}

/// The end of the prefix and of the root separator that follows it, if any.
pub open spec fn root_end(s: Seq<char>) -> int {
    prefix_len(s) + if has_physical_root(s) {
        1int
    } else {
        0int
    }
}

/// Where the ordinary components begin: after prefix, root and a leading `.`.
pub open spec fn body_start(s: Seq<char>) -> int {
    root_end(s) + if starts_with_cur_dir(s) {
        1int
    } else {
        0int
    }
}

/// The end of `s[lo..hi]` once trailing empty components and, outside
/// verbatim paths, trailing `.` components are dropped.
pub open spec fn trim_tail(s: Seq<char>, verbatim: bool, lo: int, hi: int) -> int
    decreases hi - lo,
{
    if hi > lo && is_sep_in(verbatim, s[hi - 1]) {
        trim_tail(s, verbatim, lo, hi - 1)
    } else if hi > lo && !verbatim && s[hi - 1] == '.' && (hi - 1 == lo || is_sep(s[hi - 2])) {
        trim_tail(s, verbatim, lo, hi - 1)
    } else {
        hi
    }
}

/// The start of the component of `s[lo..j]` that ends at `j`.
pub open spec fn seg_start(s: Seq<char>, verbatim: bool, lo: int, j: int) -> int
    decreases j - lo,
{
    if j > lo && !is_sep_in(verbatim, s[j - 1]) {
        seg_start(s, verbatim, lo, j - 1)
    } else {
        j
    }
}

pub proof fn lemma_seg_start_bounds(s: Seq<char>, verbatim: bool, lo: int, j: int)
    requires
        lo <= j,
    ensures
        lo <= seg_start(s, verbatim, lo, j) <= j,
    decreases j - lo,
{
    if j > lo && !is_sep_in(verbatim, s[j - 1]) {
        lemma_seg_start_bounds(s, verbatim, lo, j - 1);
    }
}

/// Whether a component is an ordinary name (not empty, `.` or `..`).
pub open spec fn is_normal_component(seg: Seq<char>) -> bool {
    seg.len() > 0 && seg != seq!['.'] && seg != seq!['.', '.']
}

/// `Path::file_name`: the last component when it is an ordinary name.
pub open spec fn file_name_spec(s: Seq<char>) -> Option<Seq<char>> {
    let vb = is_verbatim(s);
    let lo = body_start(s);
    let e = trim_tail(s, vb, lo, s.len() as int);
    let seg = s.subrange(seg_start(s, vb, lo, e), e);
    if e > lo && is_normal_component(seg) {
        Some(seg)
    } else {
        None
    }
}

/// `Path::parent`: the path without its last component. Where only a prefix
/// and a root are left there is none; a path that is just a leading `.` has
/// the empty path as its parent.
pub open spec fn parent_spec(s: Seq<char>) -> Option<Seq<char>> {
    let vb = is_verbatim(s);
    let lo = body_start(s);
    let e = trim_tail(s, vb, lo, s.len() as int);
    if e > lo {
        Some(s.take(trim_tail(s, vb, lo, seg_start(s, vb, lo, e))))
    } else if prefix_len(s) == 0 && starts_with_cur_dir(s) {
        Some(Seq::empty())
    } else {
        None
    }
}

/// The number of ordinary components in `s[lo..hi]`.
pub open spec fn normal_count_in(s: Seq<char>, verbatim: bool, lo: int, hi: int) -> nat
    decreases hi - lo,
{
    if hi <= lo {
        0
    } else {
        let k = seg_start(s, verbatim, lo, hi);
        proof {
            lemma_seg_start_bounds(s, verbatim, lo, hi);
        }
        let here: nat = if is_normal_component(s.subrange(k, hi)) {
            1
        } else {
            0
        };
        if k > lo {
            here + normal_count_in(s, verbatim, lo, k - 1)
        } else {
            here
        }
    }
}

/// The number of `Component::Normal` items of the path `s`.
pub open spec fn normal_count(s: Seq<char>) -> nat {
    normal_count_in(s, is_verbatim(s), root_end(s), s.len() as int)
}

pub fn is_sep_exec(c: char) -> (r: bool)
    ensures
        r == is_sep(c),
{
    c == '\\' || c == '/'
}

fn is_sep_in_exec(verbatim: bool, c: char) -> (r: bool)
    ensures
        r == is_sep_in(verbatim, c),
{
    if verbatim {
        c == '\\'
    } else {
        is_sep_exec(c)
    }
}

fn is_verbatim_exec(s: &Vec<char>) -> (r: bool)
    ensures
        r == is_verbatim(s@),
{
    s.len() >= 4 && s[0] == '\\' && s[1] == '\\' && s[2] == '?' && s[3] == '\\'
}

fn is_drive_prefix_exec(s: &Vec<char>) -> (r: bool)
    ensures
        r == is_drive_prefix(s@),
{
    s.len() >= 2 && (('a' <= s[0] && s[0] <= 'z') || ('A' <= s[0] && s[0] <= 'Z')) && s[1] == ':'
}

fn next_sep_exec(s: &Vec<char>, verbatim: bool, i: usize) -> (r: usize)
    requires
        i <= s@.len(),
    ensures
        r == next_sep(s@, verbatim, i as int),
        i <= r <= s@.len(),
{
    let mut j = i;
    while j < s.len() && !is_sep_in_exec(verbatim, s[j])
        invariant
            i <= j <= s@.len(),
            next_sep(s@, verbatim, i as int) == next_sep(s@, verbatim, j as int),
        decreases s@.len() - j,
    {
        j = j + 1;
    }
    j
}

pub fn prefix_len_exec(s: &Vec<char>) -> (r: usize)
    ensures
        r == prefix_len(s@),
        r <= s@.len(),
{
    if s.len() >= 2 && is_sep_exec(s[0]) && is_sep_exec(s[1]) {
        if is_verbatim_exec(s) {
            if s.len() >= 8 && s[4] == 'U' && s[5] == 'N' && s[6] == 'C' && is_sep_exec(s[7]) {
                let a = next_sep_exec(s, true, 8);
                if a >= s.len() {
                    s.len()
                } else {
                    let b = next_sep_exec(s, true, a + 1);
                    if b == a + 1 {
                        a
                    } else {
                        b
                    }
                }
            } else {
                next_sep_exec(s, true, 4)
            }
        } else if s.len() >= 4 && s[2] == '.' && is_sep_exec(s[3]) {
            next_sep_exec(s, false, 4)
        } else {
            let a = next_sep_exec(s, false, 2);
            if a == 2 || a >= s.len() {
                0
            } else {
                let b = next_sep_exec(s, false, a + 1);
                if b == a + 1 {
                    0
                } else {
                    b
                }
            }
        }
    } else if is_drive_prefix_exec(s) {
        2
    } else {
        0
    }
}

fn has_physical_root_exec(s: &Vec<char>) -> (r: bool)
    ensures
        r == has_physical_root(s@),
{
    let p = prefix_len_exec(s);
    p < s.len() && is_sep_exec(s[p])
}

fn starts_with_cur_dir_exec(s: &Vec<char>) -> (r: bool)
    ensures
        r == starts_with_cur_dir(s@),
{
    let p = prefix_len_exec(s);
    let rooted = has_physical_root_exec(s) || (p > 0 && !is_drive_prefix_exec(s));
    !rooted && p < s.len() && s[p] == '.' && (p + 1 == s.len() || is_sep_exec(s[p + 1]))
}

pub fn root_end_exec(s: &Vec<char>) -> (r: usize)
    ensures
        r == root_end(s@),
        prefix_len(s@) <= r <= s@.len(),
{
    let p = prefix_len_exec(s);
    if p < s.len() && has_physical_root_exec(s) {
        p + 1
    } else {
        p
    }
}

fn body_start_exec(s: &Vec<char>) -> (r: usize)
    ensures
        r == body_start(s@),
        root_end(s@) <= r <= s@.len(),
{
    let re = root_end_exec(s);
    if starts_with_cur_dir_exec(s) {
        re + 1
    } else {
        re
    }
}

fn trim_tail_exec(s: &Vec<char>, verbatim: bool, lo: usize, hi: usize) -> (r: usize)
    requires
        lo <= hi <= s@.len(),
    ensures
        r == trim_tail(s@, verbatim, lo as int, hi as int),
        lo <= r <= hi,
{
    let mut j = hi;
    while j > lo && (is_sep_in_exec(verbatim, s[j - 1]) || (!verbatim && s[j - 1] == '.' && (j
        - 1 == lo || is_sep_exec(s[j - 2]))))
        invariant
            lo <= j <= hi <= s@.len(),
            trim_tail(s@, verbatim, lo as int, hi as int) == trim_tail(
                s@,
                verbatim,
                lo as int,
                j as int,
            ),
        decreases j - lo,
    {
        j = j - 1;
    }
    j
}

fn seg_start_exec(s: &Vec<char>, verbatim: bool, lo: usize, hi: usize) -> (r: usize)
    requires
        lo <= hi <= s@.len(),
    ensures
        r == seg_start(s@, verbatim, lo as int, hi as int),
        lo <= r <= hi,
{
    let mut j = hi;
    while j > lo && !is_sep_in_exec(verbatim, s[j - 1])
        invariant
            lo <= j <= hi <= s@.len(),
            seg_start(s@, verbatim, lo as int, hi as int) == seg_start(
                s@,
                verbatim,
                lo as int,
                j as int,
            ),
        decreases j - lo,
    {
        j = j - 1;
    }
    j
}

fn is_normal_exec(s: &Vec<char>, k: usize, hi: usize) -> (r: bool)
    requires
        k <= hi <= s@.len(),
    ensures
        r == is_normal_component(s@.subrange(k as int, hi as int)),
{
    let n = hi - k;
    let ghost seg = s@.subrange(k as int, hi as int);
    if n == 0 {
        false
    } else if n == 1 && s[k] == '.' {
        assert(seg == seq!['.']);
        false
    } else if n == 2 && s[k] == '.' && s[k + 1] == '.' {
        assert(seg == seq!['.', '.']);
        false
    } else {
        assert(n == 1 ==> seg != seq!['.'] && seg != seq!['.', '.']) by {
            if n == 1 {
                assert(seg[0] == s@[k as int]);
                assert(seq!['.', '.'].len() == 2);
            }
        }
        assert(n == 2 ==> seg != seq!['.', '.'] && seg != seq!['.']) by {
            if n == 2 {
                assert(seg[0] == s@[k as int]);
                assert(seg[1] == s@[k + 1]);
                assert(seq!['.'].len() == 1);
            }
        }
        assert(n > 2 ==> seg.len() > 2);
        true
    }
}

/// `Path::file_name` on a Windows path.
pub fn file_name(s: &Vec<char>) -> (r: Option<String>)
    ensures
        match r {
            Some(n) => file_name_spec(s@) == Some(n@),
            None => file_name_spec(s@) is None,
        },
{
    let vb = is_verbatim_exec(s);
    let lo = body_start_exec(s);
    let e = trim_tail_exec(s, vb, lo, s.len());
    let k = seg_start_exec(s, vb, lo, e);
    if e <= lo || !is_normal_exec(s, k, e) {
        return None;
    }
    Some(string_of_range(s, k, e))
}

/// `Path::parent` on a Windows path.
pub fn parent(s: &Vec<char>) -> (r: Option<String>)
    ensures
        match r {
            Some(p) => parent_spec(s@) == Some(p@),
            None => parent_spec(s@) is None,
        },
{
    let vb = is_verbatim_exec(s);
    let lo = body_start_exec(s);
    let e = trim_tail_exec(s, vb, lo, s.len());
    if e > lo {
        let k = seg_start_exec(s, vb, lo, e);
        let end = trim_tail_exec(s, vb, lo, k);
        let p = string_of_range(s, 0, end);
        assert(s@.subrange(0, end as int) == s@.take(end as int));
        Some(p)
    } else if prefix_len_exec(s) == 0 && starts_with_cur_dir_exec(s) {
        Some(String::new())
    } else {
        None
    }
}

/// The number of ordinary components of a Windows path.
pub fn normal_component_count(s: &Vec<char>) -> (r: usize)
    ensures
        r == normal_count(s@),
{
    let vb = is_verbatim_exec(s);
    let lo = root_end_exec(s);
    let mut hi = s.len();
    let mut count: usize = 0;
    loop
        invariant
            lo <= hi <= s@.len(),
            vb == is_verbatim(s@),
            lo == root_end(s@),
            count + normal_count_in(s@, vb, lo as int, hi as int) == normal_count(s@),
            count <= s@.len() - hi,
        decreases hi,
    {
        if hi <= lo {
            return count;
        }
        let k = seg_start_exec(s, vb, lo, hi);
        let here = is_normal_exec(s, k, hi);
        assert(s@.len() == s.len());
        if here {
            count = count + 1;
        }
        if k > lo {
            hi = k - 1;
        } else {
            return count;
        }
    }
}

} // verus!
