//! Deciding which folder to measure for a program without a recorded size,
//! and turning what was measured into size updates.
use vstd::prelude::*;

use crate::cmdline::{
    command_line_cuts_cleanly, cuts_cleanly, find_program_end, first_position, lemma_first_position,
    unquoted_program_end, ProgramEnd,
};
use crate::programs::opt_view;
use crate::text::{
    ascii_lower, chars_of, contains_chars, contains_spec, ends_with_chars, ends_with_spec,
    find_char, find_chars, first_pos, has_char,
    is_whitespace, is_whitespace_spec, last_index_of, last_pos, lemma_first_pos, lemma_last_pos,
    rfind_char, starts_with_chars, starts_with_spec, str_eq, string_of, string_of_range,
    to_ascii_lowercase, trim, trim_both_spec, trim_end_set, trim_end_spec, trim_set, trim_spec,
    occurs_at, TrimSet,
};
use crate::uninstall::{is_inno_uninstaller, is_inno_uninstaller_spec};
use crate::winpath::{file_name, file_name_spec, normal_component_count, normal_count, parent, parent_spec};

verus! {

/// A program whose size is to be measured.
#[derive(Debug)]
pub struct SizeProbeItem {
    pub id: String,
    pub install_location: Option<String>,
    pub uninstall_string: Option<String>,
}

/// A measured size for a program.
#[derive(Debug)]
pub struct ProgramSizeUpdate {
    pub id: String,
    pub estimated_size_kb: u64,
}

/// How many files a single folder measurement reads at most.
pub const MAX_FILES: u64 = 400_000;

// ---------------------------------------------------------------------------
// Command lines and file names
// ---------------------------------------------------------------------------

/// `s` trimmed of white space, then of double quotes, then of white space.
pub open spec fn trim_quotes_spec(s: Seq<char>) -> Seq<char> {
    trim_spec(trim_both_spec(trim_spec(s), TrimSet::Quote))
}

/// `s` without surrounding white space and double quotes.
pub fn trim_quotes(s: &str) -> (r: String)
    ensures
        r@ == trim_quotes_spec(s@),
{
    let a = trim(s);
    let b = trim_set(a.as_str(), TrimSet::Quote);
    trim(b.as_str())
}

/// The end of the leading run of non-white-space characters of `s`.
pub open spec fn word_end(s: Seq<char>, i: int) -> int
    decreases s.len() - i,
{
    if i < 0 || i >= s.len() {
        s.len() as int
    } else if is_whitespace_spec(s[i]) {
        i
    } else {
        word_end(s, i + 1)
    }
}

/// The executable path in a command line: the quoted text at its start, else
/// the text up to its executable extension, else its first word.
pub open spec fn extract_exe_spec(s: Seq<char>) -> Option<Seq<char>> {
    let t = trim_spec(s);
    if t.len() == 0 {
        None
    } else if t[0] == '"' {
        let rest = t.drop_first();
        if has_char(rest, '"') {
            Some(rest.take(first_pos(rest, '"')))
        } else {
            None
        }
    } else {
        match unquoted_program_end(t) {
            Some(e) => Some(t.take(e)),
            None => Some(t.take(word_end(t, 0))),
        }
    }
}

/// The executable path of an uninstall command line, which must cut cleanly
/// (`command_line_cuts_cleanly`).
pub fn extract_exe_path(command_line: &str) -> (r: Option<String>)
    requires
        command_line_cuts_cleanly(command_line@),
    ensures
        opt_view(r) == extract_exe_spec(command_line@),
{
    let t = trim(command_line);
    let v = chars_of(t.as_str());
    if v.len() == 0 {
        return None;
    }
    if v[0] == '"' {
        let rest = chars_of(string_of_range(&v, 1, v.len()).as_str());
        assert(rest@ == v@.drop_first());
        return match find_char(&rest, '"') {
            Some(end) => {
                proof {
                    lemma_first_pos(rest@, '"', end as int);
                }
                let p = string_of_range(&rest, 0, end);
                assert(p@ == rest@.take(end as int));
                Some(p)
            },
            None => None,
        };
    }
    match find_program_end(&v) {
        ProgramEnd::At(e) => {
            let p = string_of_range(&v, 0, e);
            assert(p@ == v@.take(e as int));
            Some(p)
        },
        _ => {
            let mut i: usize = 0;
            while i < v.len() && !is_whitespace(v[i])
                invariant
                    i <= v@.len(),
                    word_end(v@, 0) == word_end(v@, i as int),
                decreases v@.len() - i,
            {
                i = i + 1;
            }
            let p = string_of_range(&v, 0, i);
            assert(p@ == v@.take(i as int));
            Some(p)
        },
    }
}

/// The ASCII-lowercase file name of `exe`, or the empty string.
pub open spec fn lower_file_name(exe: Seq<char>) -> Seq<char> {
    match file_name_spec(exe) {
        Some(n) => ascii_lower(n),
        None => Seq::empty(),
    }
}

/// An uninstaller's file name contains `uninstall`, is `uninst.exe`, or is an
/// Inno Setup uninstaller (`unins000.exe`), compared in ASCII lowercase.
pub open spec fn looks_like_uninstaller_spec(exe: Seq<char>) -> bool {
    let name = lower_file_name(exe);
    contains_spec(name, "uninstall"@) || name == "uninst.exe"@ || is_inno_uninstaller_spec(name)
}

/// Whether the file `exe` is an uninstaller (so that its folder belongs to
/// the program alone), as opposed to a launcher such as `steam.exe`.
pub fn exe_looks_like_uninstaller(exe: &str) -> (r: bool)
    ensures
        r == looks_like_uninstaller_spec(exe@),
{
    let ev = chars_of(exe);
    let name = match file_name(&ev) {
        Some(n) => to_ascii_lowercase(n.as_str()),
        None => String::new(),
    };
    let nv = chars_of(name.as_str());
    contains_chars(&nv, &chars_of("uninstall")) || str_eq(name.as_str(), "uninst.exe")
        || is_inno_uninstaller(name.as_str())
}

// ---------------------------------------------------------------------------
// Choosing the folder to measure
// ---------------------------------------------------------------------------

/// The folder named by a program's install location, if it is not blank.
pub open spec fn install_candidate(loc: Option<Seq<char>>) -> Option<Seq<char>> {
    match loc {
        Some(l) => if trim_spec(l).len() > 0 {
            Some(trim_quotes_spec(trim_spec(l)))
        } else {
            None
        },
        None => None,
    }
}

/// The folder of a program's uninstaller, when its uninstall command runs an
/// uninstaller (never a launcher) that has a parent folder.
pub open spec fn uninstaller_candidate(cmd: Option<Seq<char>>) -> Option<Seq<char>> {
    match cmd {
        Some(c) => if trim_spec(c).len() > 0 {
            match extract_exe_spec(trim_spec(c)) {
                Some(exe) => if looks_like_uninstaller_spec(exe) {
                    parent_spec(exe)
                } else {
                    None
                },
                None => None,
            }
        } else {
            None
        },
        None => None,
    }
}

/// The view of an optional `str`.
pub open spec fn str_opt_view(o: Option<&str>) -> Option<Seq<char>> {
    match o {
        Some(s) => Some(s@),
        None => None,
    }
}

/// The folder named by a program's install location, the first folder tried.
pub fn install_root_candidate(install_location: Option<&str>) -> (r: Option<String>)
    ensures
        opt_view(r) == install_candidate(str_opt_view(install_location)),
{
    match install_location {
        Some(loc) => {
            let t = trim(loc);
            if t.unicode_len() > 0 {
                Some(trim_quotes(t.as_str()))
            } else {
                None
            }
        },
        None => None,
    }
}

/// Whether an uninstall command, if there is one, can be split without a
/// slicing panic.
pub open spec fn uninstall_command_cuts_cleanly(cmd: Option<Seq<char>>) -> bool {
    match cmd {
        Some(c) => command_line_cuts_cleanly(trim_spec(c)),
        None => true,
    }
}

/// The folder of a program's uninstaller, the second folder tried.
pub fn uninstaller_root_candidate(uninstall_string: Option<&str>) -> (r: Option<String>)
    requires
        uninstall_command_cuts_cleanly(str_opt_view(uninstall_string)),
    ensures
        opt_view(r) == uninstaller_candidate(str_opt_view(uninstall_string)),
{
    match uninstall_string {
        Some(cmd) => {
            let t = trim(cmd);
            if t.unicode_len() > 0 {
                match extract_exe_path(t.as_str()) {
                    Some(exe) => {
                        if exe_looks_like_uninstaller(exe.as_str()) {
                            parent(&chars_of(exe.as_str()))
                        } else {
                            None
                        }
                    },
                    None => None,
                }
            } else {
                None
            }
        },
        None => None,
    }
}

/// `is_safe` answered `answer` when asked about a path whose view is `path`.
pub open spec fn safety_answer<F: Fn(&str) -> bool>(is_safe: F, path: Seq<char>, answer: bool) -> bool {
    exists|a: &str| a@ == path && call_ensures(is_safe, (a,), answer)
}

/// Every answer that `is_safe` may give about `path` accepts it.
pub open spec fn surely_accepted<F: Fn(&str) -> bool>(is_safe: F, path: Seq<char>) -> bool {
    forall|a: &str, b: bool|
        #![trigger call_ensures(is_safe, (a,), b)]
        a@ == path && call_ensures(is_safe, (a,), b) ==> b
}

/// `r` is a folder that may be chosen from the candidates `c1` and `c2`: the
/// first that `is_safe` accepted, or none when it accepted neither.
pub open spec fn chosen_root<F: Fn(&str) -> bool>(
    is_safe: F,
    c1: Option<Seq<char>>,
    c2: Option<Seq<char>>,
    r: Option<Seq<char>>,
) -> bool {
    match r {
        Some(x) => {
            ||| c1 == Some(x) && safety_answer(is_safe, x, true)
            ||| {
                &&& c2 == Some(x)
                &&& safety_answer(is_safe, x, true)
                &&& (c1 matches Some(p) ==> safety_answer(is_safe, p, false))
            }
        },
        None => {
            &&& (c1 matches Some(p) ==> safety_answer(is_safe, p, false))
            &&& (c2 matches Some(p) ==> safety_answer(is_safe, p, false))
        },
    }
}

/// The folder to measure for a program: its install location if `is_safe`
/// accepts it, else the folder of its uninstaller if `is_safe` accepts that.
/// (`is_safe` inspects the file system; see `is_safe_scan_root`.) The
/// uninstall command is read only when the install location is not taken,
/// and must then cut cleanly.
pub fn resolve_scan_root<F: Fn(&str) -> bool>(
    install_location: Option<&str>,
    uninstall_string: Option<&str>,
    is_safe: F,
) -> (r: Option<String>)
    requires
        forall|a: &str| #[trigger] is_safe.requires((a,)),
        uninstall_command_cuts_cleanly(str_opt_view(uninstall_string)) || (install_candidate(
            str_opt_view(install_location),
        ) matches Some(p) && surely_accepted(is_safe, p)),
    ensures
        chosen_root(
            is_safe,
            install_candidate(str_opt_view(install_location)),
            uninstaller_candidate(str_opt_view(uninstall_string)),
            opt_view(r),
        ),
{
    if let Some(p) = install_root_candidate(install_location) {
        let ok = is_safe(p.as_str());
        if ok {
            return Some(p);
        }
    }
    if let Some(p) = uninstaller_root_candidate(uninstall_string) {
        let ok = is_safe(p.as_str());
        if ok {
            return Some(p);
        }
    }
    None
}

/// `resolve_scan_root` on any input: `None` when the install location is not
/// taken and the uninstall command does not cut cleanly (where the cut would
/// fall inside a character), else the folder chosen.
pub fn try_resolve_scan_root<F: Fn(&str) -> bool>(
    install_location: Option<&str>,
    uninstall_string: Option<&str>,
    is_safe: F,
) -> (r: Option<Option<String>>)
    requires
        forall|a: &str| #[trigger] is_safe.requires((a,)),
    ensures
        ({
            let c1 = install_candidate(str_opt_view(install_location));
            match r {
                Some(x) => chosen_root(
                    is_safe,
                    c1,
                    uninstaller_candidate(str_opt_view(uninstall_string)),
                    opt_view(x),
                ),
                None => {
                    &&& !uninstall_command_cuts_cleanly(str_opt_view(uninstall_string))
                    &&& (c1 matches Some(p) ==> safety_answer(is_safe, p, false))
                },
            }
        }),
{
    if let Some(p) = install_root_candidate(install_location) {
        let ok = is_safe(p.as_str());
        if ok {
            return Some(Some(p));
        }
    }
    let cuts = match uninstall_string {
        Some(cmd) => cuts_cleanly(trim(cmd).as_str()),
        None => true,
    };
    if !cuts {
        return None;
    }
    Some(resolve_scan_root(None, uninstall_string, is_safe))
}

// ---------------------------------------------------------------------------
// Which folders may be measured
// ---------------------------------------------------------------------------

/// `s` without every leading repetition of `prefix` (`str::trim_start_matches`).
pub open spec fn strip_all_prefix(s: Seq<char>, prefix: Seq<char>) -> Seq<char>
    decreases s.len(),
{
    if prefix.len() > 0 && starts_with_spec(s, prefix) {
        strip_all_prefix(s.skip(prefix.len() as int), prefix)
    } else {
        s
    }
}

/// The verbatim path prefix `\\?\`.
pub open spec fn verbatim_prefix() -> Seq<char> {
    seq!['\\', '\\', '?', '\\']
}

/// The key under which a folder is claimed: the path text without verbatim
/// prefixes and trailing separators, in ASCII lowercase.
pub open spec fn path_key_spec(path: Seq<char>) -> Seq<char> {
    ascii_lower(trim_end_spec(strip_all_prefix(path, verbatim_prefix()), TrimSet::PathSeparator))
}

/// The key of a folder path (as text; the caller resolves it to its canonical
/// form first when it can), so that two programs sharing a folder are seen
/// as such.
pub fn normalize_path_key(path: &str) -> (r: String)
    ensures
        r@ == path_key_spec(path@),
{
    let v = chars_of(path);
    let pre = chars_of("\\\\?\\");
    proof {
        reveal_strlit("\\\\?\\");
    }
    assert(pre@ == verbatim_prefix());
    let mut i: usize = 0;
    assert(v@.skip(0) == v@);
    while starts_with_chars(&chars_of(string_of_range(&v, i, v.len()).as_str()), &pre)
        invariant
            i <= v@.len(),
            pre@ == verbatim_prefix(),
            strip_all_prefix(v@, pre@) == strip_all_prefix(v@.skip(i as int), pre@),
        decreases v@.len() - i,
    {
        assert(v@.subrange(i as int, v@.len() as int) == v@.skip(i as int));
        assert(v@.skip(i as int).skip(4) == v@.skip(i + 4));
        i = i + 4;
    }
    assert(v@.subrange(i as int, v@.len() as int) == v@.skip(i as int));
    let stripped = string_of_range(&v, i, v.len());
    let trimmed = trim_end_set(stripped.as_str(), TrimSet::PathSeparator);
    to_ascii_lowercase(trimmed.as_str())
}

/// Install locations that are whole system or program roots, which are
/// never measured.
pub open spec fn forbidden_roots() -> Seq<Seq<char>> {
    seq![
        "c:\\"@,
        "c:\\windows"@,
        "c:\\windows\\system32"@,
        "c:\\program files"@,
        "c:\\program files (x86)"@,
        "c:\\programdata"@,
        "c:\\users"@,
    ]
}

/// Folder names of stores and launchers that hold many programs.
pub open spec fn shared_leaf_names() -> Seq<Seq<char>> {
    seq![
        "steam"@,
        "steam library"@,
        "steamapps"@,
        "epic games"@,
        "epicgameslauncher"@,
        "gog galaxy"@,
        "origin"@,
        "ea games"@,
        "ea desktop"@,
        "ubisoft"@,
        "ubisoft game launcher"@,
        "riot games"@,
        "battle.net"@,
        "blizzard"@,
        "xboxgames"@,
        "common files"@,
    ]
}

/// The text after the last `\` of `s` (all of it when it has none).
pub open spec fn last_backslash_part(s: Seq<char>) -> Seq<char> {
    if has_char(s, '\\') {
        s.skip(last_pos(s, '\\') + 1)
    } else {
        s
    }
}

/// A lowercase path lies in a store or launcher tree shared by many programs:
/// a folder below `\steamapps\common\<game>` is a game's own; anything else
/// under `\steam\`, the Steam roots themselves, the shared folder names, and
/// the Epic and GOG game roots are shared.
pub open spec fn is_shared_store_path_spec(lower: Seq<char>) -> bool {
    let common = "\\steamapps\\common\\"@;
    let steam = "\\steam\\"@;
    if contains_spec(lower, common) {
        lower.skip(first_position(lower, common) + common.len()).len() == 0
    } else if contains_spec(lower, steam) && !starts_with_spec(
        lower.skip(first_position(lower, steam) + steam.len()),
        "steamapps\\common\\"@,
    ) {
        true
    } else if ends_with_spec(lower, "\\steam"@) || ends_with_spec(lower, "\\steam library"@) {
        true
    } else if shared_leaf_names().contains(last_backslash_part(lower)) {
        true
    } else {
        ends_with_spec(lower, "\\epic games"@) || ends_with_spec(lower, "\\gog galaxy\\games"@)
    }
}

/// Whether `leaf` is one of `shared_leaf_names`.
fn is_shared_leaf(leaf: &str) -> (r: bool)
    ensures
        r == shared_leaf_names().contains(leaf@),
{
    let names: [&str; 16] = [
        "steam",
        "steam library",
        "steamapps",
        "epic games",
        "epicgameslauncher",
        "gog galaxy",
        "origin",
        "ea games",
        "ea desktop",
        "ubisoft",
        "ubisoft game launcher",
        "riot games",
        "battle.net",
        "blizzard",
        "xboxgames",
        "common files",
    ];
    let ghost nv = shared_leaf_names();
    assert(names@.map_values(|e: &str| e@) == nv);
    let mut k: usize = 0;
    while k < 16
        invariant
            k <= 16,
            nv == shared_leaf_names(),
            
            forall|j: int| 0 <= j < 16 ==> #[trigger] names@[j]@ == nv[j],
            forall|j: int| 0 <= j < k ==> nv[j] != leaf@,
        decreases 16 - k,
    {
        let nm: &str = names[k];
        assert(nm@ == nv[k as int]);
        if str_eq(nm, leaf) {
            assert(nv[k as int] == leaf@);
            return true;
        }
        k = k + 1;
    }
    assert(!nv.contains(leaf@));
    false
}

/// Whether a lowercase path is (inside) a store or launcher tree that holds
/// many programs, whose size must not be credited to one of them.
pub fn is_shared_store_path(lower: &str) -> (r: bool)
    ensures
        r == is_shared_store_path_spec(lower@),
{
    let v = chars_of(lower);
    let common = chars_of("\\steamapps\\common\\");
    let steam = chars_of("\\steam\\");
    if let Some(idx) = find_chars(&v, &common) {
        proof {
            lemma_first_position(v@, common@, idx as int);
            assert(occurs_at(v@, common@, idx as int));
            assert(idx + common@.len() <= v@.len());
            assert(v@.len() == v.len());
        }
        return idx + common.len() == v.len();
    }
    if let Some(idx) = find_chars(&v, &steam) {
        proof {
            lemma_first_position(v@, steam@, idx as int);
            assert(occurs_at(v@, steam@, idx as int));
            assert(idx + steam@.len() <= v@.len());
            assert(v@.len() == v.len());
        }
        let after = chars_of(string_of_range(&v, idx + steam.len(), v.len()).as_str());
        assert(after@ == v@.skip(idx + steam@.len()));
        if !starts_with_chars(&after, &chars_of("steamapps\\common\\")) {
            return true;
        }
    }
    if ends_with_chars(&v, &chars_of("\\steam")) || ends_with_chars(&v, &chars_of("\\steam library")) {
        return true;
    }
    let leaf = match rfind_char(&v, '\\') {
        Some(i) => {
            proof {
                lemma_last_pos(v@, '\\', i as int);
                assert(v@.len() == v.len());
            }
            let l = string_of_range(&v, i + 1, v.len());
            assert(l@ == v@.skip(i + 1));
            l
        },
        None => string_of(&v),
    };
    if is_shared_leaf(leaf.as_str()) {
        return true;
    }
    ends_with_chars(&v, &chars_of("\\epic games")) || ends_with_chars(
        &v,
        &chars_of("\\gog galaxy\\games"),
    )
}

/// A canonical path text without its verbatim prefix (once) and without
/// trailing separators.
pub open spec fn normalized_root(canonical: Seq<char>) -> Seq<char> {
    let s = if starts_with_spec(canonical, verbatim_prefix()) {
        canonical.skip(4)
    } else {
        canonical
    };
    trim_end_spec(s, TrimSet::PathSeparator)
}

/// Whether a lowercase path is, or lies in, a temporary folder.
pub open spec fn is_temp_path(lower: Seq<char>) -> bool {
    ||| contains_spec(lower, "\\temp\\"@)
    ||| contains_spec(lower, "\\tmp\\"@)
    ||| ends_with_spec(lower, "\\temp"@)
    ||| ends_with_spec(lower, "\\tmp"@)
    ||| contains_spec(lower, "\\appdata\\local\\temp"@)
}

/// A folder (given by its canonical path) may be measured when it is not a
/// temporary folder, not a system or program root, not part of a shared store
/// tree, and at least two ordinary components deep.
pub open spec fn is_safe_scan_root_spec(canonical: Seq<char>) -> bool {
    let normalized = normalized_root(canonical);
    let lower = ascii_lower(normalized);
    &&& !is_temp_path(lower)
    &&& !forbidden_roots().contains(lower)
    &&& !is_shared_store_path_spec(lower)
    &&& normal_count(normalized) >= 2
}

/// Whether `lower` is one of `forbidden_roots`.
fn is_forbidden_root(lower: &str) -> (r: bool)
    ensures
        r == forbidden_roots().contains(lower@),
{
    let roots: [&str; 7] = [
        "c:\\",
        "c:\\windows",
        "c:\\windows\\system32",
        "c:\\program files",
        "c:\\program files (x86)",
        "c:\\programdata",
        "c:\\users",
    ];
    let ghost rv = forbidden_roots();
    assert(roots@.map_values(|e: &str| e@) == rv);
    let mut k: usize = 0;
    while k < 7
        invariant
            k <= 7,
            rv == forbidden_roots(),
            
            forall|j: int| 0 <= j < 7 ==> #[trigger] roots@[j]@ == rv[j],
            forall|j: int| 0 <= j < k ==> rv[j] != lower@,
        decreases 7 - k,
    {
        let rt: &str = roots[k];
        assert(rt@ == rv[k as int]);
        if str_eq(rt, lower) {
            assert(rv[k as int] == lower@);
            return true;
        }
        k = k + 1;
    }
    assert(!rv.contains(lower@));
    false
}

/// Whether the existing folder whose canonical path is `canonical` may be
/// measured and credited to a single program.
pub fn is_safe_scan_root(canonical: &str) -> (r: bool)
    ensures
        r == is_safe_scan_root_spec(canonical@),
{
    let cv = chars_of(canonical);
    let pre = chars_of("\\\\?\\");
    proof {
        reveal_strlit("\\\\?\\");
    }
    assert(pre@ == verbatim_prefix());
    let start: usize = if starts_with_chars(&cv, &pre) {
        4
    } else {
        0
    };
    assert(start == 4 ==> cv@.len() >= 4);
    let s = string_of_range(&cv, start, cv.len());
    assert(s@ == cv@.skip(start as int));
    let normalized = trim_end_set(s.as_str(), TrimSet::PathSeparator);
    let nv = chars_of(normalized.as_str());
    let lower = to_ascii_lowercase(normalized.as_str());
    let lv = chars_of(lower.as_str());
    assert(cv@.skip(0) == cv@);
    assert(normalized@ == normalized_root(canonical@));
    assert(lower@ == ascii_lower(normalized_root(canonical@)));
    if contains_chars(&lv, &chars_of("\\temp\\")) || contains_chars(&lv, &chars_of("\\tmp\\"))
        || ends_with_chars(&lv, &chars_of("\\temp")) || ends_with_chars(&lv, &chars_of("\\tmp"))
        || contains_chars(&lv, &chars_of("\\appdata\\local\\temp")) {
        return false;
    }
    if is_forbidden_root(lower.as_str()) {
        return false;
    }
    if is_shared_store_path(lower.as_str()) {
        return false;
    }
    normal_component_count(&nv) >= 2
}

// ---------------------------------------------------------------------------
// Measuring
// ---------------------------------------------------------------------------

/// The size update for a program whose folder holds `bytes` bytes: none for
/// an empty folder, else the size in KiB rounded up.
pub fn size_update(id: String, bytes: u64) -> (r: Option<ProgramSizeUpdate>)
    requires
        bytes + 1023 <= u64::MAX,
    ensures
        r is None <==> bytes == 0,
        r matches Some(u) ==> u.id == id && u.estimated_size_kb == (bytes + 1023) / 1024,
{
    if bytes == 0 {
        None
    } else {
        Some(ProgramSizeUpdate { id, estimated_size_kb: (bytes + 1023) / 1024 })
    }
}

/// The reported size is the folder size in KiB rounded up: the smallest
/// number of whole KiB that holds all its bytes.
pub proof fn law_size_rounds_up_to_kib(bytes: u64)
    requires
        0 < bytes,
        bytes + 1023 <= u64::MAX,
    ensures
        ({
            let kb = (bytes + 1023) / 1024;
            &&& kb * 1024 >= bytes
            &&& (kb - 1) * 1024 < bytes
        }),
{
    let kb = (bytes + 1023) / 1024;
    assert(kb * 1024 >= bytes && (kb - 1) * 1024 < bytes) by (nonlinear_arith)
        requires
            kb == (bytes + 1023) / 1024,
            bytes > 0,
    ;
}

/// The folder keys already claimed by programs during one size probe.
pub struct ClaimedRoots {
    keys: Vec<String>,
}

impl ClaimedRoots {
    /// The claimed keys.
    pub closed spec fn claimed(&self) -> Set<Seq<char>> {
        self.keys@.map_values(|k: String| k@).to_set()
    }

    pub fn new() -> (r: ClaimedRoots)
        ensures
            r.claimed() == Set::<Seq<char>>::empty(),
    {
        let r = ClaimedRoots { keys: Vec::new() };
        assert(r.keys@.map_values(|k: String| k@) == Seq::<Seq<char>>::empty());
        r
    }

    /// Claims the folder `key` for one program: true when no program claimed
    /// it before (`HashSet::insert`).
    pub fn claim(&mut self, key: String) -> (r: bool)
        ensures
            r == !old(self).claimed().contains(key@),
            final(self).claimed() == old(self).claimed().insert(key@),
    {
        let ghost before = self.keys@.map_values(|k: String| k@);
        let mut i: usize = 0;
        while i < self.keys.len()
            invariant
                i <= self.keys@.len(),
                before == self.keys@.map_values(|k: String| k@),
                forall|j: int| 0 <= j < i ==> before[j] != key@,
            decreases self.keys@.len() - i,
        {
            if str_eq(self.keys[i].as_str(), key.as_str()) {
                assert(before[i as int] == key@);
                assert(before.to_set().insert(key@) =~= before.to_set());
                return false;
            }
            i = i + 1;
        }
        assert(!before.contains(key@));
        let ghost k = key@;
        self.keys.push(key);
        assert(self.keys@.map_values(|k: String| k@) == before.push(k));
        assert(before.push(k).to_set() =~= before.to_set().insert(k)) by {
            assert forall|x: Seq<char>| #[trigger] before.push(k).to_set().contains(x) implies before.to_set().insert(k).contains(x) by {
                let j = choose|j: int| 0 <= j < before.push(k).len() && before.push(k)[j] == x;
                if j < before.len() {
                    assert(before[j] == x);
                }
            }
            assert forall|x: Seq<char>| #[trigger] before.to_set().insert(k).contains(x) implies before.push(k).to_set().contains(x) by {
                if x == k {
                    assert(before.push(k)[before.len() as int] == k);
                } else {
                    let j = choose|j: int| 0 <= j < before.len() && before[j] == x;
                    assert(before.push(k)[j] == x);
                }
            }
        }
        true
    }
}

/// A folder is credited to one program at most per probe: once a key is
/// claimed, claiming it again fails, whatever else was claimed in between.
pub proof fn law_folder_claimed_once(before: Set<Seq<char>>, key: Seq<char>, between: Set<Seq<char>>)
    ensures
        before.insert(key).union(between).contains(key),
{
}

/// `n` saturated at `u64::MAX`.
pub open spec fn saturated(n: nat) -> u64 {
    if n > u64::MAX {
        u64::MAX
    } else {
        n as u64
    }
}

/// Running totals while the files of one folder are measured.
pub struct DirTally {
    total: u64,
    files: u64,
    seen: Ghost<nat>,
}

/// What a folder walk does with one entry of a folder.
#[derive(Debug, Clone, Copy, PartialEq, Eq, Structural)]
pub enum EntryKind {
    /// A symbolic link: neither followed nor counted.
    Symlink,
    /// A folder: walked in turn.
    Directory,
    /// A regular file of this many bytes: counted.
    File(u64),
    /// Anything else (or an entry whose metadata cannot be read).
    Other,
}

/// How the walk goes on after an entry.
#[derive(Debug, Clone, Copy, PartialEq, Eq, Structural)]
pub enum WalkStep {
    /// Go on with the next entry.
    Next,
    /// Walk this folder too, then go on.
    Descend,
    /// The file limit is reached: the total is final.
    Stop,
}

impl DirTally {
    /// The bytes counted so far, saturating at `u64::MAX`.
    pub closed spec fn total_spec(&self) -> u64 {
        self.total
    }

    /// The number of files counted so far.
    pub closed spec fn files_spec(&self) -> u64 {
        self.files
    }

    /// The exact sum of the sizes of the files counted so far.
    pub closed spec fn seen_bytes(&self) -> nat {
        self.seen@
    }

    /// The total is the sum of the sizes seen, saturated at `u64::MAX`.
    pub open spec fn wf(&self) -> bool {
        self.total_spec() == saturated(self.seen_bytes())
    }

    pub fn new() -> (r: DirTally)
        ensures
            r.wf(),
            r.seen_bytes() == 0,
            r.files_spec() == 0,
            r.total_spec() == 0,
    {
        DirTally { total: 0, files: 0, seen: Ghost(0) }
    }

    /// The bytes counted so far: their sum, saturated at `u64::MAX`.
    pub fn total(&self) -> (r: u64)
        ensures
            r == self.total_spec(),
            self.wf() ==> r == saturated(self.seen_bytes()),
    {
        self.total
    }

    pub fn files(&self) -> (r: u64)
        ensures
            r == self.files_spec(),
    {
        self.files
    }

    /// Counts one file of `len` bytes; true when the file limit is reached
    /// and measuring stops.
    pub fn add_file(&mut self, len: u64) -> (r: bool)
        requires
            old(self).wf(),
            old(self).files_spec() < MAX_FILES,
        ensures
            final(self).wf(),
            final(self).seen_bytes() == old(self).seen_bytes() + len,
            final(self).total_spec() == saturated((old(self).seen_bytes() + len) as nat),
            final(self).files_spec() == old(self).files_spec() + 1,
            r == (final(self).files_spec() >= MAX_FILES),
    {
        self.total = self.total.saturating_add(len);
        self.files = self.files + 1;
        self.seen = Ghost((self.seen@ + len) as nat);
        self.files >= MAX_FILES
    }

    /// Takes one entry of the folder being walked: a file is counted, a
    /// folder is walked too, links and anything else are passed over.
    pub fn visit(&mut self, entry: EntryKind) -> (r: WalkStep)
        requires
            old(self).wf(),
            old(self).files_spec() < MAX_FILES,
        ensures
            final(self).wf(),
            match entry {
                EntryKind::File(len) => {
                    &&& final(self).seen_bytes() == old(self).seen_bytes() + len
                    &&& final(self).files_spec() == old(self).files_spec() + 1
                    &&& r == if final(self).files_spec() >= MAX_FILES {
                        WalkStep::Stop
                    } else {
                        WalkStep::Next
                    }
                },
                _ => {
                    &&& *final(self) == *old(self)
                    &&& r == if entry == EntryKind::Directory {
                        WalkStep::Descend
                    } else {
                        WalkStep::Next
                    }
                },
            },
    {
        match entry {
            EntryKind::File(len) => {
                if self.add_file(len) {
                    WalkStep::Stop
                } else {
                    WalkStep::Next
                }
            },
            EntryKind::Directory => WalkStep::Descend,
            _ => WalkStep::Next,
        }
    }
}

/// A store or launcher tree shared by many programs, a system or program
/// root, a temporary folder, or a folder less than two components deep is
/// never measured.
pub proof fn law_shared_and_shallow_folders_are_never_measured(canonical: Seq<char>)
    ensures
        is_shared_store_path_spec(ascii_lower(normalized_root(canonical))) ==> !is_safe_scan_root_spec(
            canonical,
        ),
        forbidden_roots().contains(ascii_lower(normalized_root(canonical)))
            ==> !is_safe_scan_root_spec(canonical),
        is_temp_path(ascii_lower(normalized_root(canonical))) ==> !is_safe_scan_root_spec(
            canonical,
        ),
        normal_count(normalized_root(canonical)) < 2 ==> !is_safe_scan_root_spec(canonical),
{
}

proof fn lemma_last_backslash_part(dir: Seq<char>, leaf: Seq<char>)
    requires
        !has_char(leaf, '\\'),
    ensures
        last_backslash_part(dir + seq!['\\'] + leaf) == leaf,
{
    let s = dir + seq!['\\'] + leaf;
    let i = dir.len() as int;
    assert(s[i] == '\\');
    assert forall|j: int| i < j < s.len() implies s[j] != '\\' by {
        assert(s[j] == leaf[j - i - 1]);
    }
    assert(last_index_of(s, '\\', i));
    lemma_last_pos(s, '\\', i);
    assert(s.skip(i + 1) =~= leaf);
}

/// A folder whose last component is one of the shared store or launcher
/// names (`steam`, `origin`, `battle.net`, `ubisoft game launcher`, `common
/// files`, ...) is a shared store path, wherever it lies, unless it lies
/// below a `\steamapps\common\` folder (a game's own).
pub proof fn law_shared_leaf_names_are_shared(dir: Seq<char>, leaf: Seq<char>)
    requires
        shared_leaf_names().contains(leaf),
        !has_char(leaf, '\\'),
        !contains_spec(dir + seq!['\\'] + leaf, "\\steamapps\\common\\"@),
    ensures
        is_shared_store_path_spec(dir + seq!['\\'] + leaf),
{
    lemma_last_backslash_part(dir, leaf);
}

/// So such a folder is never measured: a canonical path that, once
/// normalized and lowercased, ends in a shared leaf name is no safe root.
pub proof fn law_shared_leaf_folders_are_never_measured(
    canonical: Seq<char>,
    dir: Seq<char>,
    leaf: Seq<char>,
)
    requires
        ascii_lower(normalized_root(canonical)) == dir + seq!['\\'] + leaf,
        shared_leaf_names().contains(leaf),
        !has_char(leaf, '\\'),
        !contains_spec(dir + seq!['\\'] + leaf, "\\steamapps\\common\\"@),
    ensures
        !is_safe_scan_root_spec(canonical),
{
    law_shared_leaf_names_are_shared(dir, leaf);
}

/// The uninstall command is used only when it runs an uninstaller: the
/// folder it yields is the parent of an executable whose name marks it as
/// an uninstaller, never that of a launcher such as `steam.exe`.
pub proof fn law_fallback_folder_belongs_to_an_uninstaller(cmd: Seq<char>)
    requires
        uninstaller_candidate(Some(cmd)) is Some,
    ensures
        exists|exe: Seq<char>|
            extract_exe_spec(trim_spec(cmd)) == Some(exe) && #[trigger] looks_like_uninstaller_spec(exe)
                && parent_spec(exe) == uninstaller_candidate(Some(cmd)),
{
    let exe = extract_exe_spec(trim_spec(cmd))->0;
    assert(looks_like_uninstaller_spec(exe));
}

} // verus!
