//! Choosing how to uninstall a program, making its command silent, and
//! reporting progress.
use vstd::prelude::*;

use crate::cmdline::{
    command_line_cuts_cleanly, cuts_cleanly, split_command_line, split_command_line_spec,
    string_views,
};
use crate::programs::{opt_view, InstalledProgram};
use crate::text::{
    ascii_lower, ascii_upper, chars_of, contains_spec, ends_with_chars, ends_with_spec,
    find_char, is_ascii_digit, is_ascii_digit_spec,
    push_decimal, decimal_spec, rfind_char, starts_with_chars, starts_with_spec, str_eq,
    contains_chars, string_of_range, to_ascii_lowercase, to_ascii_uppercase, to_lowercase,
    to_uppercase, trim, trim_spec, unicode_lowercase, unicode_uppercase, utf8_len, utf8_len_is,
    first_pos, has_char, last_pos, lemma_first_pos, lemma_last_pos,
};
use crate::winpath::{file_name, file_name_spec};

verus! {

// ---------------------------------------------------------------------------
// Silent switches
// ---------------------------------------------------------------------------

/// How an uninstall command line is run.
#[derive(Clone, Copy, Debug, PartialEq, Eq, Structural)]
pub enum SilentMode {
    /// `QuietUninstallString`: the registry arguments are used as they are.
    AlreadyQuiet,
    /// `UninstallString`: common silent switches are added when missing.
    EnsureSilent,
}

/// The arguments that are silent switches exactly (compared in upper case).
pub open spec fn silent_flag_names() -> Seq<Seq<char>> {
    seq![
        "/S"@,
        "-S"@,
        "/SILENT"@,
        "/VERYSILENT"@,
        "/QUIET"@,
        "/QUIET="@,
        "/QN"@,
        "/QB"@,
        "/Q"@,
        "--SILENT"@,
        "/SUPPRESSMSGBOXES"@,
    ]
}

/// The prefixes that make an argument a silent switch (compared in upper case).
pub open spec fn silent_flag_prefixes() -> Seq<Seq<char>> {
    seq!["/SILENT"@, "/VERYSILENT"@, "/QUIET"@]
}

/// An argument is a silent switch when, trimmed and in ASCII upper case, it is
/// one of `silent_flag_names` or starts with one of `silent_flag_prefixes`.
pub open spec fn is_silent_flag_spec(arg: Seq<char>) -> bool {
    let u = ascii_upper(trim_spec(arg));
    ||| silent_flag_names().contains(u)
    ||| exists|i: int| 0 <= i < 3 && starts_with_spec(u, #[trigger] silent_flag_prefixes()[i])
}

pub open spec fn args_look_silent_spec(args: Seq<Seq<char>>) -> bool {
    exists|i: int| 0 <= i < args.len() && is_silent_flag_spec(#[trigger] args[i])
}

/// Whether `arg` is a silent switch such as `/S`, `/quiet` or `/VERYSILENT`.
pub fn is_silent_flag(arg: &str) -> (r: bool)
    ensures
        r == is_silent_flag_spec(arg@),
{
    let t = trim(arg);
    let u = to_ascii_uppercase(t.as_str());
    let uv = chars_of(u.as_str());
    let names: [&str; 11] = [
        "/S",
        "-S",
        "/SILENT",
        "/VERYSILENT",
        "/QUIET",
        "/QUIET=",
        "/QN",
        "/QB",
        "/Q",
        "--SILENT",
        "/SUPPRESSMSGBOXES",
    ];
    let ghost nv = silent_flag_names();
    assert(names@.map_values(|e: &str| e@) == nv);
    let mut i: usize = 0;
    while i < 11
        invariant
            i <= 11,
            uv@ == ascii_upper(trim_spec(arg@)),
            u@ == uv@,
            nv == silent_flag_names(),
            forall|j: int| 0 <= j < 11 ==> #[trigger] names@[j]@ == nv[j],
            forall|j: int| 0 <= j < i ==> nv[j] != uv@,
        decreases 11 - i,
    {
        let nm: &str = names[i];
        assert(nm@ == nv[i as int]);
        if str_eq(nm, u.as_str()) {
            assert(nv[i as int] == uv@);
            return true;
        }
        i = i + 1;
    }
    assert(!nv.contains(uv@));
    let prefixes: [&str; 3] = ["/SILENT", "/VERYSILENT", "/QUIET"];
    let ghost pv = silent_flag_prefixes();
    assert(prefixes@.map_values(|e: &str| e@) == pv);
    let mut k: usize = 0;
    while k < 3
        invariant
            k <= 3,
            uv@ == ascii_upper(trim_spec(arg@)),
            pv == silent_flag_prefixes(),
            forall|j: int| 0 <= j < 3 ==> #[trigger] prefixes@[j]@ == pv[j],
            forall|j: int| 0 <= j < k ==> !starts_with_spec(uv@, #[trigger] pv[j]),
        decreases 3 - k,
    {
        if starts_with_chars(&uv, &chars_of(prefixes[k])) {
            return true;
        }
        k = k + 1;
    }
    false
}

/// Whether any argument is a silent switch.
pub fn args_look_silent(args: &[String]) -> (r: bool)
    ensures
        r == args_look_silent_spec(args@.map_values(|s: String| s@)),
{
    let ghost views = args@.map_values(|s: String| s@);
    let mut i: usize = 0;
    while i < args.len()
        invariant
            i <= args@.len(),
            views == args@.map_values(|s: String| s@),
            forall|j: int| 0 <= j < i ==> !is_silent_flag_spec(#[trigger] views[j]),
        decreases args@.len() - i,
    {
        if is_silent_flag(args[i].as_str()) {
            assert(is_silent_flag_spec(views[i as int]));
            return true;
        }
        i = i + 1;
    }
    false
}

/// An Inno Setup uninstaller file name: `unins` followed by one or more ASCII
/// digits, with an optional `.exe` extension.
pub open spec fn is_inno_uninstaller_spec(name: Seq<char>) -> bool {
    let stem = without_exe_suffix(name);
    &&& starts_with_spec(stem, "unins"@)
    &&& stem.len() > 5
    &&& forall|i: int| 5 <= i < stem.len() ==> is_ascii_digit_spec(#[trigger] stem[i])
}

/// `name` without a trailing `.exe`.
pub open spec fn without_exe_suffix(name: Seq<char>) -> Seq<char> {
    if ends_with_spec(name, ".exe"@) {
        name.take(name.len() - ".exe"@.len())
    } else {
        name
    }
}

/// Whether `file_name` is an Inno Setup uninstaller such as `unins000.exe`.
pub fn is_inno_uninstaller(file_name: &str) -> (r: bool)
    ensures
        r == is_inno_uninstaller_spec(file_name@),
{
    let name = chars_of(file_name);
    let exe = chars_of(".exe");
    proof {
        reveal_strlit(".exe");
        reveal_strlit("unins");
    }
    let stem_len = if ends_with_chars(&name, &exe) {
        name.len() - 4
    } else {
        name.len()
    };
    let stem = chars_of(string_of_range(&name, 0, stem_len).as_str());
    assert(stem@ == name@.take(stem_len as int));
    assert(stem@ == without_exe_suffix(file_name@));
    if !starts_with_chars(&stem, &chars_of("unins")) || stem.len() <= 5 {
        return false;
    }
    let mut i: usize = 5;
    while i < stem.len()
        invariant
            5 <= i <= stem@.len(),
            stem@ == without_exe_suffix(file_name@),
            forall|j: int| 5 <= j < i ==> is_ascii_digit_spec(#[trigger] stem@[j]),
        decreases stem@.len() - i,
    {
        if !is_ascii_digit(stem[i]) {
            return false;
        }
        i = i + 1;
    }
    true
}

/// The ASCII-lowercase file name of `program`, or the empty string.
pub open spec fn program_file_name(program: Seq<char>) -> Seq<char> {
    match file_name_spec(program) {
        Some(n) => ascii_lower(n),
        None => Seq::empty(),
    }
}

/// The switches that `ensure_silent_args` adds for `program` when none of
/// `args` is silent: the Inno Setup switches for `unins###.exe`, `/S` for
/// other `.exe` files and names containing `uninstall`, and nothing otherwise.
pub open spec fn silent_args_to_add(program: Seq<char>, args: Seq<Seq<char>>) -> Seq<Seq<char>> {
    if args_look_silent_spec(args) {
        Seq::empty()
    } else {
        let name = program_file_name(program);
        if is_inno_uninstaller_spec(name) {
            seq!["/VERYSILENT"@, "/SUPPRESSMSGBOXES"@, "/NORESTART"@]
        } else if contains_spec(name, "uninstall"@) || name == "uninst.exe"@ || ends_with_spec(
            name,
            ".exe"@,
        ) {
            seq!["/S"@]
        } else {
            Seq::empty()
        }
    }
}

/// Appends the silent switch that the uninstaller `program` understands,
/// unless one of `args` already is a silent switch.
pub fn ensure_silent_args(program: &str, args: &mut Vec<String>)
    ensures
        string_views(final(args)@) == string_views(old(args)@) + silent_args_to_add(
            program@,
            string_views(old(args)@),
        ),
{
    let ghost before = string_views(args@);
    assert(args@.map_values(|s: String| s@) == before);
    if args_look_silent(args.as_slice()) {
        assert(before + Seq::<Seq<char>>::empty() == before);
        return;
    }
    let pv = chars_of(program);
    let name = match file_name(&pv) {
        Some(n) => to_ascii_lowercase(n.as_str()),
        None => String::new(),
    };
    let nv = chars_of(name.as_str());
    assert(nv@ == program_file_name(program@));
    if is_inno_uninstaller(name.as_str()) {
        args.push(String::from_str("/VERYSILENT"));
        args.push(String::from_str("/SUPPRESSMSGBOXES"));
        args.push(String::from_str("/NORESTART"));
        assert(string_views(args@) == before + seq![
            "/VERYSILENT"@,
            "/SUPPRESSMSGBOXES"@,
            "/NORESTART"@,
        ]);
        return;
    }
    if contains_chars(&nv, &chars_of("uninstall")) || str_eq(name.as_str(), "uninst.exe")
        || ends_with_chars(&nv, &chars_of(".exe")) {
        args.push(String::from_str("/S"));
        assert(string_views(args@) == before + seq!["/S"@]);
    } else {
        assert(before + Seq::<Seq<char>>::empty() == before);
    }
}

proof fn lemma_flag_is_silent(flag: Seq<char>, i: int)
    requires
        0 <= i < 11,
        flag == silent_flag_names()[i],
        flag.len() > 0,
        !crate::text::is_whitespace_spec(flag[0]),
        !crate::text::is_whitespace_spec(flag.last()),
        ascii_upper(flag) == flag,
    ensures
        is_silent_flag_spec(flag),
{
    assert(crate::text::trim_start_spec(flag, crate::text::TrimSet::Whitespace) == flag);
    assert(crate::text::trim_end_spec(flag, crate::text::TrimSet::Whitespace) == flag);
    assert(silent_flag_names()[i] == flag);
}

proof fn lemma_push_silent_flag(args: Seq<Seq<char>>, extra: Seq<Seq<char>>, k: int)
    requires
        0 <= k < extra.len(),
        is_silent_flag_spec(extra[k]),
    ensures
        args_look_silent_spec(args + extra),
{
    assert((args + extra)[args.len() + k] == extra[k]);
}

/// Making arguments silent is idempotent: after `ensure_silent_args` has
/// added its switches, a second call adds nothing, so a silent switch is
/// never added twice.
pub proof fn law_silent_args_idempotent(program: Seq<char>, args: Seq<Seq<char>>)
    ensures
        silent_args_to_add(program, args + silent_args_to_add(program, args)) == Seq::<
            Seq<char>,
        >::empty(),
{
    let added = silent_args_to_add(program, args);
    if args_look_silent_spec(args) {
        assert(args + added == args);
    } else {
        let name = program_file_name(program);
        if is_inno_uninstaller_spec(name) {
            reveal_strlit("/VERYSILENT");
            let f = "/VERYSILENT"@;
            assert(ascii_upper(f) =~= f);
            lemma_flag_is_silent(f, 3);
            lemma_push_silent_flag(args, added, 0);
        } else if contains_spec(name, "uninstall"@) || name == "uninst.exe"@ || ends_with_spec(
            name,
            ".exe"@,
        ) {
            reveal_strlit("/S");
            let f = "/S"@;
            assert(ascii_upper(f) =~= f);
            lemma_flag_is_silent(f, 0);
            lemma_push_silent_flag(args, added, 0);
        } else {
            assert(args + added == args);
        }
    }
}

/// Whether to hide the console window: for quiet commands, and whenever an
/// argument is a silent switch.
pub fn hides_console(args: &[String], silent: SilentMode) -> (r: bool)
    ensures
        r == (args_look_silent_spec(args@.map_values(|s: String| s@)) || silent
            == SilentMode::AlreadyQuiet),
{
    args_look_silent(args) || silent == SilentMode::AlreadyQuiet
}

/// Whether `program` names a file by path (it holds `\` or `/`) rather than a
/// bare command. On Windows every absolute path holds a separator, so the
/// absolute-path test adds nothing to this.
pub fn looks_like_filesystem_path(program: &str) -> (r: bool)
    ensures
        r == (exists|i: int| 0 <= i < program@.len() && (#[trigger] program@[i] == '\\'
            || program@[i] == '/')),
{
    let v = chars_of(program);
    match find_char(&v, '\\') {
        Some(i) => {
            assert(v@[i as int] == '\\');
            true
        },
        None => match find_char(&v, '/') {
            Some(i) => {
                assert(v@[i as int] == '/');
                true
            },
            None => false,
        },
    }
}

/// The kind of an I/O error, as far as uninstalling cares.
#[derive(Clone, Copy, Debug, PartialEq, Eq, Structural)]
pub enum IoErrorKind {
    NotFound,
    InvalidFilename,
    Other,
}

/// Whether a failure to start a program means that its file is missing: the
/// error kind is "not found" or "invalid file name", or the OS error code is
/// 2 (file not found) or 3 (path not found).
pub fn is_file_not_found(kind: IoErrorKind, raw_os_error: Option<i32>) -> (r: bool)
    ensures
        r == (kind == IoErrorKind::NotFound || kind == IoErrorKind::InvalidFilename
            || raw_os_error == Some(2i32) || raw_os_error == Some(3i32)),
{
    kind == IoErrorKind::NotFound || kind == IoErrorKind::InvalidFilename || raw_os_error
        == Some(2i32) || raw_os_error == Some(3i32)
}

} // verus!

verus! {

// ---------------------------------------------------------------------------
// Windows Installer product codes
// ---------------------------------------------------------------------------

/// A product code candidate: once trimmed, 38 bytes long, starting with `{`
/// and ending with `}`.
pub open spec fn looks_like_guid_spec(s: Seq<char>) -> bool {
    let t = trim_spec(s);
    &&& utf8_len(t) == 38
    &&& t.len() > 0
    &&& t[0] == '{'
    &&& t.last() == '}'
}

/// Whether `s` looks like a `{...}` product code of 38 bytes.
pub fn looks_like_guid(s: &str) -> (r: bool)
    ensures
        r == looks_like_guid_spec(s@),
{
    let t = trim(s);
    let v = chars_of(t.as_str());
    utf8_len_is(&v, 38) && v.len() > 0 && v[0] == '{' && v[v.len() - 1] == '}'
}

/// A product code in canonical form: trimmed and in upper case.
pub fn normalize_guid(s: &str) -> (r: String)
    ensures
        r@ == unicode_uppercase(trim_spec(s@)),
{
    let t = trim(s);
    to_uppercase(t.as_str())
}

/// The text from the first `{` of `s` to the first `}` after it, both included.
pub open spec fn braced_span(s: Seq<char>) -> Option<Seq<char>> {
    if !has_char(s, '{') {
        None
    } else {
        let a = first_pos(s, '{');
        let rest = s.skip(a);
        if !has_char(rest, '}') {
            None
        } else {
            Some(s.subrange(a, a + first_pos(rest, '}') + 1))
        }
    }
}

/// The product code in an `msiexec` command line `s`, given `lowered`, its
/// lowercase form: the braced span of `s` in canonical form, when `lowered`
/// mentions `msiexec` and the span looks like a product code.
pub open spec fn msiexec_guid_spec(s: Seq<char>, lowered: Seq<char>) -> Option<Seq<char>> {
    if !contains_spec(lowered, "msiexec"@) {
        None
    } else {
        match braced_span(s) {
            Some(g) => if looks_like_guid_spec(g) {
                Some(unicode_uppercase(trim_spec(g)))
            } else {
                None
            },
            None => None,
        }
    }
}

/// The product code of an `msiexec` command line `s` whose lowercase form is
/// `lowered`.
pub fn guid_in_msiexec_command(s: &str, lowered: &str) -> (r: Option<String>)
    ensures
        opt_view(r) == msiexec_guid_spec(s@, lowered@),
{
    if !contains_chars(&chars_of(lowered), &chars_of("msiexec")) {
        return None;
    }
    let v = chars_of(s);
    let start = match find_char(&v, '{') {
        Some(a) => a,
        None => {
            return None;
        },
    };
    proof {
        lemma_first_pos(v@, '{', start as int);
    }
    let rest = chars_of(string_of_range(&v, start, v.len()).as_str());
    assert(rest@ == v@.skip(start as int));
    let off = match find_char(&rest, '}') {
        Some(b) => b,
        None => {
            return None;
        },
    };
    proof {
        lemma_first_pos(rest@, '}', off as int);
    }
    let end = off + start;
    let guid = string_of_range(&v, start, end + 1);
    if looks_like_guid(guid.as_str()) {
        Some(normalize_guid(guid.as_str()))
    } else {
        None
    }
}

/// The product code named by an `msiexec` uninstall command line.
pub fn msiexec_guid_from_string(s: &str) -> (r: Option<String>)
    ensures
        opt_view(r) == msiexec_guid_spec(s@, unicode_lowercase(s@)),
{
    let lowered = to_lowercase(s);
    guid_in_msiexec_command(s, lowered.as_str())
}

/// The last `\`-separated part of `id` (all of it when it has no `\`).
pub open spec fn last_id_part(id: Seq<char>) -> Seq<char> {
    if has_char(id, '\\') {
        id.skip(last_pos(id, '\\') + 1)
    } else {
        id
    }
}

/// The product code of a program: its registry key name when that looks like
/// a product code, else the code in its `msiexec` uninstall command.
pub open spec fn product_code_spec(p: InstalledProgram) -> Option<Seq<char>> {
    let key = last_id_part(p.id@);
    if looks_like_guid_spec(key) {
        Some(unicode_uppercase(trim_spec(key)))
    } else {
        match p.uninstall_string {
            Some(u) => msiexec_guid_spec(u@, unicode_lowercase(u@)),
            None => None,
        }
    }
}

/// The Windows Installer product code of `program`, if one can be found.
pub fn extract_product_code(program: &InstalledProgram) -> (r: Option<String>)
    ensures
        opt_view(r) == product_code_spec(*program),
{
    let idv = chars_of(program.id.as_str());
    let key = match rfind_char(&idv, '\\') {
        Some(i) => {
            proof {
                lemma_last_pos(idv@, '\\', i as int);
                assert(i < idv@.len());
                assert(idv@.len() == idv.len());
            }
            let k = string_of_range(&idv, i + 1, idv.len());
            assert(k@ == idv@.skip(i + 1));
            k
        },
        None => {
            let k = string_of_range(&idv, 0, idv.len());
            assert(k@ == idv@);
            k
        },
    };
    if looks_like_guid(key.as_str()) {
        return Some(normalize_guid(key.as_str()));
    }
    match &program.uninstall_string {
        Some(u) => msiexec_guid_from_string(u.as_str()),
        None => None,
    }
}

// ---------------------------------------------------------------------------
// Choosing the uninstall command
// ---------------------------------------------------------------------------

/// How a program is to be uninstalled.
#[derive(Debug)]
pub enum UninstallPlan {
    /// Run the (trimmed) `QuietUninstallString` as it is.
    Quiet(String),
    /// Run `msiexec /x <product code> /qn /norestart`.
    Msi(String),
    /// Run the (trimmed) `UninstallString`, made silent.
    Command(String),
}

/// A registry command string, trimmed, when it is not blank.
pub open spec fn trimmed_command(o: Option<String>) -> Option<Seq<char>> {
    match o {
        Some(s) => if trim_spec(s@).len() > 0 {
            Some(trim_spec(s@))
        } else {
            None
        },
        None => None,
    }
}

/// The product code to pass to `msiexec`, when the quiet command is missing.
pub open spec fn msi_code_spec(p: InstalledProgram) -> Option<Seq<char>> {
    if p.windows_installer && product_code_spec(p) is Some {
        product_code_spec(p)
    } else {
        match trimmed_command(p.uninstall_string) {
            Some(u) => msiexec_guid_spec(u, unicode_lowercase(u)),
            None => None,
        }
    }
}

fn trimmed_command_exec(o: &Option<String>) -> (r: Option<String>)
    ensures
        opt_view(r) == trimmed_command(*o),
{
    match o {
        Some(s) => {
            let t = trim(s.as_str());
            if t.unicode_len() > 0 {
                Some(t)
            } else {
                None
            }
        },
        None => None,
    }
}

/// Chooses how to uninstall `program`: its quiet command if there is one;
/// else `msiexec` with its product code (for Windows Installer entries, or
/// when the uninstall command is an `msiexec` call); else its uninstall
/// command; else an error.
pub fn plan_uninstall(program: &InstalledProgram) -> (r: Result<UninstallPlan, String>)
    ensures
        match r {
            Ok(UninstallPlan::Quiet(c)) => trimmed_command(program.quiet_uninstall_string)
                == Some(c@),
            Ok(UninstallPlan::Msi(g)) => {
                &&& trimmed_command(program.quiet_uninstall_string) is None
                &&& msi_code_spec(*program) == Some(g@)
            },
            Ok(UninstallPlan::Command(c)) => {
                &&& trimmed_command(program.quiet_uninstall_string) is None
                &&& msi_code_spec(*program) is None
                &&& trimmed_command(program.uninstall_string) == Some(c@)
            },
            Err(e) => {
                &&& trimmed_command(program.quiet_uninstall_string) is None
                &&& msi_code_spec(*program) is None
                &&& trimmed_command(program.uninstall_string) is None
                &&& e@ == "No uninstall command available"@
            },
        },
{
    if let Some(quiet) = trimmed_command_exec(&program.quiet_uninstall_string) {
        return Ok(UninstallPlan::Quiet(quiet));
    }
    if program.windows_installer {
        if let Some(guid) = extract_product_code(program) {
            return Ok(UninstallPlan::Msi(guid));
        }
    }
    if let Some(uninstall) = trimmed_command_exec(&program.uninstall_string) {
        if let Some(guid) = msiexec_guid_from_string(uninstall.as_str()) {
            return Ok(UninstallPlan::Msi(guid));
        }
        return Ok(UninstallPlan::Command(uninstall));
    }
    Err(String::from_str("No uninstall command available"))
}

/// `r` is what `prepare_command` gives for `command_line`: the error when it
/// holds no program, else the program and its arguments, to which missing
/// silent switches are added with `EnsureSilent`.
pub open spec fn prepared_command(
    command_line: Seq<char>,
    silent: SilentMode,
    r: Result<(String, Vec<String>), String>,
) -> bool {
    match split_command_line_spec(command_line) {
        None => r is Err && r->Err_0@ == "Could not parse uninstall command: "@ + command_line,
        Some((p, a)) => {
            &&& r is Ok
            &&& r->Ok_0.0@ == p
            &&& string_views(r->Ok_0.1@) == if silent == SilentMode::EnsureSilent {
                a + silent_args_to_add(p, a)
            } else {
                a
            }
        },
    }
}

/// The program and arguments to run for `command_line`, or the error when it
/// holds no program. With `EnsureSilent`, missing silent switches are added.
/// The command line must cut cleanly (`command_line_cuts_cleanly`).
pub fn prepare_command(command_line: &str, silent: SilentMode) -> (r: Result<
    (String, Vec<String>),
    String,
>)
    requires
        command_line_cuts_cleanly(command_line@),
    ensures
        prepared_command(command_line@, silent, r),
{
    match split_command_line(command_line) {
        None => {
            let mut e = String::from_str("Could not parse uninstall command: ");
            e.append(command_line);
            Err(e)
        },
        Some((program, args)) => {
            let mut args = args;
            if silent == SilentMode::EnsureSilent {
                ensure_silent_args(program.as_str(), &mut args);
            }
            Ok((program, args))
        },
    }
}

/// `prepare_command` on any command line: `None` when it does not cut
/// cleanly (where the cut at its program end would fall inside a character).
pub fn try_prepare_command(command_line: &str, silent: SilentMode) -> (r: Option<
    Result<(String, Vec<String>), String>,
>)
    ensures
        r is None <==> !command_line_cuts_cleanly(command_line@),
        r matches Some(x) ==> prepared_command(command_line@, silent, x),
{
    if cuts_cleanly(command_line) {
        Some(prepare_command(command_line, silent))
    } else {
        None
    }
}

} // verus!

verus! {

// ---------------------------------------------------------------------------
// Progress reports
// ---------------------------------------------------------------------------

/// A progress event for one program of an uninstall run.
#[derive(Debug)]
pub struct UninstallProgress {
    pub id: String,
    pub display_name: String,
    /// `running`, `uninstalled` or `failed`.
    pub status: String,
    pub message: Option<String>,
    pub exit_code: Option<i32>,
}

/// `p` carries exactly the given fields.
pub open spec fn progress_is(
    p: UninstallProgress,
    id: Seq<char>,
    name: Seq<char>,
    status: Seq<char>,
    message: Option<Seq<char>>,
    exit_code: Option<i32>,
) -> bool {
    &&& p.id@ == id
    &&& p.display_name@ == name
    &&& p.status@ == status
    &&& opt_view(p.message) == message
    &&& p.exit_code == exit_code
}

fn progress(id: &str, name: &str, status: &str, message: Option<String>, exit_code: Option<
    i32,
>) -> (r: UninstallProgress)
    ensures
        progress_is(r, id@, name@, status@, opt_view(message), exit_code),
{
    UninstallProgress {
        id: String::from_str(id),
        display_name: String::from_str(name),
        status: String::from_str(status),
        message,
        exit_code,
    }
}

/// An uninstall run needs at least one program.
pub fn validate_selection(ids: &[String]) -> (r: Result<(), String>)
    ensures
        r is Err <==> ids@.len() == 0,
        r matches Err(e) ==> e@ == "No programs selected"@,
{
    if ids.len() == 0 {
        Err(String::from_str("No programs selected"))
    } else {
        Ok(())
    }
}

/// What to do with one selected program before running anything.
#[derive(Debug)]
pub enum ProgramStart {
    /// Report this failure and go on with the next program.
    Skip(UninstallProgress),
    /// Report this and run the uninstaller.
    Run(UninstallProgress),
}

/// The program behind an optional reference.
pub open spec fn program_value(program: Option<&InstalledProgram>) -> Option<InstalledProgram> {
    match program {
        Some(p) => Some(*p),
        None => None,
    }
}

/// `r` is how the program selected as `id`, found as `program`, starts: a
/// program that is no longer listed, or that is protected, is skipped with a
/// failure; any other program is announced as running.
pub open spec fn begins_with(id: Seq<char>, program: Option<InstalledProgram>, r: ProgramStart) -> bool {
    match program {
        None => r matches ProgramStart::Skip(p) && progress_is(
            p,
            id,
            "(unknown)"@,
            "failed"@,
            Some("Program no longer found in registry"@),
            None,
        ),
        Some(prog) => if prog.protected {
            r matches ProgramStart::Skip(p) && progress_is(
                p,
                prog.id@,
                prog.display_name@,
                "failed"@,
                Some("Protected entry — skipped"@),
                None,
            )
        } else {
            r matches ProgramStart::Run(p) && progress_is(
                p,
                prog.id@,
                prog.display_name@,
                "running"@,
                Some("Starting silent uninstall…"@),
                None,
            )
        },
    }
}

/// Decides whether the program selected as `id` is uninstalled: a program
/// that is no longer listed, or that is protected, is skipped with a failure;
/// any other program is announced as running.
pub fn begin_uninstall(id: &str, program: Option<&InstalledProgram>) -> (r: ProgramStart)
    ensures
        begins_with(id@, program_value(program), r),
{
    match program {
        None => ProgramStart::Skip(
            progress(
                id,
                "(unknown)",
                "failed",
                Some(String::from_str("Program no longer found in registry")),
                None,
            ),
        ),
        Some(prog) => {
            if prog.protected {
                ProgramStart::Skip(
                    progress(
                        prog.id.as_str(),
                        prog.display_name.as_str(),
                        "failed",
                        Some(String::from_str("Protected entry — skipped")),
                        None,
                    ),
                )
            } else {
                ProgramStart::Run(
                    progress(
                        prog.id.as_str(),
                        prog.display_name.as_str(),
                        "running",
                        Some(String::from_str("Starting silent uninstall…")),
                        None,
                    ),
                )
            }
        },
    }
}

/// How running an uninstaller ended.
#[derive(Debug)]
pub enum RunOutcome {
    /// The process exited with this code (`-1` when it had none).
    Exit(i32),
    /// The uninstaller's file does not exist.
    MissingExecutable(String),
}

/// What to report once an uninstaller has run.
#[derive(Debug)]
pub enum OutcomeReport {
    /// The final report for the program.
    Done(UninstallProgress),
    /// Report this, then remove the leftover registry entry of the program
    /// whose uninstaller at this path is missing.
    CleanUp(UninstallProgress, String),
}

/// The message of a finished uninstaller: success (0), success needing a
/// reboot (3010), or the failing exit code.
pub open spec fn exit_message(code: i32) -> Seq<char> {
    if code == 3010 {
        "Uninstalled (reboot required)"@
    } else if code == 0 {
        "Uninstalled successfully"@
    } else {
        "Uninstaller exited with code "@ + decimal_spec(code as int)
    }
}

/// Exit codes 0 and 3010 mean that the program was uninstalled.
pub open spec fn exit_status(code: i32) -> Seq<char> {
    if code == 0 || code == 3010 {
        "uninstalled"@
    } else {
        "failed"@
    }
}

/// `r` is the report on how the uninstaller of `program` ended: by exit
/// code, by a missing uninstaller (which leads to cleaning up), or by an error.
pub open spec fn reports_outcome(
    program: InstalledProgram,
    outcome: Result<RunOutcome, String>,
    r: OutcomeReport,
) -> bool {
    match outcome {
        Ok(RunOutcome::Exit(code)) => r matches OutcomeReport::Done(p) && progress_is(
            p,
            program.id@,
            program.display_name@,
            exit_status(code),
            Some(exit_message(code)),
            Some(code),
        ),
        Ok(RunOutcome::MissingExecutable(path)) => r matches OutcomeReport::CleanUp(p, q)
            && q@ == path@ && progress_is(
            p,
            program.id@,
            program.display_name@,
            "running"@,
            Some(
                "Uninstaller not found ("@ + path@ + ") — removing leftover registry entry…"@,
            ),
            None,
        ),
        Err(e) => r matches OutcomeReport::Done(p) && progress_is(
            p,
            program.id@,
            program.display_name@,
            "failed"@,
            Some(e@),
            None,
        ),
    }
}

/// Only exit codes 0 and 3010 mean success: the report on an uninstaller
/// that exited with `code` is final, carries the code, and is `uninstalled`
/// for 0 ("Uninstalled successfully") and 3010 ("Uninstalled (reboot
/// required)"); for any other code it is `failed`, with the message
/// "Uninstaller exited with code " and the code in decimal.
pub proof fn law_only_zero_and_3010_succeed(program: InstalledProgram, code: i32, r: OutcomeReport)
    requires
        reports_outcome(program, Ok(RunOutcome::Exit(code)), r),
    ensures
        r matches OutcomeReport::Done(p) && {
            &&& p.id@ == program.id@
            &&& p.exit_code == Some(code)
            &&& code == 0 ==> p.status@ == "uninstalled"@ && opt_view(p.message) == Some(
                "Uninstalled successfully"@,
            )
            &&& code == 3010 ==> p.status@ == "uninstalled"@ && opt_view(p.message) == Some(
                "Uninstalled (reboot required)"@,
            )
            &&& code != 0 && code != 3010 ==> p.status@ == "failed"@ && opt_view(p.message)
                == Some("Uninstaller exited with code "@ + decimal_spec(code as int))
        },
{
}

/// Reports how running the uninstaller of `program` ended: by exit code, by
/// a missing uninstaller (which leads to cleaning up), or by an error.
pub fn report_outcome(program: &InstalledProgram, outcome: Result<RunOutcome, String>) -> (r:
    OutcomeReport)
    ensures
        reports_outcome(*program, outcome, r),
{
    let id = program.id.as_str();
    let name = program.display_name.as_str();
    match outcome {
        Ok(RunOutcome::Exit(code)) => {
            if code == 0 || code == 3010 {
                let msg = if code == 3010 {
                    String::from_str("Uninstalled (reboot required)")
                } else {
                    String::from_str("Uninstalled successfully")
                };
                OutcomeReport::Done(progress(id, name, "uninstalled", Some(msg), Some(code)))
            } else {
                let mut msg = String::from_str("Uninstaller exited with code ");
                push_decimal(&mut msg, code);
                OutcomeReport::Done(progress(id, name, "failed", Some(msg), Some(code)))
            }
        },
        Ok(RunOutcome::MissingExecutable(path)) => {
            let mut msg = String::from_str("Uninstaller not found (");
            msg.append(path.as_str());
            msg.append(") — removing leftover registry entry…");
            OutcomeReport::CleanUp(progress(id, name, "running", Some(msg), None), path)
        },
        Err(err) => OutcomeReport::Done(progress(id, name, "failed", Some(err), None)),
    }
}

/// `r` reports the removal of the leftover registry entry of `program`,
/// whose uninstaller at `path` was missing.
pub open spec fn reports_cleanup(
    program: InstalledProgram,
    path: Seq<char>,
    result: Result<(), String>,
    r: UninstallProgress,
) -> bool {
    match result {
        Ok(()) => progress_is(
            r,
            program.id@,
            program.display_name@,
            "uninstalled"@,
            Some("Uninstaller missing — removed leftover registry entry"@),
            Some(0i32),
        ),
        Err(e) => progress_is(
            r,
            program.id@,
            program.display_name@,
            "failed"@,
            Some("Uninstaller missing ("@ + path + ") and registry cleanup failed: "@ + e@),
            None,
        ),
    }
}

/// Reports the removal of the leftover registry entry of `program`, whose
/// uninstaller at `path` was missing.
pub fn report_cleanup(program: &InstalledProgram, path: &str, result: Result<(), String>) -> (r:
    UninstallProgress)
    ensures
        reports_cleanup(*program, path@, result, r),
{
    let id = program.id.as_str();
    let name = program.display_name.as_str();
    match result {
        Ok(()) => progress(
            id,
            name,
            "uninstalled",
            Some(String::from_str("Uninstaller missing — removed leftover registry entry")),
            Some(0),
        ),
        Err(err) => {
            let mut msg = String::from_str("Uninstaller missing (");
            msg.append(path);
            msg.append(") and registry cleanup failed: ");
            msg.append(err.as_str());
            progress(id, name, "failed", Some(msg), None)
        },
    }
}

} // verus!
