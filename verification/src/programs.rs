//! Installed programs as read from the Windows Uninstall registry keys.
use vstd::prelude::*;

use crate::text::{
    ascii_lower, chars_of, contains_chars, contains_spec, contains_str, find_char, first_pos,
    has_char, last_pos, lemma_first_pos, lemma_last_pos, first_index_of, last_index_of, rfind_char, starts_with_chars,
    starts_with_spec, str_eq, string_of_range, to_ascii_lowercase, to_lowercase, trim, trim_spec,
    unicode_lowercase,
};

verus! {

/// One entry of the Add/Remove Programs list.
#[derive(Debug)]
pub struct InstalledProgram {
    /// `<hive>\<uninstall key path>\<subkey name>`.
    pub id: String,
    pub display_name: String,
    pub publisher: Option<String>,
    pub display_version: Option<String>,
    pub install_date: Option<String>,
    pub install_location: Option<String>,
    pub uninstall_string: Option<String>,
    pub quiet_uninstall_string: Option<String>,
    pub estimated_size_kb: Option<u64>,
    pub windows_installer: bool,
    pub system_component: bool,
    pub protected: bool,
    pub hive: String,
    pub category: Option<String>,
}

pub open spec fn opt_view(o: Option<String>) -> Option<Seq<char>> {
    match o {
        Some(s) => Some(s@),
        None => None,
    }
}

} // verus!

verus! {

// ---------------------------------------------------------------------------
// Copying
// ---------------------------------------------------------------------------

pub fn copy_opt_string(o: &Option<String>) -> (r: Option<String>)
    ensures
        r == *o,
{
    match o {
        Some(s) => Some(s.clone()),
        None => None,
    }
}

/// A field-by-field copy of `p`.
pub fn copy_program(p: &InstalledProgram) -> (r: InstalledProgram)
    ensures
        r == *p,
{
    InstalledProgram {
        id: p.id.clone(),
        display_name: p.display_name.clone(),
        publisher: copy_opt_string(&p.publisher),
        display_version: copy_opt_string(&p.display_version),
        install_date: copy_opt_string(&p.install_date),
        install_location: copy_opt_string(&p.install_location),
        uninstall_string: copy_opt_string(&p.uninstall_string),
        quiet_uninstall_string: copy_opt_string(&p.quiet_uninstall_string),
        estimated_size_kb: p.estimated_size_kb,
        windows_installer: p.windows_installer,
        system_component: p.system_component,
        protected: p.protected,
        hive: p.hive.clone(),
        category: copy_opt_string(&p.category),
    }
}

// ---------------------------------------------------------------------------
// Protection
// ---------------------------------------------------------------------------

/// The display names under which this application itself is installed.
pub open spec fn app_display_names() -> Seq<Seq<char>> {
    seq![
        "Uninstall Many Programs"@,
        "Uninstall a Program (Bulk Edition)"@,
        "Uninstall Manager"@,
        "Ultimate Uninstaller"@,
        "Bulk Uninstaller"@,
    ]
}

/// Whether `name` is one of this application's names, ignoring ASCII case.
pub open spec fn is_app_name(name: Seq<char>) -> bool {
    exists|i: int| 0 <= i < 5 && ascii_lower(name) == ascii_lower(#[trigger] app_display_names()[i])
}

/// Protection, given the display name `name`, its lowercase form `lower` and
/// the lowercase publisher `publisher_lower`: system components, this
/// application, Windows updates (`KB…`), and Microsoft runtimes, SDKs and Edge
/// are protected.
pub open spec fn is_protected_lowered_spec(
    name: Seq<char>,
    lower: Seq<char>,
    publisher_lower: Seq<char>,
    system_component: bool,
) -> bool {
    ||| system_component
    ||| is_app_name(name)
    ||| contains_spec(lower, "kb"@) && (starts_with_spec(lower, "update for"@) || starts_with_spec(
        lower,
        "security update"@,
    ) || starts_with_spec(lower, "hotfix for"@))
    ||| contains_spec(publisher_lower, "microsoft"@) && (contains_spec(lower, "visual c++"@)
        || contains_spec(lower, ".net"@) || contains_spec(lower, "windows sdk"@) || contains_spec(
        lower,
        "microsoft edge update"@,
    ) || lower == "microsoft edge"@)
}

pub open spec fn or_empty(o: Option<Seq<char>>) -> Seq<char> {
    match o {
        Some(s) => s,
        None => Seq::empty(),
    }
}

/// Whether a program with this display name, publisher and system-component
/// flag must never be uninstalled by this application.
pub open spec fn is_protected_spec(
    name: Seq<char>,
    publisher: Option<Seq<char>>,
    system_component: bool,
) -> bool {
    is_protected_lowered_spec(
        name,
        unicode_lowercase(name),
        unicode_lowercase(or_empty(publisher)),
        system_component,
    )
}

/// Whether `name` equals `other` ignoring ASCII case (`str::eq_ignore_ascii_case`).
pub fn eq_ignore_ascii_case(name: &str, other: &str) -> (r: bool)
    ensures
        r == (ascii_lower(name@) == ascii_lower(other@)),
{
    let a = to_ascii_lowercase(name);
    let b = to_ascii_lowercase(other);
    str_eq(a.as_str(), b.as_str())
}

fn is_app_name_exec(name: &str) -> (r: bool)
    ensures
        r == is_app_name(name@),
{
    let names: [&str; 5] = [
        "Uninstall Many Programs",
        "Uninstall a Program (Bulk Edition)",
        "Uninstall Manager",
        "Ultimate Uninstaller",
        "Bulk Uninstaller",
    ];
    let ghost nv = app_display_names();
    assert(names@.map_values(|e: &str| e@) == nv);
    let mut k: usize = 0;
    while k < 5
        invariant
            k <= 5,
            nv == app_display_names(),
            forall|j: int| 0 <= j < 5 ==> #[trigger] names@[j]@ == nv[j],
            forall|j: int| 0 <= j < k ==> ascii_lower(name@) != ascii_lower(#[trigger] nv[j]),
        decreases 5 - k,
    {
        let nm: &str = names[k];
        assert(nm@ == nv[k as int]);
        if eq_ignore_ascii_case(name, nm) {
            return true;
        }
        k = k + 1;
    }
    false
}

/// Protection decided from the display name, its lowercase form and the
/// lowercase publisher (see `is_protected_lowered_spec`).
pub fn is_protected_lowered(
    display_name: &str,
    lower: &str,
    publisher_lower: &str,
    system_component: bool,
) -> (r: bool)
    ensures
        r == is_protected_lowered_spec(display_name@, lower@, publisher_lower@, system_component),
{
    if system_component {
        return true;
    }
    if is_app_name_exec(display_name) {
        return true;
    }
    let l = chars_of(lower);
    if contains_chars(&l, &chars_of("kb")) && (starts_with_chars(&l, &chars_of("update for"))
        || starts_with_chars(&l, &chars_of("security update")) || starts_with_chars(
        &l,
        &chars_of("hotfix for"),
    )) {
        return true;
    }
    if contains_str(publisher_lower, "microsoft") {
        if contains_chars(&l, &chars_of("visual c++")) || contains_chars(&l, &chars_of(".net"))
            || contains_chars(&l, &chars_of("windows sdk")) || contains_chars(
            &l,
            &chars_of("microsoft edge update"),
        ) || str_eq(lower, "microsoft edge") {
            return true;
        }
    }
    false
}

/// Whether a program must never be uninstalled by this application: system
/// components, this application itself, Windows updates and Microsoft
/// runtimes, SDKs and Edge.
pub fn is_protected(display_name: &str, publisher: Option<&str>, system_component: bool) -> (r:
    bool)
    ensures
        r == is_protected_spec(
            display_name@,
            match publisher {
                Some(p) => Some(p@),
                None => None,
            },
            system_component,
        ),
{
    if system_component {
        return true;
    }
    let lower = to_lowercase(display_name);
    let publisher_lower = match publisher {
        Some(p) => to_lowercase(p),
        None => to_lowercase(""),
    };
    proof {
        reveal_strlit("");
        assert(""@ =~= Seq::<char>::empty());
    }
    is_protected_lowered(display_name, lower.as_str(), publisher_lower.as_str(), false)
}

/// Microsoft runtimes, SDKs and Edge are protected: a program whose
/// lowercase publisher mentions `microsoft` and whose lowercase name mentions
/// Visual C++, `.net`, the Windows SDK or Edge Update, or is `microsoft edge`,
/// is protected, whatever else holds of it.
pub proof fn law_microsoft_runtimes_are_protected(
    name: Seq<char>,
    lower: Seq<char>,
    publisher_lower: Seq<char>,
    system_component: bool,
)
    requires
        contains_spec(publisher_lower, "microsoft"@),
        contains_spec(lower, "visual c++"@) || contains_spec(lower, ".net"@) || contains_spec(
            lower,
            "windows sdk"@,
        ) || contains_spec(lower, "microsoft edge update"@) || lower == "microsoft edge"@,
    ensures
        is_protected_lowered_spec(name, lower, publisher_lower, system_component),
{
}

/// The same for a program given by its name and publisher: once both are
/// lowercased (`str::to_lowercase`), a Microsoft program whose name mentions
/// `.net`, Visual C++ or the Windows SDK is protected.
pub proof fn law_microsoft_dotnet_is_protected(
    name: Seq<char>,
    publisher: Seq<char>,
    system_component: bool,
)
    requires
        contains_spec(unicode_lowercase(publisher), "microsoft"@),
        contains_spec(unicode_lowercase(name), ".net"@) || contains_spec(
            unicode_lowercase(name),
            "visual c++"@,
        ) || contains_spec(unicode_lowercase(name), "windows sdk"@),
    ensures
        is_protected_spec(name, Some(publisher), system_component),
{
    law_microsoft_runtimes_are_protected(
        name,
        unicode_lowercase(name),
        unicode_lowercase(publisher),
        system_component,
    );
}

/// Windows updates are protected: a lowercase name that starts with
/// `update for`, `security update` or `hotfix for` and mentions `kb`.
pub proof fn law_windows_updates_are_protected(
    name: Seq<char>,
    lower: Seq<char>,
    publisher_lower: Seq<char>,
    system_component: bool,
)
    requires
        contains_spec(lower, "kb"@),
        starts_with_spec(lower, "update for"@) || starts_with_spec(lower, "security update"@)
            || starts_with_spec(lower, "hotfix for"@),
    ensures
        is_protected_lowered_spec(name, lower, publisher_lower, system_component),
{
}

/// Nothing else is protected: a program that is no system component, none
/// of this application's names, no Windows update, and not published by
/// Microsoft can be uninstalled.
pub proof fn law_other_programs_are_not_protected(
    name: Seq<char>,
    lower: Seq<char>,
    publisher_lower: Seq<char>,
)
    requires
        !is_app_name(name),
        !contains_spec(lower, "kb"@) || !(starts_with_spec(lower, "update for"@)
            || starts_with_spec(lower, "security update"@) || starts_with_spec(
            lower,
            "hotfix for"@,
        )),
        !contains_spec(publisher_lower, "microsoft"@),
    ensures
        !is_protected_lowered_spec(name, lower, publisher_lower, false),
{
}

/// System components are always protected.
pub proof fn law_system_components_are_protected(name: Seq<char>, publisher: Option<Seq<char>>)
    ensures
        is_protected_spec(name, publisher, true),
{
}

/// This application is always protected from uninstalling itself, whatever
/// the ASCII case of its display name.
pub proof fn law_own_names_are_protected(
    name: Seq<char>,
    publisher: Option<Seq<char>>,
    system_component: bool,
    i: int,
)
    requires
        0 <= i < 5,
        ascii_lower(name) == ascii_lower(app_display_names()[i]),
    ensures
        is_protected_spec(name, publisher, system_component),
{
    assert(is_app_name(name));
}

// ---------------------------------------------------------------------------
// Reading registry values
// ---------------------------------------------------------------------------

/// The values read from one Uninstall subkey (`None` where a value is absent
/// or of another type).
#[derive(Debug)]
pub struct RawUninstallEntry {
    pub display_name: Option<String>,
    pub publisher: Option<String>,
    pub display_version: Option<String>,
    pub install_date: Option<String>,
    pub install_location: Option<String>,
    pub uninstall_string: Option<String>,
    pub quiet_uninstall_string: Option<String>,
    pub estimated_size: Option<u32>,
    pub windows_installer: Option<u32>,
    pub system_component: Option<u32>,
}

pub open spec fn dword_flag_spec(value: Option<u32>) -> bool {
    match value {
        Some(v) => v != 0,
        None => false,
    }
}

/// A DWORD flag is set when it is present and not zero.
pub fn dword_flag(value: Option<u32>) -> (r: bool)
    ensures
        r == dword_flag_spec(value),
{
    match value {
        Some(v) => v != 0,
        None => false,
    }
}

/// `r` is the program described by the values `raw` of the subkey
/// `subkey_name` of the Uninstall key `path` in hive `hive_name`: none when it
/// has no (non-blank) display name.
pub open spec fn reads_as(
    hive_name: Seq<char>,
    path: Seq<char>,
    subkey_name: Seq<char>,
    raw: RawUninstallEntry,
    r: Option<InstalledProgram>,
) -> bool {
    &&& (r is None <==> match raw.display_name {
        Some(n) => trim_spec(n@).len() == 0,
        None => true,
    })
    &&& (r matches Some(p) ==> {
        &&& p.id@ == hive_name + "\\"@ + path + "\\"@ + subkey_name
        &&& p.display_name@ == trim_spec(raw.display_name->0@)
        &&& p.publisher == raw.publisher
        &&& p.display_version == raw.display_version
        &&& p.install_date == raw.install_date
        &&& p.install_location == raw.install_location
        &&& p.uninstall_string == raw.uninstall_string
        &&& p.quiet_uninstall_string == raw.quiet_uninstall_string
        &&& p.estimated_size_kb == match raw.estimated_size {
            Some(v) => Some(v as u64),
            None => None,
        }
        &&& p.windows_installer == dword_flag_spec(raw.windows_installer)
        &&& p.system_component == dword_flag_spec(raw.system_component)
        &&& p.protected == is_protected_spec(
            p.display_name@,
            opt_view(p.publisher),
            p.system_component,
        )
        &&& p.hive@ == hive_name
        &&& p.category is None
    })
}

/// The program described by the values of the subkey `subkey_name` of the
/// Uninstall key `path` in hive `hive_name`, or `None` when it has no
/// (non-blank) display name.
pub fn read_program(hive_name: &str, path: &str, subkey_name: &str, raw: RawUninstallEntry) -> (r:
    Option<InstalledProgram>)
    ensures
        reads_as(hive_name@, path@, subkey_name@, raw, r),
{
    let raw_name = match &raw.display_name {
        Some(n) => n,
        None => {
            return None;
        },
    };
    let display_name = trim(raw_name.as_str());
    if display_name.unicode_len() == 0 {
        return None;
    }
    let windows_installer = dword_flag(raw.windows_installer);
    let system_component = dword_flag(raw.system_component);
    let mut id = String::from_str(hive_name);
    id.append("\\");
    id.append(path);
    id.append("\\");
    id.append(subkey_name);
    let protected = match &raw.publisher {
        Some(p) => is_protected(display_name.as_str(), Some(p.as_str()), system_component),
        None => is_protected(display_name.as_str(), None, system_component),
    };
    let estimated_size_kb = match raw.estimated_size {
        Some(v) => Some(v as u64),
        None => None,
    };
    Some(
        InstalledProgram {
            id,
            display_name,
            publisher: raw.publisher,
            display_version: raw.display_version,
            install_date: raw.install_date,
            install_location: raw.install_location,
            uninstall_string: raw.uninstall_string,
            quiet_uninstall_string: raw.quiet_uninstall_string,
            estimated_size_kb,
            windows_installer,
            system_component,
            protected,
            hive: String::from_str(hive_name),
            category: None,
        },
    )
}

/// The first program of `programs` whose id is `id`.
pub fn find_program(programs: Vec<InstalledProgram>, id: &str) -> (r: Option<InstalledProgram>)
    ensures
        match r {
            Some(p) => exists|i: int|
                0 <= i < programs@.len() && programs@[i] == p && p.id@ == id@ && forall|j: int|
                    0 <= j < i ==> (#[trigger] programs@[j]).id@ != id@,
            None => forall|i: int| 0 <= i < programs@.len() ==> (#[trigger] programs@[i]).id@ != id@,
        },
{
    let mut i: usize = 0;
    while i < programs.len()
        invariant
            i <= programs@.len(),
            forall|j: int| 0 <= j < i ==> (#[trigger] programs@[j]).id@ != id@,
        decreases programs@.len() - i,
    {
        if str_eq(programs[i].id.as_str(), id) {
            return Some(copy_program(&programs[i]));
        }
        i = i + 1;
    }
    None
}

// ---------------------------------------------------------------------------
// Registry key ids
// ---------------------------------------------------------------------------

/// The registry root that a hive name in a program id stands for.
#[derive(Clone, Copy, Debug, PartialEq, Eq, Structural)]
pub enum RegistryRoot {
    LocalMachine,
    CurrentUser,
}

/// The root for a hive name: `HKLM`/`HKLM-WOW64` or `HKCU`/`HKCU-WOW64`.
pub open spec fn root_of_hive(hive: Seq<char>) -> Option<RegistryRoot> {
    if hive == "HKLM"@ || hive == "HKLM-WOW64"@ {
        Some(RegistryRoot::LocalMachine)
    } else if hive == "HKCU"@ || hive == "HKCU-WOW64"@ {
        Some(RegistryRoot::CurrentUser)
    } else {
        None
    }
}

/// One of the four Uninstall registry keys that list installed programs:
/// the native and the 32-bit (WOW64) view of the machine and of the user.
#[derive(Clone, Copy, Debug, PartialEq, Eq, Structural)]
pub enum UninstallSource {
    LocalMachine,
    LocalMachineWow64,
    CurrentUser,
    CurrentUserWow64,
}

/// The sources in the order in which they are read.
pub open spec fn uninstall_sources_spec() -> Seq<UninstallSource> {
    seq![
        UninstallSource::LocalMachine,
        UninstallSource::LocalMachineWow64,
        UninstallSource::CurrentUser,
        UninstallSource::CurrentUserWow64,
    ]
}

/// The hive name that program ids from `source` begin with.
pub open spec fn source_hive_spec(source: UninstallSource) -> Seq<char> {
    match source {
        UninstallSource::LocalMachine => "HKLM"@,
        UninstallSource::LocalMachineWow64 => "HKLM-WOW64"@,
        UninstallSource::CurrentUser => "HKCU"@,
        UninstallSource::CurrentUserWow64 => "HKCU-WOW64"@,
    }
}

/// The registry root of `source`.
pub open spec fn source_root_spec(source: UninstallSource) -> RegistryRoot {
    match source {
        UninstallSource::LocalMachine | UninstallSource::LocalMachineWow64 => RegistryRoot::LocalMachine,
        _ => RegistryRoot::CurrentUser,
    }
}

/// The path of the Uninstall key of `source` under its root.
pub open spec fn source_path_spec(source: UninstallSource) -> Seq<char> {
    match source {
        UninstallSource::LocalMachine | UninstallSource::CurrentUser => "SOFTWARE\\Microsoft\\Windows\\CurrentVersion\\Uninstall"@,
        _ => "SOFTWARE\\WOW6432Node\\Microsoft\\Windows\\CurrentVersion\\Uninstall"@,
    }
}

/// Whether `hive` names one of the Uninstall sources.
pub open spec fn is_source_hive(hive: Seq<char>) -> bool {
    hive == "HKLM"@ || hive == "HKLM-WOW64"@ || hive == "HKCU"@ || hive == "HKCU-WOW64"@
}

/// The Uninstall keys to read, in order.
pub fn uninstall_sources() -> (r: Vec<UninstallSource>)
    ensures
        r@ == uninstall_sources_spec(),
{
    let mut r = Vec::new();
    r.push(UninstallSource::LocalMachine);
    r.push(UninstallSource::LocalMachineWow64);
    r.push(UninstallSource::CurrentUser);
    r.push(UninstallSource::CurrentUserWow64);
    r
}

/// The hive name of `source` (see `source_hive_spec`).
pub fn source_hive(source: UninstallSource) -> (r: String)
    ensures
        r@ == source_hive_spec(source),
{
    match source {
        UninstallSource::LocalMachine => String::from_str("HKLM"),
        UninstallSource::LocalMachineWow64 => String::from_str("HKLM-WOW64"),
        UninstallSource::CurrentUser => String::from_str("HKCU"),
        UninstallSource::CurrentUserWow64 => String::from_str("HKCU-WOW64"),
    }
}

/// The registry root of `source`.
pub fn source_root(source: UninstallSource) -> (r: RegistryRoot)
    ensures
        r == source_root_spec(source),
{
    match source {
        UninstallSource::LocalMachine | UninstallSource::LocalMachineWow64 => RegistryRoot::LocalMachine,
        _ => RegistryRoot::CurrentUser,
    }
}

/// The path of the Uninstall key of `source` (see `source_path_spec`).
pub fn source_path(source: UninstallSource) -> (r: String)
    ensures
        r@ == source_path_spec(source),
{
    match source {
        UninstallSource::LocalMachine | UninstallSource::CurrentUser => String::from_str(
            "SOFTWARE\\Microsoft\\Windows\\CurrentVersion\\Uninstall",
        ),
        _ => String::from_str("SOFTWARE\\WOW6432Node\\Microsoft\\Windows\\CurrentVersion\\Uninstall"),
    }
}

/// Every source's hive is a source hive, and stands for the source's root.
pub proof fn law_sources_name_their_roots(source: UninstallSource)
    ensures
        is_source_hive(source_hive_spec(source)),
        root_of_hive(source_hive_spec(source)) == Some(source_root_spec(source)),
{
    reveal_strlit("HKLM");
    reveal_strlit("HKLM-WOW64");
    reveal_strlit("HKCU");
    reveal_strlit("HKCU-WOW64");
    assert("HKCU"@[2] != "HKLM"@[2]);
    assert("HKCU-WOW64"@.len() != "HKLM"@.len());
    assert("HKCU"@.len() != "HKLM-WOW64"@.len());
    assert("HKCU-WOW64"@[2] != "HKLM-WOW64"@[2]);
}

/// How a program id `<hive>\<parent path>\<subkey>` splits up: at its first
/// `\`, then at the last `\` of the remainder.
pub open spec fn parse_key_id_spec(id: Seq<char>) -> Result<(RegistryRoot, Seq<char>, Seq<char>), Seq<char>> {
    if !has_char(id, '\\') {
        Err("Invalid program id: "@ + id)
    } else {
        let a = first_pos(id, '\\');
        let hive = id.take(a);
        let rest = id.skip(a + 1);
        if !has_char(rest, '\\') {
            Err("Invalid program id path: "@ + id)
        } else {
            let b = last_pos(rest, '\\');
            match root_of_hive(hive) {
                Some(root) => Ok((root, rest.take(b), rest.skip(b + 1))),
                None => Err("Unknown registry hive in id: "@ + hive),
            }
        }
    }
}

/// The registry root, parent key path and subkey name of a program id, or
/// the error for an id that cannot name an Uninstall subkey.
pub fn parse_uninstall_key_id(id: &str) -> (r: Result<(RegistryRoot, String, String), String>)
    ensures
        match r {
            Ok((root, parent, name)) => parse_key_id_spec(id@) == Ok::<
                (RegistryRoot, Seq<char>, Seq<char>),
                Seq<char>,
            >((root, parent@, name@)),
            Err(e) => parse_key_id_spec(id@) == Err::<
                (RegistryRoot, Seq<char>, Seq<char>),
                Seq<char>,
            >(e@),
        },
{
    let v = chars_of(id);
    let a = match find_char(&v, '\\') {
        Some(a) => a,
        None => {
            let mut e = String::from_str("Invalid program id: ");
            e.append(id);
            return Err(e);
        },
    };
    proof {
        lemma_first_pos(v@, '\\', a as int);
        assert(v@.len() == v.len());
    }
    let hive = string_of_range(&v, 0, a);
    let rest = chars_of(string_of_range(&v, a + 1, v.len()).as_str());
    assert(hive@ == v@.take(a as int));
    assert(rest@ == v@.skip(a + 1));
    let b = match rfind_char(&rest, '\\') {
        Some(b) => b,
        None => {
            let mut e = String::from_str("Invalid program id path: ");
            e.append(id);
            return Err(e);
        },
    };
    proof {
        lemma_last_pos(rest@, '\\', b as int);
        assert(rest@.len() == rest.len());
    }
    let parent = string_of_range(&rest, 0, b);
    let name = string_of_range(&rest, b + 1, rest.len());
    assert(parent@ == rest@.take(b as int));
    assert(name@ == rest@.skip(b + 1));
    let h = hive.as_str();
    if str_eq(h, "HKLM") || str_eq(h, "HKLM-WOW64") {
        Ok((RegistryRoot::LocalMachine, parent, name))
    } else if str_eq(h, "HKCU") || str_eq(h, "HKCU-WOW64") {
        Ok((RegistryRoot::CurrentUser, parent, name))
    } else {
        let mut e = String::from_str("Unknown registry hive in id: ");
        e.append(h);
        Err(e)
    }
}

/// A program id as `read_program` builds it names its own registry key
/// again: parsing `<hive>\<path>\<subkey>` gives back the hive's root, the
/// Uninstall key path and the subkey name (a subkey name holds no `\`).
pub proof fn law_program_ids_name_their_keys(hive: Seq<char>, path: Seq<char>, subkey: Seq<char>)
    requires
        root_of_hive(hive) is Some,
        !has_char(subkey, '\\'),
    ensures
        parse_key_id_spec(hive + "\\"@ + path + "\\"@ + subkey) == Ok::<
            (RegistryRoot, Seq<char>, Seq<char>),
            Seq<char>,
        >((root_of_hive(hive)->0, path, subkey)),
{
    reveal_strlit("\\");
    reveal_strlit("HKLM");
    reveal_strlit("HKLM-WOW64");
    reveal_strlit("HKCU");
    reveal_strlit("HKCU-WOW64");
    let sep = "\\"@;
    let id = hive + sep + path + sep + subkey;
    assert(!has_char(hive, '\\')) by {
        if has_char(hive, '\\') {
            let i = choose|i: int| 0 <= i < hive.len() && hive[i] == '\\';
            assert(hive == "HKLM"@ || hive == "HKLM-WOW64"@ || hive == "HKCU"@ || hive
                == "HKCU-WOW64"@);
            assert(hive[i] != '\\');
        }
    }
    let a = hive.len() as int;
    assert(id[a] == '\\');
    assert(first_index_of(id, '\\', a)) by {
        assert forall|j: int| 0 <= j < a implies id[j] != '\\' by {
            assert(id[j] == hive[j]);
        }
    }
    lemma_first_pos(id, '\\', a);
    assert(id.take(a) == hive);
    let rest = id.skip(a + 1);
    assert(rest == path + sep + subkey);
    let b = path.len() as int;
    assert(rest[b] == '\\');
    assert(last_index_of(rest, '\\', b)) by {
        assert forall|j: int| b < j < rest.len() implies rest[j] != '\\' by {
            assert(rest[j] == subkey[j - b - 1]);
        }
    }
    lemma_last_pos(rest, '\\', b);
    assert(rest.take(b) == path);
    assert(rest.skip(b + 1) == subkey);
}

} // verus!
