use uninstall_many_programs::cmdline::{program_end_in, ProgramEnd};
use uninstall_many_programs::listing::{list_programs, SubkeyValues};
use uninstall_many_programs::programs::{
    parse_uninstall_key_id, source_hive, source_path, source_root, uninstall_sources,
    RawUninstallEntry, RegistryRoot, UninstallSource,
};
use uninstall_many_programs::size::{DirTally, EntryKind, WalkStep, MAX_FILES};

fn chars(s: &str) -> Vec<char> {
    s.chars().collect()
}

fn values(name: Option<&str>, system_component: bool) -> RawUninstallEntry {
    RawUninstallEntry {
        display_name: name.map(str::to_string),
        publisher: None,
        display_version: None,
        install_date: None,
        install_location: None,
        uninstall_string: None,
        quiet_uninstall_string: None,
        estimated_size: None,
        windows_installer: None,
        system_component: Some(u32::from(system_component)),
    }
}

#[test]
fn the_four_uninstall_sources() {
    let sources = uninstall_sources();
    assert_eq!(
        sources,
        vec![
            UninstallSource::LocalMachine,
            UninstallSource::LocalMachineWow64,
            UninstallSource::CurrentUser,
            UninstallSource::CurrentUserWow64,
        ]
    );
    let hives: Vec<String> = sources.iter().map(|s| source_hive(*s)).collect();
    assert_eq!(hives, vec!["HKLM", "HKLM-WOW64", "HKCU", "HKCU-WOW64"]);
    assert_eq!(
        source_path(UninstallSource::LocalMachine),
        r"SOFTWARE\Microsoft\Windows\CurrentVersion\Uninstall"
    );
    assert_eq!(
        source_path(UninstallSource::CurrentUserWow64),
        r"SOFTWARE\WOW6432Node\Microsoft\Windows\CurrentVersion\Uninstall"
    );
    assert_eq!(source_root(UninstallSource::LocalMachineWow64), RegistryRoot::LocalMachine);
    assert_eq!(source_root(UninstallSource::CurrentUser), RegistryRoot::CurrentUser);
}

#[test]
fn listed_programs_carry_their_source() {
    let read = vec![
        SubkeyValues {
            source: UninstallSource::CurrentUserWow64,
            subkey_name: "zeta".to_string(),
            values: values(Some(" Zeta Tool "), false),
        },
        SubkeyValues {
            source: UninstallSource::LocalMachine,
            subkey_name: "blank".to_string(),
            values: values(Some("  "), false),
        },
        SubkeyValues {
            source: UninstallSource::LocalMachine,
            subkey_name: "alpha".to_string(),
            values: values(Some("Alpha"), false),
        },
        SubkeyValues {
            source: UninstallSource::LocalMachineWow64,
            subkey_name: "sys".to_string(),
            values: values(Some("Driver"), true),
        },
    ];
    let list = list_programs(read, false);
    let ids: Vec<&str> = list.iter().map(|p| p.id.as_str()).collect();
    assert_eq!(
        ids,
        vec![
            r"HKLM\SOFTWARE\Microsoft\Windows\CurrentVersion\Uninstall\alpha",
            r"HKCU-WOW64\SOFTWARE\WOW6432Node\Microsoft\Windows\CurrentVersion\Uninstall\zeta",
        ]
    );
    assert_eq!(list[1].hive, "HKCU-WOW64");
    assert_eq!(list[1].display_name, "Zeta Tool");
    assert!(list.iter().all(|p| p.category.is_some()));
    let (root, path, subkey) = parse_uninstall_key_id(&list[1].id).unwrap();
    assert_eq!(root, RegistryRoot::CurrentUser);
    assert_eq!(path, source_path(UninstallSource::CurrentUserWow64));
    assert_eq!(subkey, "zeta");
}

#[test]
fn the_program_end_is_found_in_the_given_lowercase_text() {
    assert_eq!(
        program_end_in(&chars(r"C:\Program Files\App\Uninstall.EXE /S"), &chars(r"c:\program files\app\uninstall.exe /s")),
        ProgramEnd::At(34)
    );
    assert_eq!(program_end_in(&chars("Setup /x"), &chars("setup /x")), ProgramEnd::NoExtension);
    assert_eq!(program_end_in(&chars("a.exe"), &chars("aa.exe")), ProgramEnd::NotACharBoundary);
    assert_eq!(program_end_in(&chars("Ⱥ.exe /S"), &chars("ⱥ.exe /s")), ProgramEnd::At(6));
}

#[test]
fn a_walk_counts_files_descends_folders_and_passes_links() {
    let mut t = DirTally::new();
    assert_eq!(t.visit(EntryKind::Symlink), WalkStep::Next);
    assert_eq!(t.visit(EntryKind::Directory), WalkStep::Descend);
    assert_eq!(t.visit(EntryKind::Other), WalkStep::Next);
    assert_eq!((t.total(), t.files()), (0, 0));
    assert_eq!(t.visit(EntryKind::File(10)), WalkStep::Next);
    assert_eq!(t.visit(EntryKind::File(u64::MAX)), WalkStep::Next);
    assert_eq!((t.total(), t.files()), (u64::MAX, 2));
    let mut t = DirTally::new();
    let mut last = WalkStep::Next;
    for _ in 0..MAX_FILES {
        last = t.visit(EntryKind::File(2));
    }
    assert_eq!(last, WalkStep::Stop);
    assert_eq!(t.total(), 2 * MAX_FILES);
}
