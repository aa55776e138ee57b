use uninstall_many_programs::cmdline::{cuts_cleanly, find_program_end, split_command_line, ProgramEnd};
use uninstall_many_programs::size::{extract_exe_path, try_resolve_scan_root};
use uninstall_many_programs::uninstall::{try_prepare_command, SilentMode};
use uninstall_many_programs::winpath::{file_name, normal_component_count, parent};

fn chars(s: &str) -> Vec<char> {
    s.chars().collect()
}

#[test]
fn the_cut_follows_the_lowercase_byte_offset() {
    // 'Ⱥ' takes two bytes and its lowercase 'ⱥ' three, so the cut found in the
    // lowercase text lands one byte further in the original: after the space.
    assert!(cuts_cleanly("Ⱥ.exe /S"));
    let (prog, args) = split_command_line("Ⱥ.exe /S").unwrap();
    assert_eq!(prog, "Ⱥ.exe ");
    assert_eq!(args, vec!["/S"]);
    assert_eq!(extract_exe_path("Ⱥ.exe /S").as_deref(), Some("Ⱥ.exe "));
    assert_eq!(find_program_end(&chars("Ⱥ.exe /S")), ProgramEnd::At(6));
}

#[test]
fn ascii_command_lines_are_cut_after_the_extension() {
    assert_eq!(find_program_end(&chars(r"C:\x.EXE /a")), ProgramEnd::At(8));
    assert_eq!(find_program_end(&chars("setup /a")), ProgramEnd::NoExtension);
    assert!(cuts_cleanly("setup /a"));
    assert!(cuts_cleanly("   "));
}

#[test]
fn a_cut_inside_a_character_is_refused() {
    // 'İ' lowercases to two characters, three bytes: the offset found lies
    // past the end of the original text.
    assert_eq!(find_program_end(&chars("İ.exe")), ProgramEnd::NotACharBoundary);
    assert!(!cuts_cleanly("  İ.exe"));
    assert!(try_prepare_command("İ.exe", SilentMode::EnsureSilent).is_none());
    let quoted = try_prepare_command(r#""İ.exe" /x"#, SilentMode::AlreadyQuiet).unwrap().unwrap();
    assert_eq!(quoted.0, "İ.exe");
    assert_eq!(quoted.1, vec!["/x"]);
    assert!(try_resolve_scan_root(None, Some("İ.exe"), |_| true).is_none());
    assert!(try_resolve_scan_root(Some(r"D:\Apps\X"), Some("İ.exe"), |_| false).is_none());
    assert_eq!(
        try_resolve_scan_root(Some(r"D:\Apps\X"), Some("İ.exe"), |_| true),
        Some(Some(r"D:\Apps\X".to_string()))
    );
    assert_eq!(
        try_resolve_scan_root(None, Some(r"D:\Apps\X\uninstall.exe /S"), |_| true),
        Some(Some(r"D:\Apps\X".to_string()))
    );
}

#[test]
fn a_leading_current_directory_is_kept() {
    assert_eq!(parent(&chars("./foo")).as_deref(), Some("."));
    assert_eq!(parent(&chars(".")).as_deref(), Some(""));
    assert_eq!(parent(&chars("./")).as_deref(), Some(""));
    assert!(file_name(&chars("./")).is_none());
    assert!(file_name(&chars(".")).is_none());
    assert_eq!(parent(&chars("a/./b")).as_deref(), Some("a"));
    assert_eq!(parent(&chars("a/b/.")).as_deref(), Some("a"));
    assert_eq!(file_name(&chars("a/b/.")).as_deref(), Some("b"));
    assert_eq!(normal_component_count(&chars("./a/./b")), 2);
}

#[test]
fn verbatim_paths_keep_slashes_and_dots() {
    assert_eq!(file_name(&chars(r"\\?\C:\a/b")).as_deref(), Some("a/b"));
    assert!(file_name(&chars(r"\\?\C:\a\.")).is_none());
    assert_eq!(parent(&chars(r"\\?\C:\a\.")).as_deref(), Some(r"\\?\C:\a"));
    assert_eq!(normal_component_count(&chars(r"\\?\C:\a/b")), 1);
    assert_eq!(file_name(&chars("//?/C:/a/b")).as_deref(), Some("b"));
}

#[test]
fn prefixes_of_shares_and_devices() {
    assert_eq!(
        parent(&chars(r"\\?\UNC\srv\share\x.exe")).as_deref(),
        Some(r"\\?\UNC\srv\share\")
    );
    assert!(parent(&chars(r"\\?\UNC\srv\share")).is_none());
    assert!(file_name(&chars(r"\\?\UNC\srv\share")).is_none());
    assert_eq!(normal_component_count(&chars(r"\\?\UNC\srv\share\x")), 1);
    assert_eq!(parent(&chars(r"\\.\pipe\x")).as_deref(), Some(r"\\.\pipe\"));
    assert_eq!(file_name(&chars(r"\\srv")).as_deref(), Some("srv"));
    assert_eq!(parent(&chars(r"\\srv\share\x.exe")).as_deref(), Some(r"\\srv\share\"));
}
