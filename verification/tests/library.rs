use uninstall_many_programs::categories::{enrich_categories, infer_category, matches_any};
use uninstall_many_programs::cmdline::{
    split_arg_tokens, split_command_line, split_quoted_command_line, split_unquoted_exe_path,
};
use uninstall_many_programs::listing::{collect_programs, dedupe_programs, sort_by_keys};
use uninstall_many_programs::programs::{
    dword_flag, find_program, is_protected, parse_uninstall_key_id, read_program,
    InstalledProgram, RawUninstallEntry, RegistryRoot,
};
use uninstall_many_programs::size::{
    install_root_candidate, is_safe_scan_root, normalize_path_key, resolve_scan_root,
    size_update, trim_quotes, uninstaller_root_candidate, ClaimedRoots, DirTally, MAX_FILES,
};
use uninstall_many_programs::size::extract_exe_path;
use uninstall_many_programs::uninstall::{
    args_look_silent, begin_uninstall, ensure_silent_args, extract_product_code, hides_console,
    is_file_not_found, is_inno_uninstaller, is_silent_flag, looks_like_filesystem_path,
    looks_like_guid, msiexec_guid_from_string, normalize_guid, plan_uninstall, prepare_command,
    report_cleanup, report_outcome, validate_selection, IoErrorKind, OutcomeReport,
    ProgramStart, RunOutcome, SilentMode, UninstallPlan,
};
use uninstall_many_programs::winpath::{file_name, normal_component_count, parent};

fn program(id: &str, name: &str) -> InstalledProgram {
    InstalledProgram {
        id: id.to_string(),
        display_name: name.to_string(),
        publisher: None,
        display_version: None,
        install_date: None,
        install_location: None,
        uninstall_string: None,
        quiet_uninstall_string: None,
        estimated_size_kb: None,
        windows_installer: false,
        system_component: false,
        protected: false,
        hive: "HKLM".to_string(),
        category: None,
    }
}

fn chars(s: &str) -> Vec<char> {
    s.chars().collect()
}

// --- command lines -------------------------------------------------------

#[test]
fn tokens_group_quoted_blanks_and_drop_quotes() {
    assert_eq!(split_arg_tokens(r#"a "b c"  d	e"#), vec!["a", "b c", "d", "e"]);
    assert_eq!(split_arg_tokens(r#"x"y z"w"#), vec!["xy zw"]);
    assert!(split_arg_tokens("   ").is_empty());
    assert!(split_arg_tokens(r#""""#).is_empty());
}

#[test]
fn tokens_keep_every_other_character() {
    let input = r#" /D="C:\Program Files\X" /S "#;
    let joined: String = split_arg_tokens(input).concat();
    let kept: String = r#"/D=C:\Program Files\X/S"#.to_string();
    assert_eq!(joined, kept);
}

#[test]
fn blank_command_lines_have_no_program() {
    assert!(split_command_line("").is_none());
    assert!(split_command_line(" \t ").is_none());
    assert!(split_quoted_command_line("").is_none());
}

#[test]
fn unquoted_extension_is_found_without_case() {
    let (prog, args) = split_command_line(r"C:\My Apps\Setup.EXE /uninstall /x").unwrap();
    assert_eq!(prog, r"C:\My Apps\Setup.EXE");
    assert_eq!(args, vec!["/uninstall", "/x"]);
    let (prog, args) = split_command_line(r"C:\Tools\remove me.cmd now").unwrap();
    assert_eq!(prog, r"C:\Tools\remove me.cmd");
    assert_eq!(args, vec!["now"]);
}

#[test]
fn exe_is_preferred_to_earlier_cmd() {
    let (prog, _) = split_command_line(r"C:\a.cmd\b.exe").unwrap();
    assert_eq!(prog, r"C:\a.cmd\b.exe");
}

#[test]
fn without_extension_the_first_token_is_the_program() {
    let (prog, args) = split_command_line("rundll32 shell32,Control_RunDLL x").unwrap();
    assert_eq!(prog, "rundll32");
    assert_eq!(args, vec!["shell32,Control_RunDLL", "x"]);
}

#[test]
fn unquoted_exe_path_and_rest() {
    let (prog, rest) = split_unquoted_exe_path(r"C:\x.exe   /a b").unwrap();
    assert_eq!(prog, r"C:\x.exe");
    assert_eq!(rest, "/a b");
    assert!(split_unquoted_exe_path("foo bar").is_none());
}

// --- silent switches -----------------------------------------------------

#[test]
fn silent_flags_are_recognised_in_any_case() {
    assert!(is_silent_flag(" /quiet "));
    assert!(is_silent_flag("-s"));
    assert!(is_silent_flag("/SILENT:1"));
    assert!(is_silent_flag("/qn"));
    assert!(is_silent_flag("--silent"));
    assert!(!is_silent_flag("/norestart"));
    assert!(!is_silent_flag("/x"));
    assert!(args_look_silent(&["/x".to_string(), "/VerySilent".to_string()]));
    assert!(!args_look_silent(&[]));
}

#[test]
fn inno_uninstallers_get_inno_switches() {
    let mut args: Vec<String> = vec![];
    ensure_silent_args(r"C:\Program Files\Tool\unins000.exe", &mut args);
    assert_eq!(args, vec!["/VERYSILENT", "/SUPPRESSMSGBOXES", "/NORESTART"]);
}

#[test]
fn non_executables_get_no_switch() {
    let mut args: Vec<String> = vec!["/x".to_string()];
    ensure_silent_args(r"C:\Tools\remove.bat", &mut args);
    assert_eq!(args, vec!["/x"]);
}

#[test]
fn ensuring_silence_twice_adds_nothing_more() {
    let mut args: Vec<String> = vec![];
    ensure_silent_args(r"C:\App\helper.exe", &mut args);
    ensure_silent_args(r"C:\App\helper.exe", &mut args);
    assert_eq!(args, vec!["/S"]);
    let mut args: Vec<String> = vec![];
    ensure_silent_args(r"C:\App\unins001.exe", &mut args);
    ensure_silent_args(r"C:\App\unins001.exe", &mut args);
    assert_eq!(args.len(), 3);
}

#[test]
fn inno_names() {
    assert!(is_inno_uninstaller("unins000.exe"));
    assert!(is_inno_uninstaller("unins7"));
    assert!(!is_inno_uninstaller("unins.exe"));
    assert!(!is_inno_uninstaller("unins12a.exe"));
    assert!(!is_inno_uninstaller("uninstall.exe"));
}

#[test]
fn filesystem_paths_and_missing_files() {
    assert!(looks_like_filesystem_path(r"C:\x\y.exe"));
    assert!(looks_like_filesystem_path("./run"));
    assert!(!looks_like_filesystem_path("msiexec.exe"));
    assert!(is_file_not_found(IoErrorKind::NotFound, None));
    assert!(is_file_not_found(IoErrorKind::InvalidFilename, None));
    assert!(is_file_not_found(IoErrorKind::Other, Some(2)));
    assert!(is_file_not_found(IoErrorKind::Other, Some(3)));
    assert!(!is_file_not_found(IoErrorKind::Other, Some(5)));
    assert!(!is_file_not_found(IoErrorKind::Other, None));
}

#[test]
fn console_is_hidden_for_silent_runs() {
    assert!(hides_console(&[], SilentMode::AlreadyQuiet));
    assert!(hides_console(&["/S".to_string()], SilentMode::EnsureSilent));
    assert!(!hides_console(&["/x".to_string()], SilentMode::EnsureSilent));
}

// --- product codes -------------------------------------------------------

#[test]
fn guid_shape_is_checked_in_bytes() {
    assert!(looks_like_guid(" {A1B2C3D4-E5F6-7890-ABCD-EF1234567890} "));
    assert!(!looks_like_guid("{A1B2C3D4}"));
    assert!(!looks_like_guid("A1B2C3D4-E5F6-7890-ABCD-EF1234567890XX"));
    // 37 characters, 38 bytes: the length is counted in UTF-8 bytes.
    assert!(looks_like_guid("{é1B2C3D4-E5F6-7890-ABCD-EF123456789}"));
}

#[test]
fn guids_are_normalised_to_upper_case() {
    assert_eq!(
        normalize_guid("  {a1b2c3d4-e5f6-7890-abcd-ef1234567890}\t"),
        "{A1B2C3D4-E5F6-7890-ABCD-EF1234567890}"
    );
}

#[test]
fn msiexec_is_detected_without_case() {
    assert_eq!(
        msiexec_guid_from_string("MSIEXEC /I{a1b2c3d4-e5f6-7890-abcd-ef1234567890} /q").as_deref(),
        Some("{A1B2C3D4-E5F6-7890-ABCD-EF1234567890}")
    );
    assert!(msiexec_guid_from_string(r"C:\x\uninstall.exe {A1B2C3D4-E5F6-7890-ABCD-EF1234567890}")
        .is_none());
    assert!(msiexec_guid_from_string("msiexec /x{short}").is_none());
    assert!(msiexec_guid_from_string("msiexec /x").is_none());
}

#[test]
fn product_code_from_key_name_or_command() {
    let mut p = program(
        r"HKLM\SOFTWARE\Microsoft\Windows\CurrentVersion\Uninstall\{a1b2c3d4-e5f6-7890-abcd-ef1234567890}",
        "Tool",
    );
    assert_eq!(
        extract_product_code(&p).as_deref(),
        Some("{A1B2C3D4-E5F6-7890-ABCD-EF1234567890}")
    );
    p.id = r"HKLM\X\Tool".to_string();
    p.uninstall_string = Some("MsiExec.exe /X{B1B2C3D4-E5F6-7890-ABCD-EF1234567890}".to_string());
    assert_eq!(
        extract_product_code(&p).as_deref(),
        Some("{B1B2C3D4-E5F6-7890-ABCD-EF1234567890}")
    );
    p.uninstall_string = None;
    assert!(extract_product_code(&p).is_none());
}

// --- plans and commands --------------------------------------------------

#[test]
fn plan_prefers_quiet_then_msi_then_command() {
    let mut p = program(r"HKLM\X\{A1B2C3D4-E5F6-7890-ABCD-EF1234567890}", "Tool");
    p.quiet_uninstall_string = Some("  quiet.exe /S ".to_string());
    p.windows_installer = true;
    match plan_uninstall(&p) {
        Ok(UninstallPlan::Quiet(c)) => assert_eq!(c, "quiet.exe /S"),
        _ => panic!("expected the quiet command"),
    }
    p.quiet_uninstall_string = Some("   ".to_string());
    match plan_uninstall(&p) {
        Ok(UninstallPlan::Msi(g)) => assert_eq!(g, "{A1B2C3D4-E5F6-7890-ABCD-EF1234567890}"),
        _ => panic!("expected msiexec"),
    }
    p.windows_installer = false;
    p.uninstall_string = Some(" C:\\Tool\\uninstall.exe ".to_string());
    match plan_uninstall(&p) {
        Ok(UninstallPlan::Command(c)) => assert_eq!(c, r"C:\Tool\uninstall.exe"),
        _ => panic!("expected the uninstall command"),
    }
    p.uninstall_string = Some("MsiExec.exe /X{C1B2C3D4-E5F6-7890-ABCD-EF1234567890}".to_string());
    match plan_uninstall(&p) {
        Ok(UninstallPlan::Msi(g)) => assert_eq!(g, "{C1B2C3D4-E5F6-7890-ABCD-EF1234567890}"),
        _ => panic!("expected msiexec"),
    }
    p.uninstall_string = None;
    match plan_uninstall(&p) {
        Err(e) => assert_eq!(e, "No uninstall command available"),
        _ => panic!("expected an error"),
    }
}

#[test]
fn prepared_commands() {
    let (prog, args) =
        prepare_command(r"C:\App\Uninstall.exe", SilentMode::EnsureSilent).unwrap();
    assert_eq!(prog, r"C:\App\Uninstall.exe");
    assert_eq!(args, vec!["/S"]);
    let (_, args) = prepare_command(r"C:\App\Uninstall.exe", SilentMode::AlreadyQuiet).unwrap();
    assert!(args.is_empty());
    assert_eq!(
        prepare_command("   ", SilentMode::EnsureSilent).unwrap_err(),
        "Could not parse uninstall command:    "
    );
}

// --- progress ------------------------------------------------------------

#[test]
fn selection_must_not_be_empty() {
    assert_eq!(validate_selection(&[]).unwrap_err(), "No programs selected");
    assert!(validate_selection(&["x".to_string()]).is_ok());
}

#[test]
fn protected_and_missing_programs_are_skipped() {
    match begin_uninstall("gone", None) {
        ProgramStart::Skip(p) => {
            assert_eq!(p.id, "gone");
            assert_eq!(p.display_name, "(unknown)");
            assert_eq!(p.status, "failed");
            assert_eq!(p.message.as_deref(), Some("Program no longer found in registry"));
        }
        ProgramStart::Run(_) => panic!("must skip"),
    }
    let mut p = program("id1", "Tool");
    p.protected = true;
    match begin_uninstall("id1", Some(&p)) {
        ProgramStart::Skip(r) => {
            assert_eq!(r.status, "failed");
            assert_eq!(r.message.as_deref(), Some("Protected entry — skipped"));
        }
        ProgramStart::Run(_) => panic!("must skip"),
    }
    p.protected = false;
    match begin_uninstall("id1", Some(&p)) {
        ProgramStart::Run(r) => {
            assert_eq!(r.status, "running");
            assert_eq!(r.message.as_deref(), Some("Starting silent uninstall…"));
        }
        ProgramStart::Skip(_) => panic!("must run"),
    }
}

#[test]
fn exit_codes_are_reported() {
    let p = program("id1", "Tool");
    let done = |o| match report_outcome(&p, o) {
        OutcomeReport::Done(r) => r,
        OutcomeReport::CleanUp(..) => panic!("no cleanup expected"),
    };
    let r = done(Ok(RunOutcome::Exit(0)));
    assert_eq!((r.status.as_str(), r.exit_code), ("uninstalled", Some(0)));
    assert_eq!(r.message.as_deref(), Some("Uninstalled successfully"));
    let r = done(Ok(RunOutcome::Exit(3010)));
    assert_eq!(r.status, "uninstalled");
    assert_eq!(r.message.as_deref(), Some("Uninstalled (reboot required)"));
    let r = done(Ok(RunOutcome::Exit(1603)));
    assert_eq!(r.status, "failed");
    assert_eq!(r.message.as_deref(), Some("Uninstaller exited with code 1603"));
    let r = done(Ok(RunOutcome::Exit(-1)));
    assert_eq!(r.message.as_deref(), Some("Uninstaller exited with code -1"));
    let r = done(Ok(RunOutcome::Exit(i32::MIN)));
    assert_eq!(r.message.as_deref(), Some("Uninstaller exited with code -2147483648"));
    let r = done(Err("boom".to_string()));
    assert_eq!((r.status.as_str(), r.message.as_deref(), r.exit_code), ("failed", Some("boom"), None));
}

#[test]
fn missing_uninstallers_lead_to_cleanup() {
    let p = program("id1", "Tool");
    match report_outcome(&p, Ok(RunOutcome::MissingExecutable(r"C:\gone.exe".to_string()))) {
        OutcomeReport::CleanUp(r, path) => {
            assert_eq!(path, r"C:\gone.exe");
            assert_eq!(r.status, "running");
            assert_eq!(
                r.message.as_deref(),
                Some(r"Uninstaller not found (C:\gone.exe) — removing leftover registry entry…")
            );
        }
        OutcomeReport::Done(_) => panic!("cleanup expected"),
    }
    let r = report_cleanup(&p, r"C:\gone.exe", Ok(()));
    assert_eq!((r.status.as_str(), r.exit_code), ("uninstalled", Some(0)));
    let r = report_cleanup(&p, r"C:\gone.exe", Err("denied".to_string()));
    assert_eq!(r.status, "failed");
    assert_eq!(
        r.message.as_deref(),
        Some(r"Uninstaller missing (C:\gone.exe) and registry cleanup failed: denied")
    );
}

// --- folders -------------------------------------------------------------

#[test]
fn quotes_and_blanks_are_trimmed() {
    assert_eq!(trim_quotes(r#"  "C:\Games\X"  "#), r"C:\Games\X");
    assert_eq!(trim_quotes(r#"" C:\A ""#), r"C:\A");
}

#[test]
fn exe_paths_from_other_command_lines() {
    assert!(extract_exe_path(r#""C:\unterminated"#).is_none());
    assert_eq!(extract_exe_path("rundll32 x,y").as_deref(), Some("rundll32"));
    assert!(extract_exe_path("   ").is_none());
}

#[test]
fn windows_paths() {
    assert_eq!(file_name(&chars(r"C:\a\b.exe")).as_deref(), Some("b.exe"));
    assert_eq!(file_name(&chars(r"C:\a\b\")).as_deref(), Some("b"));
    assert_eq!(file_name(&chars("C:/a/b")).as_deref(), Some("b"));
    assert!(file_name(&chars(r"C:\")).is_none());
    assert!(file_name(&chars(r"a\..")).is_none());
    assert_eq!(parent(&chars(r"C:\a\b.exe")).as_deref(), Some(r"C:\a"));
    assert_eq!(parent(&chars(r"C:\b.exe")).as_deref(), Some(r"C:\"));
    assert_eq!(parent(&chars("b.exe")).as_deref(), Some(""));
    assert!(parent(&chars(r"C:\")).is_none());
    assert_eq!(parent(&chars(r"\\srv\share\x.exe")).as_deref(), Some(r"\\srv\share\"));
    assert_eq!(normal_component_count(&chars(r"C:\Program Files\App")), 2);
    assert_eq!(normal_component_count(&chars(r"C:\.\a\..\b")), 2);
    assert_eq!(normal_component_count(&chars(r"\\srv\share\x")), 1);
}

#[test]
fn path_keys_ignore_prefix_case_and_trailing_separators() {
    assert_eq!(normalize_path_key(r"\\?\C:\Games\X\\"), r"c:\games\x");
    assert_eq!(normalize_path_key(r"D:\Apps/Tool/"), r"d:\apps/tool");
}

#[test]
fn safe_scan_roots() {
    assert!(is_safe_scan_root(r"\\?\C:\Program Files\App"));
    assert!(is_safe_scan_root(r"D:\Apps\Tool\"));
    assert!(!is_safe_scan_root(r"\\?\C:\Program Files"));
    assert!(!is_safe_scan_root(r"C:\Windows\System32"));
    assert!(!is_safe_scan_root(r"C:\Users\me\AppData\Local\Temp\x"));
    assert!(!is_safe_scan_root(r"C:\Build\tmp"));
    assert!(!is_safe_scan_root(r"C:\Program Files (x86)\Steam\bin"));
    assert!(!is_safe_scan_root(r"D:\Games\Epic Games"));
    assert!(!is_safe_scan_root(r"D:\Tools"));
}

#[test]
fn scan_root_candidates_and_choice() {
    let a = install_root_candidate(Some(r#"  "D:\Apps\Tool"  "#));
    let b = uninstaller_root_candidate(Some(r#""D:\Apps\Tool\bin\unins000.exe" /x"#));
    assert_eq!(a.as_deref(), Some(r"D:\Apps\Tool"));
    assert_eq!(b.as_deref(), Some(r"D:\Apps\Tool\bin"));
    assert!(install_root_candidate(Some("  ")).is_none());
    assert!(uninstaller_root_candidate(Some(r"D:\Steam\steam.exe")).is_none());
    let chosen = resolve_scan_root(
        Some(r"D:\Apps\Tool"),
        Some(r"D:\Apps\Tool\bin\uninstall.exe"),
        |p: &str| p.ends_with("bin"),
    );
    assert_eq!(chosen.as_deref(), Some(r"D:\Apps\Tool\bin"));
    assert!(resolve_scan_root(Some("   "), None, |_| true).is_none());
}

#[test]
fn sizes_round_up_to_kib() {
    assert!(size_update("a".to_string(), 0).is_none());
    assert_eq!(size_update("a".to_string(), 1).unwrap().estimated_size_kb, 1);
    assert_eq!(size_update("a".to_string(), 1024).unwrap().estimated_size_kb, 1);
    let u = size_update("b".to_string(), 1025).unwrap();
    assert_eq!((u.id.as_str(), u.estimated_size_kb), ("b", 2));
}

#[test]
fn a_folder_is_claimed_once() {
    let mut claims = ClaimedRoots::new();
    assert!(claims.claim("c:\\games\\x".to_string()));
    assert!(claims.claim("c:\\games\\y".to_string()));
    assert!(!claims.claim("c:\\games\\x".to_string()));
}

#[test]
fn tally_saturates_and_stops_at_the_file_limit() {
    let mut t = DirTally::new();
    assert!(!t.add_file(u64::MAX - 1));
    assert!(!t.add_file(10));
    assert_eq!(t.total(), u64::MAX);
    assert_eq!(t.files(), 2);
    let mut t = DirTally::new();
    let mut stopped = false;
    for _ in 0..MAX_FILES {
        stopped = t.add_file(1);
    }
    assert!(stopped);
    assert_eq!(t.total(), MAX_FILES);
}

// --- categories ----------------------------------------------------------

#[test]
fn categories_from_names_and_publishers() {
    assert_eq!(infer_category(&program("1", "Google Chrome")), "Browsers");
    assert_eq!(infer_category(&program("1", "7-Zip 23.01 (x64)")), "Compression");
    assert_eq!(infer_category(&program("1", "OBS Studio")), "Media");
    assert_eq!(infer_category(&program("1", "CPU-Z 2.09")), "Utilities");
    assert_eq!(infer_category(&program("1", "Some Random App")), "Other");
    let mut p = program("1", "Rider 2024");
    p.publisher = Some("JetBrains s.r.o.".to_string());
    assert_eq!(infer_category(&p), "Development");
    assert!(matches_any("visualstudiocode", &["visual studio code"]));
    assert!(!matches_any("abc", &["", "--"]));
}

#[test]
fn enriching_keeps_existing_categories() {
    let mut ps = vec![program("1", "Zoom"), program("2", "Zoom"), program("3", "Zoom")];
    ps[1].category = Some("Mine".to_string());
    ps[2].category = Some("  ".to_string());
    enrich_categories(&mut ps);
    assert_eq!(ps[0].category.as_deref(), Some("Communication"));
    assert_eq!(ps[1].category.as_deref(), Some("Mine"));
    assert_eq!(ps[2].category.as_deref(), Some("Communication"));
}

// --- registry entries and the list ---------------------------------------

#[test]
fn protection_rules() {
    assert!(is_protected("Anything", None, true));
    assert!(is_protected("uninstall many programs", None, false));
    assert!(is_protected("Security Update for Windows (KB5034441)", None, false));
    assert!(is_protected("Microsoft Visual C++ 2015 Redistributable", Some("Microsoft Corporation"), false));
    assert!(is_protected("MICROSOFT EDGE", Some("Microsoft Corporation"), false));
    assert!(!is_protected("Microsoft Visual C++ 2015 Redistributable", Some("Someone"), false));
    assert!(!is_protected("Update for thing", None, false));
}

#[test]
fn registry_values_become_programs() {
    let raw = |name: Option<&str>| RawUninstallEntry {
        display_name: name.map(str::to_string),
        publisher: Some("Acme".to_string()),
        display_version: Some("1.0".to_string()),
        install_date: None,
        install_location: None,
        uninstall_string: Some("u.exe".to_string()),
        quiet_uninstall_string: None,
        estimated_size: Some(42),
        windows_installer: Some(0),
        system_component: Some(1),
    };
    assert!(read_program("HKLM", r"SOFTWARE\U", "k", raw(None)).is_none());
    assert!(read_program("HKLM", r"SOFTWARE\U", "k", raw(Some("   "))).is_none());
    let p = read_program("HKCU", r"SOFTWARE\U", "k", raw(Some("  Tool "))).unwrap();
    assert_eq!(p.id, r"HKCU\SOFTWARE\U\k");
    assert_eq!(p.display_name, "Tool");
    assert_eq!(p.hive, "HKCU");
    assert_eq!(p.estimated_size_kb, Some(42));
    assert!(!p.windows_installer);
    assert!(p.system_component);
    assert!(p.protected);
    assert!(p.category.is_none());
    assert!(dword_flag(Some(7)));
    assert!(!dword_flag(Some(0)));
    assert!(!dword_flag(None));
}

#[test]
fn programs_are_found_by_id() {
    let ps = vec![program("a", "A"), program("b", "B"), program("b", "B2")];
    assert_eq!(find_program(ps, "b").unwrap().display_name, "B");
    assert!(find_program(vec![program("a", "A")], "z").is_none());
}

#[test]
fn key_ids_are_parsed() {
    let (root, parent, name) =
        parse_uninstall_key_id(r"HKLM-WOW64\SOFTWARE\WOW6432Node\Uninstall\{X}").unwrap();
    assert!(root == RegistryRoot::LocalMachine);
    assert_eq!(parent, r"SOFTWARE\WOW6432Node\Uninstall");
    assert_eq!(name, "{X}");
    let (root, _, _) = parse_uninstall_key_id(r"HKCU\A\b").unwrap();
    assert!(root == RegistryRoot::CurrentUser);
    assert_eq!(parse_uninstall_key_id("nohive").unwrap_err(), "Invalid program id: nohive");
    assert_eq!(parse_uninstall_key_id(r"HKLM\k").unwrap_err(), r"Invalid program id path: HKLM\k");
    assert_eq!(
        parse_uninstall_key_id(r"HKXX\a\b").unwrap_err(),
        "Unknown registry hive in id: HKXX"
    );
}

#[test]
fn the_list_hides_dedupes_fills_and_sorts() {
    let mut sys = program("1", "Driver");
    sys.system_component = true;
    let mut a = program("2", "zeta");
    a.publisher = Some("Acme".to_string());
    let mut dup = program("3", "ZETA");
    dup.publisher = Some("ACME".to_string());
    let b = program("4", "Alpha");
    let list = collect_programs(vec![sys, a, dup, b], false);
    let ids: Vec<&str> = list.iter().map(|p| p.id.as_str()).collect();
    assert_eq!(ids, vec!["4", "2"]);
    assert!(list.iter().all(|p| p.category.is_some()));
    let mut sys = program("1", "Driver");
    sys.system_component = true;
    let list = collect_programs(vec![program("2", "b"), sys], true);
    let ids: Vec<&str> = list.iter().map(|p| p.id.as_str()).collect();
    assert_eq!(ids, vec!["2", "1"]);
}

#[test]
fn sorting_is_stable_and_dedupe_keeps_first() {
    let ps = vec![program("1", "x"), program("2", "y"), program("3", "x")];
    let keys = vec!["b".to_string(), "a".to_string(), "b".to_string()];
    let sorted = sort_by_keys(&ps, &keys);
    let ids: Vec<&str> = sorted.iter().map(|p| p.id.as_str()).collect();
    assert_eq!(ids, vec!["2", "1", "3"]);
    let kept = dedupe_programs(&ps, &keys, true);
    let ids: Vec<&str> = kept.iter().map(|p| p.id.as_str()).collect();
    assert_eq!(ids, vec!["1", "2"]);
}

#[test]
fn program_ids_parse_back_to_their_keys() {
    let raw = RawUninstallEntry {
        display_name: Some("Tool".to_string()),
        publisher: None,
        display_version: None,
        install_date: None,
        install_location: None,
        uninstall_string: None,
        quiet_uninstall_string: None,
        estimated_size: None,
        windows_installer: None,
        system_component: None,
    };
    let path = r"SOFTWARE\WOW6432Node\Microsoft\Windows\CurrentVersion\Uninstall";
    let p = read_program("HKCU-WOW64", path, "{ABC}", raw).unwrap();
    let (root, parent, name) = parse_uninstall_key_id(&p.id).unwrap();
    assert!(root == RegistryRoot::CurrentUser);
    assert_eq!(parent, path);
    assert_eq!(name, "{ABC}");
    assert!(!p.protected);
}
