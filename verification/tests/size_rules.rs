use uninstall_many_programs::size::{
    exe_looks_like_uninstaller, extract_exe_path, is_shared_store_path, resolve_scan_root,
};

#[test]
fn extracts_quoted_and_unquoted_exe() {
    assert_eq!(
        extract_exe_path(r#""C:\Program Files\App\Uninstall.exe" /S"#).as_deref(),
        Some(r"C:\Program Files\App\Uninstall.exe")
    );
    assert_eq!(
        extract_exe_path(r"C:\Program Files\App\Uninstall.exe /S").as_deref(),
        Some(r"C:\Program Files\App\Uninstall.exe")
    );
}

#[test]
fn steam_client_root_is_shared_but_game_folder_is_not() {
    assert!(is_shared_store_path(r"c:\program files (x86)\steam"));
    assert!(is_shared_store_path(r"c:\program files (x86)\steam\bin"));
    assert!(is_shared_store_path(r"c:\program files (x86)\steam\steamapps"));
    assert!(!is_shared_store_path(
        r"c:\program files (x86)\steam\steamapps\common\skyrim"
    ));
    assert!(!is_shared_store_path(r"d:\steamlibrary\steamapps\common\dayz"));
}

#[test]
fn steam_exe_is_not_treated_as_uninstaller() {
    assert!(!exe_looks_like_uninstaller(r"C:\Program Files (x86)\Steam\steam.exe"));
    assert!(exe_looks_like_uninstaller(r"C:\Program Files\App\Uninstall.exe"));
    assert!(exe_looks_like_uninstaller(
        r"C:\Program Files\Unity Hub\Uninstall Unity Hub.exe"
    ));
}

#[test]
fn uninstall_fallback_ignores_steam_launcher() {
    assert!(resolve_scan_root(
        None,
        Some(r#""C:\Program Files (x86)\Steam\steam.exe" steam://uninstall/440"#),
        |_| true,
    )
    .is_none());
}
