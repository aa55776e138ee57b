use uninstall_many_programs::cmdline::split_command_line;
use uninstall_many_programs::uninstall::{ensure_silent_args, msiexec_guid_from_string};

#[test]
fn splits_quoted_path() {
    let (prog, args) =
        split_command_line(r#""C:\Program Files\App\uninstall.exe" /S /foo"#).unwrap();
    assert_eq!(prog, r"C:\Program Files\App\uninstall.exe");
    assert_eq!(args, vec!["/S", "/foo"]);
}

#[test]
fn splits_unquoted_program_files_path() {
    let (prog, args) = split_command_line(
        r"C:\Program Files\Unity\Hub\Editor\6000.2.15f1\Editor\Uninstall.exe /S",
    )
    .unwrap();
    assert_eq!(
        prog,
        r"C:\Program Files\Unity\Hub\Editor\6000.2.15f1\Editor\Uninstall.exe"
    );
    assert_eq!(args, vec!["/S"]);
}

#[test]
fn extracts_msiexec_guid() {
    let guid =
        msiexec_guid_from_string(r"MsiExec.exe /X{A1B2C3D4-E5F6-7890-ABCD-EF1234567890}").unwrap();
    assert_eq!(guid, "{A1B2C3D4-E5F6-7890-ABCD-EF1234567890}");
}

#[test]
fn adds_nsis_silent_flag_when_missing() {
    let mut args = vec![];
    ensure_silent_args(r"C:\Program Files\Unity Hub\Uninstall Unity Hub.exe", &mut args);
    assert_eq!(args, vec!["/S"]);
}

#[test]
fn does_not_duplicate_silent_flag() {
    let mut args = vec!["/S".into()];
    ensure_silent_args(r"C:\Program Files\App\Uninstall.exe", &mut args);
    assert_eq!(args, vec!["/S"]);
}
