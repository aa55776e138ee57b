use uninstall_many_programs::programs::InstalledProgram;
use uninstall_many_programs::size::SizeProbeItem;
use uninstall_many_programs::size_probe::{ProbeAction, ProbeEvent, SizeProbe};
use uninstall_many_programs::uninstall::RunOutcome;
use uninstall_many_programs::uninstall_run::{RunAction, RunEvent, UninstallRun};

fn found(id: &str, name: &str, protected: bool) -> RunEvent {
    RunEvent::Found(Some(InstalledProgram {
        id: id.to_string(),
        display_name: name.to_string(),
        publisher: None,
        display_version: None,
        install_date: None,
        install_location: None,
        uninstall_string: None,
        quiet_uninstall_string: None,
        estimated_size_kb: None,
        windows_installer: false,
        system_component: false,
        protected,
        hive: "HKLM".to_string(),
        category: None,
    }))
}

fn describe(a: &RunAction) -> String {
    match a {
        RunAction::Fail(e) => format!("fail {e}"),
        RunAction::LookUp(id) => format!("lookup {id}"),
        RunAction::Emit(p) => format!(
            "emit {} {} {}",
            p.id,
            p.status,
            p.message.clone().unwrap_or_default()
        ),
        RunAction::RunUninstaller(p) => format!("run {}", p.id),
        RunAction::DeleteKey(id) => format!("delete {id}"),
        RunAction::Pause(ms) => format!("pause {ms}"),
        RunAction::EmitFinished => "finished".to_string(),
        RunAction::Finish => "ok".to_string(),
    }
}

fn drive_run(ids: &[&str], answer: impl Fn(&RunAction) -> RunEvent) -> Vec<String> {
    let mut run = UninstallRun::new(ids.iter().map(|s| s.to_string()).collect());
    let mut log = Vec::new();
    let mut event = RunEvent::Done;
    loop {
        let action = run.step(event);
        log.push(describe(&action));
        if matches!(action, RunAction::Fail(_) | RunAction::Finish) {
            assert!(run.is_over());
            return log;
        }
        event = answer(&action);
    }
}

#[test]
fn an_uninstall_run_goes_through_programs_in_order() {
    let log = drive_run(&["a", "b", "c", "d"], |action| match action {
        RunAction::LookUp(id) => match id.as_str() {
            "a" => found("a", "A", false),
            "b" => RunEvent::Found(None),
            "c" => found("c", "C", true),
            _ => found("d", "D", false),
        },
        RunAction::RunUninstaller(p) if p.id == "a" => RunEvent::Ran(Ok(RunOutcome::Exit(0))),
        RunAction::RunUninstaller(_) => {
            RunEvent::Ran(Ok(RunOutcome::MissingExecutable(r"C:\d.exe".to_string())))
        }
        RunAction::DeleteKey(_) => RunEvent::Deleted(Ok(())),
        _ => RunEvent::Done,
    });
    assert_eq!(
        log,
        vec![
            "lookup a",
            "emit a running Starting silent uninstall…",
            "run a",
            "emit a uninstalled Uninstalled successfully",
            "pause 400",
            "lookup b",
            "emit b failed Program no longer found in registry",
            "lookup c",
            "emit c failed Protected entry — skipped",
            "lookup d",
            "emit d running Starting silent uninstall…",
            "run d",
            r"emit d running Uninstaller not found (C:\d.exe) — removing leftover registry entry…",
            "delete d",
            "emit d uninstalled Uninstaller missing — removed leftover registry entry",
            "pause 400",
            "finished",
            "ok",
        ]
    );
}

#[test]
fn an_empty_selection_fails_at_once() {
    assert_eq!(drive_run(&[], |_| RunEvent::Done), vec!["fail No programs selected"]);
}

#[test]
fn a_failed_lookup_ends_the_run() {
    let log = drive_run(&["a", "b"], |action| match action {
        RunAction::LookUp(_) => RunEvent::LookupFailed("registry unavailable".to_string()),
        _ => RunEvent::Done,
    });
    assert_eq!(log, vec!["lookup a", "fail registry unavailable"]);
}

#[test]
fn a_failed_uninstaller_is_reported_and_the_run_goes_on() {
    let log = drive_run(&["a"], |action| match action {
        RunAction::LookUp(_) => found("a", "A", false),
        RunAction::RunUninstaller(_) => RunEvent::Ran(Err("spawn failed".to_string())),
        _ => RunEvent::Done,
    });
    assert_eq!(
        log,
        vec![
            "lookup a",
            "emit a running Starting silent uninstall…",
            "run a",
            "emit a failed spawn failed",
            "pause 400",
            "finished",
            "ok",
        ]
    );
}

fn item(id: &str, location: Option<&str>) -> SizeProbeItem {
    SizeProbeItem {
        id: id.to_string(),
        install_location: location.map(str::to_string),
        uninstall_string: None,
    }
}

fn describe_probe(a: &ProbeAction) -> String {
    match a {
        ProbeAction::CheckCurrent => "check".to_string(),
        ProbeAction::ResolveRoot(loc, _) => format!("resolve {}", loc.as_deref().unwrap_or("-")),
        ProbeAction::Canonicalize(r) => format!("canon {r}"),
        ProbeAction::Measure(r) => format!("measure {r}"),
        ProbeAction::Emit(u) => format!("emit {} {}", u.id, u.estimated_size_kb),
        ProbeAction::EmitFinished => "finished".to_string(),
        ProbeAction::Stop => "stop".to_string(),
    }
}

fn drive_probe(items: Vec<SizeProbeItem>, current_checks: usize) -> Vec<String> {
    let mut probe = SizeProbe::new(items);
    let mut log = Vec::new();
    let mut action = ProbeAction::CheckCurrent;
    let mut checks = 0;
    loop {
        let event = match &action {
            ProbeAction::CheckCurrent => {
                checks += 1;
                ProbeEvent::Current(checks <= current_checks)
            }
            ProbeAction::ResolveRoot(loc, _) => ProbeEvent::Resolved(loc.clone()),
            ProbeAction::Canonicalize(r) => ProbeEvent::Canonical(match r.as_str() {
                r"D:\X" => r"\\?\D:\X".to_string(),
                other => other.to_string(),
            }),
            ProbeAction::Measure(r) => ProbeEvent::Measured(if r == r"D:\W" { 0 } else { 2049 }),
            ProbeAction::Stop => {
                assert!(probe.is_stopped());
                return log;
            }
            _ => ProbeEvent::Done,
        };
        action = probe.step(event);
        log.push(describe_probe(&action));
    }
}

#[test]
fn a_size_probe_claims_each_folder_once() {
    let items = vec![
        item("x", Some(r"D:\X")),
        item("y", Some(r"d:\x\")),
        item("z", None),
        item("w", Some(r"D:\W")),
    ];
    assert_eq!(
        drive_probe(items, usize::MAX),
        vec![
            r"resolve D:\X",
            r"canon D:\X",
            r"measure D:\X",
            "check",
            "emit x 3",
            "check",
            r"resolve d:\x\",
            r"canon d:\x\",
            "check",
            "resolve -",
            "check",
            r"resolve D:\W",
            r"canon D:\W",
            r"measure D:\W",
            "check",
            "check",
            "finished",
            "stop",
        ]
    );
}

#[test]
fn a_superseded_probe_stops_without_emitting() {
    let items = vec![item("x", Some(r"D:\X")), item("y", Some(r"D:\Y"))];
    assert_eq!(
        drive_probe(items, 1),
        vec![r"resolve D:\X", r"canon D:\X", r"measure D:\X", "check", "stop"]
    );
    assert_eq!(drive_probe(vec![], 0), vec!["stop"]);
}
