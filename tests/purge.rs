use std::collections::HashSet;

use app_uninstaller::error::Error;
use app_uninstaller::purge::{Action, AppPurgeProcess, AppPurger, Outcome, PurgeSession, Stage};

const ENTRY: &str = "/usr/share/applications/foo.desktop";

fn snapshot(paths: &[&str]) -> HashSet<String> {
    paths.iter().map(|p| p.to_string()).collect()
}

/// Drives a session against a set of existing paths, answering every offer
/// with `confirm`; returns the paths that were offered.
fn drive(session: &mut PurgeSession, fs: &mut HashSet<String>, confirm: bool) -> Vec<String> {
    let mut offered = Vec::new();
    let mut steps = 0;
    loop {
        steps += 1;
        assert!(steps < 1000, "the session does not end");
        match session.action() {
            Action::RemoveFile(p) | Action::RemoveDir(p) => {
                if fs.remove(&p) {
                    session.on_removed(Ok(()));
                } else {
                    session.on_removed(Err("No such file or directory".to_string()));
                }
            }
            Action::CheckExists(p) => {
                let exists = fs.contains(&p);
                session.on_probed(exists);
            }
            Action::Confirm(p) => {
                offered.push(p);
                session.on_confirmed(confirm);
            }
            Action::Finish => break,
        }
    }
    assert!(session.is_completed());
    offered
}

fn not_deleted(path: &str) -> Outcome {
    Outcome::Failed(Error::CouldNotDelete(path.to_string(), "No such file or directory".to_string()))
}

#[test]
fn end_to_end_purge_removes_three_paths() {
    let mut fs = snapshot(&["/usr/bin/foo", ENTRY, "/usr/share/foo", "/usr/bin/bar"]);
    let mut s = AppPurger::purge_with(
        "Foo".to_string(),
        Ok("/usr/bin/foo".to_string()),
        ENTRY.to_string(),
        Some("/home/u".to_string()),
    );
    let offered = drive(&mut s, &mut fs, true);
    assert_eq!(offered, vec!["/usr/share/foo"]);
    assert_eq!(
        s.report(),
        &vec![
            Outcome::Removed("/usr/bin/foo".to_string()),
            Outcome::Removed(ENTRY.to_string()),
            Outcome::Removed("/usr/share/foo".to_string()),
        ]
    );
    assert_eq!(fs, snapshot(&["/usr/bin/bar"]));
}

#[test]
fn second_purge_reports_absent_files() {
    let mut fs = snapshot(&["/usr/bin/foo", ENTRY, "/usr/share/foo"]);
    let request = |resolved: Result<String, Error>| {
        AppPurger::purge_with("Foo".to_string(), resolved, ENTRY.to_string(), Some("/home/u".to_string()))
    };
    let mut first = request(Ok("/usr/bin/foo".to_string()));
    drive(&mut first, &mut fs, true);
    assert!(fs.is_empty());

    let mut again = request(Ok("/usr/bin/foo".to_string()));
    let offered = drive(&mut again, &mut fs, true);
    assert!(offered.is_empty());
    assert_eq!(again.report(), &vec![not_deleted("/usr/bin/foo"), not_deleted(ENTRY)]);

    let mut unresolved = request(Err(Error::ExecNotFound));
    drive(&mut unresolved, &mut fs, true);
    assert_eq!(
        unresolved.report(),
        &vec![Outcome::Failed(Error::ExecNotFound), not_deleted(ENTRY)]
    );
}

#[test]
fn declined_candidates_are_kept() {
    let mut fs = snapshot(&[ENTRY, "/opt/foo", "/home/u/.config/Foo"]);
    let mut s = AppPurger::purge_with(
        "Foo".to_string(),
        Err(Error::ExecNotFound),
        ENTRY.to_string(),
        Some("/home/u".to_string()),
    );
    let offered = drive(&mut s, &mut fs, false);
    assert_eq!(offered, vec!["/opt/foo", "/home/u/.config/Foo"]);
    assert_eq!(
        s.report(),
        &vec![
            Outcome::Failed(Error::ExecNotFound),
            Outcome::Removed(ENTRY.to_string()),
            Outcome::Declined("/opt/foo".to_string()),
            Outcome::Declined("/home/u/.config/Foo".to_string()),
        ]
    );
    assert_eq!(fs, snapshot(&["/opt/foo", "/home/u/.config/Foo"]));
}

#[test]
fn failed_removal_does_not_stop_the_purge() {
    let mut s = AppPurger::purge_with(
        "Foo".to_string(),
        Ok("/usr/bin/foo".to_string()),
        ENTRY.to_string(),
        None,
    );
    assert_eq!(s.action(), Action::RemoveFile("/usr/bin/foo".to_string()));
    s.on_removed(Err("Permission denied".to_string()));
    assert_eq!(s.stage(), Stage::Entry);
    assert_eq!(s.action(), Action::RemoveFile(ENTRY.to_string()));
    s.on_removed(Ok(()));
    assert_eq!(s.action(), Action::CheckExists("/usr/local/share/foo".to_string()));
    s.on_probed(true);
    assert_eq!(s.action(), Action::Confirm("/usr/local/share/foo".to_string()));
    s.on_confirmed(true);
    assert_eq!(s.action(), Action::RemoveDir("/usr/local/share/foo".to_string()));
    s.on_removed(Err("Device busy".to_string()));
    assert_eq!(s.stage(), Stage::Probe(1));
    assert_eq!(
        s.report(),
        &vec![
            Outcome::Failed(Error::HomeDirUnresolvable),
            Outcome::Failed(Error::CouldNotDelete("/usr/bin/foo".to_string(), "Permission denied".to_string())),
            Outcome::Removed(ENTRY.to_string()),
            Outcome::Failed(Error::CouldNotDelete("/usr/local/share/foo".to_string(), "Device busy".to_string())),
        ]
    );
}

#[test]
fn without_home_only_system_paths_are_searched() {
    let mut fs = snapshot(&["/etc/foo", "/home/u/.config/Foo"]);
    let mut s = AppPurgeProcess::new("Foo".to_string(), false).try_purge(None);
    let offered = drive(&mut s, &mut fs, true);
    assert_eq!(offered, vec!["/etc/foo"]);
    assert_eq!(
        s.report(),
        &vec![Outcome::Failed(Error::HomeDirUnresolvable), Outcome::Removed("/etc/foo".to_string())]
    );
}

#[test]
fn headless_session_deletes_nothing() {
    let mut fs = snapshot(&["/usr/share/foo", "/home/u/.local/share/Foo"]);
    let mut s = AppPurgeProcess::new("Foo".to_string(), true).try_purge(Some("/home/u".to_string()));
    let offered = drive(&mut s, &mut fs, true);
    assert!(offered.is_empty());
    assert_eq!(
        s.report(),
        &vec![
            Outcome::Declined("/usr/share/foo".to_string()),
            Outcome::Declined("/home/u/.local/share/Foo".to_string()),
        ]
    );
    assert_eq!(fs.len(), 2);
}

#[test]
fn try_purge_starts_with_first_candidate() {
    let s = AppPurgeProcess::new("Foo".to_string(), false).try_purge(Some("/home/u".to_string()));
    assert_eq!(s.stage(), Stage::Probe(0));
    assert!(s.report().is_empty());
}

#[test]
fn find_exec_resolves_shell() {
    let found = AppPurger::find_exec("sh -c true").expect("a shell is on the search path");
    assert!(found.ends_with("/sh"));
}

#[test]
fn find_exec_of_absent_command() {
    assert_eq!(
        AppPurger::find_exec("no-such-command-on-this-system --flag"),
        Err(Error::ExecNotFound)
    );
}

#[test]
fn purge_app_of_absent_command_reports_it() {
    let s = AppPurger::purge_app(
        "Nothing Here".to_string(),
        "no-such-command-on-this-system".to_string(),
        "/nonexistent/nothing.desktop".to_string(),
        Some("/home/u".to_string()),
    );
    assert_eq!(s.report(), &vec![Outcome::Failed(Error::ExecNotFound)]);
    assert_eq!(s.action(), Action::RemoveFile("/nonexistent/nothing.desktop".to_string()));
}
