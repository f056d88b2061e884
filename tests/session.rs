use watch_backup::{
    check_backup_directory, Action, ChangeEvent, CopyError, ErrorKind, EventKind, Input, LocalTimestamp, Phase,
    WatchSession,
};

fn at(second: u32) -> LocalTimestamp {
    LocalTimestamp { year: 2024, month: 3, day: 5, hour: 7, minute: 8, second }
}

fn event(kind: EventKind, paths: &[&str]) -> Input {
    Input::Notified(Ok(ChangeEvent { kind, paths: paths.iter().map(|p| p.to_string()).collect() }))
}

fn copy_of(a: Action) -> (String, String) {
    match a {
        Action::Copy { from, to } => (from, to),
        other => panic!("expected a copy, got {:?}", other),
    }
}

fn command_of(a: Action) -> Vec<String> {
    match a {
        Action::RunCommand(l) => l,
        other => panic!("expected a command, got {:?}", other),
    }
}

fn running(backup: Option<&str>, command: Option<&str>) -> WatchSession {
    let (mut s, first) = WatchSession::new(
        "/tmp/watched".to_string(),
        backup.map(|b| b.to_string()),
        command.map(|c| c.to_string()),
    );
    assert!(matches!(first, Action::Subscribe(ref r) if r == "/tmp/watched"));
    let a = s.step_at(Input::Subscribed(Ok(())), &at(0));
    if let Some(b) = backup {
        assert!(matches!(a, Action::EnsureDirectory(ref d) if d == b));
        assert_eq!(s.phase(), Phase::CheckingDirectory);
        let a = s.step_at(Input::DirectoryChecked(true), &at(0));
        assert!(matches!(a, Action::AwaitEvent));
    } else {
        assert!(matches!(a, Action::AwaitEvent));
    }
    assert_eq!(s.phase(), Phase::Waiting);
    s
}

#[test]
fn created_file_is_copied_to_backup() {
    let mut s = running(Some("/tmp/backup"), None);
    let a = s.step_at(event(EventKind::Created, &["/tmp/watched/a.txt"]), &at(1));
    let (from, to) = copy_of(a);
    assert_eq!(from, "/tmp/watched/a.txt");
    assert_eq!(to, "/tmp/backup/a.txt.2024-03-05_07_08_01");
    assert_eq!(s.phase(), Phase::Copying);
    let a = s.step_at(Input::Copied(Ok(())), &at(1));
    assert!(matches!(a, Action::AwaitEvent));
    assert_eq!(s.phase(), Phase::Waiting);
}

#[test]
fn second_modification_gets_its_own_backup() {
    let mut s = running(Some("/tmp/backup"), None);
    let (_, first) = copy_of(s.step_at(event(EventKind::Created, &["/tmp/watched/a.txt"]), &at(1)));
    assert!(matches!(s.step_at(Input::Copied(Ok(())), &at(1)), Action::AwaitEvent));
    let (from, second) =
        copy_of(s.step_at(event(EventKind::Modified, &["/tmp/watched/a.txt"]), &at(2)));
    assert_eq!(from, "/tmp/watched/a.txt");
    assert_eq!(second, "/tmp/backup/a.txt.2024-03-05_07_08_02");
    assert_ne!(first, second);
}

#[test]
fn no_backup_path_means_no_writes() {
    let mut s = running(None, None);
    for kind in [EventKind::Created, EventKind::Modified, EventKind::Other] {
        let a = s.step_at(event(kind, &["/tmp/watched/a.txt", "/tmp/watched/b.txt"]), &at(1));
        assert!(matches!(a, Action::AwaitEvent));
        assert_eq!(s.phase(), Phase::Waiting);
    }
}

#[test]
fn command_gets_both_placeholders() {
    let mut s = running(Some("/tmp/backup"), Some("echo OLD_FILENAME NEW_FILENAME"));
    copy_of(s.step_at(event(EventKind::Modified, &["/tmp/watched/a.txt"]), &at(3)));
    let line = command_of(s.step_at(Input::Copied(Ok(())), &at(3)));
    assert_eq!(line, vec!["echo", "/tmp/watched/a.txt", "/tmp/backup/a.txt.2024-03-05_07_08_03"]);
    assert_eq!(s.phase(), Phase::Commanding);
}

#[test]
fn failing_command_does_not_end_the_watch() {
    let mut s = running(None, Some("no-such-program OLD_FILENAME NEW_FILENAME"));
    let line = command_of(s.step_at(event(EventKind::Created, &["/tmp/watched/a.txt"]), &at(4)));
    assert_eq!(line, vec!["no-such-program", "/tmp/watched/a.txt", ""]);
    let a = s.step_at(Input::CommandFinished(Err("not found".to_string())), &at(4));
    assert!(matches!(a, Action::AwaitEvent));
    assert_eq!(s.phase(), Phase::Waiting);
    let line = command_of(s.step_at(event(EventKind::Modified, &["/tmp/watched/b"]), &at(5)));
    assert_eq!(line, vec!["no-such-program", "/tmp/watched/b", ""]);
}

#[test]
fn paths_of_one_event_are_handled_in_order() {
    let mut s = running(Some("/tmp/backup"), Some("touch NEW_FILENAME"));
    let ev = event(EventKind::Modified, &["/w/x", "/w/", "/w/y"]);
    let (from, _) = copy_of(s.step_at(ev, &at(6)));
    assert_eq!(from, "/w/x");
    let line = command_of(s.step_at(Input::Copied(Ok(())), &at(6)));
    assert_eq!(line, vec!["touch", "/tmp/backup/x.2024-03-05_07_08_06"]);
    let a = s.step_at(Input::CommandFinished(Ok(())), &at(6));
    assert_eq!(command_of(a), vec!["touch", ""]);
    let (from, to) = copy_of(s.step_at(Input::CommandFinished(Ok(())), &at(7)));
    assert_eq!(from, "/w/y");
    assert_eq!(to, "/tmp/backup/y.2024-03-05_07_08_07");
}

#[test]
fn failed_copy_stops_with_io_error() {
    let mut s = running(Some("/tmp/backup"), Some("echo OLD_FILENAME"));
    copy_of(s.step_at(event(EventKind::Created, &["/tmp/watched/a.txt", "/tmp/watched/b"]), &at(1)));
    match s.step_at(Input::Copied(Err(CopyError::Failed("disk full".to_string()))), &at(1)) {
        Action::Stop(Some(e)) => {
            assert_eq!(e.kind, ErrorKind::Io);
            assert_eq!(e.detail, "disk full");
        }
        other => panic!("expected a stop, got {:?}", other),
    }
    assert_eq!(s.phase(), Phase::Stopped);
    let a = s.step_at(event(EventKind::Created, &["/tmp/watched/c"]), &at(2));
    assert!(matches!(a, Action::Stop(None)));
}

#[test]
fn other_events_and_notification_errors_are_passed_over() {
    let mut s = running(Some("/tmp/backup"), Some("echo OLD_FILENAME"));
    let a = s.step_at(event(EventKind::Other, &["/tmp/watched/a.txt"]), &at(1));
    assert!(matches!(a, Action::AwaitEvent));
    let a = s.step_at(Input::Notified(Err("queue overflow".to_string())), &at(1));
    assert!(matches!(a, Action::AwaitEvent));
    assert_eq!(s.phase(), Phase::Waiting);
}

#[test]
fn backup_path_that_is_not_a_directory_is_a_configuration_error() {
    let (mut s, first) =
        WatchSession::new("/tmp/watched".to_string(), Some("/tmp/file".to_string()), None);
    assert!(matches!(first, Action::Subscribe(_)));
    assert!(matches!(s.step_at(Input::Subscribed(Ok(())), &at(0)), Action::EnsureDirectory(_)));
    assert_eq!(s.phase(), Phase::CheckingDirectory);
    match s.step_at(Input::DirectoryChecked(false), &at(0)) {
        Action::Stop(Some(e)) => {
            assert_eq!(e.kind, ErrorKind::Configuration);
            assert_eq!(e.detail, "/tmp/file");
        }
        other => panic!("expected a stop, got {:?}", other),
    }
    assert_eq!(s.phase(), Phase::Stopped);
}

#[test]
fn unwatchable_root_is_a_configuration_error() {
    let (mut s, first) =
        WatchSession::new("/nowhere".to_string(), Some("/tmp/backup".to_string()), None);
    assert!(matches!(first, Action::Subscribe(ref r) if r == "/nowhere"));
    match s.step_at(Input::Subscribed(Err("no such directory".to_string())), &at(0)) {
        Action::Stop(Some(e)) => {
            assert_eq!(e.kind, ErrorKind::Configuration);
            assert_eq!(e.detail, "no such directory");
        }
        other => panic!("expected a stop, got {:?}", other),
    }
    assert_eq!(s.phase(), Phase::Stopped);
    assert!(matches!(s.step_at(Input::DirectoryChecked(true), &at(0)), Action::Stop(None)));
}

#[test]
fn same_second_backup_gets_the_next_name() {
    let mut s = running(Some("/tmp/backup"), Some("cat NEW_FILENAME"));
    let (_, first) = copy_of(s.step_at(event(EventKind::Created, &["/tmp/watched/a.txt"]), &at(1)));
    command_of(s.step_at(Input::Copied(Ok(())), &at(1)));
    assert!(matches!(s.step_at(Input::CommandFinished(Ok(())), &at(1)), Action::AwaitEvent));
    let (_, same) = copy_of(s.step_at(event(EventKind::Modified, &["/tmp/watched/a.txt"]), &at(1)));
    assert_eq!(same, first);
    let (from, to) = copy_of(s.step_at(Input::Copied(Err(CopyError::TargetExists)), &at(1)));
    assert_eq!(from, "/tmp/watched/a.txt");
    assert_eq!(to, "/tmp/backup/a.txt.2024-03-05_07_08_01.1");
    let (_, to) = copy_of(s.step_at(Input::Copied(Err(CopyError::TargetExists)), &at(1)));
    assert_eq!(to, "/tmp/backup/a.txt.2024-03-05_07_08_01.2");
    let line = command_of(s.step_at(Input::Copied(Ok(())), &at(1)));
    assert_eq!(line, vec!["cat", "/tmp/backup/a.txt.2024-03-05_07_08_01.2"]);
}

#[test]
fn cancel_during_an_event_finishes_it_first() {
    let mut s = running(Some("/b"), None);
    let (from, _) = copy_of(s.step_at(event(EventKind::Created, &["/w/x", "/w/y"]), &at(1)));
    assert_eq!(from, "/w/x");
    assert!(matches!(s.step_at(Input::Cancelled, &at(1)), Action::CancelNoted));
    assert_eq!(s.phase(), Phase::Copying);
    let (from, _) = copy_of(s.step_at(Input::Copied(Ok(())), &at(1)));
    assert_eq!(from, "/w/y");
    assert!(matches!(s.step_at(Input::Copied(Ok(())), &at(1)), Action::Stop(None)));
    assert_eq!(s.phase(), Phase::Stopped);
}

#[test]
fn cancelling_stops_cleanly() {
    let mut s = running(None, None);
    assert!(matches!(s.step_at(Input::Cancelled, &at(0)), Action::Stop(None)));
    assert_eq!(s.phase(), Phase::Stopped);
}

#[test]
fn unexpected_input_is_ignored() {
    let mut s = running(None, None);
    assert!(matches!(s.step_at(Input::Copied(Ok(())), &at(0)), Action::Ignore));
    assert_eq!(s.phase(), Phase::Waiting);
}

#[test]
fn step_reads_the_clock() {
    let mut s = running(Some("/b"), None);
    let (_, to) = copy_of(s.step(event(EventKind::Created, &["/w/f"])));
    assert!(to.starts_with("/b/f."));
    assert_eq!(to.len(), "/b/f.".len() + 19);
}

#[test]
fn directory_check_outcomes() {
    assert!(check_backup_directory("/tmp/backup", true).is_ok());
    let e = check_backup_directory("/tmp/file", false).unwrap_err();
    assert_eq!(e.kind, ErrorKind::Configuration);
    assert_eq!(e.detail, "/tmp/file");
}
