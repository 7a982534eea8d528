use wrought::event_log::{EventLog, MemoryEventLog};
use wrought::events::{Event, EventGroup, ReadFileEvent, WriteFileEvent};
use wrought::file_status::{get_single_file_status, SingleFileStatus};
use wrought::hash::ContentHash;
use wrought::project_status::{
    build_rep_from_event_log, classify, get_project_status, FileStatus,
    ProjectRepresentationFromFilesystem,
};

fn h(b: &[u8]) -> ContentHash {
    ContentHash::from_content(b)
}

fn write(path: &str, after: Option<&[u8]>) -> Event {
    Event::from(WriteFileEvent { path: path.to_string(), before_hash: None, after_hash: after.map(h) })
}

fn read(path: &str, content: &[u8]) -> Event {
    Event::from(ReadFileEvent { path: path.to_string(), hash: Some(h(content)) })
}

fn group(command: &str, events: Vec<Event>) -> EventGroup {
    EventGroup { id: 0, command: command.to_string(), events, is_most_recent_run: true }
}

fn fs(entries: &[(&str, &[u8])]) -> ProjectRepresentationFromFilesystem {
    ProjectRepresentationFromFilesystem::from_entries(
        entries.iter().map(|(p, c)| (p.to_string(), h(c))).collect(),
    )
}

fn ledger() -> MemoryEventLog {
    let mut log = MemoryEventLog::new();
    log.add_event_group(&group("gen", vec![read("in.txt", b"input"), write("out.txt", Some(b"output"))]))
        .unwrap();
    log
}

#[test]
fn unwritten_path_is_untracked() {
    let log = ledger();
    let rep = build_rep_from_event_log(&log.all_event_groups().unwrap());
    let now = fs(&[("in.txt", b"input"), ("out.txt", b"output"), ("notes.txt", b"n")]);
    assert_eq!(classify(&rep, &now, "notes.txt"), Some(FileStatus::Untracked));
    assert_eq!(classify(&rep, &now, "in.txt"), Some(FileStatus::Untracked));
    assert_eq!(classify(&rep, &now, "nowhere.txt"), None);
}

#[test]
fn unchanged_output_is_clean() {
    let rep = build_rep_from_event_log(&ledger().all_event_groups().unwrap());
    let now = fs(&[("in.txt", b"input"), ("out.txt", b"output")]);
    assert_eq!(
        classify(&rep, &now, "out.txt"),
        Some(FileStatus::Present { is_changed: false, is_stale: false })
    );
}

#[test]
fn changed_input_makes_output_stale() {
    let rep = build_rep_from_event_log(&ledger().all_event_groups().unwrap());
    let now = fs(&[("in.txt", b"edited input"), ("out.txt", b"output")]);
    assert_eq!(
        classify(&rep, &now, "out.txt"),
        Some(FileStatus::Present { is_changed: false, is_stale: true })
    );
    let now = fs(&[("in.txt", b"edited input"), ("out.txt", b"edited output")]);
    assert_eq!(
        classify(&rep, &now, "out.txt"),
        Some(FileStatus::Present { is_changed: true, is_stale: true })
    );
    let now = fs(&[("out.txt", b"output")]);
    assert_eq!(
        classify(&rep, &now, "out.txt"),
        Some(FileStatus::Present { is_changed: false, is_stale: true })
    );
}

#[test]
fn missing_output_is_deleted_and_removal_untracks() {
    let mut log = ledger();
    let rep = build_rep_from_event_log(&log.all_event_groups().unwrap());
    let now = fs(&[("in.txt", b"input")]);
    assert_eq!(classify(&rep, &now, "out.txt"), Some(FileStatus::Deleted));
    log.add_event_group(&group("clean", vec![write("out.txt", None)])).unwrap();
    let rep = build_rep_from_event_log(&log.all_event_groups().unwrap());
    assert_eq!(classify(&rep, &now, "out.txt"), None);
}

#[test]
fn project_status_lists_each_path_once() {
    let rep = build_rep_from_event_log(&ledger().all_event_groups().unwrap());
    let now = fs(&[("in.txt", b"input"), ("out.txt", b"output"), ("out.txt", b"output")]);
    let status = get_project_status(&rep, &now, vec![]);
    assert_eq!(status.file_statuses.len(), 2);
    let out = status.file_statuses.iter().find(|e| e.path == "out.txt").unwrap();
    assert_eq!(out.status, FileStatus::Present { is_changed: false, is_stale: false });
}

#[test]
fn single_file_status_reports_inputs() {
    let log = ledger();
    let now = fs(&[("in.txt", b"edited"), ("out.txt", b"output")]);
    let r = get_single_file_status(&log, "out.txt", &now).unwrap();
    match r.status {
        SingleFileStatus::TrackedFileStatus(t) => {
            assert!(!t.changed());
            assert!(t.stale());
            assert_eq!(t.command, "gen");
            assert!(t.is_most_recent_run);
            assert_eq!(t.inputs.len(), 1);
            assert_eq!(t.inputs[0].tracked_hash, Some(h(b"input")));
            assert_eq!(t.inputs[0].current_hash, Some(h(b"edited")));
        }
        SingleFileStatus::Untracked => panic!("expected a tracked file"),
    }
    let r = get_single_file_status(&log, "notes.txt", &now).unwrap();
    assert!(matches!(r.status, SingleFileStatus::Untracked));
}

#[test]
fn project_status_is_in_ascending_path_order() {
    let rep = build_rep_from_event_log(&ledger().all_event_groups().unwrap());
    let now = fs(&[("z.txt", b"z"), ("in.txt", b"input"), ("b/c.txt", b"c"), ("out.txt", b"output")]);
    let status = get_project_status(&rep, &now, vec![]);
    let paths: Vec<&str> = status.file_statuses.iter().map(|e| e.path.as_str()).collect();
    assert_eq!(paths, vec!["b/c.txt", "in.txt", "out.txt", "z.txt"]);
}
