use wrought::event_log::{EventLog, LedgerError, MemoryEventLog};
use wrought::events::{Event, EventGroup, EventType, ReadFileEvent, WriteFileEvent};
use wrought::hash::ContentHash;
use wrought::ledger_rows::{event_from_event_row, row_from_event_no_id, RowError};

fn write(path: &str, after: &[u8]) -> Event {
    Event::from(WriteFileEvent {
        path: path.to_string(),
        before_hash: None,
        after_hash: Some(ContentHash::from_content(after)),
    })
}

fn read(path: &str, content: &[u8]) -> Event {
    Event::from(ReadFileEvent {
        path: path.to_string(),
        hash: Some(ContentHash::from_content(content)),
    })
}

fn group(command: &str, events: Vec<Event>) -> EventGroup {
    EventGroup { id: 0, command: command.to_string(), events, is_most_recent_run: true }
}

#[test]
fn commit_assigns_increasing_ids_and_keeps_order() {
    let mut log = MemoryEventLog::new();
    let events = vec![read("in.txt", b"i"), write("a.txt", b"a"), write("b.txt", b"b")];
    let committed = log.add_event_group(&group("run", events.clone())).unwrap();
    assert!(committed.id > 0);
    assert!(committed.events[0].id < committed.events[1].id);
    assert!(committed.events[1].id < committed.events[2].id);
    let fetched = log.get_event_group(committed.id).unwrap().unwrap();
    assert_eq!(fetched.command, "run");
    assert_eq!(fetched.events, committed.events);
    for (i, e) in fetched.events.iter().enumerate() {
        assert_eq!(e.event_type, events[i].event_type);
        assert_eq!(e.group_id, committed.id);
    }
}

#[test]
fn group_ids_increase_across_commits() {
    let mut log = MemoryEventLog::new();
    let g1 = log.add_event_group(&group("one", vec![write("a.txt", b"1")])).unwrap();
    let g2 = log.add_event_group(&group("two", vec![write("a.txt", b"2")])).unwrap();
    assert!(g1.id < g2.id);
    assert!(g1.events[0].id < g2.events[0].id);
    assert_eq!(log.all_event_groups().unwrap().len(), 2);
    assert!(log.get_event_group(g2.id + 100).unwrap().is_none());
}

#[test]
fn last_write_and_history() {
    let mut log = MemoryEventLog::new();
    log.add_event_group(&group("one", vec![write("a.txt", b"1"), read("b.txt", b"b")])).unwrap();
    let g2 = log.add_event_group(&group("two", vec![write("a.txt", b"2")])).unwrap();
    let last = log.get_last_write_event("a.txt").unwrap().unwrap();
    assert_eq!(last, g2.events[0]);
    assert!(log.get_last_write_event("b.txt").unwrap().is_none());
    let history = log.get_file_history("a.txt").unwrap();
    assert_eq!(history.len(), 2);
    assert!(history[0].id > history[1].id);
}

#[test]
fn most_recent_run_flag() {
    let mut log = MemoryEventLog::new();
    let g1 = log.add_event_group(&group("gen", vec![write("a.txt", b"1")])).unwrap();
    let g2 = log.add_event_group(&group("gen", vec![write("a.txt", b"2")])).unwrap();
    assert!(!log.get_event_group(g1.id).unwrap().unwrap().is_most_recent_run);
    assert!(log.get_event_group(g2.id).unwrap().unwrap().is_most_recent_run);
}

#[test]
fn commit_rejects_assigned_ids() {
    let mut log = MemoryEventLog::new();
    let committed = log.add_event_group(&group("one", vec![write("a.txt", b"1")])).unwrap();
    assert!(matches!(log.add_event_group(&committed), Err(LedgerError::IdsAlreadyAssigned)));
    assert_eq!(log.all_event_groups().unwrap().len(), 1);
}

#[test]
fn rows_round_trip_writes_and_reads() {
    let e = write("a.txt", b"content").with_group_id(4);
    let row = row_from_event_no_id(&e);
    assert_eq!(row.action_type, "write");
    assert_eq!(row.group_id, 4);
    let back = event_from_event_row(
        9,
        row.group_id,
        &row.action_type,
        &row.file_path,
        row.before_hash.as_deref(),
        row.after_hash.as_deref(),
    )
    .unwrap();
    assert_eq!(back.id, 9);
    assert_eq!(back.event_type, e.event_type);
    let r = read("b.txt", b"x").with_group_id(4);
    let row = row_from_event_no_id(&r);
    assert_eq!(row.action_type, "read");
    assert_eq!(row.after_hash, None);
    let back = event_from_event_row(1, 4, "read", "b.txt", row.before_hash.as_deref(), None).unwrap();
    assert!(matches!(back.event_type, EventType::ReadFile(_)));
    assert_eq!(back.event_type, r.event_type);
}

#[test]
fn rows_reject_bad_hash_and_unknown_action() {
    assert!(matches!(
        event_from_event_row(1, 1, "write", "a", Some("not a hash!"), None),
        Err(RowError::BadHash(_))
    ));
    assert_eq!(
        event_from_event_row(1, 1, "get_md", "a", None, None),
        Err(RowError::UnsupportedAction("get_md".to_string()))
    );
}
