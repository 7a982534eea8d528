use wrought::event_log::{EventLog, LedgerError, MemoryEventLog};
use wrought::events::{Event, EventGroup, EventType, WriteFileEvent};
use wrought::file_history::{
    file_history, file_history_from_log, file_history_from_results, EventLogCommand, FileHistoryEntry, HistoryError,
};
use wrought::hash::ContentHash;

fn write(path: &str, before: Option<&[u8]>, after: Option<&[u8]>) -> Event {
    Event::from(WriteFileEvent {
        path: path.to_string(),
        before_hash: before.map(ContentHash::from_content),
        after_hash: after.map(ContentHash::from_content),
    })
}

fn group(command: &str, events: Vec<Event>) -> EventGroup {
    EventGroup { id: 0, command: command.to_string(), events, is_most_recent_run: true }
}

#[test]
fn untracked_nonexistant_file() {
    let log = MemoryEventLog::new();
    let history = file_history_from_log(&log, "tofu.txt", Ok(None)).unwrap();
    assert_eq!(history, vec![]);
}

#[test]
fn normal_file() {
    let project_root = "project_root";
    let file_path = format!("{}/tofu.txt", project_root);
    let written_content = b"This is a test";
    let file_local_chages_content = b"Hello World";
    let mock_events: Vec<Event> =
        vec![write(&file_path, None, Some(written_content)).with_group_id(12)];
    let commands = vec![(12u64, "dancing".to_string())];
    let history = file_history(
        &mock_events,
        &commands,
        Some(ContentHash::from_content(file_local_chages_content)),
    )
    .unwrap();
    assert_eq!(
        history,
        vec![
            FileHistoryEntry::StoredHash(
                ContentHash::from_content(written_content),
                EventLogCommand("dancing".to_string())
            ),
            FileHistoryEntry::LocalChanges(ContentHash::from_content(file_local_chages_content))
        ]
    );
}

#[test]
fn removed_file() {
    let project_root = "project_root";
    let file_path = format!("{}/tofu.txt", project_root);
    let written_content = b"This is a test";
    let mock_events: Vec<Event> =
        vec![write(&file_path, None, Some(written_content)).with_group_id(12)];
    let commands = vec![(12u64, "dancing".to_string())];
    let history = file_history(&mock_events, &commands, None).unwrap();
    assert_eq!(
        history,
        vec![
            FileHistoryEntry::StoredHash(
                ContentHash::from_content(written_content),
                EventLogCommand("dancing".to_string())
            ),
            FileHistoryEntry::Deleted,
        ]
    );
}

#[test]
fn called_on_directory() {
    let mut log = MemoryEventLog::new();
    log.add_event_group(&group("build", vec![write("docs", None, Some(b"x"))])).unwrap();
    let r = file_history_from_log(&log, "docs", Err("Is a directory".to_string()));
    assert_eq!(r, Err(HistoryError::Filesystem("Is a directory".to_string())));
}

#[test]
fn file_became_directory() {
    let mut log = MemoryEventLog::new();
    log.add_event_group(&group("build", vec![write("out.txt", None, Some(b"x"))])).unwrap();
    let r = file_history_from_log(&log, "out.txt", Err("Is a directory".to_string()));
    assert!(matches!(r, Err(HistoryError::Filesystem(_))));
}

#[test]
fn handles_filesystem_error() {
    let log = MemoryEventLog::new();
    let r = file_history_from_log(&log, "out.txt", Err("permission denied".to_string()));
    assert_eq!(r, Err(HistoryError::Filesystem("permission denied".to_string())));
}

#[test]
fn handles_event_log_errors() {
    let r = file_history_from_results(Err(LedgerError::Storage), Ok(vec![]), Ok(None));
    assert_eq!(r, Err(HistoryError::Ledger(LedgerError::Storage)));
    let r = file_history_from_results(Ok(vec![]), Err(LedgerError::Storage), Ok(None));
    assert_eq!(r, Err(HistoryError::Ledger(LedgerError::Storage)));
}

#[test]
fn history_through_ledger_is_chronological() {
    let mut log = MemoryEventLog::new();
    log.add_event_group(&group("first", vec![write("a.txt", None, Some(b"one"))])).unwrap();
    log.add_event_group(&group("second", vec![write("a.txt", Some(b"edited"), Some(b"two"))]))
        .unwrap();
    let history =
        file_history_from_log(&log, "a.txt", Ok(Some(ContentHash::from_content(b"two")))).unwrap();
    assert_eq!(
        history,
        vec![
            FileHistoryEntry::StoredHash(
                ContentHash::from_content(b"one"),
                EventLogCommand("first".to_string())
            ),
            FileHistoryEntry::UnknownHash(ContentHash::from_content(b"edited")),
            FileHistoryEntry::StoredHash(
                ContentHash::from_content(b"two"),
                EventLogCommand("second".to_string())
            ),
        ]
    );
}

#[test]
fn deleting_write_and_missing_group() {
    let events = vec![
        write("a.txt", Some(b"one"), None).with_group_id(3),
        write("a.txt", None, Some(b"one")).with_group_id(2),
    ];
    let commands = vec![(2u64, "make".to_string()), (3u64, "clean".to_string())];
    let history = file_history(&events, &commands, None).unwrap();
    assert_eq!(
        history,
        vec![
            FileHistoryEntry::StoredHash(
                ContentHash::from_content(b"one"),
                EventLogCommand("make".to_string())
            ),
            FileHistoryEntry::DeletedBy(EventLogCommand("clean".to_string())),
        ]
    );
    let r = file_history(&events, &vec![(2u64, "make".to_string())], None);
    assert_eq!(r, Err(HistoryError::MissingGroup(3)));
    assert!(matches!(events[0].event_type, EventType::WriteFile(_)));
}
