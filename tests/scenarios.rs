use wrought::backend::{Backend, MemoryBackend};
use wrought::event_log::EventLog;
use wrought::events::{EventGroup, EventType};
use wrought::hash::ContentHash;
use wrought::metadata::MetadataKey;
use wrought::service::{create_event_log, hello_world, Wrought};

#[test]
fn greeting_script_runs_twice() {
    let mut w = Wrought::new(MemoryBackend::new());
    let mut log = create_event_log();

    let events = hello_world(&mut w).unwrap();
    assert_eq!(events.len(), 3);
    match &events[0].event_type {
        EventType::GetMetadata(g) => assert!(g.value.is_none()),
        _ => panic!("expected a lookup"),
    }
    match &events[2].event_type {
        EventType::WriteFile(wf) => {
            assert_eq!(wf.path, "hello.txt");
            assert_eq!(wf.before_hash, None);
            assert_eq!(wf.after_hash, Some(ContentHash::from_content(b"greetings!")));
        }
        _ => panic!("expected a write"),
    }
    let first = log
        .add_event_group(&EventGroup { id: 0, command: "hello world".to_string(), events, is_most_recent_run: true })
        .unwrap();
    let (_, content) = w.backend.read_file("hello.txt").unwrap().unwrap();
    assert_eq!(content, b"greetings!".to_vec());
    let name = w.backend.get_metadata("index.md", &MetadataKey::from_text("name")).unwrap().unwrap();
    assert_eq!(name.as_string(), "Unknown");

    let events = hello_world(&mut w).unwrap();
    assert_eq!(events.len(), 2);
    match &events[1].event_type {
        EventType::WriteFile(wf) => {
            assert_eq!(wf.before_hash, Some(ContentHash::from_content(b"greetings!")));
            assert_eq!(wf.after_hash, Some(ContentHash::from_content(b"greetings, Unknown")));
        }
        _ => panic!("expected a write"),
    }
    let second = log
        .add_event_group(&EventGroup { id: 0, command: "hello world".to_string(), events, is_most_recent_run: true })
        .unwrap();
    let (_, content) = w.backend.read_file("hello.txt").unwrap().unwrap();
    assert_eq!(content, b"greetings, Unknown".to_vec());

    assert_ne!(first.id, second.id);
    let g1 = log.get_event_group(first.id).unwrap().unwrap();
    assert!(matches!(g1.events[1].event_type, EventType::SetMetadata(_)));
    assert!(matches!(g1.events[2].event_type, EventType::WriteFile(_)));
    let g2 = log.get_event_group(second.id).unwrap().unwrap();
    assert!(matches!(g2.events[1].event_type, EventType::WriteFile(_)));
    assert!(!g1.is_most_recent_run);
    assert!(g2.is_most_recent_run);
}
