use wrought::backend::{Backend, BackendError, MemoryBackend};
use wrought::bridge::{Bridge, BridgeError, SimpleBridge};
use wrought::events::EventType;
use wrought::hash::ContentHash;
use wrought::llm::{InvalidLLM, LLM};
use wrought::metadata::{MetadataEntry, MetadataKey, MetadataStore};

fn bridge() -> SimpleBridge<MemoryBackend, InvalidLLM> {
    SimpleBridge::new(
        MemoryBackend::new(),
        InvalidLLM::create_with_error_message("no key"),
        "root".to_string(),
    )
}

#[test]
fn second_write_reports_first_content() {
    let mut b = MemoryBackend::new();
    let (before, after) = b.write_file("p.txt", b"one").unwrap();
    assert_eq!(before, None);
    assert_eq!(after, ContentHash::from_content(b"one"));
    let (before, after) = b.write_file("p.txt", b"two").unwrap();
    assert_eq!(before, Some(ContentHash::from_content(b"one")));
    assert_eq!(after, ContentHash::from_content(b"two"));
    let (h, c) = b.read_file("p.txt").unwrap().unwrap();
    assert_eq!(c, b"two".to_vec());
    assert_eq!(h, ContentHash::from_content(b"two"));
    assert_eq!(b.retrieve(ContentHash::from_content(b"one")), Some(b"one".to_vec()));
}

#[test]
fn empty_path_is_rejected() {
    let mut b = MemoryBackend::new();
    assert_eq!(b.write_file("", b"x"), Err(BackendError::InvalidPath));
    assert_eq!(b.read_file("").unwrap(), None);
}

#[test]
fn metadata_set_get_and_remove() {
    let mut b = MemoryBackend::new();
    let key = MetadataKey::from_text("name");
    assert_eq!(b.get_metadata("index.md", &key).unwrap(), None);
    let old = b.set_metadata("index.md", &key, &Some(MetadataEntry::from_text("A"))).unwrap();
    assert_eq!(old, None);
    let old = b.set_metadata("index.md", &key, &Some(MetadataEntry::from_text("B"))).unwrap();
    assert_eq!(old.unwrap().as_string(), "A");
    assert_eq!(b.get_metadata("index.md", &key).unwrap().unwrap().as_string(), "B");
    let old = b.set_metadata("index.md", &key, &None).unwrap();
    assert_eq!(old.unwrap().as_string(), "B");
    assert_eq!(b.get_metadata("index.md", &key).unwrap(), None);
    assert_eq!(key.as_string(), "name");
}

#[test]
fn removing_last_key_drops_path() {
    let mut m = MetadataStore::new();
    m.set("a.md", "k1", Some("v1"));
    m.set("a.md", "k2", Some("v2"));
    assert_eq!(m.records().len(), 2);
    assert_eq!(m.set("a.md", "k1", None), Some("v1".to_string()));
    assert_eq!(m.set("a.md", "k2", None), Some("v2".to_string()));
    assert!(m.records().iter().all(|r| r.path != "a.md"));
    assert_eq!(m.get("a.md", "k2"), None);
}

#[test]
fn bridge_records_every_call() {
    let mut b = bridge();
    assert!(b.get_event_group().is_none());
    b.write_file("a.txt", b"x").unwrap();
    assert_eq!(b.read_file("a.txt").unwrap(), Some(b"x".to_vec()));
    assert_eq!(b.read_file("missing.txt").unwrap(), None);
    b.set_metadata("a.txt", "k", "v").unwrap();
    assert_eq!(b.get_metadata("a.txt", "k").unwrap(), Some("v".to_string()));
    let g = b.get_event_group().unwrap();
    assert_eq!(g.events.len(), 5);
    match &g.events[0].event_type {
        EventType::WriteFile(w) => {
            assert_eq!(w.path, "a.txt");
            assert_eq!(w.before_hash, None);
            assert_eq!(w.after_hash, Some(ContentHash::from_content(b"x")));
        }
        _ => panic!("expected a write"),
    }
    match &g.events[2].event_type {
        EventType::ReadFile(r) => assert_eq!(r.hash, None),
        _ => panic!("expected a read"),
    }
    assert!(matches!(g.events[3].event_type, EventType::SetMetadata(_)));
    assert!(matches!(g.events[4].event_type, EventType::GetMetadata(_)));
}

#[test]
fn failed_call_is_not_recorded() {
    let mut b = bridge();
    assert_eq!(
        b.write_file("", b"x"),
        Err(BridgeError::Backend(BackendError::InvalidPath))
    );
    assert!(b.get_event_group().is_none());
}

#[test]
fn ai_query_is_forwarded_and_not_recorded() {
    let mut b = bridge();
    assert_eq!(
        b.ai_query("Tell me a fun story"),
        Err(BridgeError::Query("Unable to access LLM: no key".to_string()))
    );
    assert!(b.get_event_group().is_none());
    let mut llm = InvalidLLM::create_with_error_message("offline");
    assert_eq!(llm.query("q"), Err("Unable to access LLM: offline".to_string()));
}
