use wrought::content_store::{content_file_name, ContentStore, MemoryContentStore};
use wrought::hash::ContentHash;

#[test]
fn content_store_store_and_retrieve_pair_work() {
    let mut store = MemoryContentStore::new();
    let hash = store.store("This is a test".as_bytes()).unwrap();
    let content = store.retrieve(hash).unwrap();
    let content = content.unwrap();
    assert_eq!("This is a test", std::str::from_utf8(&content).unwrap());
}

#[test]
fn content_store_store_writes_to_correct_path() {
    let mut store = MemoryContentStore::new();
    let content = "dummy content".as_bytes();
    let expected_hash = ContentHash::from_content(content);
    let hash = store.store(content).unwrap();
    assert_eq!(hash, expected_hash);
    let expected_path = format!("some/random/dir/{}", hash.to_string());
    assert_eq!(content_file_name("some/random/dir", &hash), expected_path);
    assert_eq!(store.retrieve(hash).unwrap().unwrap(), content);
}

#[test]
fn content_store_retrieve_reads_from_correct_path() {
    let mut store = MemoryContentStore::new();
    let content = "some content".as_bytes();
    let hash = ContentHash::from_content(content);
    store.insert_blob(hash, content.to_vec());
    let result = store.retrieve(hash).unwrap();
    let result = result.unwrap();
    assert_eq!(result, content);
}

#[test]
fn retrieve_of_unknown_address_is_none() {
    let mut store = MemoryContentStore::new();
    store.store(b"stored").unwrap();
    assert_eq!(store.retrieve(ContentHash::from_content(b"never stored")).unwrap(), None);
}

#[test]
fn storing_twice_is_idempotent() {
    let mut store = MemoryContentStore::new();
    let a = store.store(b"same").unwrap();
    let b = store.store(b"same").unwrap();
    assert_eq!(a, b);
    assert_eq!(store.retrieve(a).unwrap().unwrap(), b"same".to_vec());
}
