//! A script run directly against a backend, recording each call as an event.

use vstd::prelude::*;
use vstd::string::StringExecFns;
use crate::backend::{Backend, BackendError};
use crate::event_log::MemoryEventLog;
use crate::events::{Event, EventType, GetMetadataEvent, SetMetadataEvent, WriteFileEvent};
use crate::metadata::{MetadataEntry, MetadataKey};

verus! {

/// The events that one script run records.
pub struct MicroService {
    pub events: Vec<Event>,
}

impl MicroService {
    pub fn new() -> (r: MicroService)
        ensures
            r.events@.len() == 0,
    {
        MicroService { events: Vec::new() }
    }

    /// Looks up a value and records the lookup.
    pub fn get_metadata<B: Backend>(&mut self, backend: &B, path: &str, key: &str) -> (r: Result<Option<MetadataEntry>, BackendError>)
        requires
            backend.valid(),
        ensures
            backend.accepts(path@) ==> r is Ok,
            r is Ok ==> crate::metadata::entry_view(r->Ok_0) == crate::metadata::md_lookup(backend.metadata(), path@, key@)
                && final(self).events@.len() == old(self).events@.len() + 1
                && final(self).events@.drop_last() == old(self).events@
                && crate::bridge::records_get_metadata(final(self).events@.last(), path@, key@, backend.metadata()),
            r is Err ==> final(self).events@ == old(self).events@,
    {
        let k = MetadataKey::from_text(key);
        let value = match backend.get_metadata(path, &k) {
            Ok(v) => v,
            Err(e) => return Err(e),
        };
        let copy = match &value {
            Some(v) => Some(v.duplicate()),
            None => None,
        };
        let ghost before = self.events@;
        self.events.push(
            Event::new(EventType::GetMetadata(GetMetadataEvent { path: path.to_string(), key: k, value: copy })),
        );
        assert(self.events@.drop_last() =~= before);
        Ok(value)
    }

    /// Sets a value and records the change.
    pub fn set_metadata<B: Backend>(&mut self, backend: &mut B, path: &str, key: &str, value: &str) -> (r: Result<(), BackendError>)
        requires
            old(backend).valid(),
        ensures
            final(backend).valid(),
            forall|q: Seq<char>| #[trigger] final(backend).accepts(q) == old(backend).accepts(q),
            old(backend).accepts(path@) ==> r is Ok,
            r is Ok ==> final(backend).metadata() == old(backend).metadata().insert((path@, key@), value@)
                && final(backend).files() == old(backend).files()
                && final(self).events@.len() == old(self).events@.len() + 1
                && final(self).events@.drop_last() == old(self).events@
                && crate::bridge::records_set_metadata(final(self).events@.last(), path@, key@, value@, old(backend).metadata()),
            r is Err ==> final(self).events@ == old(self).events@,
    {
        let k = MetadataKey::from_text(key);
        let v = Some(MetadataEntry::from_text(value));
        let before_value = match backend.set_metadata(path, &k, &v) {
            Ok(b) => b,
            Err(e) => return Err(e),
        };
        let ghost before = self.events@;
        self.events.push(
            Event::new(EventType::SetMetadata(SetMetadataEvent { path: path.to_string(), key: k, before_value, after_value: v })),
        );
        assert(self.events@.drop_last() =~= before);
        Ok(())
    }

    /// Writes a file and records the write.
    pub fn write_file<B: Backend>(&mut self, backend: &mut B, path: &str, value: &[u8]) -> (r: Result<(), BackendError>)
        requires
            old(backend).valid(),
        ensures
            final(backend).valid(),
            forall|q: Seq<char>| #[trigger] final(backend).accepts(q) == old(backend).accepts(q),
            old(backend).accepts(path@) ==> r is Ok,
            r is Ok ==> final(backend).files() == old(backend).files().insert(path@, value@)
                && final(backend).metadata() == old(backend).metadata()
                && final(self).events@.len() == old(self).events@.len() + 1
                && final(self).events@.drop_last() == old(self).events@
                && crate::bridge::records_write(final(self).events@.last(), path@, old(backend).files(), value@),
            r is Err ==> final(self).events@ == old(self).events@,
    {
        let (before_hash, after_hash) = match backend.write_file(path, value) {
            Ok(x) => x,
            Err(e) => return Err(e),
        };
        let ghost before = self.events@;
        self.events.push(
            Event::new(EventType::WriteFile(WriteFileEvent { path: path.to_string(), before_hash, after_hash: Some(after_hash) })),
        );
        assert(self.events@.drop_last() =~= before);
        Ok(())
    }
}

/// A project's backend, on which scripts run.
pub struct Wrought<B> {
    pub backend: B,
}

impl<B: Backend> Wrought<B> {
    pub fn new(backend: B) -> (r: Wrought<B>)
        ensures
            r.backend == backend,
    {
        Wrought { backend }
    }
}

/// The content that the greeting script writes when `name` is absent.
pub open spec fn plain_greeting() -> Seq<char> {
    "greetings!"@
}

/// The content that the greeting script writes for a name.
pub open spec fn named_greeting(name: Seq<char>) -> Seq<char> {
    "greetings, "@ + name
}

/// The greeting script: when `index.md` has no `name`, it sets `name` to
/// `Unknown` and writes `hello.txt` = `greetings!`; otherwise it writes
/// `hello.txt` = `greetings, <name>`. Returns the events it recorded.
pub fn hello_world<B: Backend>(wrought: &mut Wrought<B>) -> (r: Result<Vec<Event>, BackendError>)
    requires
        old(wrought).backend.valid(),
    ensures
        final(wrought).backend.valid(),
        old(wrought).backend.accepts("index.md"@) && old(wrought).backend.accepts("hello.txt"@) ==> r is Ok,
        r is Ok ==> match crate::metadata::md_lookup(old(wrought).backend.metadata(), "index.md"@, "name"@) {
            Some(name) => final(wrought).backend.metadata() == old(wrought).backend.metadata()
                && final(wrought).backend.files() == old(wrought).backend.files().insert(
                    "hello.txt"@,
                    vstd::utf8::encode_utf8(named_greeting(name)),
                )
                && r->Ok_0@.len() == 2
                && crate::bridge::records_get_metadata(r->Ok_0@[0], "index.md"@, "name"@, old(wrought).backend.metadata())
                && crate::bridge::records_write(r->Ok_0@[1], "hello.txt"@, old(wrought).backend.files(),
                    vstd::utf8::encode_utf8(named_greeting(name))),
            None => final(wrought).backend.metadata() == old(wrought).backend.metadata().insert(("index.md"@, "name"@), "Unknown"@)
                && final(wrought).backend.files() == old(wrought).backend.files().insert(
                    "hello.txt"@,
                    vstd::utf8::encode_utf8(plain_greeting()),
                )
                && r->Ok_0@.len() == 3
                && crate::bridge::records_get_metadata(r->Ok_0@[0], "index.md"@, "name"@, old(wrought).backend.metadata())
                && crate::bridge::records_set_metadata(r->Ok_0@[1], "index.md"@, "name"@, "Unknown"@, old(wrought).backend.metadata())
                && crate::bridge::records_write(r->Ok_0@[2], "hello.txt"@, old(wrought).backend.files(),
                    vstd::utf8::encode_utf8(plain_greeting())),
        },
{
    let mut m = MicroService::new();
    let found = m.get_metadata(&wrought.backend, "index.md", "name");
    match found {
        Err(e) => Err(e),
        Ok(Some(md)) => {
            let mut text = String::from_str("greetings, ");
            let name = md.as_string();
            text.append(name.as_str());
            let bytes = text.as_str().as_bytes();
            let content = crate::text::copy_bytes(bytes);
            match m.write_file(&mut wrought.backend, "hello.txt", content.as_slice()) {
                Ok(()) => Ok(m.events),
                Err(e) => Err(e),
            }
        },
        Ok(None) => {
            match m.set_metadata(&mut wrought.backend, "index.md", "name", "Unknown") {
                Err(e) => return Err(e),
                Ok(()) => {},
            }
            let content = crate::text::copy_bytes("greetings!".as_bytes());
            match m.write_file(&mut wrought.backend, "hello.txt", content.as_slice()) {
                Ok(()) => Ok(m.events),
                Err(e) => Err(e),
            }
        },
    }
}

/// A fresh, empty ledger.
pub fn create_event_log() -> (r: MemoryEventLog)
    ensures
        crate::event_log::EventLog::valid(&r),
        crate::event_log::EventLog::events(&r).len() == 0,
        crate::event_log::EventLog::groups(&r).len() == 0,
{
    MemoryEventLog::new()
}

} // verus!
