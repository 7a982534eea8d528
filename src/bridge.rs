//! The bridge: the one way scripts reach the backend. Every call it forwards is
//! recorded as an event of the current run.

use vstd::prelude::*;
use crate::backend::{Backend, BackendError};
use crate::events::{
    Event, EventGroup, EventType, GetMetadataEvent, ReadFileEvent, SetMetadataEvent,
    WriteFileEvent,
};
use crate::llm::LLM;
use crate::metadata::{MetadataEntry, MetadataKey};

verus! {

#[derive(Debug, Clone, PartialEq, Eq)]
pub enum BridgeError {
    /// The backend failed.
    Backend(BackendError),
    /// The text-completion service failed, with its message.
    Query(String),
}

/// `e` records a write of `value` to `path` over the files `files`.
pub open spec fn records_write(e: Event, path: Seq<char>, files: Map<Seq<char>, Seq<u8>>, value: Seq<u8>) -> bool {
    &&& e.id == 0 && e.group_id == 0
    &&& match e.event_type {
        EventType::WriteFile(w) => w.path@ == path && crate::backend::hash_of_file(w.before_hash, files, path)
            && w.after_hash is Some && w.after_hash->Some_0.bytes() == crate::hash::digest16(value),
        _ => false,
    }
}

/// `e` records a read of `path` over the files `files`.
pub open spec fn records_read(e: Event, path: Seq<char>, files: Map<Seq<char>, Seq<u8>>) -> bool {
    &&& e.id == 0 && e.group_id == 0
    &&& match e.event_type {
        EventType::ReadFile(r) => r.path@ == path && crate::backend::hash_of_file(r.hash, files, path),
        _ => false,
    }
}

/// `e` records a lookup of `(path, key)` over the metadata `md`.
pub open spec fn records_get_metadata(
    e: Event,
    path: Seq<char>,
    key: Seq<char>,
    md: Map<(Seq<char>, Seq<char>), Seq<char>>,
) -> bool {
    &&& e.id == 0 && e.group_id == 0
    &&& match e.event_type {
        EventType::GetMetadata(g) => g.path@ == path && g.key@ == key && crate::metadata::entry_view(g.value)
            == crate::metadata::md_lookup(md, path, key),
        _ => false,
    }
}

/// `e` records setting `(path, key)` to `value` over the metadata `md`.
pub open spec fn records_set_metadata(
    e: Event,
    path: Seq<char>,
    key: Seq<char>,
    value: Seq<char>,
    md: Map<(Seq<char>, Seq<char>), Seq<char>>,
) -> bool {
    &&& e.id == 0 && e.group_id == 0
    &&& match e.event_type {
        EventType::SetMetadata(s) => s.path@ == path && s.key@ == key && crate::metadata::entry_view(
            s.before_value,
        ) == crate::metadata::md_lookup(md, path, key) && crate::metadata::entry_view(s.after_value)
            == Some(value),
        _ => false,
    }
}

/// What scripts may do. Each call but `ai_query` adds one event to the current run.
pub trait Bridge {
    spec fn valid(&self) -> bool;

    /// The events of the current run, in call order.
    spec fn recorded(&self) -> Seq<Event>;

    /// The files behind the bridge, by path.
    spec fn files(&self) -> Map<Seq<char>, Seq<u8>>;

    /// The metadata behind the bridge, by path and key.
    spec fn metadata(&self) -> Map<(Seq<char>, Seq<char>), Seq<char>>;

    /// Whether every call about `path` succeeds.
    spec fn accepts(&self, path: Seq<char>) -> bool;

    /// Whether the text-completion service may give `answer` to `query`.
    spec fn may_answer(&self, query: Seq<char>, answer: Result<Seq<char>, Seq<char>>) -> bool;

    fn write_file(&mut self, path: &str, value: &[u8]) -> (r: Result<(), BridgeError>)
        requires
            old(self).valid(),
        ensures
            final(self).valid(),
            forall|q: Seq<char>| #[trigger] final(self).accepts(q) == old(self).accepts(q),
            old(self).accepts(path@) ==> r is Ok,
            r is Ok ==> final(self).recorded() == old(self).recorded().push(final(self).recorded().last())
                && records_write(final(self).recorded().last(), path@, old(self).files(), value@)
                && final(self).files() == old(self).files().insert(path@, value@)
                && final(self).metadata() == old(self).metadata(),
            r is Err ==> final(self).recorded() == old(self).recorded() && r->Err_0 is Backend,
    ;

    fn read_file(&mut self, path: &str) -> (r: Result<Option<Vec<u8>>, BridgeError>)
        requires
            old(self).valid(),
        ensures
            final(self).valid(),
            forall|q: Seq<char>| #[trigger] final(self).accepts(q) == old(self).accepts(q),
            final(self).files() == old(self).files(),
            final(self).metadata() == old(self).metadata(),
            old(self).accepts(path@) ==> r is Ok,
            r is Ok ==> final(self).recorded() == old(self).recorded().push(final(self).recorded().last())
                && records_read(final(self).recorded().last(), path@, old(self).files())
                && match r->Ok_0 {
                Some(c) => old(self).files().contains_key(path@) && old(self).files()[path@] == c@,
                None => !old(self).files().contains_key(path@),
            },
            r is Err ==> final(self).recorded() == old(self).recorded() && r->Err_0 is Backend,
    ;

    fn get_metadata(&mut self, path: &str, key: &str) -> (r: Result<Option<String>, BridgeError>)
        requires
            old(self).valid(),
        ensures
            final(self).valid(),
            forall|q: Seq<char>| #[trigger] final(self).accepts(q) == old(self).accepts(q),
            final(self).files() == old(self).files(),
            final(self).metadata() == old(self).metadata(),
            old(self).accepts(path@) ==> r is Ok,
            r is Ok ==> final(self).recorded() == old(self).recorded().push(final(self).recorded().last())
                && records_get_metadata(final(self).recorded().last(), path@, key@, old(self).metadata())
                && match r->Ok_0 {
                Some(v) => crate::metadata::md_lookup(old(self).metadata(), path@, key@) == Some(v@),
                None => crate::metadata::md_lookup(old(self).metadata(), path@, key@) is None,
            },
            r is Err ==> final(self).recorded() == old(self).recorded() && r->Err_0 is Backend,
    ;

    fn set_metadata(&mut self, path: &str, key: &str, value: &str) -> (r: Result<(), BridgeError>)
        requires
            old(self).valid(),
        ensures
            final(self).valid(),
            forall|q: Seq<char>| #[trigger] final(self).accepts(q) == old(self).accepts(q),
            old(self).accepts(path@) ==> r is Ok,
            r is Ok ==> final(self).recorded() == old(self).recorded().push(final(self).recorded().last())
                && records_set_metadata(final(self).recorded().last(), path@, key@, value@, old(self).metadata())
                && final(self).metadata() == old(self).metadata().insert((path@, key@), value@)
                && final(self).files() == old(self).files(),
            r is Err ==> final(self).recorded() == old(self).recorded() && r->Err_0 is Backend,
    ;

    /// Forwards a query to the text-completion service and hands back its answer,
    /// an error as `Query`; nothing is recorded.
    fn ai_query(&mut self, query: &str) -> (r: Result<String, BridgeError>)
        requires
            old(self).valid(),
        ensures
            final(self).valid(),
            forall|q: Seq<char>| #[trigger] final(self).accepts(q) == old(self).accepts(q),
            final(self).recorded() == old(self).recorded(),
            final(self).files() == old(self).files(),
            final(self).metadata() == old(self).metadata(),
            match r {
                Ok(t) => old(self).may_answer(query@, Ok(t@)),
                Err(BridgeError::Query(m)) => old(self).may_answer(query@, Err(m@)),
                Err(_) => false,
            },
    ;

    /// The current run's events, or `None` when nothing was recorded.
    fn get_event_group(&self) -> (r: Option<EventGroup>)
        ensures
            r is None <==> self.recorded().len() == 0,
            r is Some ==> r->Some_0.events@ == self.recorded(),
    ;
}

/// A bridge over a backend and a text-completion service.
pub struct SimpleBridge<B, L> {
    pub backend: B,
    pub llm: L,
    pub root: String,
    pub event_group: EventGroup,
}

/// The bridge under the name the command-line tool uses.
pub type DummyBridge<B, L> = SimpleBridge<B, L>;

impl<B: Backend, L: LLM> SimpleBridge<B, L> {
    /// A bridge whose current run has recorded nothing yet.
    pub fn new(backend: B, llm: L, root: String) -> (r: SimpleBridge<B, L>)
        ensures
            r.backend == backend,
            r.event_group.events@.len() == 0,
            r.event_group.id == 0,
    {
        SimpleBridge { backend, llm, root, event_group: EventGroup::empty() }
    }

    pub fn add_event(&mut self, event: Event)
        ensures
            final(self).event_group.events@ == old(self).event_group.events@.push(event),
            final(self).event_group.id == old(self).event_group.id,
            final(self).event_group.command == old(self).event_group.command,
            final(self).backend == old(self).backend,
            final(self).llm == old(self).llm,
    {
        self.event_group.events.push(event);
    }
}

impl<B: Backend, L: LLM> Bridge for SimpleBridge<B, L> {
    closed spec fn valid(&self) -> bool {
        self.backend.valid()
    }

    closed spec fn recorded(&self) -> Seq<Event> {
        self.event_group.events@
    }

    open spec fn files(&self) -> Map<Seq<char>, Seq<u8>> {
        self.backend.files()
    }

    open spec fn metadata(&self) -> Map<(Seq<char>, Seq<char>), Seq<char>> {
        self.backend.metadata()
    }

    open spec fn accepts(&self, path: Seq<char>) -> bool {
        self.backend.accepts(path)
    }

    open spec fn may_answer(&self, query: Seq<char>, answer: Result<Seq<char>, Seq<char>>) -> bool {
        self.llm.may_answer(query, answer)
    }

    fn write_file(&mut self, path: &str, value: &[u8]) -> (r: Result<(), BridgeError>) {
        match self.backend.write_file(path, value) {
            Ok((before_hash, hash)) => {
                let event = Event::new(
                    EventType::WriteFile(
                        WriteFileEvent { path: path.to_string(), before_hash, after_hash: Some(hash) },
                    ),
                );
                self.add_event(event);
                Ok(())
            },
            Err(e) => Err(BridgeError::Backend(e)),
        }
    }

    fn read_file(&mut self, path: &str) -> (r: Result<Option<Vec<u8>>, BridgeError>) {
        match self.backend.read_file(path) {
            Ok(found) => {
                let (hash, content) = match found {
                    Some((h, c)) => (Some(h), Some(c)),
                    None => (None, None),
                };
                let event = Event::new(EventType::ReadFile(ReadFileEvent { path: path.to_string(), hash }));
                self.add_event(event);
                Ok(content)
            },
            Err(e) => Err(BridgeError::Backend(e)),
        }
    }

    fn get_metadata(&mut self, path: &str, key: &str) -> (r: Result<Option<String>, BridgeError>) {
        let k = MetadataKey::from_text(key);
        match self.backend.get_metadata(path, &k) {
            Ok(v) => {
                let value = match &v {
                    Some(x) => Some(x.as_string()),
                    None => None,
                };
                let event = Event::new(
                    EventType::GetMetadata(GetMetadataEvent { path: path.to_string(), key: k, value: v }),
                );
                self.add_event(event);
                Ok(value)
            },
            Err(e) => Err(BridgeError::Backend(e)),
        }
    }

    fn set_metadata(&mut self, path: &str, key: &str, value: &str) -> (r: Result<(), BridgeError>) {
        let k = MetadataKey::from_text(key);
        let v = Some(MetadataEntry::from_text(value));
        match self.backend.set_metadata(path, &k, &v) {
            Ok(before_value) => {
                let event = Event::new(
                    EventType::SetMetadata(
                        SetMetadataEvent { path: path.to_string(), key: k, before_value, after_value: v },
                    ),
                );
                self.add_event(event);
                Ok(())
            },
            Err(e) => Err(BridgeError::Backend(e)),
        }
    }

    fn ai_query(&mut self, query: &str) -> (r: Result<String, BridgeError>) {
        match self.llm.query(query) {
            Ok(s) => Ok(s),
            Err(m) => Err(BridgeError::Query(m)),
        }
    }

    fn get_event_group(&self) -> (r: Option<EventGroup>) {
        if self.event_group.events.len() == 0 {
            return None;
        }
        let g = self.event_group.duplicate();
        Some(g)
    }
}

} // verus!
