//! The events that the ledger records, and the groups that one run produces.

use vstd::prelude::*;
use crate::hash::ContentHash;
use crate::metadata::{MetadataEntry, MetadataKey};

verus! {

/// One recorded operation. `id` and `group_id` are zero until the event is committed.
#[derive(Debug, Clone, PartialEq)]
pub struct Event {
    pub id: u64,
    pub group_id: u64,
    pub event_type: EventType,
}

#[derive(Debug, Clone, PartialEq)]
pub enum EventType {
    WriteFile(WriteFileEvent),
    ReadFile(ReadFileEvent),
    GetMetadata(GetMetadataEvent),
    SetMetadata(SetMetadataEvent),
}

/// A write of a file: the address of what was there before (if anything) and after.
#[derive(Debug, Clone, PartialEq)]
pub struct WriteFileEvent {
    pub path: String,
    pub before_hash: Option<ContentHash>,
    pub after_hash: Option<ContentHash>,
}

/// A read of a file: the address of what was read, `None` when there was no file.
#[derive(Debug, Clone, PartialEq)]
pub struct ReadFileEvent {
    pub path: String,
    pub hash: Option<ContentHash>,
}

#[derive(Debug, Clone, PartialEq)]
pub struct GetMetadataEvent {
    pub path: String,
    pub key: MetadataKey,
    pub value: Option<MetadataEntry>,
}

#[derive(Debug, Clone, PartialEq)]
pub struct SetMetadataEvent {
    pub path: String,
    pub key: MetadataKey,
    pub before_value: Option<MetadataEntry>,
    pub after_value: Option<MetadataEntry>,
}

/// The path that an event is about.
pub open spec fn event_path(e: Event) -> Seq<char> {
    match e.event_type {
        EventType::WriteFile(w) => w.path@,
        EventType::ReadFile(r) => r.path@,
        EventType::GetMetadata(g) => g.path@,
        EventType::SetMetadata(s) => s.path@,
    }
}

/// Whether `e` writes the file at `p`.
pub open spec fn is_write_to(e: Event, p: Seq<char>) -> bool {
    e.event_type is WriteFile && event_path(e) == p
}

pub fn copy_hash(h: &Option<ContentHash>) -> (r: Option<ContentHash>)
    ensures
        r == *h,
{
    match h {
        Some(x) => Some(*x),
        None => None,
    }
}

/// Whether two optional addresses are the same.
pub fn same_hash(a: &Option<ContentHash>, b: &Option<ContentHash>) -> (r: bool)
    ensures
        r == (*a == *b),
{
    match (a, b) {
        (Some(x), Some(y)) => x.equals(y),
        (None, None) => true,
        _ => false,
    }
}

fn copy_entry(e: &Option<MetadataEntry>) -> (r: Option<MetadataEntry>)
    ensures
        r == *e,
{
    match e {
        Some(x) => Some(x.duplicate()),
        None => None,
    }
}

impl EventType {
    /// The path that the event is about.
    pub fn path(&self) -> (r: &String)
        ensures
            r@ == event_path(Event { id: 0, group_id: 0, event_type: *self }),
    {
        match self {
            EventType::WriteFile(w) => &w.path,
            EventType::ReadFile(r) => &r.path,
            EventType::GetMetadata(g) => &g.path,
            EventType::SetMetadata(s) => &s.path,
        }
    }

    /// A copy that agrees with this one in every field that the ledger reads.
    pub fn duplicate(&self) -> (r: EventType)
        ensures
            r == *self,
    {
        match self {
            EventType::WriteFile(w) => EventType::WriteFile(
                WriteFileEvent {
                    path: w.path.clone(),
                    before_hash: copy_hash(&w.before_hash),
                    after_hash: copy_hash(&w.after_hash),
                },
            ),
            EventType::ReadFile(r) => EventType::ReadFile(
                ReadFileEvent { path: r.path.clone(), hash: copy_hash(&r.hash) },
            ),
            EventType::GetMetadata(g) => EventType::GetMetadata(
                GetMetadataEvent {
                    path: g.path.clone(),
                    key: g.key.duplicate(),
                    value: copy_entry(&g.value),
                },
            ),
            EventType::SetMetadata(s) => EventType::SetMetadata(
                SetMetadataEvent {
                    path: s.path.clone(),
                    key: s.key.duplicate(),
                    before_value: copy_entry(&s.before_value),
                    after_value: copy_entry(&s.after_value),
                },
            ),
        }
    }
}

impl Event {
    /// An uncommitted event: both ids are the zero sentinel.
    pub fn new(event_type: EventType) -> (r: Event)
        ensures
            r.id == 0,
            r.group_id == 0,
            r.event_type == event_type,
    {
        Event { id: 0, group_id: 0, event_type }
    }

    pub fn with_group_id(&self, group_id: u64) -> (r: Event)
        ensures
            r.id == self.id,
            r.group_id == group_id,
            r.event_type == self.event_type,
    {
        Event { id: self.id, group_id, event_type: self.event_type.duplicate() }
    }

    pub fn duplicate(&self) -> (r: Event)
        ensures
            r == *self,
    {
        Event { id: self.id, group_id: self.group_id, event_type: self.event_type.duplicate() }
    }
}

impl From<WriteFileEvent> for Event {
    fn from(value: WriteFileEvent) -> (r: Event) {
        Event { id: 0, group_id: 0, event_type: EventType::WriteFile(value) }
    }
}

impl vstd::std_specs::convert::FromSpecImpl<WriteFileEvent> for Event {
    open spec fn obeys_from_spec() -> bool {
        true
    }

    open spec fn from_spec(v: WriteFileEvent) -> Event {
        Event { id: 0, group_id: 0, event_type: EventType::WriteFile(v) }
    }
}

impl From<ReadFileEvent> for Event {
    fn from(value: ReadFileEvent) -> (r: Event) {
        Event { id: 0, group_id: 0, event_type: EventType::ReadFile(value) }
    }
}

impl vstd::std_specs::convert::FromSpecImpl<ReadFileEvent> for Event {
    open spec fn obeys_from_spec() -> bool {
        true
    }

    open spec fn from_spec(v: ReadFileEvent) -> Event {
        Event { id: 0, group_id: 0, event_type: EventType::ReadFile(v) }
    }
}

/// What a group holds, as values.
pub struct EventGroupModel {
    pub id: u64,
    pub command: Seq<char>,
    pub events: Seq<Event>,
    pub is_most_recent_run: bool,
}

/// The events of one run, in the order in which they happened.
#[derive(Debug, Clone)]
pub struct EventGroup {
    pub id: u64,
    pub command: String,
    pub events: Vec<Event>,
    pub is_most_recent_run: bool,
}

impl View for EventGroup {
    type V = EventGroupModel;

    open spec fn view(&self) -> EventGroupModel {
        EventGroupModel {
            id: self.id,
            command: self.command@,
            events: self.events@,
            is_most_recent_run: self.is_most_recent_run,
        }
    }
}

/// Copies of a list of events, in order.
pub fn copy_events(events: &Vec<Event>) -> (r: Vec<Event>)
    ensures
        r@ == events@,
{
    let mut r: Vec<Event> = Vec::new();
    let mut i: usize = 0;
    while i < events.len()
        invariant
            0 <= i <= events@.len(),
            r@.len() == i,
            r@ == events@.subrange(0, i as int),
        decreases events@.len() - i,
    {
        r.push(events[i].duplicate());
        i = i + 1;
        assert(r@ =~= events@.subrange(0, i as int));
    }
    assert(events@.subrange(0, events@.len() as int) =~= events@);
    r
}

impl EventGroup {
    /// An uncommitted group with no events and the label "unknown".
    pub fn empty() -> (r: EventGroup)
        ensures
            r.id == 0,
            r.events@.len() == 0,
            r.is_most_recent_run,
    {
        EventGroup { id: 0, command: "unknown".to_string(), events: Vec::new(), is_most_recent_run: true }
    }

    pub fn duplicate(&self) -> (r: EventGroup)
        ensures
            r.id == self.id,
            r.command@ == self.command@,
            r.is_most_recent_run == self.is_most_recent_run,
            r@ == self@,
    {
        EventGroup {
            id: self.id,
            command: self.command.clone(),
            events: copy_events(&self.events),
            is_most_recent_run: self.is_most_recent_run,
        }
    }
}

} // verus!
