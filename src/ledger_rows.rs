//! The ledger's persisted row form: `Events(id, group_id, action_type, file_path,
//! before_hash, after_hash)`, with addresses as their text form.

use vstd::prelude::*;
use crate::events::{Event, EventType, ReadFileEvent, WriteFileEvent};
use crate::hash::{ContentHash, HashTextError};

verus! {

/// An event as a row, without its id.
#[derive(Debug, Clone)]
pub struct EventRow {
    pub group_id: u64,
    pub action_type: String,
    pub file_path: String,
    pub before_hash: Option<String>,
    pub after_hash: Option<String>,
}

#[derive(Debug, Clone, PartialEq, Eq)]
pub enum RowError {
    /// A hash column does not hold a hash text.
    BadHash(HashTextError),
    /// The action type names no event that rows can restore.
    UnsupportedAction(String),
}

/// The action type that rows store for an event.
pub open spec fn action_name(e: Event) -> Seq<char> {
    match e.event_type {
        EventType::WriteFile(_) => "write"@,
        EventType::ReadFile(_) => "read"@,
        EventType::GetMetadata(_) => "get_md"@,
        EventType::SetMetadata(_) => "set_md"@,
    }
}

pub open spec fn hash_column(h: Option<ContentHash>) -> Option<Seq<char>> {
    match h {
        Some(x) => Some(crate::hash::base64url_text(x.bytes())),
        None => None,
    }
}

pub open spec fn column_view(c: Option<String>) -> Option<Seq<char>> {
    match c {
        Some(s) => Some(s@),
        None => None,
    }
}

fn hash_text(h: &Option<ContentHash>) -> (r: Option<String>)
    ensures
        column_view(r) == hash_column(*h),
        r matches Some(t) ==> h is Some && crate::hash::hash_text_bytes(t@) == Some(h->Some_0.bytes()),
{
    match h {
        Some(x) => Some(x.to_string()),
        None => None,
    }
}

/// The row of an event, in the column order group_id, action_type, file_path,
/// before_hash, after_hash. Metadata events keep only their path.
pub fn row_from_event_no_id(event: &Event) -> (r: EventRow)
    ensures
        r.group_id == event.group_id,
        r.action_type@ == action_name(*event),
        r.file_path@ == crate::events::event_path(*event),
        match event.event_type {
            EventType::WriteFile(w) => column_view(r.before_hash) == hash_column(w.before_hash)
                && column_view(r.after_hash) == hash_column(w.after_hash),
            EventType::ReadFile(rd) => column_view(r.before_hash) == hash_column(rd.hash) && r.after_hash is None,
            _ => r.before_hash is None && r.after_hash is None,
        },
{
    match &event.event_type {
        EventType::WriteFile(e) => EventRow {
            group_id: event.group_id,
            action_type: "write".to_string(),
            file_path: e.path.clone(),
            before_hash: hash_text(&e.before_hash),
            after_hash: hash_text(&e.after_hash),
        },
        EventType::ReadFile(e) => EventRow {
            group_id: event.group_id,
            action_type: "read".to_string(),
            file_path: e.path.clone(),
            before_hash: hash_text(&e.hash),
            after_hash: None,
        },
        EventType::GetMetadata(e) => EventRow {
            group_id: event.group_id,
            action_type: "get_md".to_string(),
            file_path: e.path.clone(),
            before_hash: None,
            after_hash: None,
        },
        EventType::SetMetadata(e) => EventRow {
            group_id: event.group_id,
            action_type: "set_md".to_string(),
            file_path: e.path.clone(),
            before_hash: None,
            after_hash: None,
        },
    }
}

/// What a hash column parses to: `None` for an empty column, an error for text
/// that is not a hash.
pub open spec fn parse_column(c: Option<Seq<char>>) -> Option<Option<Seq<u8>>> {
    match c {
        None => Some(None),
        Some(t) => match crate::hash::hash_text_bytes(t) {
            Some(b) => Some(Some(b)),
            None => None,
        },
    }
}

pub open spec fn parsed_hash(h: Option<ContentHash>) -> Option<Seq<u8>> {
    match h {
        Some(x) => Some(x.bytes()),
        None => None,
    }
}

fn parse_hash(c: Option<&str>) -> (r: Result<Option<ContentHash>, RowError>)
    ensures
        match c {
            None => r == Ok::<Option<ContentHash>, RowError>(None),
            Some(t) => match r {
                Ok(h) => h is Some && parse_column(Some(t@)) == Some(parsed_hash(h)),
                Err(_) => parse_column(Some(t@)) is None,
            },
        },
{
    match c {
        None => Ok(None),
        Some(t) => match ContentHash::from_string(t) {
            Ok(h) => Ok(Some(h)),
            Err(e) => Err(RowError::BadHash(e)),
        },
    }
}

pub open spec fn opt_str_view(c: Option<&str>) -> Option<Seq<char>> {
    match c {
        Some(s) => Some(s@),
        None => None,
    }
}

/// The event that a row stores. Write and read rows restore their event; a
/// metadata row or an unknown action type cannot be restored.
pub fn event_from_event_row(
    id: u64,
    group_id: u64,
    action_type: &str,
    file_path: &str,
    before_hash: Option<&str>,
    after_hash: Option<&str>,
) -> (r: Result<Event, RowError>)
    ensures
        r is Ok ==> r->Ok_0.id == id && r->Ok_0.group_id == group_id,
        action_type@ == "write"@ ==> match r {
            Ok(e) => (e.event_type matches EventType::WriteFile(w) && w.path@ == file_path@
                && parse_column(opt_str_view(before_hash)) == Some(parsed_hash(w.before_hash))
                && parse_column(opt_str_view(after_hash)) == Some(parsed_hash(w.after_hash))),
            Err(_) => parse_column(opt_str_view(before_hash)) is None || parse_column(opt_str_view(after_hash)) is None,
        },
        action_type@ == "read"@ ==> match r {
            Ok(e) => (e.event_type matches EventType::ReadFile(rd) && rd.path@ == file_path@
                && parse_column(opt_str_view(before_hash)) == Some(parsed_hash(rd.hash))),
            Err(_) => parse_column(opt_str_view(before_hash)) is None,
        },
        action_type@ != "write"@ && action_type@ != "read"@ ==> (r matches Err(RowError::UnsupportedAction(a)) && a@ == action_type@),
{
    proof {
        reveal_strlit("write");
        reveal_strlit("read");
        assert("write"@[0] != "read"@[0]);
    }
    if crate::text::same_text(action_type, "write") {
        let before = match parse_hash(before_hash) {
            Ok(h) => h,
            Err(e) => return Err(e),
        };
        let after = match parse_hash(after_hash) {
            Ok(h) => h,
            Err(e) => return Err(e),
        };
        let w = WriteFileEvent { path: file_path.to_string(), before_hash: before, after_hash: after };
        Ok(Event { id, group_id, event_type: EventType::WriteFile(w) })
    } else if crate::text::same_text(action_type, "read") {
        let hash = match parse_hash(before_hash) {
            Ok(h) => h,
            Err(e) => return Err(e),
        };
        let rd = ReadFileEvent { path: file_path.to_string(), hash };
        Ok(Event { id, group_id, event_type: EventType::ReadFile(rd) })
    } else {
        Err(RowError::UnsupportedAction(action_type.to_string()))
    }
}

} // verus!
