//! The status of a single file: its last recorded write, the run that made it,
//! and the inputs that run read.

use vstd::prelude::*;
use crate::event_log::{EventLog, LedgerError};
use crate::events::{Event, EventType};
use crate::hash::ContentHash;
use crate::project_status::ProjectRepresentationFromFilesystem;

verus! {

/// An input of the run that last wrote a file: the address it had when read, and now.
#[derive(Debug, Clone)]
pub struct TrackedFileInput {
    pub path: String,
    pub tracked_hash: Option<ContentHash>,
    pub current_hash: Option<ContentHash>,
}

#[derive(Debug, Clone)]
pub struct TrackedFileStatus {
    pub current_hash: Option<ContentHash>,
    pub tracked_hash: Option<ContentHash>,
    pub inputs: Vec<TrackedFileInput>,
    pub command: String,
    /// Whether the run that wrote the file is the latest run of its command.
    pub is_most_recent_run: bool,
}

#[derive(Debug, Clone)]
pub enum SingleFileStatus {
    Untracked,
    TrackedFileStatus(TrackedFileStatus),
}

#[derive(Debug, Clone)]
pub struct SingleFileStatusResult {
    pub path: String,
    pub status: SingleFileStatus,
}

#[derive(Debug, Clone, Copy, PartialEq, Eq, Structural)]
pub enum StatusError {
    Ledger(LedgerError),
    /// The last write names a group that the ledger does not hold.
    MissingGroup(u64),
}


impl TrackedFileStatus {
    /// Whether the file no longer holds what was last written.
    pub fn changed(&self) -> (r: bool)
        ensures
            r == (self.current_hash != self.tracked_hash),
    {
        !crate::events::same_hash(&self.current_hash, &self.tracked_hash)
    }

    /// Whether some input no longer holds what the run read.
    pub fn stale(&self) -> (r: bool)
        ensures
            r == exists|i: int| 0 <= i < self.inputs@.len() && (#[trigger] self.inputs@[i]).current_hash
                != self.inputs@[i].tracked_hash,
    {
        let mut i: usize = 0;
        while i < self.inputs.len()
            invariant
                0 <= i <= self.inputs@.len(),
                forall|j: int| 0 <= j < i ==> (#[trigger] self.inputs@[j]).current_hash == self.inputs@[j].tracked_hash,
            decreases self.inputs@.len() - i,
        {
            if !crate::events::same_hash(&self.inputs[i].current_hash, &self.inputs[i].tracked_hash) {
                return true;
            }
            i = i + 1;
        }
        false
    }
}

/// The address that the filesystem view gives `p`, `None` when the file is absent.
pub open spec fn current_of(fs: Map<Seq<char>, ContentHash>, p: Seq<char>) -> Option<ContentHash> {
    if fs.contains_key(p) {
        Some(fs[p])
    } else {
        None
    }
}

/// The reads among `evs`, in order.
pub open spec fn reads_of(evs: Seq<Event>) -> Seq<Event>
    decreases evs.len(),
{
    if evs.len() == 0 {
        Seq::empty()
    } else if evs.last().event_type is ReadFile {
        reads_of(evs.drop_last()).push(evs.last())
    } else {
        reads_of(evs.drop_last())
    }
}

/// Whether `input` stands for the read `e`, with the address `fs` gives its path now.
pub open spec fn input_for(input: TrackedFileInput, e: Event, fs: Map<Seq<char>, ContentHash>) -> bool {
    match e.event_type {
        EventType::ReadFile(r) => input.path@ == r.path@ && input.tracked_hash == r.hash
            && input.current_hash == current_of(fs, r.path@),
        _ => false,
    }
}

/// The status of `p`: untracked when no write of it was recorded; else the
/// address written last and now, and each input of the run that wrote it.
pub fn get_single_file_status<L: EventLog>(
    log: &L,
    p: &str,
    current: &ProjectRepresentationFromFilesystem,
) -> (r: Result<SingleFileStatusResult, StatusError>)
    requires
        log.valid(),
    ensures
        r is Ok ==> r->Ok_0.path@ == p@ && match crate::event_log::last_write(log.events(), p@) {
            None => r->Ok_0.status is Untracked,
            Some(w) => match r->Ok_0.status {
                SingleFileStatus::Untracked => false,
                SingleFileStatus::TrackedFileStatus(t) => {
                    &&& w.event_type matches EventType::WriteFile(we) && t.tracked_hash == we.after_hash
                    &&& t.current_hash == current_of(current@, p@)
                    &&& crate::event_log::group_model(log.groups(), log.events(), w.group_id) matches Some(g)
                        && t.command@ == g.command && t.is_most_recent_run == g.is_most_recent_run
                        && t.inputs@.len() == reads_of(g.events).len()
                        && forall|i: int| 0 <= i < t.inputs@.len() ==> input_for(#[trigger] t.inputs@[i], reads_of(g.events)[i], current@)
                },
            },
        },
        log.infallible() ==> (r is Ok || r matches Err(StatusError::MissingGroup(_))),
        r matches Err(StatusError::MissingGroup(_)) ==> crate::event_log::last_write(log.events(), p@) matches Some(w)
            && crate::event_log::group_model(log.groups(), log.events(), w.group_id) is None,
{
    let event = match log.get_last_write_event(p) {
        Ok(Some(e)) => e,
        Ok(None) => {
            return Ok(SingleFileStatusResult { path: p.to_string(), status: SingleFileStatus::Untracked });
        },
        Err(e) => return Err(StatusError::Ledger(e)),
    };
    proof {
        crate::event_log::lemma_last_write_is_write(log.events(), p@);
    }
    let tracked_hash = match &event.event_type {
        EventType::WriteFile(w) => crate::events::copy_hash(&w.after_hash),
        _ => None,
    };
    let current_hash = current.get(p);
    let group = match log.get_event_group(event.group_id) {
        Ok(Some(g)) => g,
        Ok(None) => return Err(StatusError::MissingGroup(event.group_id)),
        Err(e) => return Err(StatusError::Ledger(e)),
    };
    let mut inputs: Vec<TrackedFileInput> = Vec::new();
    let mut i: usize = 0;
    while i < group.events.len()
        invariant
            0 <= i <= group.events@.len(),
            inputs@.len() == reads_of(group.events@.subrange(0, i as int)).len(),
            forall|j: int| 0 <= j < inputs@.len() ==> input_for(#[trigger] inputs@[j], reads_of(group.events@.subrange(0, i as int))[j], current@),
        decreases group.events@.len() - i,
    {
        proof {
            assert(group.events@.subrange(0, i + 1).drop_last() =~= group.events@.subrange(0, i as int));
        }
        match &group.events[i].event_type {
            EventType::ReadFile(rd) => {
                let input = TrackedFileInput {
                    path: rd.path.clone(),
                    tracked_hash: crate::events::copy_hash(&rd.hash),
                    current_hash: current.get(rd.path.as_str()),
                };
                inputs.push(input);
            },
            _ => {},
        }
        i = i + 1;
    }
    proof {
        assert(group.events@.subrange(0, group.events@.len() as int) =~= group.events@);
    }
    let t = TrackedFileStatus {
        current_hash,
        tracked_hash,
        inputs,
        command: group.command.clone(),
        is_most_recent_run: group.is_most_recent_run,
    };
    Ok(SingleFileStatusResult { path: p.to_string(), status: SingleFileStatus::TrackedFileStatus(t) })
}

} // verus!
