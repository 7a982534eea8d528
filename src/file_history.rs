//! The history of one file, told oldest first.

use vstd::prelude::*;
use crate::event_log::{EventLog, LedgerError};
use crate::events::{Event, EventGroup, EventType};
use crate::hash::ContentHash;

verus! {

/// The command label of the run that made a change.
#[derive(Debug, Clone, PartialEq, Eq)]
pub struct EventLogCommand(pub String);

/// One step of a file's history.
#[derive(Debug, Clone, PartialEq, Eq)]
pub enum FileHistoryEntry {
    /// The file did not exist.
    Deleted,
    /// A run removed the file.
    DeletedBy(EventLogCommand),
    /// The file held content that no recorded run wrote.
    UnknownHash(ContentHash),
    /// A run wrote this content.
    StoredHash(ContentHash, EventLogCommand),
    /// The file as it is now holds content that no recorded run wrote.
    LocalChanges(ContentHash),
}

#[derive(Debug, Clone, PartialEq, Eq)]
pub enum HistoryError {
    /// The ledger failed.
    Ledger(LedgerError),
    /// A recorded write names a group that the ledger does not hold.
    MissingGroup(u64),
    /// Reading the file as it is now failed, with the message.
    Filesystem(String),
}

/// The command of group `id` in a list of `(group id, command)` pairs; the first pair wins.
pub open spec fn command_of(cmds: Seq<(u64, String)>, id: u64) -> Option<String>
    decreases cmds.len(),
{
    if cmds.len() == 0 {
        None
    } else if cmds[0].0 == id {
        Some(cmds[0].1)
    } else {
        command_of(cmds.drop_first(), id)
    }
}

/// The entry that stands for what the file held before a write, when that differs
/// from what the last recorded write left.
pub open spec fn before_entry(h: Option<ContentHash>) -> FileHistoryEntry {
    match h {
        Some(x) => FileHistoryEntry::UnknownHash(x),
        None => FileHistoryEntry::Deleted,
    }
}

/// The entry for what a write by command `c` left.
pub open spec fn after_entry(h: Option<ContentHash>, c: String) -> FileHistoryEntry {
    match h {
        Some(x) => FileHistoryEntry::StoredHash(x, EventLogCommand(c)),
        None => FileHistoryEntry::DeletedBy(EventLogCommand(c)),
    }
}

/// The story told by the events of `hist` (newest first), with what the last write
/// left; `None` when a write's group has no command.
pub open spec fn narrate(hist: Seq<Event>, cmds: Seq<(u64, String)>) -> Option<(Seq<FileHistoryEntry>, Option<ContentHash>)>
    decreases hist.len(),
{
    if hist.len() == 0 {
        Some((Seq::empty(), None))
    } else {
        match narrate(hist.drop_first(), cmds) {
            None => None,
            Some(state) => {
                let e = hist[0];
                match e.event_type {
                    EventType::WriteFile(w) => match command_of(cmds, e.group_id) {
                        None => None,
                        Some(c) => {
                            let ents = if w.before_hash != state.1 {
                                state.0.push(before_entry(w.before_hash))
                            } else {
                                state.0
                            };
                            Some((ents.push(after_entry(w.after_hash, c)), w.after_hash))
                        },
                    },
                    _ => Some(state),
                }
            },
        }
    }
}

/// The whole story, ending with the file as it is now when that differs from what
/// the last recorded write left.
pub open spec fn history_of(
    hist: Seq<Event>,
    cmds: Seq<(u64, String)>,
    current: Option<ContentHash>,
) -> Option<Seq<FileHistoryEntry>> {
    match narrate(hist, cmds) {
        None => None,
        Some(state) => Some(
            if current != state.1 {
                state.0.push(
                    match current {
                        Some(h) => FileHistoryEntry::LocalChanges(h),
                        None => FileHistoryEntry::Deleted,
                    },
                )
            } else {
                state.0
            },
        ),
    }
}


fn find_command(cmds: &Vec<(u64, String)>, id: u64) -> (r: Option<String>)
    ensures
        r == command_of(cmds@, id),
{
    let mut i: usize = 0;
    assert(cmds@.subrange(0, cmds@.len() as int) =~= cmds@);
    while i < cmds.len()
        invariant
            0 <= i <= cmds@.len(),
            command_of(cmds@, id) == command_of(cmds@.subrange(i as int, cmds@.len() as int), id),
        decreases cmds@.len() - i,
    {
        proof {
            assert(cmds@.subrange(i as int, cmds@.len() as int).drop_first() =~= cmds@.subrange(i + 1, cmds@.len() as int));
        }
        if cmds[i].0 == id {
            return Some(cmds[i].1.clone());
        }
        i = i + 1;
    }
    None
}

/// Tells the history of a file from its events (newest first, as the ledger gives
/// them), the command of each group, and the address of the file as it is now.
pub fn file_history(
    history: &Vec<Event>,
    commands: &Vec<(u64, String)>,
    current_hash: Option<ContentHash>,
) -> (r: Result<Vec<FileHistoryEntry>, HistoryError>)
    ensures
        match r {
            Ok(v) => history_of(history@, commands@, current_hash) == Some(v@),
            Err(e) => history_of(history@, commands@, current_hash) is None && e matches HistoryError::MissingGroup(_),
        },
{
    let mut entries: Vec<FileHistoryEntry> = Vec::new();
    let mut last_write_hash: Option<ContentHash> = None;
    let mut i: usize = history.len();
    proof {
        assert(history@.subrange(history@.len() as int, history@.len() as int) =~= Seq::<Event>::empty());
    }
    while i > 0
        invariant
            0 <= i <= history@.len(),
            narrate(history@.subrange(i as int, history@.len() as int), commands@) == Some((entries@, last_write_hash)),
        decreases i,
    {
        let e = &history[i - 1];
        proof {
            let s = history@.subrange(i - 1, history@.len() as int);
            assert(s.drop_first() =~= history@.subrange(i as int, history@.len() as int));
            assert(s[0] == history@[i - 1]);
        }
        match &e.event_type {
            EventType::WriteFile(w) => {
                match find_command(commands, e.group_id) {
                    None => {
                        proof {
                            lemma_narrate_fails_from(history@, commands@, i - 1);
                        }
                        return Err(HistoryError::MissingGroup(e.group_id));
                    },
                    Some(c) => {
                        if !crate::events::same_hash(&w.before_hash, &last_write_hash) {
                            let b = match &w.before_hash {
                                Some(h) => FileHistoryEntry::UnknownHash(*h),
                                None => FileHistoryEntry::Deleted,
                            };
                            entries.push(b);
                        }
                        let a = match &w.after_hash {
                            Some(h) => FileHistoryEntry::StoredHash(*h, EventLogCommand(c)),
                            None => FileHistoryEntry::DeletedBy(EventLogCommand(c)),
                        };
                        entries.push(a);
                        last_write_hash = crate::events::copy_hash(&w.after_hash);
                    },
                }
            },
            _ => {},
        }
        i = i - 1;
    }
    proof {
        assert(history@.subrange(0, history@.len() as int) =~= history@);
    }
    if !crate::events::same_hash(&current_hash, &last_write_hash) {
        match current_hash {
            Some(h) => entries.push(FileHistoryEntry::LocalChanges(h)),
            None => entries.push(FileHistoryEntry::Deleted),
        }
    }
    Ok(entries)
}

/// Once the story fails at some event, it fails for every longer list of newer events.
proof fn lemma_narrate_fails_from(hist: Seq<Event>, cmds: Seq<(u64, String)>, k: int)
    requires
        0 <= k < hist.len(),
        narrate(hist.subrange(k, hist.len() as int), cmds) is None,
    ensures
        narrate(hist, cmds) is None,
    decreases k,
{
    if k > 0 {
        let s = hist.subrange(k - 1, hist.len() as int);
        assert(s.drop_first() =~= hist.subrange(k, hist.len() as int));
        lemma_narrate_fails_from(hist, cmds, k - 1);
    } else {
        assert(hist.subrange(0, hist.len() as int) =~= hist);
    }
}

/// Whether every `(id, command)` pair agrees with the group that the ledger holds under `id`.
pub open spec fn commands_agree<L: EventLog>(log: L, cmds: Seq<(u64, String)>) -> bool {
    forall|j: int| 0 <= j < cmds.len() ==> match crate::event_log::group_model(log.groups(), log.events(), (#[trigger] cmds[j]).0) {
        Some(m) => m.command == cmds[j].1@,
        None => false,
    }
}

/// Tells a history from what the ledger and the filesystem returned: the
/// file's events (newest first), every group, and the file's address now. A
/// failure of either is passed on.
pub fn file_history_from_results(
    history: Result<Vec<Event>, LedgerError>,
    groups: Result<Vec<EventGroup>, LedgerError>,
    current: Result<Option<ContentHash>, String>,
) -> (r: Result<Vec<FileHistoryEntry>, HistoryError>)
    ensures
        history matches Err(e) ==> r == Err::<Vec<FileHistoryEntry>, HistoryError>(HistoryError::Ledger(e)),
        history is Ok ==> (current matches Err(m) ==> r == Err::<Vec<FileHistoryEntry>, HistoryError>(HistoryError::Filesystem(m))),
        history is Ok && current is Ok ==> (groups matches Err(e) ==> r == Err::<Vec<FileHistoryEntry>, HistoryError>(HistoryError::Ledger(e))),
        history is Ok && current is Ok && groups is Ok ==> match r {
            Ok(v) => history_of(history->Ok_0@, group_commands(groups->Ok_0@), current->Ok_0) == Some(v@),
            Err(e) => history_of(history->Ok_0@, group_commands(groups->Ok_0@), current->Ok_0) is None
                && e matches HistoryError::MissingGroup(_),
        },
{
    let events = match history {
        Ok(v) => v,
        Err(e) => return Err(HistoryError::Ledger(e)),
    };
    let current_hash = match current {
        Ok(h) => h,
        Err(m) => return Err(HistoryError::Filesystem(m)),
    };
    let all = match groups {
        Ok(v) => v,
        Err(e) => return Err(HistoryError::Ledger(e)),
    };
    let mut commands: Vec<(u64, String)> = Vec::new();
    let mut i: usize = 0;
    while i < all.len()
        invariant
            0 <= i <= all@.len(),
            commands@ == group_commands(all@.subrange(0, i as int)),
        decreases all@.len() - i,
    {
        commands.push((all[i].id, all[i].command.clone()));
        proof {
            assert(all@.subrange(0, i + 1).drop_last() =~= all@.subrange(0, i as int));
        }
        i = i + 1;
    }
    proof {
        assert(all@.subrange(0, all@.len() as int) =~= all@);
    }
    file_history(&events, &commands, current_hash)
}

/// The `(id, command)` pair of each group, in order.
pub open spec fn group_commands(groups: Seq<EventGroup>) -> Seq<(u64, String)>
    decreases groups.len(),
{
    if groups.len() == 0 {
        Seq::empty()
    } else {
        group_commands(groups.drop_last()).push((groups.last().id, groups.last().command))
    }
}

/// Tells the history of `file_path` from a ledger, given the result of reading
/// the file as it is now (its address, or `None` when it does not exist).
pub fn file_history_from_log<L: EventLog>(
    log: &L,
    file_path: &str,
    current: Result<Option<ContentHash>, String>,
) -> (r: Result<Vec<FileHistoryEntry>, HistoryError>)
    requires
        log.valid(),
    ensures
        current is Err ==> r is Err,
        log.infallible() && current is Ok ==> (r is Ok || r matches Err(HistoryError::MissingGroup(_))),
        r is Ok ==> current is Ok && exists|gs: Seq<EventGroup>| {
            &&& gs.len() == log.groups().len()
            &&& forall|i: int| 0 <= i < gs.len() ==> Some((#[trigger] gs[i])@) == crate::event_log::group_model(
                log.groups(),
                log.events(),
                log.groups()[i].id,
            )
            &&& history_of(crate::event_log::history(log.events(), file_path@), group_commands(gs), current->Ok_0)
                == Some(r->Ok_0@)
        },
{
    let history = log.get_file_history(file_path);
    let groups = log.all_event_groups();
    file_history_from_results(history, groups, current)
}

} // verus!
