//! The append-only ledger of committed event groups.

use vstd::prelude::*;
use crate::events::{Event, EventGroup, EventGroupModel, EventType};

verus! {

/// A committed group as the ledger stores it: its id and command label.
#[derive(Debug, Clone)]
pub struct GroupRow {
    pub id: u64,
    pub command: String,
}

#[derive(Debug, Clone, Copy, PartialEq, Eq, Structural)]
pub enum LedgerError {
    /// A group handed in for commit already carries ids.
    IdsAlreadyAssigned,
    /// No fresh ids are left.
    IdsExhausted,
    /// The store behind the ledger failed.
    Storage,
}

/// The most recent write to `p` among `evs`.
pub open spec fn last_write(evs: Seq<Event>, p: Seq<char>) -> Option<Event>
    decreases evs.len(),
{
    if evs.len() == 0 {
        None
    } else if crate::events::is_write_to(evs.last(), p) {
        Some(evs.last())
    } else {
        last_write(evs.drop_last(), p)
    }
}

/// The most recent write to `p` is a write to `p`.
pub proof fn lemma_last_write_is_write(evs: Seq<Event>, p: Seq<char>)
    ensures
        last_write(evs, p) matches Some(e) ==> crate::events::is_write_to(e, p),
    decreases evs.len(),
{
    if evs.len() > 0 {
        lemma_last_write_is_write(evs.drop_last(), p);
    }
}

/// The events of `evs` about `p`, newest first.
pub open spec fn history(evs: Seq<Event>, p: Seq<char>) -> Seq<Event>
    decreases evs.len(),
{
    if evs.len() == 0 {
        Seq::empty()
    } else if crate::events::event_path(evs.last()) == p {
        seq![evs.last()] + history(evs.drop_last(), p)
    } else {
        history(evs.drop_last(), p)
    }
}

/// The events of `evs` that belong to group `gid`, in order.
pub open spec fn events_of_group(evs: Seq<Event>, gid: u64) -> Seq<Event>
    decreases evs.len(),
{
    if evs.len() == 0 {
        Seq::empty()
    } else if evs.last().group_id == gid {
        events_of_group(evs.drop_last(), gid).push(evs.last())
    } else {
        events_of_group(evs.drop_last(), gid)
    }
}

/// Whether no group after position `i` ran the same command.
pub open spec fn is_latest_run(rows: Seq<GroupRow>, i: int) -> bool {
    forall|j: int| i < j < rows.len() ==> #[trigger] rows[j].command@ != rows[i].command@
}

/// The group with id `gid`, with its events, as the ledger holds it.
pub open spec fn group_model(rows: Seq<GroupRow>, evs: Seq<Event>, gid: u64) -> Option<EventGroupModel> {
    if exists|i: int| 0 <= i < rows.len() && rows[i].id == gid {
        let i = choose|i: int| 0 <= i < rows.len() && rows[i].id == gid;
        Some(
            EventGroupModel {
                id: gid,
                command: rows[i].command@,
                events: events_of_group(evs, gid),
                is_most_recent_run: is_latest_run(rows, i),
            },
        )
    } else {
        None
    }
}

pub open spec fn group_view(g: Option<EventGroup>) -> Option<EventGroupModel> {
    match g {
        Some(x) => Some(x@),
        None => None,
    }
}

/// Whether a group and all its events still carry the zero sentinel ids.
pub open spec fn uncommitted(g: EventGroupModel) -> bool {
    g.id == 0 && forall|i: int| 0 <= i < g.events.len() ==> (#[trigger] g.events[i]).id == 0
        && g.events[i].group_id == 0
}

/// Whether `r` is `g` with fresh ids: group id `gid`, event ids counting up from `first`.
pub open spec fn committed_as(r: EventGroupModel, g: EventGroupModel, gid: u64, first: u64) -> bool {
    &&& r.id == gid
    &&& r.command == g.command
    &&& r.events.len() == g.events.len()
    &&& forall|i: int|
        0 <= i < r.events.len() ==> (#[trigger] r.events[i]).event_type == g.events[i].event_type
            && r.events[i].group_id == gid && r.events[i].id == first + i
}

/// A durable, append-only store of event groups.
pub trait EventLog {
    /// Whether the store's own bookkeeping holds.
    spec fn valid(&self) -> bool;

    /// The committed events, oldest first.
    spec fn events(&self) -> Seq<Event>;

    /// Whether the store's queries cannot fail.
    spec fn infallible(&self) -> bool;

    /// The committed groups, oldest first.
    spec fn groups(&self) -> Seq<GroupRow>;

    fn get_last_write_event(&self, p: &str) -> (r: Result<Option<Event>, LedgerError>)
        requires
            self.valid(),
        ensures
            self.infallible() ==> r is Ok,
            r is Ok ==> r->Ok_0 == last_write(self.events(), p@),
    ;

    /// Every event about `p`, newest first.
    fn get_file_history(&self, p: &str) -> (r: Result<Vec<Event>, LedgerError>)
        requires
            self.valid(),
        ensures
            self.infallible() ==> r is Ok,
            r is Ok ==> r->Ok_0@ == history(self.events(), p@),
    ;

    fn get_event_group(&self, group_id: u64) -> (r: Result<Option<EventGroup>, LedgerError>)
        requires
            self.valid(),
        ensures
            self.infallible() ==> r is Ok,
            r is Ok ==> group_view(r->Ok_0) == group_model(self.groups(), self.events(), group_id),
    ;

    /// Every committed group with its events, oldest first.
    fn all_event_groups(&self) -> (r: Result<Vec<EventGroup>, LedgerError>)
        requires
            self.valid(),
        ensures
            self.infallible() ==> r is Ok,
            r is Ok ==> r->Ok_0@.len() == self.groups().len() && forall|i: int|
                0 <= i < r->Ok_0@.len() ==> Some((#[trigger] r->Ok_0@[i])@) == group_model(
                    self.groups(),
                    self.events(),
                    self.groups()[i].id,
                ),
    ;

    /// Commits a group whose ids are all zero; returns it with its ids assigned.
    fn add_event_group(&mut self, group: &EventGroup) -> (r: Result<EventGroup, LedgerError>)
        requires
            old(self).valid(),
        ensures
            final(self).valid(),
            final(self).infallible() == old(self).infallible(),
            r is Ok ==> {
                let c = r->Ok_0@;
                &&& uncommitted(group@)
                &&& committed_as(c, group@, c.id, if c.events.len() > 0 { c.events[0].id } else { 0 })
                &&& forall|i: int| 0 <= i < old(self).groups().len() ==> (#[trigger] old(self).groups()[i]).id < c.id
                &&& forall|i: int, j: int| 0 <= i < old(self).events().len() && 0 <= j < c.events.len()
                    ==> (#[trigger] old(self).events()[i]).id < (#[trigger] c.events[j]).id
                &&& final(self).events() == old(self).events() + c.events
                &&& final(self).groups().len() == old(self).groups().len() + 1
                &&& final(self).groups().last().id == c.id
                &&& final(self).groups().last().command@ == c.command
                &&& final(self).groups().drop_last() == old(self).groups()
                &&& group_model(final(self).groups(), final(self).events(), c.id) == Some(c)
            },
    ;
}

/// The ledger held in memory.
pub struct MemoryEventLog {
    events: Vec<Event>,
    groups: Vec<GroupRow>,
    next_group_id: u64,
    next_event_id: u64,
}

proof fn lemma_events_of_new_group(old_evs: Seq<Event>, new_evs: Seq<Event>, gid: u64)
    requires
        forall|i: int| 0 <= i < old_evs.len() ==> (#[trigger] old_evs[i]).group_id < gid,
        forall|i: int| 0 <= i < new_evs.len() ==> (#[trigger] new_evs[i]).group_id == gid,
    ensures
        events_of_group(old_evs + new_evs, gid) == new_evs,
    decreases new_evs.len(),
{
    if new_evs.len() == 0 {
        assert(old_evs + new_evs =~= old_evs);
        lemma_no_events_of_group(old_evs, gid);
    } else {
        let all = old_evs + new_evs;
        assert(all.drop_last() =~= old_evs + new_evs.drop_last());
        lemma_events_of_new_group(old_evs, new_evs.drop_last(), gid);
        assert(new_evs.drop_last().push(new_evs.last()) =~= new_evs);
    }
}

proof fn lemma_no_events_of_group(evs: Seq<Event>, gid: u64)
    requires
        forall|i: int| 0 <= i < evs.len() ==> (#[trigger] evs[i]).group_id < gid,
    ensures
        events_of_group(evs, gid) == Seq::<Event>::empty(),
    decreases evs.len(),
{
    if evs.len() > 0 {
        lemma_no_events_of_group(evs.drop_last(), gid);
    }
}

proof fn lemma_events_of_group_other(old_evs: Seq<Event>, new_evs: Seq<Event>, gid: u64, other: u64)
    requires
        other != gid,
        forall|i: int| 0 <= i < new_evs.len() ==> (#[trigger] new_evs[i]).group_id == gid,
    ensures
        events_of_group(old_evs + new_evs, other) == events_of_group(old_evs, other),
    decreases new_evs.len(),
{
    if new_evs.len() == 0 {
        assert(old_evs + new_evs =~= old_evs);
    } else {
        let all = old_evs + new_evs;
        assert(all.drop_last() =~= old_evs + new_evs.drop_last());
        lemma_events_of_group_other(old_evs, new_evs.drop_last(), gid, other);
    }
}

impl MemoryEventLog {
    pub closed spec fn wf(&self) -> bool {
        &&& 1 <= self.next_group_id
        &&& 1 <= self.next_event_id
        &&& forall|i: int, j: int|
            0 <= i < j < self.groups@.len() ==> (#[trigger] self.groups@[i]).id < (#[trigger] self.groups@[j]).id
        &&& forall|i: int| 0 <= i < self.groups@.len() ==> (#[trigger] self.groups@[i]).id < self.next_group_id
        &&& forall|i: int, j: int|
            0 <= i < j < self.events@.len() ==> (#[trigger] self.events@[i]).id < (#[trigger] self.events@[j]).id
        &&& forall|i: int|
            0 <= i < self.events@.len() ==> (#[trigger] self.events@[i]).id < self.next_event_id
                && self.events@[i].group_id < self.next_group_id
    }

    /// The id that the next committed group gets.
    pub closed spec fn next_group_id(&self) -> u64 {
        self.next_group_id
    }

    /// The id that the next committed event gets.
    pub closed spec fn next_event_id(&self) -> u64 {
        self.next_event_id
    }

    pub fn new() -> (r: MemoryEventLog)
        ensures
            r.valid(),
            r.next_group_id() == 1,
            r.next_event_id() == 1,
            r.events().len() == 0,
            r.groups().len() == 0,
    {
        MemoryEventLog { events: Vec::new(), groups: Vec::new(), next_group_id: 1, next_event_id: 1 }
    }

    fn find_group(&self, group_id: u64) -> (r: Option<usize>)
        requires
            self.wf(),
        ensures
            match r {
                Some(i) => i < self.groups@.len() && self.groups@[i as int].id == group_id,
                None => forall|i: int| 0 <= i < self.groups@.len() ==> (#[trigger] self.groups@[i]).id != group_id,
            },
    {
        let mut i: usize = 0;
        while i < self.groups.len()
            invariant
                0 <= i <= self.groups@.len(),
                forall|j: int| 0 <= j < i ==> (#[trigger] self.groups@[j]).id != group_id,
            decreases self.groups@.len() - i,
        {
            if self.groups[i].id == group_id {
                return Some(i);
            }
            i = i + 1;
        }
        None
    }

    fn build_group(&self, gi: usize) -> (r: EventGroup)
        requires
            self.wf(),
            gi < self.groups@.len(),
        ensures
            Some(r@) == group_model(self.groups@, self.events@, self.groups@[gi as int].id),
    {
        let gid = self.groups[gi].id;
        let mut events: Vec<Event> = Vec::new();
        let mut i: usize = 0;
        while i < self.events.len()
            invariant
                0 <= i <= self.events@.len(),
                events@ == events_of_group(self.events@.subrange(0, i as int), gid),
            decreases self.events@.len() - i,
        {
            if self.events[i].group_id == gid {
                events.push(self.events[i].duplicate());
            }
            proof {
                assert(self.events@.subrange(0, i + 1).drop_last() =~= self.events@.subrange(0, i as int));
            }
            i = i + 1;
        }
        assert(self.events@.subrange(0, self.events@.len() as int) =~= self.events@);
        let mut latest = true;
        let n = self.groups.len();
        let mut j: usize = gi + 1;
        while j < self.groups.len()
            invariant
                gi < j <= self.groups@.len(),
                latest == forall|k: int| gi < k < j ==> #[trigger] self.groups@[k].command@
                    != self.groups@[gi as int].command@,
            decreases self.groups@.len() - j,
        {
            if self.groups[j].command == self.groups[gi].command {
                latest = false;
            }
            j = j + 1;
        }
        proof {
            let i = choose|i: int| 0 <= i < self.groups@.len() && self.groups@[i].id == gid;
            if i != gi as int {
                if i < gi {
                    assert(self.groups@[i].id < self.groups@[gi as int].id);
                } else {
                    assert(self.groups@[gi as int].id < self.groups@[i].id);
                }
            }
        }
        EventGroup { id: gid, command: self.groups[gi].command.clone(), events, is_most_recent_run: latest }
    }
}

impl EventLog for MemoryEventLog {
    closed spec fn valid(&self) -> bool {
        self.wf()
    }

    closed spec fn events(&self) -> Seq<Event> {
        self.events@
    }

    open spec fn infallible(&self) -> bool {
        true
    }

    closed spec fn groups(&self) -> Seq<GroupRow> {
        self.groups@
    }

    fn get_last_write_event(&self, p: &str) -> (r: Result<Option<Event>, LedgerError>)
        ensures
            r is Ok,
    {
        let mut found: Option<Event> = None;
        let mut i: usize = 0;
        while i < self.events.len()
            invariant
                0 <= i <= self.events@.len(),
                found == last_write(self.events@.subrange(0, i as int), p@),
            decreases self.events@.len() - i,
        {
            let e = &self.events[i];
            proof {
                assert(self.events@.subrange(0, i + 1).drop_last() =~= self.events@.subrange(0, i as int));
            }
            match &e.event_type {
                EventType::WriteFile(w) => {
                    if crate::text::same_text(w.path.as_str(), p) {
                        found = Some(e.duplicate());
                    }
                },
                _ => {},
            }
            i = i + 1;
        }
        assert(self.events@.subrange(0, self.events@.len() as int) =~= self.events@);
        Ok(found)
    }

    fn get_file_history(&self, p: &str) -> (r: Result<Vec<Event>, LedgerError>)
        ensures
            r is Ok,
    {
        let mut found: Vec<Event> = Vec::new();
        let mut i: usize = 0;
        while i < self.events.len()
            invariant
                0 <= i <= self.events@.len(),
                found@ == history(self.events@.subrange(0, i as int), p@),
            decreases self.events@.len() - i,
        {
            let e = &self.events[i];
            proof {
                assert(self.events@.subrange(0, i + 1).drop_last() =~= self.events@.subrange(0, i as int));
            }
            if crate::text::same_text(e.event_type.path().as_str(), p) {
                let ghost before = found@;
                found.insert(0, e.duplicate());
                assert(found@ =~= seq![*e] + before);
            }
            i = i + 1;
        }
        assert(self.events@.subrange(0, self.events@.len() as int) =~= self.events@);
        Ok(found)
    }

    fn get_event_group(&self, group_id: u64) -> (r: Result<Option<EventGroup>, LedgerError>)
        ensures
            r is Ok,
    {
        match self.find_group(group_id) {
            Some(gi) => Ok(Some(self.build_group(gi))),
            None => Ok(None),
        }
    }

    fn all_event_groups(&self) -> (r: Result<Vec<EventGroup>, LedgerError>)
        ensures
            r is Ok,
    {
        let mut result: Vec<EventGroup> = Vec::new();
        let mut gi: usize = 0;
        while gi < self.groups.len()
            invariant
                self.wf(),
                0 <= gi <= self.groups@.len(),
                result@.len() == gi,
                forall|i: int|
                    0 <= i < gi ==> Some((#[trigger] result@[i])@) == group_model(
                        self.groups@,
                        self.events@,
                        self.groups@[i].id,
                    ),
            decreases self.groups@.len() - gi,
        {
            result.push(self.build_group(gi));
            gi = gi + 1;
        }
        Ok(result)
    }

    fn add_event_group(&mut self, group: &EventGroup) -> (r: Result<EventGroup, LedgerError>)
        ensures
            r is Err ==> final(self).events() == old(self).events() && final(self).groups() == old(self).groups(),
            r == Err::<EventGroup, LedgerError>(LedgerError::IdsAlreadyAssigned) <==> !uncommitted(group@),
            r == Err::<EventGroup, LedgerError>(LedgerError::IdsExhausted) <==> (uncommitted(group@) && (
                old(self).next_group_id() == u64::MAX || old(self).next_event_id() + group@.events.len()
                    > u64::MAX)),
    {
        if group.id != 0 {
            return Err(LedgerError::IdsAlreadyAssigned);
        }
        let mut k: usize = 0;
        while k < group.events.len()
            invariant
                self.wf(),
                0 <= k <= group.events@.len(),
                forall|i: int| 0 <= i < k ==> (#[trigger] group.events@[i]).id == 0 && group.events@[i].group_id == 0,
            decreases group.events@.len() - k,
        {
            if group.events[k].id != 0 || group.events[k].group_id != 0 {
                return Err(LedgerError::IdsAlreadyAssigned);
            }
            k = k + 1;
        }
        if self.next_group_id == u64::MAX || group.events.len() as u64 > u64::MAX - self.next_event_id {
            return Err(LedgerError::IdsExhausted);
        }
        let gid = self.next_group_id;
        let first = self.next_event_id;
        let ghost old_events = self.events@;
        self.next_group_id = gid + 1;
        let mut committed: Vec<Event> = Vec::new();
        let mut i: usize = 0;
        while i < group.events.len()
            invariant
                self.wf(),
                gid == old(self).next_group_id,
                first == old(self).next_event_id,
                self.next_group_id == gid + 1,
                self.groups == old(self).groups,
                first + group.events@.len() <= u64::MAX,
                0 <= i <= group.events@.len(),
                committed@.len() == i,
                self.next_event_id == first + i,
                self.events@ == old_events + committed@,
                forall|j: int|
                    0 <= j < i ==> (#[trigger] committed@[j]).event_type == group.events@[j].event_type
                        && committed@[j].group_id == gid && committed@[j].id == first + j,
            decreases group.events@.len() - i,
        {
            let e = Event {
                id: self.next_event_id,
                group_id: gid,
                event_type: group.events[i].event_type.duplicate(),
            };
            let ghost before = self.events@;
            committed.push(e.duplicate());
            self.events.push(e);
            self.next_event_id = self.next_event_id + 1;
            i = i + 1;
            assert(self.events@ =~= old_events + committed@);
            proof {
                let n = before.len() as int;
                assert forall|a: int, b: int| 0 <= a < b < self.events@.len() implies
                    (#[trigger] self.events@[a]).id < (#[trigger] self.events@[b]).id by {
                    assert(self.events@[a] == before[a]);
                    if b < n {
                        assert(self.events@[b] == before[b]);
                    }
                }
                assert forall|a: int| 0 <= a < self.events@.len() implies (#[trigger] self.events@[a]).id
                    < self.next_event_id && self.events@[a].group_id < self.next_group_id by {
                    if a < n {
                        assert(self.events@[a] == before[a]);
                    }
                }
            }
        }
        let row = GroupRow { id: gid, command: group.command.clone() };
        self.groups.push(row);
        let result = EventGroup {
            id: gid,
            command: group.command.clone(),
            events: committed,
            is_most_recent_run: true,
        };
        proof {
            let n = self.groups@.len() - 1;
            assert(self.groups@[n].id == gid);
            assert forall|a: int, b: int| 0 <= a < b < self.groups@.len() implies
                (#[trigger] self.groups@[a]).id < (#[trigger] self.groups@[b]).id by {
                if b == n {
                    assert(old(self).groups@[a].id < gid);
                } else {
                    assert(self.groups@[a] == old(self).groups@[a]);
                    assert(self.groups@[b] == old(self).groups@[b]);
                }
            }
            assert forall|a: int| 0 <= a < old_events.len() implies (#[trigger] old_events[a]).group_id < gid by {
                assert(old_events[a] == old(self).events@[a]);
            }
            lemma_events_of_new_group(old_events, result.events@, gid);
            assert forall|j: int| n < j < self.groups@.len() implies
                #[trigger] self.groups@[j].command@ != self.groups@[n].command@ by {}
            let ci = choose|ci: int| 0 <= ci < self.groups@.len() && self.groups@[ci].id == gid;
            if ci != n {
                assert(self.groups@[ci].id < self.groups@[n].id);
            }
            assert(self.groups@.drop_last() =~= old(self).groups@);
            assert forall|a: int, b: int| 0 <= a < old(self).events@.len() && 0 <= b < result.events@.len()
                implies (#[trigger] old(self).events@[a]).id < (#[trigger] result.events@[b]).id by {}
        }
        Ok(result)
    }
}

} // verus!
