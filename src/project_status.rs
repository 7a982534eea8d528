//! Staleness: the ledger's view of each tracked file, compared with the files as
//! they are now.

use vstd::prelude::*;
use crate::assoc::{assoc_find, assoc_map};
use crate::events::{Event, EventGroup, EventType};
use crate::hash::ContentHash;

verus! {

/// What the ledger says of one file: its last written address, and the paths
/// read before that write in the same run, with the address each had then.
pub struct FileRepresentationFromEvents {
    pub hash: ContentHash,
    pub dependencies_and_hashes: Vec<(String, Option<ContentHash>)>,
}

/// The ledger's view of one file, as values.
pub struct FileModel {
    pub hash: ContentHash,
    pub deps: Map<Seq<char>, Option<ContentHash>>,
}

impl View for FileRepresentationFromEvents {
    type V = FileModel;

    open spec fn view(&self) -> FileModel {
        FileModel { hash: self.hash, deps: assoc_map(self.dependencies_and_hashes@) }
    }
}

impl FileRepresentationFromEvents {
    pub fn hash(&self) -> (r: ContentHash)
        ensures
            r == self@.hash,
    {
        self.hash
    }
}

/// The ledger's view of every tracked file; `None` marks a file the ledger saw removed.
pub struct ProjectRepresentationFromEvents {
    pub entries: Vec<(String, Option<FileRepresentationFromEvents>)>,
}

/// The address of every file that exists now, by path.
pub struct ProjectRepresentationFromFilesystem {
    pub entries: Vec<(String, ContentHash)>,
}

pub open spec fn tracked_map(m: Map<Seq<char>, Option<FileRepresentationFromEvents>>) -> Map<Seq<char>, FileModel> {
    Map::new(|p: Seq<char>| m.contains_key(p) && m[p] is Some, |p: Seq<char>| m[p]->Some_0@)
}

impl View for ProjectRepresentationFromEvents {
    type V = Map<Seq<char>, FileModel>;

    open spec fn view(&self) -> Map<Seq<char>, FileModel> {
        tracked_map(assoc_map(self.entries@))
    }
}

impl View for ProjectRepresentationFromFilesystem {
    type V = Map<Seq<char>, ContentHash>;

    open spec fn view(&self) -> Map<Seq<char>, ContentHash> {
        assoc_map(self.entries@)
    }
}

impl ProjectRepresentationFromFilesystem {
    /// The view of a list of `(path, address)` pairs; a later pair for a path wins.
    pub fn from_entries(entries: Vec<(String, ContentHash)>) -> (r: ProjectRepresentationFromFilesystem)
        ensures
            r@ == assoc_map(entries@),
    {
        ProjectRepresentationFromFilesystem { entries }
    }

    pub fn get(&self, path: &str) -> (r: Option<ContentHash>)
        ensures
            match r {
                Some(h) => self@.contains_key(path@) && self@[path@] == h,
                None => !self@.contains_key(path@),
            },
    {
        match assoc_find(&self.entries, path) {
            Some(i) => Some(self.entries[i].1),
            None => None,
        }
    }
}

/// The ledger's view after one event; `deps` holds the reads so far in the run.
pub open spec fn apply_event(
    files: Map<Seq<char>, FileModel>,
    deps: Map<Seq<char>, Option<ContentHash>>,
    e: Event,
) -> (Map<Seq<char>, FileModel>, Map<Seq<char>, Option<ContentHash>>) {
    match e.event_type {
        EventType::WriteFile(w) => match w.after_hash {
            Some(h) => (files.insert(w.path@, FileModel { hash: h, deps }), deps),
            None => (files.remove(w.path@), deps),
        },
        EventType::ReadFile(r) => (files, deps.insert(r.path@, r.hash)),
        _ => (files, deps),
    }
}

/// The ledger's view after the events of one run, and that run's reads.
pub open spec fn replay_group(files: Map<Seq<char>, FileModel>, evs: Seq<Event>) -> (
    Map<Seq<char>, FileModel>,
    Map<Seq<char>, Option<ContentHash>>,
)
    decreases evs.len(),
{
    if evs.len() == 0 {
        (files, Map::empty())
    } else {
        let prev = replay_group(files, evs.drop_last());
        apply_event(prev.0, prev.1, evs.last())
    }
}

/// The ledger's view after replaying the runs in order.
pub open spec fn replay(groups: Seq<EventGroup>) -> Map<Seq<char>, FileModel>
    decreases groups.len(),
{
    if groups.len() == 0 {
        Map::empty()
    } else {
        replay_group(replay(groups.drop_last()), groups.last().events@).0
    }
}

/// How a file stands.
#[derive(Debug, Clone, Copy, PartialEq, Eq, Structural)]
pub enum FileStatus {
    /// The file exists but no write of it was recorded.
    Untracked,
    /// A write was recorded but the file no longer exists.
    Deleted,
    /// Tracked and present: whether its content differs from the recorded write,
    /// and whether any input read before that write has changed since.
    Present { is_changed: bool, is_stale: bool },
}

/// Whether dependency `d`, recorded with address `h`, still has that address.
pub open spec fn dep_unchanged(fs: Map<Seq<char>, ContentHash>, d: Seq<char>, h: Option<ContentHash>) -> bool {
    match h {
        Some(x) => fs.contains_key(d) && fs[d] == x,
        None => !fs.contains_key(d),
    }
}

/// Whether some recorded dependency of `f` has changed.
pub open spec fn is_stale(f: FileModel, fs: Map<Seq<char>, ContentHash>) -> bool {
    exists|d: Seq<char>| f.deps.contains_key(d) && !dep_unchanged(fs, d, #[trigger] f.deps[d])
}

/// How path `p` stands, `None` when neither view knows it.
pub open spec fn status_of(
    ledger: Map<Seq<char>, FileModel>,
    fs: Map<Seq<char>, ContentHash>,
    p: Seq<char>,
) -> Option<FileStatus> {
    if ledger.contains_key(p) && fs.contains_key(p) {
        Some(
            FileStatus::Present {
                is_changed: ledger[p].hash != fs[p],
                is_stale: is_stale(ledger[p], fs),
            },
        )
    } else if ledger.contains_key(p) {
        Some(FileStatus::Deleted)
    } else if fs.contains_key(p) {
        Some(FileStatus::Untracked)
    } else {
        None
    }
}

proof fn lemma_replay_group_keeps(files: Map<Seq<char>, FileModel>, evs: Seq<Event>, p: Seq<char>)
    requires
        forall|i: int| 0 <= i < evs.len() ==> !crate::events::is_write_to(#[trigger] evs[i], p),
    ensures
        replay_group(files, evs).0.contains_key(p) == files.contains_key(p),
    decreases evs.len(),
{
    if evs.len() > 0 {
        assert forall|i: int| 0 <= i < evs.drop_last().len() implies !crate::events::is_write_to(#[trigger] evs.drop_last()[i], p) by {
            assert(evs.drop_last()[i] == evs[i]);
        }
        lemma_replay_group_keeps(files, evs.drop_last(), p);
        assert(!crate::events::is_write_to(evs[evs.len() - 1], p));
    }
}

/// A path that no recorded write names is not in the ledger's view.
pub proof fn lemma_never_written_not_tracked(groups: Seq<EventGroup>, p: Seq<char>)
    requires
        forall|g: int, i: int|
            0 <= g < groups.len() && 0 <= i < groups[g].events@.len() ==> !crate::events::is_write_to(
                #[trigger] groups[g].events@[i],
                p,
            ),
    ensures
        !replay(groups).contains_key(p),
    decreases groups.len(),
{
    if groups.len() > 0 {
        let rest = groups.drop_last();
        assert forall|g: int, i: int|
            0 <= g < rest.len() && 0 <= i < rest[g].events@.len() implies !crate::events::is_write_to(
            #[trigger] rest[g].events@[i],
            p,
        ) by {
            assert(rest[g] == groups[g]);
        }
        lemma_never_written_not_tracked(rest, p);
        let last = groups.len() - 1;
        assert forall|i: int| 0 <= i < groups[last].events@.len() implies !crate::events::is_write_to(
            #[trigger] groups[last].events@[i],
            p,
        ) by {}
        lemma_replay_group_keeps(replay(rest), groups.last().events@, p);
    }
}

/// A path that exists and that no recorded write names is untracked.
pub proof fn lemma_unwritten_is_untracked(
    groups: Seq<EventGroup>,
    fs: Map<Seq<char>, ContentHash>,
    p: Seq<char>,
)
    requires
        forall|g: int, i: int|
            0 <= g < groups.len() && 0 <= i < groups[g].events@.len() ==> !crate::events::is_write_to(
                #[trigger] groups[g].events@[i],
                p,
            ),
        fs.contains_key(p),
    ensures
        status_of(replay(groups), fs, p) == Some(FileStatus::Untracked),
{
    lemma_never_written_not_tracked(groups, p);
}

/// A tracked, present file with a dependency whose address has changed is stale,
/// whether or not its own content changed.
pub proof fn lemma_changed_input_is_stale(
    ledger: Map<Seq<char>, FileModel>,
    fs: Map<Seq<char>, ContentHash>,
    p: Seq<char>,
    d: Seq<char>,
    h: ContentHash,
)
    requires
        ledger.contains_key(p),
        fs.contains_key(p),
        ledger[p].deps.contains_key(d),
        ledger[p].deps[d] == Some(h),
        !(fs.contains_key(d) && fs[d] == h),
    ensures
        status_of(ledger, fs, p) matches Some(FileStatus::Present { is_stale: true, .. }),
{
    assert(!dep_unchanged(fs, d, ledger[p].deps[d]));
}

#[derive(Debug, Clone)]
pub struct FileStatusEntry {
    pub path: String,
    pub status: FileStatus,
}

/// What a package reports about itself.
#[derive(Debug, Clone)]
pub struct PackageStatus {
    pub path: String,
    pub content: String,
}

#[derive(Debug, Clone)]
pub struct ProjectStatus {
    pub file_statuses: Vec<FileStatusEntry>,
    pub package_statuses: Vec<PackageStatus>,
}

fn copy_deps(d: &Vec<(String, Option<ContentHash>)>) -> (r: Vec<(String, Option<ContentHash>)>)
    ensures
        r@ == d@,
{
    let mut r: Vec<(String, Option<ContentHash>)> = Vec::new();
    let mut i: usize = 0;
    while i < d.len()
        invariant
            0 <= i <= d@.len(),
            r@ == d@.subrange(0, i as int),
        decreases d@.len() - i,
    {
        r.push((d[i].0.clone(), crate::events::copy_hash(&d[i].1)));
        i = i + 1;
        assert(r@ =~= d@.subrange(0, i as int));
    }
    assert(d@.subrange(0, d@.len() as int) =~= d@);
    r
}

proof fn lemma_tracked_insert(
    m: Map<Seq<char>, Option<FileRepresentationFromEvents>>,
    p: Seq<char>,
    v: Option<FileRepresentationFromEvents>,
)
    ensures
        tracked_map(m.insert(p, v)) == match v {
            Some(f) => tracked_map(m).insert(p, f@),
            None => tracked_map(m).remove(p),
        },
{
    match v {
        Some(f) => {
            assert(tracked_map(m.insert(p, v)) =~= tracked_map(m).insert(p, f@));
        },
        None => {
            assert(tracked_map(m.insert(p, v)) =~= tracked_map(m).remove(p));
        },
    }
}

/// Replays the runs in the order given (the ledger's order, by id). A write records
/// the path with the reads made before it in the same run; a write without an
/// after-address removes the path.
pub fn build_rep_from_event_log(groups: &Vec<EventGroup>) -> (r: ProjectRepresentationFromEvents)
    ensures
        r@ == replay(groups@),
{
    let mut entries: Vec<(String, Option<FileRepresentationFromEvents>)> = Vec::new();
    let mut gi: usize = 0;
    while gi < groups.len()
        invariant
            0 <= gi <= groups@.len(),
            tracked_map(assoc_map(entries@)) == replay(groups@.subrange(0, gi as int)),
        decreases groups@.len() - gi,
    {
        let evs = &groups[gi].events;
        let ghost start = tracked_map(assoc_map(entries@));
        let mut deps: Vec<(String, Option<ContentHash>)> = Vec::new();
        let mut ei: usize = 0;
        while ei < evs.len()
            invariant
                0 <= ei <= evs@.len(),
                evs@ == groups@[gi as int].events@,
                (tracked_map(assoc_map(entries@)), assoc_map(deps@)) == replay_group(start, evs@.subrange(0, ei as int)),
            decreases evs@.len() - ei,
        {
            let ghost prev_entries = entries@;
            let ghost prev_deps = deps@;
            proof {
                assert(evs@.subrange(0, ei + 1).drop_last() =~= evs@.subrange(0, ei as int));
            }
            match &evs[ei].event_type {
                EventType::WriteFile(w) => {
                    match &w.after_hash {
                        Some(h) => {
                            let rep = FileRepresentationFromEvents { hash: *h, dependencies_and_hashes: copy_deps(&deps) };
                            entries.push((w.path.clone(), Some(rep)));
                            proof {
                                assert(entries@.drop_last() =~= prev_entries);
                                lemma_tracked_insert(assoc_map(prev_entries), w.path@, entries@.last().1);
                            }
                        },
                        None => {
                            entries.push((w.path.clone(), None));
                            proof {
                                assert(entries@.drop_last() =~= prev_entries);
                                lemma_tracked_insert(assoc_map(prev_entries), w.path@, None);
                            }
                        },
                    }
                },
                EventType::ReadFile(rd) => {
                    deps.push((rd.path.clone(), crate::events::copy_hash(&rd.hash)));
                    proof {
                        assert(deps@.drop_last() =~= prev_deps);
                    }
                },
                _ => {},
            }
            ei = ei + 1;
        }
        proof {
            assert(evs@.subrange(0, evs@.len() as int) =~= evs@);
            assert(groups@.subrange(0, gi + 1).drop_last() =~= groups@.subrange(0, gi as int));
        }
        gi = gi + 1;
    }
    proof {
        assert(groups@.subrange(0, groups@.len() as int) =~= groups@);
    }
    ProjectRepresentationFromEvents { entries }
}

fn dep_matches(fs: &ProjectRepresentationFromFilesystem, d: &str, h: &Option<ContentHash>) -> (r: bool)
    ensures
        r == dep_unchanged(fs@, d@, *h),
{
    match (fs.get(d), h) {
        (Some(x), Some(y)) => {
            let r = x.equals(y);
            r
        },
        (None, None) => true,
        _ => false,
    }
}

fn compute_stale(f: &FileRepresentationFromEvents, fs: &ProjectRepresentationFromFilesystem) -> (r: bool)
    ensures
        r == is_stale(f@, fs@),
{
    let deps = &f.dependencies_and_hashes;
    assert(deps@ == f.dependencies_and_hashes@);
    let mut j: usize = 0;
    while j < deps.len()
        invariant
            deps@ == f.dependencies_and_hashes@,
            0 <= j <= deps@.len(),
            forall|a: int| 0 <= a < j ==> (exists|m: int| a < m < deps@.len() && (#[trigger] deps@[m]).0@ == deps@[a].0@)
                || dep_unchanged(fs@, (#[trigger] deps@[a]).0@, deps@[a].1),
        decreases deps@.len() - j,
    {
        let mut shadowed = false;
        let mut m: usize = j + 1;
        while m < deps.len()
            invariant
                j < m <= deps@.len(),
                j < deps@.len(),
                shadowed == exists|q: int| j < q < m && (#[trigger] deps@[q]).0@ == deps@[j as int].0@,
            decreases deps@.len() - m,
        {
            if crate::text::same_text(deps[m].0.as_str(), deps[j].0.as_str()) {
                shadowed = true;
            }
            m = m + 1;
        }
        if !shadowed && !dep_matches(fs, deps[j].0.as_str(), &deps[j].1) {
            proof {
                assert forall|q: int| j < q < deps@.len() implies (#[trigger] deps@[q]).0@ != deps@[j as int].0@ by {
                    if deps@[q].0@ == deps@[j as int].0@ {
                        assert(exists|q2: int| j < q2 < deps@.len() && (#[trigger] deps@[q2]).0@ == deps@[j as int].0@);
                    }
                }
                crate::assoc::lemma_assoc_at(deps@, j as int);
                let d = deps@[j as int].0@;
                assert(assoc_map(deps@).contains_key(d));
                assert(assoc_map(deps@)[d] == deps@[j as int].1);
                assert(f@.deps == assoc_map(deps@));
                assert(f@.deps.contains_key(d) && !dep_unchanged(fs@, d, f@.deps[d]));
            }
            return true;
        }
        j = j + 1;
    }
    proof {
        assert forall|d: Seq<char>| f@.deps.contains_key(d) implies dep_unchanged(fs@, d, #[trigger] f@.deps[d]) by {
            crate::assoc::lemma_assoc_witness(deps@, d);
            let a = choose|a: int| 0 <= a < deps@.len() && (#[trigger] deps@[a]).0@ == d && forall|m: int| a < m < deps@.len() ==> (#[trigger] deps@[m]).0@ != d;
            crate::assoc::lemma_assoc_at(deps@, a);
        }
    }
    false
}

/// How `path` stands, `None` when neither view knows it.
pub fn classify(
    rep_events: &ProjectRepresentationFromEvents,
    rep_fs: &ProjectRepresentationFromFilesystem,
    path: &str,
) -> (r: Option<FileStatus>)
    ensures
        r == status_of(rep_events@, rep_fs@, path@),
{
    let recorded: Option<&FileRepresentationFromEvents> = match assoc_find(&rep_events.entries, path) {
        Some(i) => match &rep_events.entries[i].1 {
            Some(f) => Some(f),
            None => None,
        },
        None => None,
    };
    match (recorded, rep_fs.get(path)) {
        (Some(f), Some(h)) => {
            let same = f.hash.equals(&h);
            let stale = compute_stale(f, rep_fs);
            Some(FileStatus::Present { is_changed: !same, is_stale: stale })
        },
        (Some(_), None) => Some(FileStatus::Deleted),
        (None, Some(_)) => Some(FileStatus::Untracked),
        (None, None) => None,
    }
}

/// The invariant of the listing: statuses agree with `status_of`, paths are distinct.
spec fn listing_ok(
    out: Seq<FileStatusEntry>,
    ledger: Map<Seq<char>, FileModel>,
    fs: Map<Seq<char>, ContentHash>,
) -> bool {
    &&& forall|a: int| 0 <= a < out.len() ==> Some((#[trigger] out[a]).status) == status_of(ledger, fs, out[a].path@)
    &&& forall|a: int, b: int| 0 <= a < b < out.len() ==> crate::text::text_lt((#[trigger] out[a]).path@, (#[trigger] out[b]).path@)
}

spec fn covers(out: Seq<FileStatusEntry>, p: Seq<char>) -> bool {
    exists|q: int| 0 <= q < out.len() && (#[trigger] out[q]).path@ == p
}

fn add_path(
    out: &mut Vec<FileStatusEntry>,
    rep_events: &ProjectRepresentationFromEvents,
    rep_fs: &ProjectRepresentationFromFilesystem,
    path: &String,
)
    requires
        listing_ok(old(out)@, rep_events@, rep_fs@),
    ensures
        listing_ok(final(out)@, rep_events@, rep_fs@),
        forall|p: Seq<char>| covers(old(out)@, p) ==> covers(final(out)@, p),
        status_of(rep_events@, rep_fs@, path@) is None || covers(final(out)@, path@),
{
    let mut k: usize = 0;
    while k < out.len() && crate::text::sorts_before(out[k].path.as_str(), path.as_str())
        invariant
            0 <= k <= out@.len(),
            out@ == old(out)@,
            forall|i: int| 0 <= i < k ==> crate::text::text_lt((#[trigger] out@[i]).path@, path@),
        decreases out@.len() - k,
    {
        k = k + 1;
    }
    if k < out.len() && crate::text::same_text(out[k].path.as_str(), path.as_str()) {
        return;
    }
    match classify(rep_events, rep_fs, path.as_str()) {
        Some(status) => {
            let ghost before = out@;
            proof {
                if k < before.len() {
                    crate::text::lemma_text_lt_total(before[k as int].path@, path@);
                }
            }
            out.insert(k, FileStatusEntry { path: path.clone(), status });
            proof {
                let after = out@;
                assert(after =~= before.insert(k as int, after[k as int]));
                assert(after[k as int].path@ == path@);
                assert forall|a: int| 0 <= a < after.len() && a != k implies #[trigger] after[a] == (if a < k { before[a] } else { before[a - 1] }) by {}
                assert forall|a: int, b: int| 0 <= a < b < after.len() implies crate::text::text_lt((#[trigger] after[a]).path@, (#[trigger] after[b]).path@) by {
                    if a == k {
                        if b - 1 > k {
                            assert(crate::text::text_lt(before[k as int].path@, before[b - 1].path@));
                            crate::text::lemma_text_lt_transitive(path@, before[k as int].path@, before[b - 1].path@);
                        }
                    } else if b == k {
                    } else if a < k && b > k {
                        assert(crate::text::text_lt(before[a].path@, before[b - 1].path@));
                    } else if a < k {
                        assert(crate::text::text_lt(before[a].path@, before[b].path@));
                    } else {
                        assert(crate::text::text_lt(before[a - 1].path@, before[b - 1].path@));
                    }
                }
                assert forall|a: int| 0 <= a < after.len() implies Some((#[trigger] after[a]).status) == status_of(rep_events@, rep_fs@, after[a].path@) by {
                    if a < k {
                        assert(after[a] == before[a]);
                    } else if a > k {
                        assert(after[a] == before[a - 1]);
                    }
                }
                assert forall|p: Seq<char>| covers(before, p) implies covers(after, p) by {
                    let q = choose|q: int| 0 <= q < before.len() && (#[trigger] before[q]).path@ == p;
                    if q < k {
                        assert(after[q] == before[q]);
                    } else {
                        assert(after[q + 1] == before[q]);
                    }
                }
                assert(covers(after, path@));
            }
        },
        None => {},
    }
}

/// The status of every path that either view knows, each listed once, in
/// ascending order of path.
pub fn get_project_status(
    rep_events: &ProjectRepresentationFromEvents,
    rep_fs: &ProjectRepresentationFromFilesystem,
    package_statuses: Vec<PackageStatus>,
) -> (r: ProjectStatus)
    ensures
        forall|i: int| 0 <= i < r.file_statuses@.len() ==> Some((#[trigger] r.file_statuses@[i]).status)
            == status_of(rep_events@, rep_fs@, r.file_statuses@[i].path@),
        forall|i: int, j: int| 0 <= i < j < r.file_statuses@.len() ==> crate::text::text_lt(
            (#[trigger] r.file_statuses@[i]).path@,
            (#[trigger] r.file_statuses@[j]).path@,
        ),
        forall|i: int, j: int| 0 <= i < j < r.file_statuses@.len() ==> (#[trigger] r.file_statuses@[i]).path@
            != (#[trigger] r.file_statuses@[j]).path@,
        forall|p: Seq<char>| (rep_events@.contains_key(p) || rep_fs@.contains_key(p)) ==> exists|i: int|
            0 <= i < r.file_statuses@.len() && (#[trigger] r.file_statuses@[i]).path@ == p,
        r.package_statuses@ == package_statuses@,
{
    let mut out: Vec<FileStatusEntry> = Vec::new();
    let ev = &rep_events.entries;
    let fe = &rep_fs.entries;
    let mut i: usize = 0;
    while i < ev.len()
        invariant
            0 <= i <= ev@.len(),
            listing_ok(out@, rep_events@, rep_fs@),
            forall|a: int| 0 <= a < i ==> status_of(rep_events@, rep_fs@, (#[trigger] ev@[a]).0@) is None || covers(out@, ev@[a].0@),
        decreases ev@.len() - i,
    {
        add_path(&mut out, rep_events, rep_fs, &ev[i].0);
        i = i + 1;
    }
    let mut i: usize = 0;
    while i < fe.len()
        invariant
            0 <= i <= fe@.len(),
            listing_ok(out@, rep_events@, rep_fs@),
            forall|a: int| 0 <= a < ev@.len() ==> status_of(rep_events@, rep_fs@, (#[trigger] ev@[a]).0@) is None || covers(out@, ev@[a].0@),
            forall|a: int| 0 <= a < i ==> status_of(rep_events@, rep_fs@, (#[trigger] fe@[a]).0@) is None || covers(out@, fe@[a].0@),
        decreases fe@.len() - i,
    {
        add_path(&mut out, rep_events, rep_fs, &fe[i].0);
        i = i + 1;
    }
    proof {
        assert forall|p: Seq<char>| (rep_events@.contains_key(p) || rep_fs@.contains_key(p)) implies covers(out@, p) by {
            if rep_events@.contains_key(p) {
                crate::assoc::lemma_assoc_witness(ev@, p);
                let a = choose|a: int| 0 <= a < ev@.len() && (#[trigger] ev@[a]).0@ == p && forall|m: int| a < m < ev@.len() ==> (#[trigger] ev@[m]).0@ != p;
                assert(status_of(rep_events@, rep_fs@, ev@[a].0@) is Some);
            } else {
                crate::assoc::lemma_assoc_witness(fe@, p);
                let a = choose|a: int| 0 <= a < fe@.len() && (#[trigger] fe@[a]).0@ == p && forall|m: int| a < m < fe@.len() ==> (#[trigger] fe@[m]).0@ != p;
                assert(status_of(rep_events@, rep_fs@, fe@[a].0@) is Some);
            }
        }
        assert forall|p: Seq<char>| (rep_events@.contains_key(p) || rep_fs@.contains_key(p)) implies exists|q: int|
            0 <= q < out@.len() && (#[trigger] out@[q]).path@ == p by {
            assert(covers(out@, p));
        }
        assert forall|i: int, j: int| 0 <= i < j < out@.len() implies (#[trigger] out@[i]).path@ != (#[trigger] out@[j]).path@ by {
            crate::text::lemma_text_lt_irreflexive(out@[i].path@);
        }
    }
    ProjectStatus { file_statuses: out, package_statuses }
}

} // verus!
