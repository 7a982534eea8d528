//! Template sets that scripts create, fill and render by id. This keeps which
//! sets exist and hands out the engine of each; the engines themselves parse
//! and render.

use vstd::prelude::*;

verus! {

#[derive(Debug, Clone, PartialEq, Eq)]
pub enum TemplateError {
    /// No template set has this id.
    UnknownTemplateSet(i32),
    /// No fresh ids are left.
    IdsExhausted,
}

/// The ids of a list of sets, in order.
pub open spec fn set_ids<T>(sets: Seq<(i32, T)>) -> Seq<i32> {
    sets.map_values(|s: (i32, T)| s.0)
}

/// The engine held under `id` among `sets`, if any.
pub open spec fn engine_at<T>(sets: Seq<(i32, T)>, id: i32) -> Option<T> {
    if exists|i: int| 0 <= i < sets.len() && sets[i].0 == id {
        Some(sets[choose|i: int| 0 <= i < sets.len() && sets[i].0 == id].1)
    } else {
        None
    }
}

/// The template sets of one run, each an engine of type `T` under an id.
pub struct TemplateSets<T> {
    sets: Vec<(i32, T)>,
    next_id: i32,
}

impl<T> TemplateSets<T> {
    /// The engine of each live set, by id.
    pub closed spec fn engine(&self, id: i32) -> Option<T> {
        engine_at(self.sets@, id)
    }

    /// The ids of the live sets.
    pub closed spec fn ids(&self) -> Seq<i32> {
        set_ids(self.sets@)
    }

    /// The id that the next set gets.
    pub closed spec fn next_id(&self) -> i32 {
        self.next_id
    }

    pub closed spec fn wf(&self) -> bool {
        &&& 0 <= self.next_id
        &&& forall|i: int| 0 <= i < self.sets@.len() ==> 0 <= (#[trigger] self.sets@[i]).0 < self.next_id
        &&& forall|i: int, j: int| 0 <= i < j < self.sets@.len() ==> (#[trigger] self.sets@[i]).0 != (#[trigger] self.sets@[j]).0
    }

    pub fn new() -> (r: TemplateSets<T>)
        ensures
            r.wf(),
            r.ids().len() == 0,
            r.next_id() == 0,
    {
        TemplateSets { sets: Vec::new(), next_id: 0 }
    }

    fn find(&self, id: i32) -> (r: Option<usize>)
        ensures
            match r {
                Some(i) => i < self.sets@.len() && self.sets@[i as int].0 == id,
                None => !self.ids().contains(id),
            },
    {
        let mut i: usize = 0;
        while i < self.sets.len()
            invariant
                0 <= i <= self.sets@.len(),
                forall|j: int| 0 <= j < i ==> (#[trigger] self.sets@[j]).0 != id,
            decreases self.sets@.len() - i,
        {
            if self.sets[i].0 == id {
                return Some(i);
            }
            i = i + 1;
        }
        proof {
            if self.ids().contains(id) {
                let j = choose|j: int| 0 <= j < self.ids().len() && self.ids()[j] == id;
                assert(self.sets@[j].0 == id);
            }
        }
        None
    }

    /// Keeps `engine` as a new set under a fresh id.
    pub fn init_template(&mut self, engine: T) -> (r: Result<i32, TemplateError>)
        requires
            old(self).wf(),
        ensures
            final(self).wf(),
            old(self).next_id() == i32::MAX ==> r == Err::<i32, TemplateError>(TemplateError::IdsExhausted)
                && final(self).ids() == old(self).ids(),
            old(self).next_id() < i32::MAX ==> r == Ok::<i32, TemplateError>(old(self).next_id())
                && !old(self).ids().contains(old(self).next_id())
                && final(self).ids() == old(self).ids().push(old(self).next_id())
                && final(self).next_id() == old(self).next_id() + 1
                && final(self).engine(old(self).next_id()) == Some(engine),
    {
        if self.next_id == i32::MAX {
            return Err(TemplateError::IdsExhausted);
        }
        let id = self.next_id;
        proof {
            if self.ids().contains(id) {
                let j = choose|j: int| 0 <= j < self.ids().len() && self.ids()[j] == id;
                assert(self.sets@[j].0 == id);
            }
        }
        self.next_id = id + 1;
        let ghost before = self.sets@;
        self.sets.push((id, engine));
        assert(set_ids(self.sets@) =~= set_ids(before).push(id));
        proof {
            let n = before.len() as int;
            assert(self.sets@[n].0 == id);
            let c = choose|i: int| 0 <= i < self.sets@.len() && self.sets@[i].0 == id;
            if c != n {
                assert(self.sets@[c] == before[c]);
                assert(set_ids(before)[c] == id);
            }
        }
        Ok(id)
    }

    /// Drops the set `id`; an unknown id is an error, not a crash.
    pub fn drop_template(&mut self, id: i32) -> (r: Result<(), TemplateError>)
        requires
            old(self).wf(),
        ensures
            final(self).wf(),
            final(self).next_id() == old(self).next_id(),
            old(self).ids().contains(id) ==> r is Ok && !final(self).ids().contains(id)
                && final(self).ids().len() == old(self).ids().len() - 1
                && forall|k: i32| k != id ==> (old(self).ids().contains(k) <==> final(self).ids().contains(k)),
            !old(self).ids().contains(id) ==> r == Err::<(), TemplateError>(TemplateError::UnknownTemplateSet(id))
                && final(self).ids() == old(self).ids(),
    {
        match self.find(id) {
            None => Err(TemplateError::UnknownTemplateSet(id)),
            Some(i) => {
                assert(self.ids()[i as int] == id);
                let ghost before = self.sets@;
                self.sets.remove(i);
                proof {
                    let after = self.sets@;
                    assert(after =~= before.remove(i as int));
                    assert forall|a: int| 0 <= a < after.len() implies #[trigger] after[a] == (if a < i { before[a] } else { before[a + 1] }) by {}
                    assert forall|a: int, b: int| 0 <= a < b < after.len() implies (#[trigger] after[a]).0 != (#[trigger] after[b]).0 by {
                        let a2 = if a < i { a } else { a + 1 };
                        let b2 = if b < i { b } else { b + 1 };
                        assert(after[a] == before[a2]);
                        assert(after[b] == before[b2]);
                    }
                    assert forall|a: int| 0 <= a < after.len() implies 0 <= (#[trigger] after[a]).0 < self.next_id by {
                        let a2 = if a < i { a } else { a + 1 };
                        assert(after[a] == before[a2]);
                    }
                    assert forall|k: i32| k != id implies (set_ids(before).contains(k) <==> set_ids(after).contains(k)) by {
                        if set_ids(before).contains(k) {
                            let j = choose|j: int| 0 <= j < set_ids(before).len() && set_ids(before)[j] == k;
                            assert(j != i);
                            let j2 = if j < i { j } else { j - 1 };
                            assert(after[j2] == before[j]);
                            assert(set_ids(after)[j2] == k);
                        }
                        if set_ids(after).contains(k) {
                            let j = choose|j: int| 0 <= j < set_ids(after).len() && set_ids(after)[j] == k;
                            let j2 = if j < i { j } else { j + 1 };
                            assert(after[j] == before[j2]);
                            assert(set_ids(before)[j2] == k);
                        }
                    }
                    if set_ids(after).contains(id) {
                        let j = choose|j: int| 0 <= j < set_ids(after).len() && set_ids(after)[j] == id;
                        let j2 = if j < i { j } else { j + 1 };
                        assert(after[j] == before[j2]);
                        assert(before[j2].0 == before[i as int].0);
                    }
                }
                Ok(())
            },
        }
    }

    /// The engine of the set `id`.
    pub fn get(&self, id: i32) -> (r: Result<&T, TemplateError>)
        requires
            self.wf(),
        ensures
            match self.engine(id) {
                Some(e) => r == Ok::<&T, TemplateError>(&e),
                None => r == Err::<&T, TemplateError>(TemplateError::UnknownTemplateSet(id)),
            },
    {
        match self.find(id) {
            None => {
                proof {
                    if exists|i: int| 0 <= i < self.sets@.len() && self.sets@[i].0 == id {
                        let i = choose|i: int| 0 <= i < self.sets@.len() && self.sets@[i].0 == id;
                        assert(self.ids()[i] == id);
                    }
                }
                Err(TemplateError::UnknownTemplateSet(id))
            },
            Some(i) => {
                proof {
                    let c = choose|c: int| 0 <= c < self.sets@.len() && self.sets@[c].0 == id;
                    assert(c == i);
                }
                Ok(&self.sets[i].1)
            },
        }
    }

    /// Puts `engine` in place of the engine of the set `id` and returns the one it replaced.
    pub fn replace(&mut self, id: i32, engine: T) -> (r: Result<T, TemplateError>)
        requires
            old(self).wf(),
        ensures
            final(self).wf(),
            final(self).ids() == old(self).ids(),
            final(self).next_id() == old(self).next_id(),
            match old(self).engine(id) {
                Some(e) => r == Ok::<T, TemplateError>(e) && final(self).engine(id) == Some(engine)
                    && forall|k: i32| k != id ==> final(self).engine(k) == old(self).engine(k),
                None => r == Err::<T, TemplateError>(TemplateError::UnknownTemplateSet(id))
                    && forall|k: i32| final(self).engine(k) == old(self).engine(k),
            },
    {
        match self.find(id) {
            None => {
                proof {
                    if exists|i: int| 0 <= i < self.sets@.len() && self.sets@[i].0 == id {
                        let i = choose|i: int| 0 <= i < self.sets@.len() && self.sets@[i].0 == id;
                        assert(self.ids()[i] == id);
                    }
                }
                Err(TemplateError::UnknownTemplateSet(id))
            },
            Some(i) => {
                let ghost before = self.sets@;
                let (set_id, previous) = self.sets.remove(i);
                self.sets.insert(i, (set_id, engine));
                proof {
                    let after = self.sets@;
                    assert forall|a: int| 0 <= a < after.len() && a != i implies #[trigger] after[a] == before[a] by {}
                    assert(after[i as int].0 == id);
                    assert(set_ids(after) =~= set_ids(before));
                    let c = choose|c: int| 0 <= c < before.len() && before[c].0 == id;
                    assert(c == i);
                    let c2 = choose|c: int| 0 <= c < after.len() && after[c].0 == id;
                    assert(c2 == i);
                    assert forall|k: i32| k != id implies engine_at(after, k) == engine_at(before, k) by {
                        if exists|x: int| 0 <= x < before.len() && before[x].0 == k {
                            let x = choose|x: int| 0 <= x < before.len() && before[x].0 == k;
                            assert(after[x] == before[x]);
                            let y = choose|y: int| 0 <= y < after.len() && after[y].0 == k;
                            assert(after[y] == before[y]);
                        }
                        if exists|x: int| 0 <= x < after.len() && after[x].0 == k {
                            let x = choose|x: int| 0 <= x < after.len() && after[x].0 == k;
                            assert(after[x] == before[x]);
                        }
                    }
                }
                Ok(previous)
            },
        }
    }
}

} // verus!
