//! The developer store's document: workspaces and tasks by identifier, and
//! the task event log. The application persists the document; these
//! functions decide what it holds.

use crate::developer::{DeveloperTask, DeveloperTaskId, Timestamp, Workspace};
use crate::text::owned;
use vstd::prelude::*;

verus! {

/// One event of a task's log; the payload is JSON text.
#[derive(Debug, Clone, PartialEq, Eq)]
pub struct StoredEvent {
    pub event_id: u128,
    pub task_id: DeveloperTaskId,
    pub sequence: u64,
    pub event_type: String,
    pub payload: String,
}

/// The stored workspaces and tasks, each list in identifier order with
/// each identifier once, and the events in the order they were appended.
pub struct DeveloperDocument {
    workspaces: Vec<Workspace>,
    tasks: Vec<DeveloperTask>,
    events: Vec<StoredEvent>,
}

pub open spec fn task_before(a: DeveloperTask, b: DeveloperTask) -> bool {
    a.updated_at > b.updated_at || (a.updated_at == b.updated_at && a.id < b.id)
}

/// The tasks in listing order: a rearrangement of `all` in which no task is
/// listed after one it comes before.
pub open spec fn tasks_in_order(sorted: Seq<DeveloperTask>, all: Seq<DeveloperTask>) -> bool {
    &&& sorted.to_multiset() == all.to_multiset()
    &&& forall|a: int, b: int| 0 <= a < b < sorted.len() ==> !task_before(#[trigger] sorted[b], #[trigger] sorted[a])
}

/// How many of `n` tasks a listing of `limit` shows: at most `limit` and at
/// most five hundred.
pub open spec fn task_cap(n: nat, limit: usize) -> int {
    let m: int = if limit < 500 { limit as int } else { 500 };
    if n < m { n as int } else { m }
}

/// The event log after an append: earlier events of the same task and
/// sequence number are dropped, and the new one comes last.
pub open spec fn appended(log: Seq<StoredEvent>, e: StoredEvent) -> Seq<StoredEvent> {
    log.filter(|x: StoredEvent| !(x.task_id == e.task_id && x.sequence == e.sequence)).push(e)
}

impl DeveloperDocument {
    #[verifier::type_invariant]
    spec fn ids_in_order(&self) -> bool {
        &&& forall|i: int, j: int| 0 <= i < j < self.workspaces@.len() ==> self.workspaces@[i].id < self.workspaces@[j].id
        &&& forall|i: int, j: int| 0 <= i < j < self.tasks@.len() ==> self.tasks@[i].id < self.tasks@[j].id
    }

    pub closed spec fn workspace_items(&self) -> Seq<Workspace> {
        self.workspaces@
    }

    pub closed spec fn task_items(&self) -> Seq<DeveloperTask> {
        self.tasks@
    }

    pub closed spec fn event_items(&self) -> Seq<StoredEvent> {
        self.events@
    }

    /// The task stored under `id`, if any.
    pub open spec fn task_of(&self, id: DeveloperTaskId) -> Option<DeveloperTask> {
        if exists|i: int| 0 <= i < self.task_items().len() && (#[trigger] self.task_items()[i]).id == id {
            Some(self.task_items()[choose|i: int| 0 <= i < self.task_items().len() && (#[trigger] self.task_items()[i]).id == id])
        } else {
            None
        }
    }

    pub fn new() -> (d: DeveloperDocument)
        ensures
            d.workspace_items().len() == 0,
            d.task_items().len() == 0,
            d.event_items().len() == 0,
    {
        DeveloperDocument { workspaces: Vec::new(), tasks: Vec::new(), events: Vec::new() }
    }

    /// Stores `w` under its identifier, replacing what was stored there.
    pub fn save_workspace(&mut self, w: Workspace)
        ensures
            final(self).task_items() == old(self).task_items(),
            final(self).event_items() == old(self).event_items(),
            final(self).workspace_items().contains(w),
            forall|j: int| 0 <= j < old(self).workspace_items().len() && old(self).workspace_items()[j].id != w.id
                ==> final(self).workspace_items().contains(old(self).workspace_items()[j]),
            forall|x: Workspace| final(self).workspace_items().contains(x) ==> x == w || (old(self).workspace_items().contains(x) && x.id != w.id),
    {
        proof {
            use_type_invariant(&*self);
        }
        let ghost wv = w;
        let mut all: Vec<Workspace> = Vec::new();
        std::mem::swap(&mut all, &mut self.workspaces);
        let ghost before = all@;
        let mut p: usize = 0;
        while p < all.len() && all[p].id < w.id
            invariant
                all@ == before,
                p <= before.len(),
                forall|j: int| 0 <= j < p ==> before[j].id < w.id,
            decreases all.len() - p,
        {
            p += 1;
        }
        if p < all.len() && all[p].id == w.id {
            all.set(p, w);
            proof {
                assert(all@[p as int] == wv);
                assert forall|j: int| 0 <= j < before.len() && before[j].id != wv.id implies all@.contains(before[j]) by {
                    assert(all@[j] == before[j]);
                }
                assert forall|x: Workspace| all@.contains(x) implies x == wv || (before.contains(x) && x.id != wv.id) by {
                    let q = choose|q: int| 0 <= q < all@.len() && all@[q] == x;
                    if q != p {
                        assert(all@[q] == before[q]);
                    }
                }
            }
        } else {
            all.insert(p, w);
            proof {
                assert(all@[p as int] == wv);
                assert forall|j: int| 0 <= j < before.len() && before[j].id != wv.id implies all@.contains(before[j]) by {
                    if j < p {
                        assert(all@[j] == before[j]);
                    } else {
                        assert(all@[j + 1] == before[j]);
                    }
                }
                assert forall|x: Workspace| all@.contains(x) implies x == wv || (before.contains(x) && x.id != wv.id) by {
                    let q = choose|q: int| 0 <= q < all@.len() && all@[q] == x;
                    if q < p {
                        assert(all@[q] == before[q]);
                    } else if q > p {
                        assert(all@[q] == before[q - 1]);
                    }
                }
            }
        }
        self.workspaces = all;
    }

    /// Stores `t` under its identifier, replacing what was stored there.
    pub fn save_task(&mut self, t: DeveloperTask)
        ensures
            final(self).workspace_items() == old(self).workspace_items(),
            final(self).event_items() == old(self).event_items(),
            final(self).task_of(t.id) == Some(t),
            forall|id: DeveloperTaskId| id != t.id ==> final(self).task_of(id) == old(self).task_of(id),
    {
        proof {
            use_type_invariant(&*self);
        }
        let ghost tv = t;
        let mut all: Vec<DeveloperTask> = Vec::new();
        std::mem::swap(&mut all, &mut self.tasks);
        let ghost before = all@;
        let mut p: usize = 0;
        while p < all.len() && all[p].id < t.id
            invariant
                all@ == before,
                p <= before.len(),
                forall|j: int| 0 <= j < p ==> before[j].id < t.id,
            decreases all.len() - p,
        {
            p += 1;
        }
        if p < all.len() && all[p].id == t.id {
            all.set(p, t);
        } else {
            all.insert(p, t);
        }
        proof {
            assert(all@[p as int] == tv);
            assert forall|i: int, j: int| 0 <= i < j < all@.len() implies all@[i].id < all@[j].id by {
                if all@.len() == before.len() {
                    if i != p { assert(all@[i] == before[i]); }
                    if j != p { assert(all@[j] == before[j]); }
                } else {
                    if i < p { assert(all@[i] == before[i]); } else if i > p { assert(all@[i] == before[i - 1]); }
                    if j < p { assert(all@[j] == before[j]); } else if j > p { assert(all@[j] == before[j - 1]); }
                }
            }
        }
        self.tasks = all;
        proof {
            lemma_task_of_unique(self.tasks@, p as int);
            assert forall|id: DeveloperTaskId| id != tv.id implies #[trigger] self.task_of(id) == old(self).task_of(id) by {
                if exists|i: int| 0 <= i < before.len() && (#[trigger] before[i]).id == id {
                    let i = choose|i: int| 0 <= i < before.len() && (#[trigger] before[i]).id == id;
                    let k = if self.tasks@.len() == before.len() || i < p { i } else { i + 1 };
                    assert(self.tasks@[k] == before[i]);
                    lemma_task_of_unique(self.tasks@, k);
                    lemma_task_of_unique(before, i);
                } else {
                    if exists|k: int| 0 <= k < self.tasks@.len() && (#[trigger] self.tasks@[k]).id == id {
                        let k = choose|k: int| 0 <= k < self.tasks@.len() && (#[trigger] self.tasks@[k]).id == id;
                        if k != p {
                            let i = if self.tasks@.len() == before.len() || k < p { k } else { k - 1 };
                            assert(self.tasks@[k] == before[i]);
                        }
                    }
                }
            }
        }
    }

    /// The task stored under `id`.
    pub fn load_task(&self, id: DeveloperTaskId) -> (r: Option<&DeveloperTask>)
        ensures
            match r {
                Some(t) => self.task_of(id) == Some(*t),
                None => self.task_of(id) is None,
            },
    {
        proof {
            use_type_invariant(self);
        }
        let mut i: usize = 0;
        while i < self.tasks.len()
            invariant
                i <= self.tasks@.len(),
                forall|j: int| 0 <= j < i ==> self.tasks@[j].id != id,
                forall|a: int, b: int| 0 <= a < b < self.tasks@.len() ==> self.tasks@[a].id < self.tasks@[b].id,
            decreases self.tasks.len() - i,
        {
            if self.tasks[i].id == id {
                proof {
                    lemma_task_of_unique(self.tasks@, i as int);
                }
                return Some(&self.tasks[i]);
            }
            i += 1;
        }
        None
    }

    /// Appends an event under `event_id`, dropping any earlier event of the
    /// same task with the same sequence number.
    pub fn append_event_at(&mut self, task_id: DeveloperTaskId, sequence: u64, event_type: &str, payload: String, event_id: u128)
        ensures
            final(self).workspace_items() == old(self).workspace_items(),
            final(self).task_items() == old(self).task_items(),
            final(self).event_items() == appended(old(self).event_items(), StoredEvent {
                event_id,
                task_id,
                sequence,
                event_type: final(self).event_items().last().event_type,
                payload,
            }),
            final(self).event_items().last().event_type@ == event_type@,
    {
        let ghost keep = |x: StoredEvent| !(x.task_id == task_id && x.sequence == sequence);
        let mut kept: Vec<StoredEvent> = Vec::new();
        let mut i: usize = 0;
        while i < self.events.len()
            invariant
                i <= self.events@.len(),
                keep == (|x: StoredEvent| !(x.task_id == task_id && x.sequence == sequence)),
                kept@ == self.events@.take(i as int).filter(keep),
            decreases self.events.len() - i,
        {
            assert(self.events@.take(i + 1).drop_last() =~= self.events@.take(i as int));
            reveal(Seq::filter);
            let e = &self.events[i];
            if !(e.task_id == task_id && e.sequence == sequence) {
                kept.push(StoredEvent {
                    event_id: e.event_id,
                    task_id: e.task_id,
                    sequence: e.sequence,
                    event_type: e.event_type.clone(),
                    payload: e.payload.clone(),
                });
            }
            i += 1;
        }
        assert(self.events@.take(self.events.len() as int) =~= self.events@);
        kept.push(StoredEvent { event_id, task_id, sequence, event_type: owned(event_type), payload });
        proof {
            use_type_invariant(&*self);
        }
        self.events = kept;
    }

    /// Appends an event under a fresh random identifier; see
    /// `append_event_at`.
    pub fn append_event(&mut self, task_id: DeveloperTaskId, sequence: u64, event_type: &str, payload: String) -> (r: Result<(), crate::developer::DeveloperError>)
        ensures
            r matches Err(e) ==> crate::developer::platform_failure(e) && *final(self) == *old(self),
            r is Ok ==> {
                &&& final(self).workspace_items() == old(self).workspace_items()
                &&& final(self).task_items() == old(self).task_items()
                &&& final(self).event_items().len() >= 1
                &&& final(self).event_items().drop_last() == old(self).event_items().filter(|x: StoredEvent| !(x.task_id == task_id && x.sequence == sequence))
                &&& final(self).event_items().last().task_id == task_id
                &&& final(self).event_items().last().sequence == sequence
                &&& final(self).event_items().last().event_type@ == event_type@
            },
    {
        let id = match crate::platform::fresh_id() {
            Some(v) => v,
            None => {
                return Err(crate::developer::random_failure());
            },
        };
        self.append_event_at(task_id, sequence, event_type, payload, id);
        Ok(())
    }

    /// The most recently updated tasks, at most `limit` and never more than
    /// five hundred, newest first; tasks updated at the same instant come in
    /// identifier order.
    pub fn list_tasks(&self, limit: usize) -> (r: Vec<&DeveloperTask>)
        ensures
            exists|sorted: Seq<DeveloperTask>| tasks_in_order(sorted, self.task_items())
                && crate::relay::derefs(r@) == sorted.take(task_cap(sorted.len(), limit)),
    {
        let mut out: Vec<&DeveloperTask> = Vec::new();
        let mut i: usize = 0;
        assert(crate::relay::derefs(out@) =~= self.tasks@.take(0));
        while i < self.tasks.len()
            invariant
                i <= self.tasks@.len(),
                tasks_in_order(crate::relay::derefs(out@), self.tasks@.take(i as int)),
            decreases self.tasks.len() - i,
        {
            let t = &self.tasks[i];
            let mut p: usize = 0;
            while p < out.len() && !(t.updated_at > out[p].updated_at || (t.updated_at == out[p].updated_at && t.id < out[p].id))
                invariant
                    p <= out@.len(),
                    forall|a: int| 0 <= a < p ==> !task_before(*t, #[trigger] crate::relay::derefs(out@)[a]),
                decreases out.len() - p,
            {
                p += 1;
            }
            proof {
                let d = crate::relay::derefs(out@);
                assert(crate::relay::derefs(out@.insert(p as int, t)) =~= d.insert(p as int, *t));
                lemma_insert_tasks(d, *t, p as int);
                vstd::seq_lib::to_multiset_insert(d, p as int, *t);
                vstd::seq_lib::to_multiset_build(self.tasks@.take(i as int), *t);
                assert(self.tasks@.take(i + 1) =~= self.tasks@.take(i as int).push(*t));
            }
            out.insert(p, t);
            i += 1;
        }
        assert(self.tasks@.take(self.tasks.len() as int) =~= self.tasks@);
        let ghost sorted = crate::relay::derefs(out@);
        let n: usize = if limit < 500 {
            limit
        } else {
            500
        };
        if n < out.len() {
            out.truncate(n);
        }
        assert(crate::relay::derefs(out@) =~= sorted.take(task_cap(sorted.len(), limit)));
        assert(tasks_in_order(sorted, self.task_items()));
        out
    }

    /// The workspaces in identifier order.
    pub fn workspaces(&self) -> (r: &Vec<Workspace>)
        ensures
            r@ == self.workspace_items(),
    {
        &self.workspaces
    }

    /// The event log in append order.
    pub fn events(&self) -> (r: &Vec<StoredEvent>)
        ensures
            r@ == self.event_items(),
    {
        &self.events
    }
}

/// In a list of tasks with increasing identifiers, the task at `k` is the
/// one `task_of` finds for its identifier.
proof fn lemma_task_of_unique(s: Seq<DeveloperTask>, k: int)
    requires
        0 <= k < s.len(),
        forall|a: int, b: int| 0 <= a < b < s.len() ==> s[a].id < s[b].id,
    ensures
        forall|j: int| 0 <= j < s.len() && (#[trigger] s[j]).id == s[k].id ==> j == k,
{
}

proof fn lemma_insert_tasks(s: Seq<DeveloperTask>, c: DeveloperTask, p: int)
    requires
        0 <= p <= s.len(),
        forall|a: int, b: int| 0 <= a < b < s.len() ==> !task_before(#[trigger] s[b], #[trigger] s[a]),
        forall|a: int| 0 <= a < p ==> !task_before(c, #[trigger] s[a]),
        p < s.len() ==> task_before(c, s[p]),
    ensures
        forall|a: int, b: int| 0 <= a < b < s.insert(p, c).len() ==> !task_before(#[trigger] s.insert(p, c)[b], #[trigger] s.insert(p, c)[a]),
{
    let t = s.insert(p, c);
    assert forall|a: int, b: int| 0 <= a < b < t.len() implies !task_before(#[trigger] t[b], #[trigger] t[a]) by {
        if b == p {
            assert(t[a] == s[a]);
        } else if a == p {
            assert(t[b] == s[b - 1]);
        } else {
            let sa = if a < p { a } else { a - 1 };
            let sb = if b < p { b } else { b - 1 };
            assert(t[a] == s[sa]);
            assert(t[b] == s[sb]);
        }
    }
}

} // verus!
