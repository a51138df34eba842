//! The registry of tool calls running in the background.
//!
//! A call that outlives its threshold keeps running as a task; the
//! registry holds its handle so that it can be cancelled, listed per
//! session, and cleaned up with its session.

use vstd::prelude::*;
use crate::keyed::{keys_in, lemma_remove_keyed};
use crate::text::{str_eq, to_string, views};

verus! {

/// `tokio::task::JoinHandle`, the handle of a spawned task.
#[verifier::external_type_specification]
#[verifier::external_body]
#[verifier::reject_recursive_types(T)]
pub struct ExJoinHandle<T>(tokio::task::JoinHandle<T>);

/// `tokio::task::JoinError`, what awaiting a failed task yields; the
/// handle's declaration needs it.
#[verifier::external_type_specification]
#[verifier::external_body]
pub struct ExJoinError(tokio::task::JoinError);

/// The ids of the tasks whose cancellation the registry asked for.
struct AbortRecord {
    ids: Ghost<Set<Seq<char>>>,
}

/// `JoinHandle::abort` on the handle of `task`: asks the runtime to cancel
/// that task, and records the id the handle was registered under.
/// Whether and when the task stops is the runtime's part and not claimed.
#[verifier::external_body]
fn abort_task(record: &mut AbortRecord, task: &RunningTask)
    ensures
        final(record).ids@ == old(record).ids@.insert(task.handle_id@),
{
    task.handle.abort();
}

/// External resources that live as long as a session and must be released
/// when it is deleted or recycled.  Implementations must be idempotent:
/// cleaning a session twice is safe.
pub trait SessionResourceCleanup {
    /// Releases every resource of `session_id`.
    fn cleanup(&self, session_id: &str);
}

/// A background task as queries see it.
#[derive(Debug, Clone)]
pub struct TaskSummary {
    pub task_id: String,
    pub call_id: String,
    pub tool_name: String,
}

/// What the registry knows of a task: its call id, tool name and session.
pub struct TaskInfo {
    pub call_id: Seq<char>,
    pub tool_name: Seq<char>,
    pub session_id: Seq<char>,
}

struct RunningTask {
    call_id: String,
    tool_name: String,
    session_id: String,
    handle: tokio::task::JoinHandle<()>,
    /// The id the handle was registered under.
    handle_id: Ghost<Seq<char>>,
}

/// All running background tasks, keyed by task id.
pub struct BackgroundTaskManager {
    tasks: Vec<(String, RunningTask)>,
    aborts: AbortRecord,
}

/// The tasks of `tasks` as a map.
spec fn task_map(tasks: Seq<(String, RunningTask)>) -> Map<Seq<char>, TaskInfo>
    decreases tasks.len(),
{
    if tasks.len() == 0 {
        Map::empty()
    } else {
        let (id, t) = tasks.last();
        task_map(tasks.drop_last()).insert(
            id@,
            TaskInfo { call_id: t.call_id@, tool_name: t.tool_name@, session_id: t.session_id@ },
        )
    }
}

/// Task ids are unique, and each handle is the one registered under its
/// entry's id.
spec fn unique_ids(tasks: Seq<(String, RunningTask)>) -> bool {
    &&& forall|i: int, j: int| 0 <= i < j < tasks.len() ==> (#[trigger] tasks[i]).0@ != (#[trigger] tasks[j]).0@
    &&& forall|i: int| 0 <= i < tasks.len() ==> (#[trigger] tasks[i]).1.handle_id@ == tasks[i].0@
}

proof fn lemma_task_map_keys(tasks: Seq<(String, RunningTask)>)
    requires
        unique_ids(tasks),
    ensures
        forall|id: Seq<char>| task_map(tasks).contains_key(id) <==> exists|i: int| 0 <= i < tasks.len() && (#[trigger] tasks[i]).0@ == id,
        forall|i: int| 0 <= i < tasks.len() ==> task_map(tasks)[(#[trigger] tasks[i]).0@] == (TaskInfo {
            call_id: tasks[i].1.call_id@,
            tool_name: tasks[i].1.tool_name@,
            session_id: tasks[i].1.session_id@,
        }),
    decreases tasks.len(),
{
    if tasks.len() > 0 {
        let pre = tasks.drop_last();
        lemma_task_map_keys(pre);
        assert forall|id: Seq<char>| task_map(tasks).contains_key(id) implies exists|i: int| 0 <= i < tasks.len() && (#[trigger] tasks[i]).0@ == id by {
            if id != tasks.last().0@ {
                assert(task_map(pre).contains_key(id));
                let i = choose|i: int| 0 <= i < pre.len() && (#[trigger] pre[i]).0@ == id;
                assert(tasks[i] == pre[i]);
            } else {
                assert(tasks[tasks.len() - 1].0@ == id);
            }
        }
        assert forall|id: Seq<char>| (exists|i: int| 0 <= i < tasks.len() && (#[trigger] tasks[i]).0@ == id) implies task_map(tasks).contains_key(id) by {
            let i = choose|i: int| 0 <= i < tasks.len() && (#[trigger] tasks[i]).0@ == id;
            if i < tasks.len() - 1 {
                assert(pre[i] == tasks[i]);
            }
        }
        assert forall|i: int| 0 <= i < tasks.len() implies task_map(tasks)[(#[trigger] tasks[i]).0@] == (TaskInfo {
            call_id: tasks[i].1.call_id@,
            tool_name: tasks[i].1.tool_name@,
            session_id: tasks[i].1.session_id@,
        }) by {
            if i < tasks.len() - 1 {
                assert(pre[i] == tasks[i]);
                assert(tasks[i].0@ != tasks[tasks.len() - 1].0@);
            }
        }
    }
}

proof fn lemma_task_map_remove(tasks: Seq<(String, RunningTask)>, i: int)
    requires
        unique_ids(tasks),
        0 <= i < tasks.len(),
    ensures
        unique_ids(tasks.remove(i)),
        task_map(tasks.remove(i)) == task_map(tasks).remove(tasks[i].0@),
{
    let r = tasks.remove(i);
    let key = |t: (String, RunningTask)| t.0@;
    lemma_remove_keyed(tasks, key, i);
    assert forall|a: int| 0 <= a < r.len() implies (#[trigger] r[a]).1.handle_id@ == r[a].0@ by {
        assert(r[a] == tasks[if a < i { a } else { a + 1 }]);
    }
    lemma_task_map_keys(tasks);
    lemma_task_map_keys(r);
    let m = task_map(tasks).remove(tasks[i].0@);
    assert forall|id: Seq<char>| task_map(r).contains_key(id) <==> m.contains_key(id) by {
        assert(keys_in(r, key).contains(id) == keys_in(tasks, key).remove(tasks[i].0@).contains(id));
    }
    assert forall|id: Seq<char>| #[trigger] task_map(r).contains_key(id) implies task_map(r)[id] == m[id] by {
        let k = choose|k: int| 0 <= k < r.len() && (#[trigger] r[k]).0@ == id;
        assert(r[k] == tasks[if k < i { k } else { k + 1 }]);
    }
    assert(task_map(r) =~= m);
}

/// Some summary in `r` has task id `id`.
pub open spec fn listed(r: Seq<TaskSummary>, id: Seq<char>) -> bool {
    exists|k: int| 0 <= k < r.len() && (#[trigger] r[k]).task_id@ == id
}

/// Among the first `i` tasks, one with id `id` belongs to session `s`.
spec fn seen(tasks: Seq<(String, RunningTask)>, i: int, s: Seq<char>, id: Seq<char>) -> bool {
    exists|j: int| 0 <= j < i && (#[trigger] tasks[j]).0@ == id && tasks[j].1.session_id@ == s
}

spec fn matches_task(t: (String, RunningTask), summary: TaskSummary) -> bool {
    &&& t.0@ == summary.task_id@
    &&& t.1.call_id@ == summary.call_id@
    &&& t.1.tool_name@ == summary.tool_name@
}

/// `summary` describes one of the first `i` tasks.
spec fn from_task(tasks: Seq<(String, RunningTask)>, i: int, summary: TaskSummary) -> bool {
    exists|j: int| 0 <= j < i && #[trigger] matches_task(tasks[j], summary)
}

/// The tasks of `m0` of `session_id` that `m` no longer holds.
spec fn removed_tasks(m0: Map<Seq<char>, TaskInfo>, session_id: Seq<char>, m: Map<Seq<char>, TaskInfo>) -> Set<Seq<char>> {
    Set::new(|id: Seq<char>| m0.contains_key(id) && m0[id].session_id == session_id && !m.contains_key(id))
}

/// The tasks of `m` that belong to `session_id`.
pub open spec fn session_tasks(m: Map<Seq<char>, TaskInfo>, session_id: Seq<char>) -> Set<Seq<char>> {
    m.dom().filter(|id: Seq<char>| m[id].session_id == session_id)
}

/// `m` without the tasks of `session_id`.
pub open spec fn without_session(m: Map<Seq<char>, TaskInfo>, session_id: Seq<char>) -> Map<Seq<char>, TaskInfo> {
    m.restrict(m.dom().filter(|id: Seq<char>| m[id].session_id != session_id))
}

impl View for BackgroundTaskManager {
    type V = Map<Seq<char>, TaskInfo>;

    closed spec fn view(&self) -> Map<Seq<char>, TaskInfo> {
        task_map(self.tasks@)
    }
}

impl BackgroundTaskManager {
    /// The registry is well formed: task ids are unique.
    pub closed spec fn wf(&self) -> bool {
        unique_ids(self.tasks@)
    }

    /// The ids of the tasks this registry asked the runtime to cancel.
    pub closed spec fn aborted(&self) -> Set<Seq<char>> {
        self.aborts.ids@
    }

    /// An empty registry.
    pub fn new() -> (r: Self)
        ensures
            r.wf(),
            r@ == Map::<Seq<char>, TaskInfo>::empty(),
            r.aborted() == Set::<Seq<char>>::empty(),
    {
        BackgroundTaskManager { tasks: Vec::new(), aborts: AbortRecord { ids: Ghost(Set::empty()) } }
    }

    fn position(&self, task_id: &str) -> (r: Option<usize>)
        requires
            self.wf(),
        ensures
            match r {
                Some(i) => i < self.tasks@.len() && self.tasks@[i as int].0@ == task_id@,
                None => !self@.contains_key(task_id@),
            },
    {
        proof {
            lemma_task_map_keys(self.tasks@);
        }
        let mut i: usize = 0;
        while i < self.tasks.len()
            invariant
                0 <= i <= self.tasks@.len(),
                forall|j: int| 0 <= j < i ==> (#[trigger] self.tasks@[j]).0@ != task_id@,
            decreases self.tasks@.len() - i,
        {
            if str_eq(self.tasks[i].0.as_str(), task_id) {
                return Some(i);
            }
            i = i + 1;
        }
        None
    }

    /// Whether `task_id` is registered.
    pub fn contains(&self, task_id: &str) -> (r: bool)
        requires
            self.wf(),
        ensures
            r == self@.contains_key(task_id@),
    {
        proof {
            lemma_task_map_keys(self.tasks@);
        }
        self.position(task_id).is_some()
    }

    /// Registers a task under `task_id`; an entry with the same id is
    /// replaced (its handle dropped, the task left running).
    pub fn register(
        &mut self,
        task_id: String,
        session_id: String,
        call_id: String,
        tool_name: String,
        handle: tokio::task::JoinHandle<()>,
    ) -> (r: String)
        requires
            old(self).wf(),
        ensures
            final(self).wf(),
            r@ == task_id@,
            final(self)@ == old(self)@.insert(
                task_id@,
                TaskInfo { call_id: call_id@, tool_name: tool_name@, session_id: session_id@ },
            ),
            final(self).aborted() == old(self).aborted(),
    {
        if let Some(i) = self.position(task_id.as_str()) {
            proof {
                lemma_task_map_remove(self.tasks@, i as int);
            }
            let _replaced = self.tasks.remove(i);
        }
        let ghost before = self.tasks@;
        proof {
            lemma_task_map_keys(before);
        }
        let id = to_string(task_id.as_str());
        let handle_id = Ghost(task_id@);
        self.tasks.push((task_id, RunningTask { call_id, tool_name, session_id, handle, handle_id }));
        proof {
            assert(self.tasks@.drop_last() =~= before);
            assert forall|i: int, j: int| 0 <= i < j < self.tasks@.len() implies (#[trigger] self.tasks@[i]).0@ != (
            #[trigger] self.tasks@[j]).0@ by {
                if j == self.tasks@.len() - 1 {
                    assert(before[i] == self.tasks@[i]);
                } else {
                    assert(before[i] == self.tasks@[i]);
                    assert(before[j] == self.tasks@[j]);
                }
            }
            assert forall|i: int| 0 <= i < self.tasks@.len() implies (#[trigger] self.tasks@[i]).1.handle_id@
                == self.tasks@[i].0@ by {
                if i < before.len() {
                    assert(before[i] == self.tasks@[i]);
                }
            }
        }
        id
    }

    /// Removes the entry of a task that finished; true when it was there.
    pub fn remove(&mut self, task_id: &str) -> (r: bool)
        requires
            old(self).wf(),
        ensures
            final(self).wf(),
            r == old(self)@.contains_key(task_id@),
            final(self)@ == old(self)@.remove(task_id@),
            final(self).aborted() == old(self).aborted(),
    {
        match self.position(task_id) {
            Some(i) => {
                proof {
                    lemma_task_map_remove(self.tasks@, i as int);
                    lemma_task_map_keys(self.tasks@);
                }
                let _done = self.tasks.remove(i);
                true
            },
            None => {
                proof {
                    assert(self@.remove(task_id@) =~= self@);
                }
                false
            },
        }
    }

    /// Cancels a task: aborts it and removes its entry.  False when no
    /// such task was registered.
    pub fn cancel(&mut self, task_id: &str) -> (r: bool)
        requires
            old(self).wf(),
        ensures
            final(self).wf(),
            r == old(self)@.contains_key(task_id@),
            final(self)@ == old(self)@.remove(task_id@),
            r ==> final(self).aborted() == old(self).aborted().insert(task_id@),
            !r ==> final(self).aborted() == old(self).aborted(),
    {
        match self.position(task_id) {
            Some(i) => {
                proof {
                    lemma_task_map_remove(self.tasks@, i as int);
                    lemma_task_map_keys(self.tasks@);
                }
                let ghost gone = self.tasks@[i as int];
                let (_id, task) = self.tasks.remove(i);
                proof {
                    assert(gone.1.handle_id@ == task_id@);
                }
                abort_task(&mut self.aborts, &task);
                true
            },
            None => {
                proof {
                    assert(self@.remove(task_id@) =~= self@);
                }
                false
            },
        }
    }

    /// Summaries of the tasks of `session_id`, each task once.
    pub fn list_for_session(&self, session_id: &str) -> (r: Vec<TaskSummary>)
        requires
            self.wf(),
        ensures
            forall|id: Seq<char>| session_tasks(self@, session_id@).contains(id) <==> #[trigger] listed(r@, id),
            forall|k: int| 0 <= k < r@.len() ==> {
                &&& self@.contains_key((#[trigger] r@[k]).task_id@)
                &&& self@[r@[k].task_id@].call_id == r@[k].call_id@
                &&& self@[r@[k].task_id@].tool_name == r@[k].tool_name@
            },
            forall|k: int, l: int| 0 <= k < l < r@.len() ==> (#[trigger] r@[k]).task_id@ != (#[trigger] r@[l]).task_id@,
    {
        proof {
            lemma_task_map_keys(self.tasks@);
        }
        let ghost tasks = self.tasks@;
        let ghost s = session_id@;
        let mut r: Vec<TaskSummary> = Vec::new();
        let mut i: usize = 0;
        while i < self.tasks.len()
            invariant
                0 <= i <= self.tasks@.len(),
                tasks == self.tasks@,
                s == session_id@,
                self.wf(),
                forall|id: Seq<char>| #[trigger] seen(tasks, i as int, s, id) <==> listed(r@, id),
                forall|k: int| 0 <= k < r@.len() ==> #[trigger] from_task(tasks, i as int, r@[k]),
                forall|k: int, l: int| 0 <= k < l < r@.len() ==> (#[trigger] r@[k]).task_id@ != (#[trigger] r@[l]).task_id@,
            decreases self.tasks@.len() - i,
        {
            let id = &self.tasks[i].0;
            let task = &self.tasks[i].1;
            let ghost before = r@;
            if str_eq(task.session_id.as_str(), session_id) {
                r.push(TaskSummary { task_id: id.clone(), call_id: task.call_id.clone(), tool_name: task.tool_name.clone() });
                proof {
                    assert forall|k: int| 0 <= k < before.len() implies (#[trigger] r@[k]).task_id@ != tasks[i as int].0@ by {
                        assert(r@[k] == before[k]);
                        assert(from_task(tasks, i as int, before[k]));
                        let j = choose|j: int| 0 <= j < i && #[trigger] matches_task(tasks[j], before[k]);
                        assert(tasks[j].0@ != tasks[i as int].0@);
                    }
                    assert forall|id2: Seq<char>| #[trigger] seen(tasks, i + 1, s, id2) <==> listed(r@, id2) by {
                        if listed(r@, id2) {
                            let k = choose|k: int| 0 <= k < r@.len() && (#[trigger] r@[k]).task_id@ == id2;
                            if k < before.len() {
                                assert(r@[k] == before[k]);
                                assert(listed(before, id2));
                                assert(seen(tasks, i as int, s, id2));
                                let j = choose|j: int| 0 <= j < i && (#[trigger] tasks[j]).0@ == id2 && tasks[j].1.session_id@ == s;
                                assert(seen(tasks, i + 1, s, id2));
                            } else {
                                assert(tasks[i as int].0@ == id2);
                                assert(tasks[i as int].1.session_id@ == s);
                                assert(seen(tasks, i + 1, s, id2));
                            }
                        }
                        if seen(tasks, i + 1, s, id2) {
                            let j = choose|j: int| 0 <= j < i + 1 && (#[trigger] tasks[j]).0@ == id2 && tasks[j].1.session_id@ == s;
                            if j < i {
                                assert(seen(tasks, i as int, s, id2));
                                assert(listed(before, id2));
                                let k = choose|k: int| 0 <= k < before.len() && (#[trigger] before[k]).task_id@ == id2;
                                assert(r@[k] == before[k]);
                                assert(listed(r@, id2));
                            } else {
                                assert(r@[before.len() as int].task_id@ == id2);
                                assert(listed(r@, id2));
                            }
                        }
                    }
                    assert forall|k: int| 0 <= k < r@.len() implies #[trigger] from_task(tasks, i + 1, r@[k]) by {
                        if k < before.len() {
                            assert(r@[k] == before[k]);
                            assert(from_task(tasks, i as int, before[k]));
                        } else {
                            assert(matches_task(tasks[i as int], r@[k]));
                        }
                    }
                }
            } else {
                proof {
                    assert forall|id2: Seq<char>| #[trigger] seen(tasks, i + 1, s, id2) <==> listed(r@, id2) by {
                        if seen(tasks, i + 1, s, id2) {
                            let j = choose|j: int| 0 <= j < i + 1 && (#[trigger] tasks[j]).0@ == id2 && tasks[j].1.session_id@ == s;
                            assert(j < i);
                            assert(seen(tasks, i as int, s, id2));
                        }
                        if listed(r@, id2) {
                            assert(seen(tasks, i as int, s, id2));
                        }
                    }
                    assert forall|k: int| 0 <= k < r@.len() implies #[trigger] from_task(tasks, i + 1, r@[k]) by {
                        assert(from_task(tasks, i as int, r@[k]));
                    }
                }
            }
            i = i + 1;
        }
        proof {
            assert forall|id: Seq<char>| session_tasks(self@, session_id@).contains(id) <==> #[trigger] listed(r@, id) by {
                if session_tasks(self@, session_id@).contains(id) {
                    let j = choose|j: int| 0 <= j < tasks.len() && (#[trigger] tasks[j]).0@ == id;
                    assert(self@[id].session_id == tasks[j].1.session_id@);
                    assert(seen(tasks, tasks.len() as int, s, id));
                }
                if listed(r@, id) {
                    assert(seen(tasks, tasks.len() as int, s, id));
                    let j = choose|j: int| 0 <= j < tasks.len() && (#[trigger] tasks[j]).0@ == id && tasks[j].1.session_id@ == s;
                    assert(self@[id].session_id == tasks[j].1.session_id@);
                }
            }
            assert forall|k: int| 0 <= k < r@.len() implies {
                &&& self@.contains_key((#[trigger] r@[k]).task_id@)
                &&& self@[r@[k].task_id@].call_id == r@[k].call_id@
                &&& self@[r@[k].task_id@].tool_name == r@[k].tool_name@
            } by {
                assert(from_task(tasks, tasks.len() as int, r@[k]));
                let j = choose|j: int| 0 <= j < tasks.len() && #[trigger] matches_task(tasks[j], r@[k]);
                assert(tasks[j].0@ == r@[k].task_id@);
            }
        }
        r
    }

    /// Aborts and removes every task of `session_id`.
    pub fn cleanup_session(&mut self, session_id: &str)
        requires
            old(self).wf(),
        ensures
            final(self).wf(),
            final(self)@ == without_session(old(self)@, session_id@),
            final(self).aborted() == old(self).aborted().union(session_tasks(old(self)@, session_id@)),
    {
        let ghost m0 = self@;
        let ghost a0 = self.aborted();
        let mut i: usize = 0;
        proof {
            assert(self@ =~= without_session(m0, session_id@).union_prefer_right(self@));
            lemma_task_map_keys(self.tasks@);
            assert(removed_tasks(m0, session_id@, self@) =~= Set::<Seq<char>>::empty());
            assert(a0.union(Set::<Seq<char>>::empty()) =~= a0);
        }
        while i < self.tasks.len()
            invariant
                0 <= i <= self.tasks@.len(),
                self.wf(),
                m0 == old(self)@,
                forall|j: int| 0 <= j < i ==> (#[trigger] self.tasks@[j]).1.session_id@ != session_id@,
                forall|id: Seq<char>| #[trigger] self@.contains_key(id) ==> m0.contains_key(id) && self@[id] == m0[id],
                forall|id: Seq<char>| m0.contains_key(id) && m0[id].session_id != session_id@ ==> #[trigger] self@.contains_key(id),
                self.aborted() == a0.union(removed_tasks(m0, session_id@, self@)),
            decreases self.tasks@.len() - i,
        {
            proof {
                lemma_task_map_keys(self.tasks@);
            }
            if str_eq(self.tasks[i].1.session_id.as_str(), session_id) {
                let ghost before = self@;
                let ghost bt = self.tasks@;
                proof {
                    lemma_task_map_remove(self.tasks@, i as int);
                }
                let (_id, task) = self.tasks.remove(i);
                abort_task(&mut self.aborts, &task);
                proof {
                    let gone = bt[i as int].0@;
                    assert(before.contains_key(gone));
                    assert(!self@.contains_key(gone));
                    assert(removed_tasks(m0, session_id@, self@) =~= removed_tasks(m0, session_id@, before).insert(gone));
                    assert forall|j: int| 0 <= j < i implies (#[trigger] self.tasks@[j]).1.session_id@ != session_id@ by {
                        assert(self.tasks@[j] == bt[j]);
                    }
                    assert(before[bt[i as int].0@].session_id == session_id@);
                    assert forall|id: Seq<char>| m0.contains_key(id) && m0[id].session_id != session_id@ implies #[trigger] self@.contains_key(id) by {
                        assert(before.contains_key(id));
                        assert(id != bt[i as int].0@);
                    }
                }
            } else {
                i = i + 1;
            }
        }
        proof {
            lemma_task_map_keys(self.tasks@);
            let w = without_session(m0, session_id@);
            assert forall|id: Seq<char>| self@.contains_key(id) <==> w.contains_key(id) by {
                if self@.contains_key(id) {
                    let j = choose|j: int| 0 <= j < self.tasks@.len() && (#[trigger] self.tasks@[j]).0@ == id;
                    assert(self@[id].session_id == self.tasks@[j].1.session_id@);
                }
            }
            assert(self@ =~= w);
            assert(removed_tasks(m0, session_id@, self@) =~= session_tasks(m0, session_id@));
        }
    }
}

impl BackgroundTaskManager {
    /// The ids of the tasks of `session_id`, each once.
    pub fn list_active(&self, session_id: &str) -> (r: Vec<String>)
        requires
            self.wf(),
        ensures
            forall|id: Seq<char>| session_tasks(self@, session_id@).contains(id) <==> #[trigger] views(r@).contains(id),
            forall|k: int, l: int| 0 <= k < l < r@.len() ==> (#[trigger] r@[k])@ != (#[trigger] r@[l])@,
    {
        let summaries = self.list_for_session(session_id);
        let mut r: Vec<String> = Vec::new();
        let mut i: usize = 0;
        while i < summaries.len()
            invariant
                0 <= i <= summaries@.len(),
                r@.len() == i,
                forall|k: int| 0 <= k < i ==> (#[trigger] r@[k])@ == summaries@[k].task_id@,
            decreases summaries@.len() - i,
        {
            r.push(summaries[i].task_id.clone());
            i = i + 1;
        }
        proof {
            assert forall|id: Seq<char>| session_tasks(self@, session_id@).contains(id) <==> #[trigger] views(r@).contains(id) by {
                if views(r@).contains(id) {
                    let k = choose|k: int| 0 <= k < views(r@).len() && views(r@)[k] == id;
                    assert(summaries@[k].task_id@ == id);
                    assert(listed(summaries@, id));
                }
                if listed(summaries@, id) {
                    let k = choose|k: int| 0 <= k < summaries@.len() && (#[trigger] summaries@[k]).task_id@ == id;
                    assert(views(r@)[k] == id);
                }
            }
        }
        r
    }

    /// Cancels `task_id` only when it belongs to `session_id`.
    pub fn cancel_in_session(&mut self, session_id: &str, task_id: &str) -> (r: bool)
        requires
            old(self).wf(),
        ensures
            final(self).wf(),
            r == (old(self)@.contains_key(task_id@) && old(self)@[task_id@].session_id == session_id@),
            r ==> final(self)@ == old(self)@.remove(task_id@),
            !r ==> final(self)@ == old(self)@,
            r ==> final(self).aborted() == old(self).aborted().insert(task_id@),
            !r ==> final(self).aborted() == old(self).aborted(),
    {
        proof {
            lemma_task_map_keys(self.tasks@);
        }
        match self.position(task_id) {
            Some(i) => {
                if str_eq(self.tasks[i].1.session_id.as_str(), session_id) {
                    self.cancel(task_id)
                } else {
                    false
                }
            },
            None => false,
        }
    }
}

/// The background tasks of one session runtime: a registry whose callers
/// choose the task ids.
pub struct BackgroundTasks {
    inner: BackgroundTaskManager,
}

impl View for BackgroundTasks {
    type V = Map<Seq<char>, TaskInfo>;

    closed spec fn view(&self) -> Map<Seq<char>, TaskInfo> {
        self.inner@
    }
}

impl BackgroundTasks {
    /// The registry is well formed.
    pub closed spec fn wf(&self) -> bool {
        self.inner.wf()
    }

    /// The ids of the tasks whose cancellation was asked for.
    pub closed spec fn aborted(&self) -> Set<Seq<char>> {
        self.inner.aborted()
    }

    /// No task.
    pub fn new() -> (r: Self)
        ensures
            r.wf(),
            r@ == Map::<Seq<char>, TaskInfo>::empty(),
            r.aborted() == Set::<Seq<char>>::empty(),
    {
        BackgroundTasks { inner: BackgroundTaskManager::new() }
    }

    /// Registers the task `task_id` of `session_id`.
    pub fn register(&mut self, task_id: String, session_id: String, handle: tokio::task::JoinHandle<()>)
        requires
            old(self).wf(),
        ensures
            final(self).wf(),
            final(self)@ == old(self)@.insert(task_id@, TaskInfo { call_id: seq![], tool_name: seq![], session_id: session_id@ }),
            final(self).aborted() == old(self).aborted(),
    {
        let _id = self.inner.register(task_id, session_id, String::new(), String::new(), handle);
    }

    /// Drops the entry of a finished task.
    pub fn remove(&mut self, task_id: &str)
        requires
            old(self).wf(),
        ensures
            final(self).wf(),
            final(self)@ == old(self)@.remove(task_id@),
            final(self).aborted() == old(self).aborted(),
    {
        let _was = self.inner.remove(task_id);
    }

    /// Aborts and removes a task; false when it is unknown.
    pub fn cancel(&mut self, task_id: &str) -> (r: bool)
        requires
            old(self).wf(),
        ensures
            final(self).wf(),
            r == old(self)@.contains_key(task_id@),
            final(self)@ == old(self)@.remove(task_id@),
            r ==> final(self).aborted() == old(self).aborted().insert(task_id@),
            !r ==> final(self).aborted() == old(self).aborted(),
    {
        self.inner.cancel(task_id)
    }

    /// Aborts and removes every task of `session_id`.
    pub fn cleanup_session(&mut self, session_id: &str)
        requires
            old(self).wf(),
        ensures
            final(self).wf(),
            final(self)@ == without_session(old(self)@, session_id@),
            final(self).aborted() == old(self).aborted().union(session_tasks(old(self)@, session_id@)),
    {
        self.inner.cleanup_session(session_id)
    }

    /// The ids of the tasks of `session_id`.
    pub fn list_active(&self, session_id: &str) -> (r: Vec<String>)
        requires
            self.wf(),
        ensures
            forall|id: Seq<char>| session_tasks(self@, session_id@).contains(id) <==> #[trigger] views(r@).contains(id),
            forall|k: int, l: int| 0 <= k < l < r@.len() ==> (#[trigger] r@[k])@ != (#[trigger] r@[l])@,
    {
        self.inner.list_active(session_id)
    }

    /// Cancels `task_id` when it belongs to `session_id` (a reader may only
    /// cancel its own session's tasks).
    pub fn cancel_in_session(&mut self, session_id: &str, task_id: &str) -> (r: bool)
        requires
            old(self).wf(),
        ensures
            final(self).wf(),
            r == (old(self)@.contains_key(task_id@) && old(self)@[task_id@].session_id == session_id@),
            r ==> final(self)@ == old(self)@.remove(task_id@),
            !r ==> final(self)@ == old(self)@,
            r ==> final(self).aborted() == old(self).aborted().insert(task_id@),
            !r ==> final(self).aborted() == old(self).aborted(),
    {
        self.inner.cancel_in_session(session_id, task_id)
    }
}

/// After cleaning up a session, none of its tasks remain and every other
/// task is kept as it was.
pub proof fn law_cleanup_session(m: Map<Seq<char>, TaskInfo>, session_id: Seq<char>)
    ensures
        forall|id: Seq<char>| #[trigger] without_session(m, session_id).contains_key(id) ==> m[id].session_id != session_id,
        forall|id: Seq<char>| m.contains_key(id) && m[id].session_id != session_id ==> #[trigger] without_session(m, session_id).contains_key(id)
            && without_session(m, session_id)[id] == m[id],
        session_tasks(without_session(m, session_id), session_id) == Set::<Seq<char>>::empty(),
        without_session(without_session(m, session_id), session_id) == without_session(m, session_id),
{
    let w = without_session(m, session_id);
    assert(session_tasks(w, session_id) =~= Set::<Seq<char>>::empty());
    assert(without_session(w, session_id) =~= w);
}

/// Cancelling a task right after registering it leaves the registry as a
/// cancel of that id would have left it before: no trace of the task.
pub proof fn law_cancel_undoes_register(m: Map<Seq<char>, TaskInfo>, task_id: Seq<char>, info: TaskInfo)
    ensures
        m.insert(task_id, info).contains_key(task_id),
        m.insert(task_id, info).remove(task_id) == m.remove(task_id),
        !m.contains_key(task_id) ==> m.insert(task_id, info).remove(task_id) == m,
{
    assert(m.insert(task_id, info).remove(task_id) =~= m.remove(task_id));
    if !m.contains_key(task_id) {
        assert(m.remove(task_id) =~= m);
    }
}

} // verus!
