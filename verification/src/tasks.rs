//! The task registry: the set of in-flight background operations, keyed by
//! plugin identity and operation kind. An entry is inserted before work
//! starts and removed when it completes, success or failure; starting an
//! operation whose key is already present is refused, so at most one
//! operation runs per (identity, kind) at any instant.

use vstd::prelude::*;
use vstd::string::*;

verus! {

/// The kinds of background work an identity can have in flight.
#[derive(Debug, Clone, Copy, PartialEq, Eq, Structural)]
pub enum OperationKind {
    Install,
    Update,
    Enable,
    Disable,
    Download,
}

/// One in-flight operation.
pub struct Task {
    pub plugin_id: String,
    pub kind: OperationKind,
}

impl Clone for Task {
    fn clone(&self) -> (r: Self)
        ensures
            r == *self,
    {
        Task { plugin_id: self.plugin_id.clone(), kind: self.kind }
    }
}

/// The registry of in-flight operations.
pub struct TaskRegistry {
    tasks: Vec<Task>,
}

impl TaskRegistry {
    pub closed spec fn spec_tasks(self) -> Seq<(Seq<char>, OperationKind)> {
        self.tasks@.map_values(|t: Task| (t.plugin_id@, t.kind))
    }

    /// Whether an operation of this kind is in flight for this identity.
    pub open spec fn spec_has_task(self, id: Seq<char>, kind: OperationKind) -> bool {
        exists|j: int|
            0 <= j < self.spec_tasks().len() && #[trigger] self.spec_tasks()[j] == (id, kind)
    }

    /// No key occurs twice: at most one task per (identity, kind).
    pub open spec fn spec_wf(self) -> bool {
        forall|j1: int, j2: int|
            0 <= j1 < j2 < self.spec_tasks().len() ==> #[trigger] self.spec_tasks()[j1]
                != #[trigger] self.spec_tasks()[j2]
    }

    /// An empty registry.
    pub fn new() -> (r: Self)
        ensures
            r.spec_tasks().len() == 0,
            r.spec_wf(),
    {
        let r = TaskRegistry { tasks: Vec::new() };
        assert(r.spec_tasks() =~= Seq::<(Seq<char>, OperationKind)>::empty());
        r
    }

    pub fn task_count(&self) -> (r: usize)
        ensures
            r == self.spec_tasks().len(),
    {
        self.tasks.len()
    }

    fn find_index(&self, plugin_id: &str, kind: OperationKind) -> (r: Option<usize>)
        ensures
            match r {
                Some(j) => 0 <= j < self.spec_tasks().len() && self.spec_tasks()[j as int] == (
                    plugin_id@,
                    kind,
                ),
                None => !self.spec_has_task(plugin_id@, kind),
            },
    {
        let id: String = String::from_str(plugin_id);
        let mut j: usize = 0;
        while j < self.tasks.len()
            invariant
                j <= self.tasks@.len(),
                id@ == plugin_id@,
                forall|m: int|
                    0 <= m < j ==> #[trigger] self.spec_tasks()[m] != (plugin_id@, kind),
            decreases self.tasks@.len() - j,
        {
            let t: &Task = &self.tasks[j];
            if t.plugin_id == id && t.kind == kind {
                assert(self.spec_tasks()[j as int] == (plugin_id@, kind));
                return Some(j);
            }
            assert(self.spec_tasks()[j as int] != (plugin_id@, kind));
            j = j + 1;
        }
        None
    }

    /// Whether this key is in flight.
    pub fn is_in_flight(&self, plugin_id: &str, kind: OperationKind) -> (r: bool)
        ensures
            r == self.spec_has_task(plugin_id@, kind),
    {
        match self.find_index(plugin_id, kind) {
            Some(_) => true,
            None => false,
        }
    }

    /// Registers an operation unless its key is already in flight. Starting
    /// a duplicate is a no-op: the registry is unchanged and the start is
    /// refused, so the task count for that key never exceeds one.
    pub fn try_start(&mut self, plugin_id: &str, kind: OperationKind) -> (r: bool)
        requires
            old(self).spec_wf(),
        ensures
            final(self).spec_wf(),
            old(self).spec_has_task(plugin_id@, kind) ==> (r == false && final(self).spec_tasks()
                == old(self).spec_tasks()),
            !old(self).spec_has_task(plugin_id@, kind) ==> (r == true && final(self).spec_tasks()
                == old(self).spec_tasks().push((plugin_id@, kind))),
    {
        match self.find_index(plugin_id, kind) {
            Some(_) => false,
            None => {
                let ghost old_tasks = self.spec_tasks();
                self.tasks.push(Task { plugin_id: String::from_str(plugin_id), kind });
                assert(self.spec_tasks() =~= old_tasks.push((plugin_id@, kind)));
                assert(final(self).spec_wf()) by {
                    assert(forall|m: int|
                        0 <= m < old_tasks.len() ==> #[trigger] self.spec_tasks()[m]
                            == old_tasks[m]);
                }
                true
            },
        }
    }

    /// Removes an operation's entry when it completes, success or failure.
    /// Entries of other keys survive in order.
    pub fn finish(&mut self, plugin_id: &str, kind: OperationKind)
        requires
            old(self).spec_wf(),
        ensures
            final(self).spec_wf(),
            !final(self).spec_has_task(plugin_id@, kind),
            old(self).spec_has_task(plugin_id@, kind) ==> exists|j: int|
                0 <= j < old(self).spec_tasks().len() && old(self).spec_tasks()[j] == (
                plugin_id@,
                kind,
                ) && final(self).spec_tasks() == old(self).spec_tasks().remove(j),
            !old(self).spec_has_task(plugin_id@, kind) ==> final(self).spec_tasks() == old(
                self,
            ).spec_tasks(),
    {
        match self.find_index(plugin_id, kind) {
            Some(j) => {
                let ghost old_tasks = self.spec_tasks();
                self.tasks.remove(j);
                assert(self.spec_tasks() =~= old_tasks.remove(j as int));
                assert(final(self).spec_wf()) by {
                    assert(forall|m: int|
                        0 <= m < self.spec_tasks().len() ==> #[trigger] self.spec_tasks()[m] == (
                        if m < j as int {
                            old_tasks[m]
                        } else {
                            old_tasks[m + 1]
                        }));
                }
                assert(!final(self).spec_has_task(plugin_id@, kind)) by {
                    if final(self).spec_has_task(plugin_id@, kind) {
                        let m = choose|m: int|
                            0 <= m < self.spec_tasks().len() && #[trigger] self.spec_tasks()[m]
                                == (plugin_id@, kind);
                        if m < j as int {
                            assert(old_tasks[m] == (plugin_id@, kind));
                            assert(old_tasks[j as int] == (plugin_id@, kind));
                        } else {
                            assert(old_tasks[m + 1] == (plugin_id@, kind));
                            assert(old_tasks[j as int] == (plugin_id@, kind));
                        }
                    }
                }
            },
            None => {},
        }
    }
}

} // verus!
