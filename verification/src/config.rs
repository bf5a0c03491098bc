//! The approved states that a configuration file lists.

use crate::gitversion::GitVersionState;
use crate::table::Table;
use crate::task::{state_views, SupportedTask, TaskKind, TaskValidState, ValidState};
use vstd::prelude::*;

verus! {

/// The approved states by task: the triples of the versioning tool, and
/// for any other task, by its name, its approved versions.
#[derive(Debug)]
pub struct TaskStates {
    pub gitversion: Vec<GitVersionState>,
    pub other_tasks: Table<Vec<String>>,
}

/// A configuration.
#[derive(Debug)]
pub struct Config {
    pub task_states: TaskStates,
}

impl Default for TaskStates {
    fn default() -> (r: Self)
        ensures
            r.gitversion@.len() == 0,
            r.other_tasks.count() == 0,
            r.other_tasks.wf(),
    {
        TaskStates { gitversion: Vec::new(), other_tasks: Table::new() }
    }
}

impl Config {
    /// The states that the configuration approves for a task: each triple
    /// of the versioning tool, or each version listed under the task's
    /// name, in the order of the configuration.
    pub open spec fn valid_states(&self, task: TaskKind) -> Seq<ValidState> {
        match task {
            TaskKind::Gitversion => Seq::new(
                self.task_states.gitversion@.len(),
                |i: int|
                    {
                        let state = self.task_states.gitversion@[i];
                        ValidState::Triple(
                            state.setup_version@,
                            state.execute_version@,
                            state.spec_version@,
                        )
                    },
            ),
            TaskKind::Default(name) => if self.task_states.other_tasks.has(name) {
                let versions = self.task_states.other_tasks.value_at(
                    self.task_states.other_tasks.slot(name),
                );
                Seq::new(versions@.len(), |i: int| ValidState::Single(versions@[i]@))
            } else {
                Seq::<ValidState>::empty()
            },
        }
    }

    /// The states that the configuration approves for a task.
    pub fn get_valid_states(&self, task: &SupportedTask) -> (r: Vec<TaskValidState>)
        ensures
            state_views(r@) == self.valid_states(task@),
    {
        let mut out: Vec<TaskValidState> = Vec::new();
        match task {
            SupportedTask::Gitversion => {
                let list = &self.task_states.gitversion;
                let mut i: usize = 0;
                while i < list.len()
                    invariant
                        i <= list.len(),
                        list == &self.task_states.gitversion,
                        state_views(out@) == self.valid_states(TaskKind::Gitversion).take(
                            i as int,
                        ),
                    decreases list.len() - i,
                {
                    let item = TaskValidState::Gitversion(list[i].duplicate());
                    let ghost before = state_views(out@);
                    out.push(item);
                    assert(state_views(out@) == before.push(item@));
                    assert(self.valid_states(TaskKind::Gitversion).take(i + 1)
                        == self.valid_states(TaskKind::Gitversion).take(i as int).push(item@));
                    i = i + 1;
                }
                assert(self.valid_states(TaskKind::Gitversion).take(list.len() as int)
                    == self.valid_states(TaskKind::Gitversion));
            },
            SupportedTask::Default(name) => {
                match self.task_states.other_tasks.get(name.as_str()) {
                    Some(versions) => {
                        let ghost all = self.valid_states(TaskKind::Default(name@));
                        let mut i: usize = 0;
                        while i < versions.len()
                            invariant
                                i <= versions.len(),
                                all.len() == versions@.len(),
                                forall|j: int|
                                    0 <= j < all.len() ==> all[j] == ValidState::Single(
                                        versions@[j]@,
                                    ),
                                state_views(out@) == all.take(i as int),
                            decreases versions.len() - i,
                        {
                            let item = TaskValidState::Default(versions[i].clone());
                            let ghost before = state_views(out@);
                            out.push(item);
                            assert(state_views(out@) == before.push(item@));
                            assert(all.take(i + 1) == all.take(i as int).push(item@));
                            i = i + 1;
                        }
                        assert(all.take(versions.len() as int) == all);
                    },
                    None => {
                        assert(state_views(out@) == Seq::<ValidState>::empty());
                    },
                }
            },
        }
        out
    }
}

} // verus!
