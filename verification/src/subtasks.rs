//! Operations on one task's subtask list: adding, toggling by position,
//! and removing, with the progress roll-up into the parent task.
//!
//! Completion here is deliberately asymmetric to whole-task completion:
//! a roll-up that reaches 100 marks the parent done but does not force
//! the other subtasks to completed, and a removal never changes the
//! parent's status even when the recomputed progress is 100.

use vstd::prelude::*;

use crate::dates::now_stamp;
use crate::model::{subtask_views, task_views, SubTask, SubTaskView, Task, TaskView};
use crate::tasks::{find_task_index, lemma_task_index, task_index, TaskError};

verus! {

/// How many subtasks of a list are completed.
pub open spec fn count_completed(subs: Seq<SubTaskView>) -> int
    decreases subs.len(),
{
    if subs.len() == 0 {
        0int
    } else {
        count_completed(subs.drop_last()) + if subs.last().completed {
            1int
        } else {
            0int
        }
    }
}

proof fn lemma_count_completed_bounds(subs: Seq<SubTaskView>)
    ensures
        0 <= count_completed(subs) <= subs.len(),
    decreases subs.len(),
{
    if subs.len() > 0 {
        lemma_count_completed_bounds(subs.drop_last());
    }
}

/// The progress a non-empty subtask list rolls up to: the completed
/// share of 100, truncated.
pub open spec fn rollup_progress(subs: Seq<SubTaskView>) -> int {
    count_completed(subs) * 100 / (subs.len() as int)
}

fn count_completed_subtasks(subs: &Vec<SubTask>) -> (r: usize)
    ensures
        r == count_completed(subtask_views(subs@)),
{
    let ghost sv = subtask_views(subs@);
    let mut r: usize = 0;
    let mut i: usize = 0;
    proof {
        assert(sv.take(0) =~= Seq::<SubTaskView>::empty());
    }
    while i < subs.len()
        invariant
            i <= subs@.len(),
            sv == subtask_views(subs@),
            sv.len() == subs@.len(),
            r <= i,
            r == count_completed(sv.take(i as int)),
        decreases subs@.len() - i,
    {
        proof {
            assert(sv.take(i + 1).drop_last() =~= sv.take(i as int));
            assert(sv.take(i + 1).last() == sv[i as int]);
            assert(sv[i as int] == subs@[i as int]@);
        }
        if subs[i].completed {
            r = r + 1;
        }
        i = i + 1;
    }
    proof {
        assert(sv.take(subs@.len() as int) =~= sv);
    }
    r
}

fn rollup_percent(subs: &Vec<SubTask>) -> (r: u8)
    requires
        subs@.len() > 0,
    ensures
        r == rollup_progress(subtask_views(subs@)),
        r <= 100,
{
    let c = count_completed_subtasks(subs);
    let t = subs.len();
    proof {
        lemma_count_completed_bounds(subtask_views(subs@));
        assert((c as int) * 100 / (t as int) <= 100) by (nonlinear_arith)
            requires
                0 <= c <= t,
                t >= 1,
        ;
    }
    (((c as u128) * 100) / (t as u128)) as u8
}

/// Appends a subtask named `name`, not yet completed, to the task
/// carrying `id`. Nothing else about the task changes.
pub fn add_subtask(tasks: &mut Vec<Task>, id: usize, name: String) -> (r: Result<(), TaskError>)
    ensures
        ({
            let s = old(tasks)@;
            let i = task_index(s, id);
            match r {
                Ok(()) => {
                    &&& i >= 0
                    &&& final(tasks)@.len() == s.len()
                    &&& final(tasks)@[i]@ == (TaskView {
                        subtasks: s[i]@.subtasks.push(
                            SubTaskView { name: name@, completed: false },
                        ),
                        ..s[i]@
                    })
                    &&& forall|j: int| 0 <= j < s.len() && j != i ==> final(tasks)@[j] == s[j]
                },
                Err(TaskError::NotFound) => i < 0 && final(tasks)@ == s,
                Err(_) => false,
            }
        }),
{
    let ghost s = tasks@;
    match find_task_index(tasks, id) {
        None => Err(TaskError::NotFound),
        Some(idx) => {
            proof {
                lemma_task_index(s, id);
            }
            let mut t = tasks.remove(idx);
            t.subtasks.push(SubTask { name: name, completed: false });
            proof {
                assert(subtask_views(t.subtasks@) =~= s[idx as int]@.subtasks.push(
                    SubTaskView { name: name@, completed: false },
                ));
                assert(t@ =~= (TaskView {
                    subtasks: s[idx as int]@.subtasks.push(
                        SubTaskView { name: name@, completed: false },
                    ),
                    ..s[idx as int]@
                }));
            }
            tasks.insert(idx, t);
            proof {
                assert(tasks@ =~= s.update(idx as int, t));
            }
            Ok(())
        },
    }
}

/// The view of a task after toggling the subtask at `index` at time
/// `ts`: the subtask's flag flips, the progress rolls up from the new
/// list, and a roll-up of 100 marks the task done — without forcing the
/// remaining subtasks, unlike whole-task completion.
pub open spec fn toggled_view(t: TaskView, index: int, ts: Seq<char>) -> TaskView {
    let st = t.subtasks[index];
    let subs2 = t.subtasks.update(index, SubTaskView { completed: !st.completed, ..st });
    let prog = rollup_progress(subs2);
    if prog == 100 {
        TaskView {
            subtasks: subs2,
            progress: 100,
            status: "done"@,
            completed_at: Some(ts),
            ..t
        }
    } else {
        TaskView { subtasks: subs2, progress: prog, ..t }
    }
}

/// Flips the completion flag of the subtask at `index` (0-based) of the
/// task carrying `id`, recording `completed_at` should the roll-up
/// complete the task. Returns the subtask's new flag. Refused, with the
/// store untouched, when the task or the position is missing.
pub fn toggle_subtask_at(
    tasks: &mut Vec<Task>,
    id: usize,
    index: usize,
    completed_at: &str,
) -> (r: Result<bool, TaskError>)
    ensures
        ({
            let s = old(tasks)@;
            let i = task_index(s, id);
            match r {
                Ok(b) => {
                    &&& i >= 0
                    &&& index < s[i]@.subtasks.len()
                    &&& b == !s[i]@.subtasks[index as int].completed
                    &&& final(tasks)@.len() == s.len()
                    &&& final(tasks)@[i]@ == toggled_view(s[i]@, index as int, completed_at@)
                    &&& forall|j: int| 0 <= j < s.len() && j != i ==> final(tasks)@[j] == s[j]
                },
                Err(TaskError::NotFound) => i < 0 && final(tasks)@ == s,
                Err(TaskError::SubtaskNotFound) => {
                    &&& i >= 0
                    &&& index >= s[i]@.subtasks.len()
                    &&& final(tasks)@ == s
                },
                Err(_) => false,
            }
        }),
{
    let ghost s = tasks@;
    match find_task_index(tasks, id) {
        None => Err(TaskError::NotFound),
        Some(idx) => {
            proof {
                lemma_task_index(s, id);
            }
            if index >= tasks[idx].subtasks.len() {
                return Err(TaskError::SubtaskNotFound);
            }
            let mut t = tasks.remove(idx);
            let mut st = t.subtasks.remove(index);
            st.completed = !st.completed;
            let b = st.completed;
            t.subtasks.insert(index, st);
            let ghost subs2 = s[idx as int]@.subtasks.update(
                index as int,
                SubTaskView {
                    completed: !s[idx as int]@.subtasks[index as int].completed,
                    ..s[idx as int]@.subtasks[index as int]
                },
            );
            proof {
                assert(subtask_views(t.subtasks@) =~= subs2);
            }
            let prog = rollup_percent(&t.subtasks);
            t.progress = prog;
            if prog == 100 {
                t.status = String::from_str("done");
                t.completed_at = Some(String::from_str(completed_at));
            }
            proof {
                assert(t@ =~= toggled_view(s[idx as int]@, index as int, completed_at@));
            }
            tasks.insert(idx, t);
            proof {
                assert(tasks@ =~= s.update(idx as int, t));
            }
            Ok(b)
        },
    }
}

/// Flips the subtask at `index` as of now (the clock supplies the
/// completion time if the roll-up reaches 100); otherwise exactly
/// `toggle_subtask_at`.
pub fn toggle_subtask(tasks: &mut Vec<Task>, id: usize, index: usize) -> (r: Result<
    bool,
    TaskError,
>)
    ensures
        ({
            let s = old(tasks)@;
            let i = task_index(s, id);
            match r {
                Ok(b) => {
                    &&& i >= 0
                    &&& index < s[i]@.subtasks.len()
                    &&& b == !s[i]@.subtasks[index as int].completed
                    &&& final(tasks)@.len() == s.len()
                    &&& exists|ts: Seq<char>|
                        final(tasks)@[i]@ == #[trigger] toggled_view(s[i]@, index as int, ts)
                    &&& forall|j: int| 0 <= j < s.len() && j != i ==> final(tasks)@[j] == s[j]
                },
                Err(TaskError::NotFound) => i < 0 && final(tasks)@ == s,
                Err(TaskError::SubtaskNotFound) => {
                    &&& i >= 0
                    &&& index >= s[i]@.subtasks.len()
                    &&& final(tasks)@ == s
                },
                Err(_) => false,
            }
        }),
{
    let now = now_stamp();
    toggle_subtask_at(tasks, id, index, now.as_str())
}

/// The view of a task after removing the subtask at `index`: positions
/// shift down, and the progress rolls up from the remaining subtasks —
/// unless none remain, in which case it stays. The status never changes
/// here, even when the roll-up reaches 100.
pub open spec fn subtask_removed_view(t: TaskView, index: int) -> TaskView {
    let subs2 = t.subtasks.remove(index);
    if subs2.len() > 0 {
        TaskView { subtasks: subs2, progress: rollup_progress(subs2), ..t }
    } else {
        TaskView { subtasks: subs2, ..t }
    }
}

/// Removes the subtask at `index` (0-based) of the task carrying `id`,
/// returning its name. Refused, with the store untouched, when the task
/// or the position is missing.
pub fn remove_subtask(tasks: &mut Vec<Task>, id: usize, index: usize) -> (r: Result<
    String,
    TaskError,
>)
    ensures
        ({
            let s = old(tasks)@;
            let i = task_index(s, id);
            match r {
                Ok(name) => {
                    &&& i >= 0
                    &&& index < s[i]@.subtasks.len()
                    &&& name@ == s[i]@.subtasks[index as int].name
                    &&& final(tasks)@.len() == s.len()
                    &&& final(tasks)@[i]@ == subtask_removed_view(s[i]@, index as int)
                    &&& forall|j: int| 0 <= j < s.len() && j != i ==> final(tasks)@[j] == s[j]
                },
                Err(TaskError::NotFound) => i < 0 && final(tasks)@ == s,
                Err(TaskError::SubtaskNotFound) => {
                    &&& i >= 0
                    &&& index >= s[i]@.subtasks.len()
                    &&& final(tasks)@ == s
                },
                Err(_) => false,
            }
        }),
{
    let ghost s = tasks@;
    match find_task_index(tasks, id) {
        None => Err(TaskError::NotFound),
        Some(idx) => {
            proof {
                lemma_task_index(s, id);
            }
            if index >= tasks[idx].subtasks.len() {
                return Err(TaskError::SubtaskNotFound);
            }
            let mut t = tasks.remove(idx);
            let removed = t.subtasks.remove(index);
            proof {
                assert(subtask_views(t.subtasks@) =~= s[idx as int]@.subtasks.remove(
                    index as int,
                ));
            }
            if t.subtasks.len() > 0 {
                let prog = rollup_percent(&t.subtasks);
                t.progress = prog;
            }
            proof {
                assert(t@ =~= subtask_removed_view(s[idx as int]@, index as int));
            }
            tasks.insert(idx, t);
            proof {
                assert(tasks@ =~= s.update(idx as int, t));
            }
            Ok(removed.name)
        },
    }
}

} // verus!
