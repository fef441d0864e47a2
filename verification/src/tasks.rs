//! Operations on the task store: lookup, creation, completion, removal
//! with dense renumbering, progress updates, and the list/today filters.

use vstd::prelude::*;

use crate::dates::{now_stamp, today_stamp, valid_due_date};
use crate::model::{opt_view, str_views, subtask_views, task_views, SubTaskView, Task, TaskView};
use crate::text::{contains_sub, eq_str, lower_of, tags_of};

verus! {

/// Why a store operation was refused.
#[derive(Clone, Copy, Debug, PartialEq, Eq, Structural)]
pub enum TaskError {
    /// No task in the store carries the given id.
    NotFound,
    /// The task is already done, and the operation rejects done tasks.
    AlreadyDone,
    /// The given due date is not a calendar date written `YYYY-MM-DD`.
    InvalidDueDate,
    /// The task exists but has no subtask at the given index.
    SubtaskNotFound,
}

/// The index of the first task carrying `id`, or -1 when none does.
pub open spec fn task_index(s: Seq<Task>, id: usize) -> int
    decreases s.len(),
{
    if s.len() == 0 {
        -1
    } else if s[0].id == id {
        0
    } else {
        let r = task_index(s.drop_first(), id);
        if r < 0 {
            -1
        } else {
            1 + r
        }
    }
}

pub proof fn lemma_task_index(s: Seq<Task>, id: usize)
    ensures
        task_index(s, id) >= 0 ==> {
            &&& 0 <= task_index(s, id) < s.len()
            &&& s[task_index(s, id)].id == id
            &&& forall|j: int| 0 <= j < task_index(s, id) ==> s[j].id != id
        },
        task_index(s, id) < 0 ==> forall|j: int| 0 <= j < s.len() ==> s[j].id != id,
    decreases s.len(),
{
    if s.len() > 0 && s[0].id != id {
        let d = s.drop_first();
        lemma_task_index(d, id);
        if task_index(s, id) >= 0 {
            assert forall|j: int| 0 <= j < task_index(s, id) implies s[j].id != id by {
                if j > 0 {
                    assert(d[j - 1] == s[j]);
                }
            }
        } else {
            assert forall|j: int| 0 <= j < s.len() implies s[j].id != id by {
                if j > 0 {
                    assert(d[j - 1] == s[j]);
                }
            }
        }
    }
}

pub proof fn lemma_task_index_first_match(s: Seq<Task>, id: usize, i: int)
    requires
        0 <= i < s.len(),
        s[i].id == id,
        forall|j: int| 0 <= j < i ==> s[j].id != id,
    ensures
        task_index(s, id) == i,
    decreases s.len(),
{
    if i > 0 {
        let d = s.drop_first();
        assert forall|j: int| 0 <= j < i - 1 implies d[j].id != id by {
            assert(d[j] == s[j + 1]);
        }
        lemma_task_index_first_match(d, id, i - 1);
    }
}

pub proof fn lemma_task_index_no_match(s: Seq<Task>, id: usize)
    requires
        forall|j: int| 0 <= j < s.len() ==> s[j].id != id,
    ensures
        task_index(s, id) == -1,
    decreases s.len(),
{
    if s.len() > 0 {
        let d = s.drop_first();
        assert forall|j: int| 0 <= j < d.len() implies d[j].id != id by {
            assert(d[j] == s[j + 1]);
        }
        lemma_task_index_no_match(d, id);
    }
}

/// The index of the first task carrying `id`, if any.
pub fn find_task_index(tasks: &Vec<Task>, id: usize) -> (r: Option<usize>)
    ensures
        match r {
            Some(i) => task_index(tasks@, id) == i,
            None => task_index(tasks@, id) == -1,
        },
{
    let mut i: usize = 0;
    while i < tasks.len()
        invariant
            i <= tasks@.len(),
            forall|j: int| 0 <= j < i ==> tasks@[j].id != id,
        decreases tasks@.len() - i,
    {
        if tasks[i].id == id {
            proof {
                lemma_task_index_first_match(tasks@, id, i as int);
            }
            return Some(i);
        }
        i = i + 1;
    }
    proof {
        lemma_task_index_no_match(tasks@, id);
    }
    None
}

/// A sequence of subtasks with every entry marked completed.
pub open spec fn all_completed(subs: Seq<SubTaskView>) -> Seq<SubTaskView> {
    subs.map_values(|s: SubTaskView| SubTaskView { completed: true, ..s })
}

/// Law: forcing a subtask list marks every entry completed and keeps
/// its name, so a completed task's subtasks are all completed.
pub proof fn lemma_all_completed(subs: Seq<SubTaskView>, j: int)
    requires
        0 <= j < subs.len(),
    ensures
        all_completed(subs).len() == subs.len(),
        all_completed(subs)[j].completed,
        all_completed(subs)[j].name == subs[j].name,
{
}

/// The view of a task after completion at time `ts`: done, progress 100,
/// completion time recorded, and every subtask forced to completed.
pub open spec fn completed_view(t: TaskView, ts: Seq<char>) -> TaskView {
    TaskView {
        status: "done"@,
        progress: 100,
        completed_at: Some(ts),
        subtasks: all_completed(t.subtasks),
        ..t
    }
}

fn complete_all_subtasks(subs: &mut Vec<crate::model::SubTask>)
    ensures
        subtask_views(final(subs)@) == all_completed(subtask_views(old(subs)@)),
{
    let mut i: usize = 0;
    while i < subs.len()
        invariant
            i <= subs@.len(),
            subs@.len() == old(subs)@.len(),
            forall|j: int| i <= j < subs@.len() ==> subs@[j] == old(subs)@[j],
            forall|j: int|
                0 <= j < i ==> subs@[j]@ == (SubTaskView {
                    completed: true,
                    ..old(subs)@[j]@
                }),
        decreases subs@.len() - i,
    {
        let mut st = subs.remove(i);
        st.completed = true;
        subs.insert(i, st);
        i = i + 1;
    }
    proof {
        assert(subtask_views(subs@) =~= all_completed(subtask_views(old(subs)@)));
    }
}

/// Marks the task carrying `id` as done, recording `completed_at` as its
/// completion time: progress becomes 100 and every subtask is forced to
/// completed. Refused when the task is missing or already done.
pub fn complete_task_at(tasks: &mut Vec<Task>, id: usize, completed_at: &str) -> (r: Result<
    (),
    TaskError,
>)
    ensures
        ({
            let s = old(tasks)@;
            let i = task_index(s, id);
            match r {
                Ok(()) => {
                    &&& i >= 0
                    &&& s[i]@.status != "done"@
                    &&& final(tasks)@.len() == s.len()
                    &&& final(tasks)@[i]@ == completed_view(s[i]@, completed_at@)
                    &&& forall|j: int| 0 <= j < s.len() && j != i ==> final(tasks)@[j] == s[j]
                },
                Err(TaskError::AlreadyDone) => {
                    &&& i >= 0
                    &&& s[i]@.status == "done"@
                    &&& final(tasks)@ == s
                },
                Err(TaskError::NotFound) => i < 0 && final(tasks)@ == s,
                Err(_) => false,
            }
        }),
{
    let ghost s = tasks@;
    match find_task_index(tasks, id) {
        None => Err(TaskError::NotFound),
        Some(idx) => {
            proof {
                lemma_task_index(s, id);
            }
            if eq_str(tasks[idx].status.as_str(), "done") {
                return Err(TaskError::AlreadyDone);
            }
            let mut t = tasks.remove(idx);
            t.status = String::from_str("done");
            t.progress = 100;
            t.completed_at = Some(String::from_str(completed_at));
            complete_all_subtasks(&mut t.subtasks);
            proof {
                assert(t@ =~= completed_view(s[idx as int]@, completed_at@));
            }
            tasks.insert(idx, t);
            proof {
                assert(tasks@ =~= s.update(idx as int, t));
            }
            Ok(())
        },
    }
}

/// Marks the task carrying `id` as done now (the clock supplies the
/// completion time); otherwise exactly `complete_task_at`.
pub fn complete_task(tasks: &mut Vec<Task>, id: usize) -> (r: Result<(), TaskError>)
    ensures
        ({
            let s = old(tasks)@;
            let i = task_index(s, id);
            match r {
                Ok(()) => {
                    &&& i >= 0
                    &&& s[i]@.status != "done"@
                    &&& final(tasks)@.len() == s.len()
                    &&& exists|ts: Seq<char>|
                        final(tasks)@[i]@ == #[trigger] completed_view(s[i]@, ts)
                    &&& forall|j: int| 0 <= j < s.len() && j != i ==> final(tasks)@[j] == s[j]
                },
                Err(TaskError::AlreadyDone) => {
                    &&& i >= 0
                    &&& s[i]@.status == "done"@
                    &&& final(tasks)@ == s
                },
                Err(TaskError::NotFound) => i < 0 && final(tasks)@ == s,
                Err(_) => false,
            }
        }),
{
    let now = now_stamp();
    complete_task_at(tasks, id, now.as_str())
}

/// The tags field a raw tag input yields: the parsed comma-separated
/// tags, or none at all when no input was given.
pub open spec fn tags_field_of(tags: Option<Seq<char>>) -> Seq<Seq<char>> {
    match tags {
        Some(t) => tags_of(t),
        None => Seq::empty(),
    }
}

/// The view of a freshly created task.
pub open spec fn new_task_view(
    id: int,
    name: Seq<char>,
    priority_lower: Seq<char>,
    due: Option<Seq<char>>,
    tags: Seq<Seq<char>>,
    created_at: Seq<char>,
) -> TaskView {
    TaskView {
        id: id,
        name: name,
        priority: priority_lower,
        status: "pending"@,
        progress: 0,
        due_date: due,
        tags: tags,
        created_at: created_at,
        completed_at: None,
        subtasks: Seq::empty(),
    }
}

/// Appends a new task, created at time `created_at`: id one past the
/// current count, priority lowercased, tags split on commas and trimmed,
/// status pending, progress zero. A due date that is not a calendar date
/// written `YYYY-MM-DD` has the whole operation refused, the store
/// untouched.
pub fn add_task_at(
    tasks: &mut Vec<Task>,
    name: String,
    priority: String,
    due: Option<String>,
    tags: Option<String>,
    created_at: &str,
) -> (r: Result<(), TaskError>)
    requires
        old(tasks)@.len() < usize::MAX,
    ensures
        ({
            let s = old(tasks)@;
            match r {
                Ok(()) => {
                    &&& (due matches Some(d) ==> valid_due_date(d@))
                    &&& final(tasks)@.len() == s.len() + 1
                    &&& forall|j: int| 0 <= j < s.len() ==> final(tasks)@[j] == s[j]
                    &&& final(tasks)@.last()@ == new_task_view(
                        s.len() + 1 as int,
                        name@,
                        lower_of(priority@),
                        opt_view(due),
                        tags_field_of(opt_view(tags)),
                        created_at@,
                    )
                },
                Err(TaskError::InvalidDueDate) => {
                    &&& due matches Some(d) && !valid_due_date(d@)
                    &&& final(tasks)@ == s
                },
                Err(_) => false,
            }
        }),
{
    let due_date = match due {
        Some(d) => {
            if !crate::dates::is_valid_due_date(d.as_str()) {
                return Err(TaskError::InvalidDueDate);
            }
            Some(d)
        },
        None => None,
    };
    let tags_vec = match &tags {
        Some(t) => crate::text::parse_tags(t.as_str()),
        None => Vec::new(),
    };
    let task = Task {
        id: tasks.len() + 1,
        name: name,
        priority: crate::text::lowercase(priority.as_str()),
        status: String::from_str("pending"),
        progress: 0,
        due_date: due_date,
        tags: tags_vec,
        created_at: String::from_str(created_at),
        completed_at: None,
        subtasks: Vec::new(),
    };
    proof {
        assert(subtask_views(Seq::<crate::model::SubTask>::empty()) =~= Seq::<
            SubTaskView,
        >::empty());
        assert(task@ =~= new_task_view(
            tasks@.len() + 1 as int,
            name@,
            lower_of(priority@),
            opt_view(due),
            tags_field_of(opt_view(tags)),
            created_at@,
        ));
    }
    tasks.push(task);
    Ok(())
}

/// Appends a new task created now (the clock supplies the creation
/// time); otherwise exactly `add_task_at`.
pub fn add_task(
    tasks: &mut Vec<Task>,
    name: String,
    priority: String,
    due: Option<String>,
    tags: Option<String>,
) -> (r: Result<(), TaskError>)
    requires
        old(tasks)@.len() < usize::MAX,
    ensures
        ({
            let s = old(tasks)@;
            match r {
                Ok(()) => {
                    &&& (due matches Some(d) ==> valid_due_date(d@))
                    &&& final(tasks)@.len() == s.len() + 1
                    &&& forall|j: int| 0 <= j < s.len() ==> final(tasks)@[j] == s[j]
                    &&& exists|ts: Seq<char>|
                        final(tasks)@.last()@ == #[trigger] new_task_view(
                            s.len() + 1 as int,
                            name@,
                            lower_of(priority@),
                            opt_view(due),
                            tags_field_of(opt_view(tags)),
                            ts,
                        )
                },
                Err(TaskError::InvalidDueDate) => {
                    &&& due matches Some(d) && !valid_due_date(d@)
                    &&& final(tasks)@ == s
                },
                Err(_) => false,
            }
        }),
{
    let now = now_stamp();
    let r = add_task_at(tasks, name, priority, due, tags, now.as_str());
    proof {
        if r is Ok {
            assert(final(tasks)@.last()@ == new_task_view(
                old(tasks)@.len() + 1 as int,
                name@,
                lower_of(priority@),
                opt_view(due),
                tags_field_of(opt_view(tags)),
                now@,
            ));
        }
    }
    r
}

/// Removes the task carrying `id` and renumbers the survivors densely
/// in their current order. Returns the removed task's name.
pub fn remove_task(tasks: &mut Vec<Task>, id: usize) -> (r: Result<String, TaskError>)
    ensures
        ({
            let s = old(tasks)@;
            let i = task_index(s, id);
            match r {
                Ok(name) => {
                    &&& i >= 0
                    &&& name@ == s[i]@.name
                    &&& final(tasks)@.len() == s.len() - 1
                    &&& forall|j: int|
                        0 <= j < i ==> #[trigger] final(tasks)@[j]@ == (TaskView {
                            id: j + 1,
                            ..s[j]@
                        })
                    &&& forall|j: int|
                        i <= j < s.len() - 1 ==> #[trigger] final(tasks)@[j]@ == (TaskView {
                            id: j + 1,
                            ..s[j + 1]@
                        })
                },
                Err(TaskError::NotFound) => i < 0 && final(tasks)@ == s,
                Err(_) => false,
            }
        }),
{
    let ghost s = tasks@;
    match find_task_index(tasks, id) {
        None => Err(TaskError::NotFound),
        Some(idx) => {
            proof {
                lemma_task_index(s, id);
            }
            let removed = tasks.remove(idx);
            let ghost base = s.remove(idx as int);
            let n = tasks.len();
            let mut j: usize = 0;
            while j < tasks.len()
                invariant
                    j <= tasks@.len(),
                    tasks@.len() == base.len(),
                    base.len() == n,
                    forall|k: int| j <= k < base.len() ==> tasks@[k] == base[k],
                    forall|k: int|
                        0 <= k < j ==> tasks@[k]@ == (TaskView { id: k + 1, ..base[k]@ }),
                decreases tasks@.len() - j,
            {
                let mut t = tasks.remove(j);
                t.id = j + 1;
                tasks.insert(j, t);
                j = j + 1;
            }
            proof {
                assert(forall|k: int|
                    0 <= k < base.len() ==> #[trigger] base[k] == if k < idx as int {
                        s[k]
                    } else {
                        s[k + 1]
                    });
            }
            Ok(removed.name)
        },
    }
}

/// Clamps a progress percentage to at most 100.
pub open spec fn clamp_pct(p: u8) -> int {
    if p > 100 {
        100
    } else {
        p as int
    }
}

/// Sets the progress of the task carrying `id` to `percentage`, clamped
/// to 100. Reaching 100 completes the task exactly as `complete_task_at`
/// does. Refused when the task is missing or already done. Returns the
/// clamped value.
pub fn update_task_progress_at(
    tasks: &mut Vec<Task>,
    id: usize,
    percentage: u8,
    completed_at: &str,
) -> (r: Result<u8, TaskError>)
    ensures
        ({
            let s = old(tasks)@;
            let i = task_index(s, id);
            match r {
                Ok(p) => {
                    &&& i >= 0
                    &&& s[i]@.status != "done"@
                    &&& p == clamp_pct(percentage)
                    &&& final(tasks)@.len() == s.len()
                    &&& (p == 100 ==> final(tasks)@[i]@ == completed_view(
                        s[i]@,
                        completed_at@,
                    ))
                    &&& (p < 100 ==> final(tasks)@[i]@ == (TaskView {
                        progress: p as int,
                        ..s[i]@
                    }))
                    &&& forall|j: int| 0 <= j < s.len() && j != i ==> final(tasks)@[j] == s[j]
                },
                Err(TaskError::AlreadyDone) => {
                    &&& i >= 0
                    &&& s[i]@.status == "done"@
                    &&& final(tasks)@ == s
                },
                Err(TaskError::NotFound) => i < 0 && final(tasks)@ == s,
                Err(_) => false,
            }
        }),
{
    let ghost s = tasks@;
    match find_task_index(tasks, id) {
        None => Err(TaskError::NotFound),
        Some(idx) => {
            proof {
                lemma_task_index(s, id);
            }
            if eq_str(tasks[idx].status.as_str(), "done") {
                return Err(TaskError::AlreadyDone);
            }
            let p: u8 = if percentage > 100 {
                100
            } else {
                percentage
            };
            let mut t = tasks.remove(idx);
            t.progress = p;
            if p == 100 {
                t.status = String::from_str("done");
                t.completed_at = Some(String::from_str(completed_at));
                complete_all_subtasks(&mut t.subtasks);
                proof {
                    assert(t@ =~= completed_view(s[idx as int]@, completed_at@));
                }
            } else {
                proof {
                    assert(t@ =~= (TaskView { progress: p as int, ..s[idx as int]@ }));
                }
            }
            tasks.insert(idx, t);
            proof {
                assert(tasks@ =~= s.update(idx as int, t));
            }
            Ok(p)
        },
    }
}

/// Sets the progress of the task carrying `id` as of now (the clock
/// supplies the completion time if 100 is reached); otherwise exactly
/// `update_task_progress_at`.
pub fn update_task_progress(tasks: &mut Vec<Task>, id: usize, percentage: u8) -> (r: Result<
    u8,
    TaskError,
>)
    ensures
        ({
            let s = old(tasks)@;
            let i = task_index(s, id);
            match r {
                Ok(p) => {
                    &&& i >= 0
                    &&& s[i]@.status != "done"@
                    &&& p == clamp_pct(percentage)
                    &&& final(tasks)@.len() == s.len()
                    &&& (p == 100 ==> exists|ts: Seq<char>|
                        final(tasks)@[i]@ == #[trigger] completed_view(s[i]@, ts))
                    &&& (p < 100 ==> final(tasks)@[i]@ == (TaskView {
                        progress: p as int,
                        ..s[i]@
                    }))
                    &&& forall|j: int| 0 <= j < s.len() && j != i ==> final(tasks)@[j] == s[j]
                },
                Err(TaskError::AlreadyDone) => {
                    &&& i >= 0
                    &&& s[i]@.status == "done"@
                    &&& final(tasks)@ == s
                },
                Err(TaskError::NotFound) => i < 0 && final(tasks)@ == s,
                Err(_) => false,
            }
        }),
{
    let now = now_stamp();
    update_task_progress_at(tasks, id, percentage, now.as_str())
}

/// The status part of the listing policy: completed-only keeps done
/// tasks, all keeps everything, and the default keeps pending ones.
pub open spec fn status_keeps(t: TaskView, all: bool, completed: bool) -> bool {
    if completed {
        t.status == "done"@
    } else if all {
        true
    } else {
        t.status != "done"@
    }
}

/// The tag part of the listing policy: with a filter set, some tag must
/// contain it as a substring (case-sensitive).
pub open spec fn tag_keeps(t: TaskView, filter: Option<Seq<char>>) -> bool {
    match filter {
        Some(f) => exists|k: int| 0 <= k < t.tags.len() && contains_sub(#[trigger] t.tags[k], f),
        None => true,
    }
}

/// The whole listing policy: both parts must hold.
pub open spec fn list_keeps(t: TaskView, filter: Option<Seq<char>>, all: bool, completed: bool) -> bool {
    status_keeps(t, all, completed) && tag_keeps(t, filter)
}

/// The tasks a listing keeps, in store order.
pub open spec fn kept_tasks(
    s: Seq<TaskView>,
    filter: Option<Seq<char>>,
    all: bool,
    completed: bool,
) -> Seq<TaskView>
    decreases s.len(),
{
    if s.len() == 0 {
        Seq::empty()
    } else {
        let rest = kept_tasks(s.drop_last(), filter, all, completed);
        if list_keeps(s.last(), filter, all, completed) {
            rest.push(s.last())
        } else {
            rest
        }
    }
}

fn any_tag_contains(tags: &Vec<String>, f: &str) -> (r: bool)
    ensures
        r == exists|k: int|
            0 <= k < tags@.len() && contains_sub(#[trigger] str_views(tags@)[k], f@),
{
    let mut k: usize = 0;
    while k < tags.len()
        invariant
            k <= tags@.len(),
            forall|j: int| 0 <= j < k ==> !contains_sub(#[trigger] str_views(tags@)[j], f@),
        decreases tags@.len() - k,
    {
        if crate::text::str_contains(tags[k].as_str(), f) {
            proof {
                assert(str_views(tags@)[k as int] == tags@[k as int]@);
            }
            return true;
        }
        k = k + 1;
    }
    false
}

/// Lists the store under the filtering policy: keep done tasks only,
/// everything, or pending tasks only, and of those, with a tag filter
/// set, only tasks with a tag containing it. The store is not changed;
/// the kept tasks come back as copies, in store order.
pub fn list_tasks(tasks: &Vec<Task>, filter: &Option<String>, all: bool, completed: bool) -> (r:
    Vec<Task>)
    ensures
        task_views(r@) == kept_tasks(task_views(tasks@), opt_view(*filter), all, completed),
{
    let ghost tv = task_views(tasks@);
    let ghost fv = opt_view(*filter);
    let mut r: Vec<Task> = Vec::new();
    let mut i: usize = 0;
    proof {
        assert(tv.take(0) =~= Seq::<TaskView>::empty());
        assert(task_views(r@) =~= kept_tasks(tv.take(0), fv, all, completed));
    }
    while i < tasks.len()
        invariant
            i <= tasks@.len(),
            tv == task_views(tasks@),
            fv == opt_view(*filter),
            tv.len() == tasks@.len(),
            task_views(r@) == kept_tasks(tv.take(i as int), fv, all, completed),
        decreases tasks@.len() - i,
    {
        let status_match = if completed {
            eq_str(tasks[i].status.as_str(), "done")
        } else if all {
            true
        } else {
            !eq_str(tasks[i].status.as_str(), "done")
        };
        let tag_match = match filter {
            Some(f) => any_tag_contains(&tasks[i].tags, f.as_str()),
            None => true,
        };
        proof {
            assert(tv.take(i + 1).drop_last() =~= tv.take(i as int));
            assert(tv.take(i + 1).last() == tv[i as int]);
            assert(tv[i as int] == tasks@[i as int]@);
        }
        proof {
            assert(status_match == status_keeps(tv[i as int], all, completed));
            let tags = tv[i as int].tags;
            assert(tags == crate::model::str_views(tasks@[i as int].tags@));
            match *filter {
                Some(ref f) => {
                    if tag_match {
                        let k0 = choose|k: int|
                            0 <= k < tasks@[i as int].tags@.len() && contains_sub(
                                #[trigger] crate::model::str_views(tasks@[i as int].tags@)[k],
                                f@,
                            );
                        assert(contains_sub(tags[k0], f@));
                    } else {
                        if tag_keeps(tv[i as int], fv) {
                            let k1 = choose|k: int|
                                0 <= k < tags.len() && contains_sub(#[trigger] tags[k], f@);
                            assert(contains_sub(
                                crate::model::str_views(tasks@[i as int].tags@)[k1],
                                f@,
                            ));
                            assert(false);
                        }
                    }
                },
                None => {},
            }
            assert(tag_match == tag_keeps(tv[i as int], fv));
        }
        if status_match && tag_match {
            r.push(tasks[i].clone());
            proof {
                assert(task_views(r@) =~= task_views(r@.drop_last()).push(r@.last()@));
            }
        }
        i = i + 1;
    }
    proof {
        assert(tv.take(tasks@.len() as int) =~= tv);
    }
    r
}

/// How many tasks of a store carry a given status.
pub open spec fn count_status(s: Seq<TaskView>, status: Seq<char>) -> int
    decreases s.len(),
{
    if s.len() == 0 {
        0int
    } else {
        count_status(s.drop_last(), status) + if s.last().status == status {
            1int
        } else {
            0int
        }
    }
}

/// Counts the tasks carrying `status`, for the listing summary.
pub fn count_with_status(tasks: &Vec<Task>, status: &str) -> (r: usize)
    ensures
        r == count_status(task_views(tasks@), status@),
{
    let ghost tv = task_views(tasks@);
    let mut r: usize = 0;
    let mut i: usize = 0;
    proof {
        assert(tv.take(0) =~= Seq::<TaskView>::empty());
    }
    while i < tasks.len()
        invariant
            i <= tasks@.len(),
            tv == task_views(tasks@),
            tv.len() == tasks@.len(),
            r <= i,
            r == count_status(tv.take(i as int), status@),
        decreases tasks@.len() - i,
    {
        proof {
            assert(tv.take(i + 1).drop_last() =~= tv.take(i as int));
            assert(tv.take(i + 1).last() == tv[i as int]);
            assert(tv[i as int] == tasks@[i as int]@);
        }
        if eq_str(tasks[i].status.as_str(), status) {
            r = r + 1;
        }
        i = i + 1;
    }
    proof {
        assert(tv.take(tasks@.len() as int) =~= tv);
    }
    r
}

/// Whether a task is due on the given day: not done, and its due date is
/// exactly that day.
pub open spec fn due_on(t: TaskView, today: Seq<char>) -> bool {
    t.status != "done"@ && t.due_date == Some(today)
}

/// The tasks due on a given day, in store order.
pub open spec fn due_tasks(s: Seq<TaskView>, today: Seq<char>) -> Seq<TaskView>
    decreases s.len(),
{
    if s.len() == 0 {
        Seq::empty()
    } else {
        let rest = due_tasks(s.drop_last(), today);
        if due_on(s.last(), today) {
            rest.push(s.last())
        } else {
            rest
        }
    }
}

/// The tasks due on the day `today`, as copies, in store order.
pub fn today_tasks_on(tasks: &Vec<Task>, today: &str) -> (r: Vec<Task>)
    ensures
        task_views(r@) == due_tasks(task_views(tasks@), today@),
{
    let ghost tv = task_views(tasks@);
    let mut r: Vec<Task> = Vec::new();
    let mut i: usize = 0;
    proof {
        assert(tv.take(0) =~= Seq::<TaskView>::empty());
        assert(task_views(r@) =~= due_tasks(tv.take(0), today@));
    }
    while i < tasks.len()
        invariant
            i <= tasks@.len(),
            tv == task_views(tasks@),
            tv.len() == tasks@.len(),
            task_views(r@) == due_tasks(tv.take(i as int), today@),
        decreases tasks@.len() - i,
    {
        let not_done = !eq_str(tasks[i].status.as_str(), "done");
        let due_match = match &tasks[i].due_date {
            Some(d) => eq_str(d.as_str(), today),
            None => false,
        };
        proof {
            assert(tv.take(i + 1).drop_last() =~= tv.take(i as int));
            assert(tv.take(i + 1).last() == tv[i as int]);
            assert(tv[i as int] == tasks@[i as int]@);
        }
        if not_done && due_match {
            r.push(tasks[i].clone());
            proof {
                assert(task_views(r@) =~= task_views(r@.drop_last()).push(r@.last()@));
            }
        }
        i = i + 1;
    }
    proof {
        assert(tv.take(tasks@.len() as int) =~= tv);
    }
    r
}

/// The tasks due today (the clock supplies the day, returned alongside);
/// otherwise exactly `today_tasks_on`.
pub fn today_tasks(tasks: &Vec<Task>) -> (r: (Vec<Task>, String))
    ensures
        task_views(r.0@) == due_tasks(task_views(tasks@), r.1@),
{
    let today = today_stamp();
    let kept = today_tasks_on(tasks, today.as_str());
    (kept, today)
}

/// Whether the ids of a store are dense: task `j` carries id `j + 1`,
/// so the ids are exactly 1..=count in store order.
pub open spec fn ids_dense(s: Seq<TaskView>) -> bool {
    forall|j: int| 0 <= j < s.len() ==> #[trigger] s[j].id == j + 1
}

/// Law: a store built by additions alone has dense ids. `add_task`
/// appends a task whose id is one past the count, so density is kept
/// from the empty store onward.
pub proof fn lemma_add_keeps_ids_dense(s: Seq<TaskView>, t: TaskView)
    requires
        ids_dense(s),
        t.id == s.len() + 1,
    ensures
        ids_dense(s.push(t)),
{
    assert forall|j: int| 0 <= j < s.push(t).len() implies #[trigger] s.push(t)[j].id == j + 1 by {
        if j < s.len() {
            assert(s.push(t)[j] == s[j]);
        }
    }
}

/// Some task of the store carries id `k`.
pub open spec fn has_id(s: Seq<TaskView>, k: int) -> bool {
    exists|j: int| 0 <= j < s.len() && #[trigger] s[j].id == k
}

/// Law: a store with dense ids carries exactly the ids {1, ..., count}.
/// Together with density this says what remains after `remove_task`:
/// its contract renumbers the survivors to dense ids in their original
/// relative order, so the remaining ids are exactly {1, ..., count}.
pub proof fn lemma_dense_ids_exact_range(s: Seq<TaskView>)
    requires
        ids_dense(s),
    ensures
        forall|k: int| #[trigger] has_id(s, k) <==> 1 <= k <= s.len(),
{
    assert forall|k: int| 1 <= k <= s.len() implies #[trigger] has_id(s, k) by {
        assert(s[k - 1].id == k);
    }
}

} // verus!
