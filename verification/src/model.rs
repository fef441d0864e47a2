//! The data model: tasks, their subtasks, and the user configuration,
//! each with a mathematical view for use in contracts.

use vstd::prelude::*;

verus! {

/// A checklist item nested under a task. Subtasks have no identity of
/// their own: they are addressed by position in the parent's sequence.
pub struct SubTask {
    pub name: String,
    pub completed: bool,
}

/// Mathematical view of a subtask.
#[verifier::ext_equal]
pub ghost struct SubTaskView {
    pub name: Seq<char>,
    pub completed: bool,
}

impl View for SubTask {
    type V = SubTaskView;

    open spec fn view(&self) -> SubTaskView {
        SubTaskView { name: self.name@, completed: self.completed }
    }
}

impl Clone for SubTask {
    fn clone(&self) -> (r: Self)
        ensures
            r@ == self@,
    {
        SubTask { name: self.name.clone(), completed: self.completed }
    }
}

/// A top-level to-do item.
pub struct Task {
    /// Positive, unique within the store; kept dense (1..=count) by removal.
    pub id: usize,
    pub name: String,
    /// Normalized to lowercase on creation; one of "low", "medium", "high"
    /// by convention, though the store does not reject other words.
    pub priority: String,
    /// "pending" or "done".
    pub status: String,
    /// 0..=100.
    pub progress: u8,
    /// Optional calendar date "YYYY-MM-DD", validated at creation.
    pub due_date: Option<String>,
    pub tags: Vec<String>,
    pub created_at: String,
    /// Absent until the task reaches "done".
    pub completed_at: Option<String>,
    pub subtasks: Vec<SubTask>,
}

/// Mathematical view of a task.
#[verifier::ext_equal]
pub ghost struct TaskView {
    pub id: int,
    pub name: Seq<char>,
    pub priority: Seq<char>,
    pub status: Seq<char>,
    pub progress: int,
    pub due_date: Option<Seq<char>>,
    pub tags: Seq<Seq<char>>,
    pub created_at: Seq<char>,
    pub completed_at: Option<Seq<char>>,
    pub subtasks: Seq<SubTaskView>,
}

/// The view of an optional string: the view of its content, if any.
pub open spec fn opt_view(o: Option<String>) -> Option<Seq<char>> {
    match o {
        Some(s) => Some(s@),
        None => None,
    }
}

/// The views of a sequence of strings.
pub open spec fn str_views(v: Seq<String>) -> Seq<Seq<char>> {
    v.map_values(|s: String| s@)
}

/// The views of a sequence of subtasks.
pub open spec fn subtask_views(v: Seq<SubTask>) -> Seq<SubTaskView> {
    v.map_values(|s: SubTask| s@)
}

impl View for Task {
    type V = TaskView;

    open spec fn view(&self) -> TaskView {
        TaskView {
            id: self.id as int,
            name: self.name@,
            priority: self.priority@,
            status: self.status@,
            progress: self.progress as int,
            due_date: opt_view(self.due_date),
            tags: str_views(self.tags@),
            created_at: self.created_at@,
            completed_at: opt_view(self.completed_at),
            subtasks: subtask_views(self.subtasks@),
        }
    }
}

/// The views of a whole store, in order.
pub open spec fn task_views(v: Seq<Task>) -> Seq<TaskView> {
    v.map_values(|t: Task| t@)
}

fn clone_string_vec(v: &Vec<String>) -> (r: Vec<String>)
    ensures
        r@.len() == v@.len(),
        forall|i: int| 0 <= i < v@.len() ==> r@[i] == v@[i],
{
    let mut r: Vec<String> = Vec::new();
    let mut i: usize = 0;
    while i < v.len()
        invariant
            i <= v@.len(),
            r@.len() == i,
            forall|j: int| 0 <= j < i ==> r@[j] == v@[j],
        decreases v@.len() - i,
    {
        r.push(v[i].clone());
        i = i + 1;
    }
    r
}

fn clone_opt_string(o: &Option<String>) -> (r: Option<String>)
    ensures
        r == o,
{
    match o {
        Some(s) => Some(s.clone()),
        None => None,
    }
}

fn clone_subtasks(v: &Vec<SubTask>) -> (r: Vec<SubTask>)
    ensures
        r@.len() == v@.len(),
        forall|i: int| 0 <= i < v@.len() ==> r@[i]@ == v@[i]@,
{
    let mut r: Vec<SubTask> = Vec::new();
    let mut i: usize = 0;
    while i < v.len()
        invariant
            i <= v@.len(),
            r@.len() == i,
            forall|j: int| 0 <= j < i ==> r@[j]@ == v@[j]@,
        decreases v@.len() - i,
    {
        r.push(v[i].clone());
        i = i + 1;
    }
    r
}

impl Clone for Task {
    fn clone(&self) -> (r: Self)
        ensures
            r@ == self@,
    {
        let r = Task {
            id: self.id,
            name: self.name.clone(),
            priority: self.priority.clone(),
            status: self.status.clone(),
            progress: self.progress,
            due_date: clone_opt_string(&self.due_date),
            tags: clone_string_vec(&self.tags),
            created_at: self.created_at.clone(),
            completed_at: clone_opt_string(&self.completed_at),
            subtasks: clone_subtasks(&self.subtasks),
        };
        proof {
            assert(str_views(r.tags@) =~= str_views(self.tags@));
            assert(subtask_views(r.subtasks@) =~= subtask_views(self.subtasks@));
        }
        r
    }
}

/// The user configuration: where the task document lives, the display
/// name, and the priority assigned to new tasks by default.
pub struct AppConfig {
    pub tasks_dir: String,
    pub user_name: String,
    pub default_priority: String,
}

impl Clone for AppConfig {
    fn clone(&self) -> (r: Self)
        ensures
            r == self,
    {
        AppConfig {
            tasks_dir: self.tasks_dir.clone(),
            user_name: self.user_name.clone(),
            default_priority: self.default_priority.clone(),
        }
    }
}

impl AppConfig {
    /// The default configuration for a given home directory: tasks live
    /// under `.rtasks` in it, the user is "User", new tasks are "medium".
    pub fn default_for_home(home: &str) -> (c: AppConfig)
        ensures
            c.tasks_dir@ == home@ + "/.rtasks"@,
            c.user_name@ == "User"@,
            c.default_priority@ == "medium"@,
    {
        let mut dir = String::from_str(home);
        dir.append("/.rtasks");
        AppConfig {
            tasks_dir: dir,
            user_name: String::from_str("User"),
            default_priority: String::from_str("medium"),
        }
    }
}

/// Renders an optional string for display: the string itself, or "-".
pub fn display_option_string(opt: &Option<String>) -> (r: String)
    ensures
        match opt {
            Some(s) => r@ == s@,
            None => r@ == "-"@,
        },
{
    match opt {
        Some(s) => s.clone(),
        None => String::from_str("-"),
    }
}

/// Renders a list of strings for display: the entries joined with ", ",
/// or "-" when there are none.
pub fn display_vec_string(vec: &Vec<String>) -> (r: String)
    ensures
        vec@.len() == 0 ==> r@ == "-"@,
        vec@.len() > 0 ==> r@ == crate::text::join_sep(str_views(vec@), ", "@),
{
    if vec.is_empty() {
        String::from_str("-")
    } else {
        crate::text::join_with(vec, ", ")
    }
}

/// The path of the task document for a configuration: `tasks.json`
/// inside the configured tasks directory.
pub fn get_tasks_file(config: &AppConfig) -> (r: String)
    ensures
        r@ == config.tasks_dir@ + "/tasks.json"@,
{
    let mut r = config.tasks_dir.clone();
    r.append("/tasks.json");
    r
}

} // verus!
