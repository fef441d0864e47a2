//! Core of a personal task tracker: an in-memory collection of tasks with
//! priorities, due dates, tags and subtasks, together with the mutation
//! rules (add, complete, remove, progress updates and subtask roll-up)
//! that the command-line front end drives.

pub mod dates;
pub mod model;
pub mod subtasks;
pub mod tasks;
pub mod text;

pub use model::{AppConfig, SubTask, Task};
