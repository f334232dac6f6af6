//! The task entity, its mathematical model, and the library's error types.

use vstd::prelude::*;

verus! {

/// One entry of the list: a free-form name and a completion flag.
#[derive(Debug, PartialEq, Eq)]
pub struct Task {
    pub name: String,
    pub done: bool,
}

/// What a task means: its name as characters and its flag.
pub struct TaskModel {
    pub name: Seq<char>,
    pub done: bool,
}

impl View for Task {
    type V = TaskModel;

    open spec fn view(&self) -> TaskModel {
        TaskModel { name: self.name@, done: self.done }
    }
}

/// The model of a list of tasks, element by element.
pub open spec fn model(ts: Seq<Task>) -> Seq<TaskModel> {
    ts.map_values(|t: Task| t@)
}

/// A name that can be stored: it holds neither the field delimiter nor a line break.
pub open spec fn valid_name(name: Seq<char>) -> bool {
    forall|i: int| 0 <= i < name.len() ==> name[i] != ':' && name[i] != '\n'
}

/// Every name in the list can be stored.
pub open spec fn valid_tasks(ts: Seq<TaskModel>) -> bool {
    forall|i: int| 0 <= i < ts.len() ==> valid_name(#[trigger] ts[i].name)
}

/// The record file could not be read or holds a malformed line.
#[derive(Debug, Clone, Copy, PartialEq, Eq)]
pub struct StorageError;

/// A 1-based task number is zero, not a number, or past the end of the list.
#[derive(Debug, Clone, Copy, PartialEq, Eq)]
pub struct IndexError;

/// The terminal reported no usable size.
#[derive(Debug, Clone, Copy, PartialEq, Eq)]
pub struct TerminalError;

impl Task {
    /// A new task with the given name and flag.
    pub fn new(name: &str, done: bool) -> (r: Task)
        ensures
            r@.name == name@,
            r@.done == done,
    {
        Task { name: name.to_owned(), done }
    }

    /// A new task with the same name and flag as this one.
    pub fn duplicate(&self) -> (r: Task)
        ensures
            r@ == self@,
    {
        Task { name: self.name.clone(), done: self.done }
    }
}

} // verus!
