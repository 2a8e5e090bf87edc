//! Tasks as the store hands them out, and what can go wrong with them.

use crate::text::{integer, push_integer};
use vstd::prelude::*;
use vstd::string::*;

verus! {

/// One task of the store.
#[derive(Clone, Debug, PartialEq, Eq)]
pub struct Task {
    /// The number that the store gave the task.
    pub id: i64,
    pub name: String,
    pub done: bool,
    /// The name of the list that the task belongs to.
    pub list: String,
    /// The due date, in the storage format, if the task has one.
    pub date: Option<String>,
}

/// A task as plain values.
pub struct TaskView {
    pub id: int,
    pub name: Seq<char>,
    pub done: bool,
    pub list: Seq<char>,
    pub date: Option<Seq<char>>,
}

impl View for Task {
    type V = TaskView;

    open spec fn view(&self) -> TaskView {
        TaskView {
            id: self.id as int,
            name: self.name@,
            done: self.done,
            list: self.list@,
            date: match self.date {
                Some(text) => Some(text@),
                None => None,
            },
        }
    }
}

/// The views of a sequence of tasks.
pub open spec fn task_views(tasks: Seq<Task>) -> Seq<TaskView> {
    Seq::new(tasks.len(), |i: int| tasks[i]@)
}

/// Why an operation on tasks failed.
#[derive(Clone, Debug, PartialEq, Eq)]
pub enum TaskError {
    /// A due date was entered that the input format cannot read.
    InvalidDate,
    /// A text is no date in the format it was read with; `reason` says why.
    UnreadableDate { reason: String },
    /// The format cannot show the date.
    UnprintableDate { format: String },
    /// No task could be added to the list.
    ListNotFound { list: String },
    /// No task has the id.
    NoSuchTask { id: i64 },
    /// No list has the name.
    NoSuchList { list: String },
    /// No task has `elem` in the field `by`.
    NoMatch { by: String, elem: String },
    /// The store holds no task at all.
    NoTaskAvailable,
}

/// An error on tasks as plain values.
pub enum TaskErrorView {
    InvalidDate,
    UnreadableDate { reason: Seq<char> },
    UnprintableDate { format: Seq<char> },
    ListNotFound { list: Seq<char> },
    NoSuchTask { id: int },
    NoSuchList { list: Seq<char> },
    NoMatch { by: Seq<char>, elem: Seq<char> },
    NoTaskAvailable,
}

impl View for TaskError {
    type V = TaskErrorView;

    open spec fn view(&self) -> TaskErrorView {
        match self {
            TaskError::InvalidDate => TaskErrorView::InvalidDate,
            TaskError::UnreadableDate { reason } => TaskErrorView::UnreadableDate {
                reason: reason@,
            },
            TaskError::UnprintableDate { format } => TaskErrorView::UnprintableDate {
                format: format@,
            },
            TaskError::ListNotFound { list } => TaskErrorView::ListNotFound { list: list@ },
            TaskError::NoSuchTask { id } => TaskErrorView::NoSuchTask { id: *id as int },
            TaskError::NoSuchList { list } => TaskErrorView::NoSuchList { list: list@ },
            TaskError::NoMatch { by, elem } => TaskErrorView::NoMatch { by: by@, elem: elem@ },
            TaskError::NoTaskAvailable => TaskErrorView::NoTaskAvailable,
        }
    }
}

impl TaskErrorView {
    /// The error in words.
    pub open spec fn message(self) -> Seq<char> {
        match self {
            TaskErrorView::InvalidDate => "invalid date format"@,
            TaskErrorView::UnreadableDate { reason } => reason,
            TaskErrorView::UnprintableDate { format } => "cannot show a date in the format "@
                + format,
            TaskErrorView::ListNotFound { list } => "list "@ + list + " not found"@,
            TaskErrorView::NoSuchTask { id } => "no such task with id "@ + integer(id),
            TaskErrorView::NoSuchList { list } => "no such list named \""@ + list + "\""@,
            TaskErrorView::NoMatch { by, elem } => "no such task where "@ + by + " = "@ + elem,
            TaskErrorView::NoTaskAvailable => "no task available"@,
        }
    }
}

impl TaskError {
    /// The error in words.
    pub fn message(&self) -> (r: String)
        ensures
            r@ == self@.message(),
    {
        match self {
            TaskError::InvalidDate => "invalid date format".to_owned(),
            TaskError::UnreadableDate { reason } => reason.clone(),
            TaskError::UnprintableDate { format } => {
                let mut out = "cannot show a date in the format ".to_owned();
                out.append(format.as_str());
                out
            },
            TaskError::ListNotFound { list } => {
                let mut out = "list ".to_owned();
                out.append(list.as_str());
                out.append(" not found");
                out
            },
            TaskError::NoSuchTask { id } => {
                let mut out = "no such task with id ".to_owned();
                push_integer(&mut out, *id);
                out
            },
            TaskError::NoSuchList { list } => {
                let mut out = "no such list named \"".to_owned();
                out.append(list.as_str());
                out.append("\"");
                out
            },
            TaskError::NoMatch { by, elem } => {
                let mut out = "no such task where ".to_owned();
                out.append(by.as_str());
                out.append(" = ");
                out.append(elem.as_str());
                out
            },
            TaskError::NoTaskAvailable => "no task available".to_owned(),
        }
    }
}

} // verus!
