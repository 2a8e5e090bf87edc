//! What the store is asked to keep, and what its answers mean.
//!
//! The store itself is outside: it runs the statements and reports how many
//! rows a statement touched, or which rows it found. Here is what is decided
//! before a statement is run and after its answer has come.

use crate::calendar::{day_of, read_day, show_day, storage_format, text_of_day, text_view};
use crate::task::{Task, TaskError, TaskErrorView};
use vstd::prelude::*;
use vstd::string::*;

verus! {

/// A task that is to be added: undone, with its due date, if it has one, in
/// the storage format.
#[derive(Clone, Debug, PartialEq, Eq)]
pub struct NewTask {
    pub name: String,
    pub list: String,
    pub date: Option<String>,
}

/// A task to add as plain values.
pub struct NewTaskView {
    pub name: Seq<char>,
    pub list: Seq<char>,
    pub date: Option<Seq<char>>,
}

impl View for NewTask {
    type V = NewTaskView;

    open spec fn view(&self) -> NewTaskView {
        NewTaskView {
            name: self.name@,
            list: self.list@,
            date: match self.date {
                Some(text) => Some(text@),
                None => None,
            },
        }
    }
}

/// The due date as the store keeps it: the date that was entered in the
/// input format, written in the storage format. A text that the input
/// format cannot read is refused as an invalid date.
pub open spec fn stored_date(entered: Option<Seq<char>>, format: Seq<char>) -> Result<
    Option<Seq<char>>,
    TaskErrorView,
> {
    match entered {
        None => Ok(None),
        Some(text) => match day_of(text, format) {
            Ok(day) => match text_of_day(day, storage_format()) {
                Ok(stored) => Ok(Some(stored)),
                Err(e) => Err(e),
            },
            Err(_) => Err(TaskErrorView::InvalidDate),
        },
    }
}

/// The task to add, or why none is added.
pub open spec fn new_task(
    list: Seq<char>,
    task: Seq<char>,
    entered: Option<Seq<char>>,
    format: Seq<char>,
) -> Result<NewTaskView, TaskErrorView> {
    match stored_date(entered, format) {
        Ok(date) => Ok(NewTaskView { name: task, list, date }),
        Err(e) => Err(e),
    }
}

/// The view of a text that may be missing.
pub open spec fn entered_view(date: Option<String>) -> Option<Seq<char>> {
    match date {
        Some(text) => Some(text@),
        None => None,
    }
}

/// How the making of a new task came out, as plain values.
pub open spec fn new_task_view(r: Result<NewTask, TaskError>) -> Result<
    NewTaskView,
    TaskErrorView,
> {
    match r {
        Ok(task) => Ok(task@),
        Err(e) => Err(e@),
    }
}

/// How an answer without a value came out, as plain values.
pub open spec fn done_view(r: Result<(), TaskError>) -> Result<(), TaskErrorView> {
    match r {
        Ok(()) => Ok(()),
        Err(e) => Err(e@),
    }
}

/// How an answer with tasks came out, as plain values.
pub open spec fn tasks_view(r: Result<Vec<Task>, TaskError>) -> Result<Seq<Task>, TaskErrorView> {
    match r {
        Ok(tasks) => Ok(tasks@),
        Err(e) => Err(e@),
    }
}

/// Prepares a task for the store: a due date, entered in `date_format`, is
/// checked and put into the storage format before anything is written.
pub fn create_todo(list: &str, task: &str, date: Option<String>, date_format: &str) -> (r: Result<
    NewTask,
    TaskError,
>)
    ensures
        new_task_view(r) == new_task(list@, task@, entered_view(date), date_format@),
{
    let stored = match &date {
        None => None,
        Some(text) => match read_day(text.as_str(), date_format) {
            Ok(day) => match show_day(day, "%d/%m/%Y") {
                Ok(stored) => Some(stored),
                Err(e) => {
                    return Err(e);
                },
            },
            Err(_) => {
                return Err(TaskError::InvalidDate);
            },
        },
    };
    Ok(NewTask { name: task.to_owned(), list: list.to_owned(), date: stored })
}

/// What is said of a task that was added.
pub open spec fn added_message(list: Seq<char>, task: Seq<char>) -> Seq<char> {
    "Task "@ + task + " added to list "@ + list
}

/// The answer to an insertion that touched `rows` rows: with none the list
/// was not found.
pub fn created(rows: usize, list: &str, task: &str) -> (r: Result<String, TaskError>)
    ensures
        text_view(r) == if rows == 0 {
            Err::<Seq<char>, TaskErrorView>(TaskErrorView::ListNotFound { list: list@ })
        } else {
            Ok::<Seq<char>, TaskErrorView>(added_message(list@, task@))
        },
{
    if rows == 0 {
        Err(TaskError::ListNotFound { list: list.to_owned() })
    } else {
        let mut out = "Task ".to_owned();
        out.append(task);
        out.append(" added to list ");
        out.append(list);
        Ok(out)
    }
}

/// The answer to marking the task `id` as done, where that touched `rows`
/// rows: with none there is no such task.
pub fn check_todo(id: i64, rows: usize) -> (r: Result<(), TaskError>)
    ensures
        done_view(r) == if rows == 0 {
            Err::<(), TaskErrorView>(TaskErrorView::NoSuchTask { id: id as int })
        } else {
            Ok::<(), TaskErrorView>(())
        },
{
    if rows == 0 {
        Err(TaskError::NoSuchTask { id })
    } else {
        Ok(())
    }
}

/// The answer to removing the task `id`, whose name was `name`, where that
/// touched `rows` rows: with none there is no such task, else the name.
pub fn clear_todo(id: i64, rows: usize, name: String) -> (r: Result<String, TaskError>)
    ensures
        text_view(r) == if rows == 0 {
            Err::<Seq<char>, TaskErrorView>(TaskErrorView::NoSuchTask { id: id as int })
        } else {
            Ok::<Seq<char>, TaskErrorView>(name@)
        },
{
    if rows == 0 {
        Err(TaskError::NoSuchTask { id })
    } else {
        Ok(name)
    }
}

/// The answer to removing the list `list`, where that touched `rows` rows:
/// with none there is no such list.
pub fn clear_list(list: &str, rows: usize) -> (r: Result<(), TaskError>)
    ensures
        done_view(r) == if rows == 0 {
            Err::<(), TaskErrorView>(TaskErrorView::NoSuchList { list: list@ })
        } else {
            Ok::<(), TaskErrorView>(())
        },
{
    if rows == 0 {
        Err(TaskError::NoSuchList { list: list.to_owned() })
    } else {
        Ok(())
    }
}

/// What is to be removed.
#[derive(Clone, Debug, PartialEq, Eq)]
pub enum Removal {
    /// A whole list, by its name.
    List { list: String },
    /// One task, by its id.
    Task { id: i64 },
}

/// What a request to remove names: a list or a task. A request must name
/// exactly one of the two; one that names both or neither names nothing.
pub fn removal(list: Option<String>, id: Option<i64>) -> (r: Option<Removal>)
    ensures
        match (list, id) {
            (Some(name), None) => r == Some(Removal::List { list: name }),
            (None, Some(number)) => r == Some(Removal::Task { id: number }),
            _ => r is None,
        },
{
    match (list, id) {
        (Some(name), None) => Some(Removal::List { list: name }),
        (None, Some(number)) => Some(Removal::Task { id: number }),
        _ => None,
    }
}

/// The answer to a search for the tasks that have `elem` in the field `by`:
/// the rows found, as they came; where none was found, an error that names
/// the search.
pub fn select_query(by: &str, elem: &str, rows: Vec<Task>) -> (r: Result<Vec<Task>, TaskError>)
    ensures
        tasks_view(r) == if rows.len() == 0 {
            Err::<Seq<Task>, TaskErrorView>(TaskErrorView::NoMatch { by: by@, elem: elem@ })
        } else {
            Ok::<Seq<Task>, TaskErrorView>(rows@)
        },
{
    if rows.len() == 0 {
        Err(TaskError::NoMatch { by: by.to_owned(), elem: elem.to_owned() })
    } else {
        Ok(rows)
    }
}

/// The answer to a search for all tasks: the rows found, as they came;
/// where there is none, an error.
pub fn select_all(rows: Vec<Task>) -> (r: Result<Vec<Task>, TaskError>)
    ensures
        tasks_view(r) == if rows.len() == 0 {
            Err::<Seq<Task>, TaskErrorView>(TaskErrorView::NoTaskAvailable)
        } else {
            Ok::<Seq<Task>, TaskErrorView>(rows@)
        },
{
    if rows.len() == 0 {
        Err(TaskError::NoTaskAvailable)
    } else {
        Ok(rows)
    }
}

/// The name of the first of the tasks, if there is one.
pub fn first_name(tasks: &Vec<Task>) -> (r: Option<String>)
    ensures
        match r {
            Some(name) => tasks.len() > 0 && name@ == tasks[0].name@,
            None => tasks.len() == 0,
        },
{
    if tasks.len() == 0 {
        None
    } else {
        Some(tasks[0].name.clone())
    }
}

} // verus!
