//! A task list for the command line: tasks in named lists, some with a due
//! date.
//!
//! This library holds what is decided and computed; reading files, the
//! clock and the store is left to the program around it, which hands over
//! plain values. Each function states what it returns over the views of
//! its arguments, and Verus proves that it does.
//!
//! - `config` reads the configuration file; `template` compiles its date
//!   template and `number` reads its integers.
//! - `calendar` reads and shows dates; `status` classifies a due date by how
//!   far it is from today.
//! - `layout` sets a task and a list's heading as text; `render` renders
//!   whole lists, due dates included.
//! - `store` holds what is decided before and after a statement of the
//!   store is run; `task` holds the tasks themselves and their errors.
//! - `text` holds the helpers on characters that the others share.

pub mod calendar;
pub mod config;
pub mod layout;
pub mod number;
pub mod render;
pub mod status;
pub mod store;
pub mod task;
pub mod template;
pub mod text;
