//! A task list for one person: tasks with an optional due moment, ordered,
//! rendered to a fixed width, and edited by a handful of commands.
//!
//! The library holds the list in memory and decides; it reads no file, asks
//! no clock and prints nothing. A program around it loads the list, calls
//! [`prepare`] and [`dispatch`], does what the returned [`Step`] says, calls
//! [`finish`] where the user had to select tasks, and saves the list.
pub mod due;
pub mod order;
pub mod report;
pub mod run;
pub mod select;
pub mod task;
pub mod text;
pub mod width;

pub use due::{due_after, Due};
pub use order::{sort_tasks, SortMode};
pub use report::report;
pub use run::{dispatch, finish, labels, prepare, terminal_size, Command, Flow, Mark, Options, Place, Size, Step, Stop};
pub use select::{check_selection, mark_complete, remove_selected};
pub use task::Task;
