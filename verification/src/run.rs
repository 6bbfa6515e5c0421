//! One run over the list: where the list is kept, what the switches ask
//! for, and what a command does to the list.
use vstd::prelude::*;
use crate::due::Due;
use crate::order::{lemma_rearranged_keeps_tasks, sort_tasks, stable_descending, SortMode};
use crate::select::{check_selection, is_selection, mark_complete, places, remove_selected, with_done, without};
use crate::task::Task;

verus! {

/// The name of the file that holds the list, in whatever directory it is kept.
pub const FILE_NAME: &'static str = "todo.yaml";

/// The width that a report is laid out for where the terminal tells none.
pub const DEFAULT_COLS: u16 = 80;

/// The height that goes with [`DEFAULT_COLS`].
pub const DEFAULT_ROWS: u16 = 24;

/// The size of a terminal.
#[derive(Clone, Copy, Debug, PartialEq, Eq)]
pub struct Size {
    /// Its lines.
    pub rows: u16,
    /// Its columns.
    pub cols: u16,
}

/// The size to lay out for: what was detected, or the default where
/// nothing was.
pub fn terminal_size(detected: Option<Size>) -> (size: Size)
    ensures
        size == match detected {
            Some(found) => found,
            None => (Size { rows: DEFAULT_ROWS, cols: DEFAULT_COLS }),
        },
{
    match detected {
        Some(found) => found,
        None => Size { rows: DEFAULT_ROWS, cols: DEFAULT_COLS },
    }
}

/// The switches of a run, which hold whatever the command.
#[derive(Clone, Debug, PartialEq, Eq)]
pub struct Options {
    /// The file to use in place of the one in the home or working directory.
    pub file: Option<String>,
    /// Use the list in the home directory, not the one in the working directory.
    pub global: bool,
    /// Show the tasks that are done.
    pub completed: bool,
    /// What to order the list by; by due moment where nothing is said.
    pub sort: Option<SortMode>,
    /// Add the tasks that are written down in the files of the working directory.
    pub include_code: bool,
}

/// Where the list is kept.
#[derive(Clone, Debug, PartialEq, Eq)]
pub enum Place {
    /// In the file of this path.
    Given(String),
    /// In the file named [`FILE_NAME`] in the home directory.
    Home,
    /// In the file named [`FILE_NAME`] in the working directory.
    WorkingDir,
}

/// What a run is asked to do.
#[derive(Clone, Debug, PartialEq, Eq)]
pub enum Command {
    /// Show the list.
    List,
    /// Open the file that holds the list.
    Open,
    /// Add a task.
    Add {
        /// The name of the task.
        title: String,
        /// Notes on the task.
        details: Option<Vec<String>>,
        /// When the task is due.
        due: Option<Due>,
    },
    /// Mark tasks as done: the one named, or those that the user selects.
    Done {
        /// The name of the task.
        task: Option<String>,
    },
    /// Remove tasks: the one named, or those that the user selects.
    Remove {
        /// The name of the task.
        task: Option<String>,
    },
    /// Remove every task.
    Clear,
}

/// Why a run stops before the list is saved.
#[derive(Clone, Copy, Debug, PartialEq, Eq)]
pub enum Stop {
    /// Showing the tasks that are done is not provided.
    CompletedFilter,
    /// Reading tasks out of the files of the working directory is not provided.
    CodeScan,
    /// Marking a task by its name is not provided.
    DoneByName,
    /// Removing a task by its name is not provided.
    RemoveByName,
    /// Keeping the list in a Markdown file is not provided.
    MarkdownStore,
    /// What came back as a selection is none of this list.
    BadSelection,
}

/// What a selection is for.
#[derive(Clone, Copy, Debug, PartialEq, Eq)]
pub enum Flow {
    /// The selected tasks are marked as done.
    Complete,
    /// The selected tasks are removed.
    Remove,
}

/// What is left to do after a command has had its effect on the list, and
/// before the list is saved.
#[derive(Clone, Copy, Debug, PartialEq, Eq)]
pub enum Step {
    /// Print the report.
    Show,
    /// Hand the file to the program that opens such files, and do not wait for it.
    Launch,
    /// Let the user select tasks, and finish with the selection.
    Ask(Flow),
    /// Nothing.
    Save,
}

/// A marker in the list that tasks are selected from.
#[derive(Clone, Copy, Debug, PartialEq, Eq)]
pub struct Mark {
    /// What is shown.
    pub glyph: &'static str,
    /// Whether it is shown in red.
    pub red: bool,
}

impl Options {
    /// What the list is ordered by.
    pub open spec fn mode(self) -> SortMode {
        match self.sort {
            Some(mode) => mode,
            None => SortMode::Date,
        }
    }

    /// Why a run with these switches stops, if it does.
    pub open spec fn refusal(self) -> Option<Stop> {
        if self.completed {
            Some(Stop::CompletedFilter)
        } else if self.include_code {
            Some(Stop::CodeScan)
        } else {
            None
        }
    }

    /// Where the list is kept: in the file that is named, if one is;
    /// else in the home directory, if that is asked for; else in the
    /// working directory.
    pub fn locate(&self) -> (place: Place)
        ensures
            place == match self.file {
                Some(path) => Place::Given(path),
                None => if self.global {
                    Place::Home
                } else {
                    Place::WorkingDir
                },
            },
    {
        match &self.file {
            Some(path) => Place::Given(path.clone()),
            None => if self.global {
                Place::Home
            } else {
                Place::WorkingDir
            },
        }
    }
}

impl Stop {
    /// What the user is told when the run stops.
    pub fn message(self) -> (text: &'static str)
        ensures
            text@ == match self {
                Stop::CompletedFilter => "showing completed items is not implemented"@,
                Stop::CodeScan => "including items from the workspace is not implemented"@,
                Stop::DoneByName => "marking a task by its name is not implemented"@,
                Stop::RemoveByName => "removing a task by its name is not implemented"@,
                Stop::MarkdownStore => "markdown files are not implemented"@,
                Stop::BadSelection => "the selection does not fit the list"@,
            },
    {
        match self {
            Stop::CompletedFilter => "showing completed items is not implemented",
            Stop::CodeScan => "including items from the workspace is not implemented",
            Stop::DoneByName => "marking a task by its name is not implemented",
            Stop::RemoveByName => "removing a task by its name is not implemented",
            Stop::MarkdownStore => "markdown files are not implemented",
            Stop::BadSelection => "the selection does not fit the list",
        }
    }
}

impl Flow {
    /// What the user is asked.
    pub fn prompt(self) -> (text: &'static str)
        ensures
            text@ == match self {
                Flow::Complete => "Select items to mark as complete."@,
                Flow::Remove => "Select items to remove"@,
            },
    {
        match self {
            Flow::Complete => "Select items to mark as complete.",
            Flow::Remove => "Select items to remove",
        }
    }

    /// The marker of a selected task, where it is not the usual one: a red
    /// cross on the tasks that are to leave.
    pub fn checked_mark(self) -> (mark: Option<Mark>)
        ensures
            mark == match self {
                Flow::Complete => None::<Mark>,
                Flow::Remove => Some(Mark { glyph: "\u{2717}", red: true }),
            },
    {
        match self {
            Flow::Complete => None,
            Flow::Remove => Some(Mark { glyph: "\u{2717}", red: true }),
        }
    }

    /// The marker of a task that is not selected: a blank.
    pub fn unchecked_mark(self) -> (mark: Mark)
        ensures
            mark == (Mark { glyph: " ", red: false }),
    {
        Mark { glyph: " ", red: false }
    }
}

/// Gets the list ready for a command: it is put in the order that the
/// switches ask for. Where a switch asks for what is not provided, the run
/// stops and the list stays as it was.
pub fn prepare(tasks: &mut Vec<Task>, options: &Options) -> (outcome: Result<(), Stop>)
    ensures
        match options.refusal() {
            Some(stop) => outcome == Err::<(), Stop>(stop) && final(tasks)@ == old(tasks)@,
            None => outcome is Ok && exists|from: Seq<int>|
                stable_descending(options.mode(), old(tasks)@, final(tasks)@, from),
        },
{
    if options.completed {
        return Err(Stop::CompletedFilter);
    }
    if options.include_code {
        return Err(Stop::CodeScan);
    }
    let mode = match options.sort {
        Some(mode) => mode,
        None => SortMode::default(),
    };
    sort_tasks(tasks, mode);
    Ok(())
}

/// The new task that a command to add one describes: not done yet.
pub open spec fn added(title: String, details: Option<Vec<String>>, due: Option<Due>) -> Task {
    Task { title, details, due, completed: false }
}

/// The list after `command` has had its effect on it. A run without a
/// command shows the list.
pub open spec fn list_after(list: Seq<Task>, command: Option<Command>) -> Seq<Task> {
    match command {
        Some(Command::Add { title, details, due }) => list.push(added(title, details, due)),
        Some(Command::Clear) => Seq::empty(),
        _ => list,
    }
}

/// What is left to do after `command`, or why the run stops.
pub open spec fn step_after(command: Option<Command>) -> Result<Step, Stop> {
    match command {
        None => Ok(Step::Show),
        Some(Command::List) => Ok(Step::Show),
        Some(Command::Open) => Ok(Step::Launch),
        Some(Command::Add { .. }) => Ok(Step::Save),
        Some(Command::Done { task }) => if task is Some {
            Err(Stop::DoneByName)
        } else {
            Ok(Step::Ask(Flow::Complete))
        },
        Some(Command::Remove { task }) => if task is Some {
            Err(Stop::RemoveByName)
        } else {
            Ok(Step::Ask(Flow::Remove))
        },
        Some(Command::Clear) => Ok(Step::Save),
    }
}

/// Lets `command` have its effect on the list, and tells what is left to do
/// before the list is saved. A new task goes to the end of the list;
/// clearing leaves no task; nothing else changes the list here.
pub fn dispatch(tasks: &mut Vec<Task>, command: Option<Command>) -> (outcome: Result<Step, Stop>)
    ensures
        outcome == step_after(command),
        final(tasks)@ == list_after(old(tasks)@, command),
{
    match command {
        None => Ok(Step::Show),
        Some(Command::List) => Ok(Step::Show),
        Some(Command::Open) => Ok(Step::Launch),
        Some(Command::Add { title, details, due }) => {
            tasks.push(Task { title, details, due, completed: false });
            Ok(Step::Save)
        },
        Some(Command::Done { task }) => match task {
            Some(_) => Err(Stop::DoneByName),
            None => Ok(Step::Ask(Flow::Complete)),
        },
        Some(Command::Remove { task }) => match task {
            Some(_) => Err(Stop::RemoveByName),
            None => Ok(Step::Ask(Flow::Remove)),
        },
        Some(Command::Clear) => {
            tasks.clear();
            Ok(Step::Save)
        },
    }
}

/// A run that shows the list, with or without the command that says so,
/// leaves the list as it was put in order: it holds the tasks that were
/// loaded, each as often as before.
pub proof fn lemma_showing_keeps_tasks(
    options: Options,
    loaded: Seq<Task>,
    ordered: Seq<Task>,
    from: Seq<int>,
)
    requires
        stable_descending(options.mode(), loaded, ordered, from),
    ensures
        step_after(None) == Ok::<Step, Stop>(Step::Show),
        step_after(Some(Command::List)) == Ok::<Step, Stop>(Step::Show),
        list_after(ordered, None) == ordered,
        list_after(ordered, Some(Command::List)) == ordered,
        ordered.to_multiset() == loaded.to_multiset(),
{
    lemma_rearranged_keeps_tasks(loaded, ordered, from);
}

/// What the user selected: nothing, where the user gave up selecting.
pub open spec fn selected(picked: Option<Vec<usize>>) -> Seq<usize> {
    match picked {
        Some(chosen) => chosen@,
        None => Seq::empty(),
    }
}

/// The list after the tasks at the places in `picked` have been marked as
/// done or removed, as `flow` has it.
pub open spec fn list_after_selection(list: Seq<Task>, flow: Flow, picked: Seq<usize>) -> Seq<Task> {
    match flow {
        Flow::Complete => with_done(list, places(picked)),
        Flow::Remove => without(list, places(picked)),
    }
}

/// Finishes a command with what the user selected; `None` says that the
/// user gave up selecting, which selects nothing. A selection names places
/// of the list, each once, in ascending order; on anything else the run
/// stops and the list stays as it was.
pub fn finish(tasks: &mut Vec<Task>, flow: Flow, picked: Option<Vec<usize>>) -> (outcome: Result<
    (),
    Stop,
>)
    ensures
        outcome is Ok <==> is_selection(selected(picked), old(tasks)@.len()),
        outcome is Ok ==> final(tasks)@ == list_after_selection(old(tasks)@, flow, selected(picked)),
        outcome is Err ==> outcome == Err::<(), Stop>(Stop::BadSelection) && final(tasks)@ == old(
            tasks,
        )@,
{
    let chosen: Vec<usize> = match picked {
        Some(chosen) => chosen,
        None => Vec::new(),
    };
    if !check_selection(&chosen, tasks.len()) {
        return Err(Stop::BadSelection);
    }
    match flow {
        Flow::Complete => mark_complete(tasks, &chosen),
        Flow::Remove => remove_selected(tasks, &chosen),
    }
    Ok(())
}

/// The line of each task in `cols` columns, in the order of the list: what
/// the user selects from.
pub fn labels(tasks: &Vec<Task>, cols: usize) -> (lines: Vec<String>)
    ensures
        lines@.len() == tasks@.len(),
        forall|i: int| 0 <= i < tasks@.len() ==> (#[trigger] lines@[i])@ == tasks@[i]@.rendered(cols as nat),
{
    let mut lines: Vec<String> = Vec::new();
    let mut i: usize = 0;
    while i < tasks.len()
        invariant
            i <= tasks@.len(),
            lines@.len() == i,
            forall|k: int| 0 <= k < i ==> (#[trigger] lines@[k])@ == tasks@[k]@.rendered(cols as nat),
        decreases tasks@.len() - i,
    {
        lines.push(tasks[i].to_string(cols));
        i = i + 1;
    }
    lines
}

} // verus!
