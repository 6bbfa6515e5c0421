//! A task and the line that shows it.
use vstd::prelude::*;
use vstd::string::*;
use crate::due::{Due, Moment};
use crate::text::{repeated, run};
use crate::width::{measure, text_width};

verus! {

/// One entry of the list.
#[derive(Clone, Debug, PartialEq, Eq)]
pub struct Task {
    /// The task's name, and all that identifies it besides its place in the list.
    pub title: String,
    /// Notes on the task, if any were given.
    pub details: Option<Vec<String>>,
    /// When the task is due, if ever.
    pub due: Option<Due>,
    /// Whether the task has been done.
    pub completed: bool,
}

/// What a [`Task`] stands for: its texts as sequences of characters, its
/// due moment as numbers.
pub struct TaskView {
    /// The task's name.
    pub title: Seq<char>,
    /// The notes on the task.
    pub details: Option<Seq<Seq<char>>>,
    /// When the task is due.
    pub due: Option<Moment>,
    /// Whether the task has been done.
    pub completed: bool,
}

impl View for Task {
    type V = TaskView;

    open spec fn view(&self) -> TaskView {
        TaskView {
            title: self.title@,
            details: match self.details {
                Some(notes) => Some(notes@.map_values(|note: String| note@)),
                None => None,
            },
            due: match self.due {
                Some(due) => Some(due@),
                None => None,
            },
            completed: self.completed,
        }
    }
}

/// The label of a task without a due moment.
pub open spec fn no_due_label() -> Seq<char> {
    "no due date"@
}

/// The number of blanks between a title and its label in a line of `cols`
/// columns: what the two widths and four more columns leave of the line, and
/// none where they leave nothing.
pub open spec fn padding(title_width: nat, label_width: nat, cols: nat) -> nat {
    if title_width + label_width + 4 <= cols {
        (cols - title_width - label_width - 4) as nat
    } else {
        0
    }
}

/// A task's line: the title, `pad` blanks, and the label in parentheses.
pub open spec fn line(title: Seq<char>, label: Seq<char>, pad: nat) -> Seq<char> {
    title + run(' ', pad) + seq!['('] + label + seq![')']
}

/// The line of a title and a label whose widths are `title_width` and
/// `label_width`, laid out for `cols` columns.
pub fn compose(
    title: &str,
    label: &str,
    title_width: usize,
    label_width: usize,
    cols: usize,
) -> (out: String)
    ensures
        out@ == line(title@, label@, padding(title_width as nat, label_width as nat, cols as nat)),
{
    let pad: usize = if title_width <= cols && label_width <= cols - title_width && 4 <= cols
        - title_width - label_width {
        cols - title_width - label_width - 4
    } else {
        0
    };
    proof {
        reveal_strlit(" ");
        reveal_strlit("(");
        reveal_strlit(")");
    }
    let mut out = String::from_str(title);
    out.append(repeated(" ", pad).as_str());
    out.append("(");
    out.append(label);
    out.append(")");
    assert("("@ =~= seq!['(']);
    assert(")"@ =~= seq![')']);
    out
}

/// The columns that the parts of a line take up, each measured by itself:
/// the title, the blanks, the label and the two parentheses.
pub open spec fn line_width(title_width: nat, label_width: nat, pad: nat) -> nat {
    title_width + pad + label_width + 2
}

/// A line whose title and label leave room for it takes up all columns but
/// two, which are the marker's and the blank's behind it. One whose title
/// and label leave no room has no blanks, and is as wide as they make it.
pub proof fn lemma_line_width(title_width: nat, label_width: nat, cols: nat)
    ensures
        title_width + label_width + 4 <= cols ==> line_width(
            title_width,
            label_width,
            padding(title_width, label_width, cols),
        ) + 2 == cols,
        title_width + label_width + 4 > cols ==> line_width(
            title_width,
            label_width,
            padding(title_width, label_width, cols),
        ) == title_width + label_width + 2,
{
}

/// A line holds the characters of the title and of the label, a blank for
/// each column of padding, and the two parentheses.
pub proof fn lemma_line_len(title: Seq<char>, label: Seq<char>, pad: nat)
    ensures
        line(title, label, pad).len() == title.len() + pad + label.len() + 2,
{
}

impl TaskView {
    /// The label of the task: the text of its due moment, or the words that
    /// say it has none.
    pub open spec fn label(self) -> Seq<char> {
        match self.due {
            Some(due) => due.text(),
            None => no_due_label(),
        }
    }

    /// The task's line in `cols` columns: title and label as far apart as
    /// their widths let them be.
    pub open spec fn rendered(self, cols: nat) -> Seq<char> {
        line(
            self.title,
            self.label(),
            padding(text_width(self.title), text_width(self.label()), cols),
        )
    }
}

impl Task {
    /// The label of the task.
    pub fn label(&self) -> (out: String)
        ensures
            out@ == self@.label(),
    {
        match &self.due {
            Some(due) => due.label(),
            None => String::from_str("no due date"),
        }
    }

    /// The task's name.
    pub fn name(&self) -> (out: String)
        ensures
            out@ == self@.title,
    {
        self.title.clone()
    }

    /// The task's line in `cols` columns: title and label at the two ends,
    /// blanks between them.
    pub fn to_string(&self, cols: usize) -> (out: String)
        ensures
            out@ == self@.rendered(cols as nat),
    {
        let label = self.label();
        let title_width = measure(self.title.as_str());
        let label_width = measure(label.as_str());
        compose(self.title.as_str(), label.as_str(), title_width, label_width, cols)
    }
}

} // verus!
