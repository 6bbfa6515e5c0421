//! The framed report: a banner, one line for each task, and a footer.
use vstd::prelude::*;
use vstd::string::*;
use crate::task::{Task, TaskView};
use crate::text::{repeated, run};
use crate::width::{measure, text_width};

verus! {

/// The words in the banner, before they are put in capitals.
pub const TITLE: &'static str = "todo list";

/// The character that rules are drawn with: a horizontal bar, not a hyphen.
pub const RULE: &'static str = "\u{2500}";

/// The character of [`RULE`].
pub open spec fn rule_char() -> char {
    '\u{2500}'
}

/// A text in capitals, as the standard library puts it there.
pub uninterp spec fn uppercase(text: Seq<char>) -> Seq<char>;

/// Calls `str::to_uppercase`, which returns the uppercase equivalent of a
/// text as a new string. The result depends on the text alone; the contract
/// only gives it its name.
#[verifier::external_body]
fn capitals(text: &str) -> (out: String)
    ensures
        out@ == uppercase(text@),
{
    text.to_uppercase()
}

/// The length of the rule on either side of the banner's words, in a report
/// of `cols` columns, where the words are `title_width` columns wide: half
/// of what the words leave, rounded down, less one for the blank beside
/// them; and nothing where that would be less than nothing.
pub open spec fn banner_padding(cols: nat, title_width: nat) -> nat {
    if cols >= title_width + 2 {
        ((cols - title_width) / 2 - 1) as nat
    } else {
        0
    }
}

/// Where the words and a blank on either side of them fit, the banner is
/// as wide as the report, or one column short of it: the two rules are of
/// one length, so an odd column stays empty. Where they do not fit, the
/// banner has no rules.
pub proof fn lemma_banner_width(cols: nat, title_width: nat)
    ensures
        cols >= title_width + 2 ==> {
            let width = 2 * banner_padding(cols, title_width) + title_width + 2;
            width == cols || width + 1 == cols
        },
        cols < title_width + 2 ==> banner_padding(cols, title_width) == 0,
{
}

/// The banner: the heading between two rules of `pad` characters, a blank
/// on either side of it.
pub open spec fn banner_line(pad: nat, heading: Seq<char>) -> Seq<char> {
    run(rule_char(), pad) + seq![' '] + heading + seq![' '] + run(rule_char(), pad)
}

/// A task's line in the report: the marker, a blank, and the task's own line.
pub open spec fn row_line(marker: Seq<char>, task: TaskView, cols: nat) -> Seq<char> {
    marker + seq![' '] + task.rendered(cols)
}

/// The marker of a task: one for those that are done, one for the others.
pub open spec fn marker_of(task: TaskView, checked: Seq<char>, unchecked: Seq<char>) -> Seq<char> {
    if task.completed {
        checked
    } else {
        unchecked
    }
}

/// The banner's words as they are shown: in capitals.
pub fn heading() -> (out: String)
    ensures
        out@ == uppercase(TITLE@),
{
    capitals(TITLE)
}

/// The banner of a report of `cols` columns, for words that are
/// `title_width` columns wide and shown as `heading`.
pub fn banner_of_width(cols: usize, title_width: usize, heading: &str) -> (out: String)
    ensures
        out@ == banner_line(banner_padding(cols as nat, title_width as nat), heading@),
{
    let pad: usize = if cols >= title_width && cols - title_width >= 2 {
        (cols - title_width) / 2 - 1
    } else {
        0
    };
    proof {
        reveal_strlit("\u{2500}");
        reveal_strlit(" ");
    }
    let rule = repeated(RULE, pad);
    let mut out = rule.clone();
    out.append(" ");
    out.append(heading);
    out.append(" ");
    out.append(rule.as_str());
    assert(" "@ =~= seq![' ']);
    out
}

/// The banner of a report of `cols` columns. `heading` is what stands for
/// the words in it: the words in capitals, with whatever makes them stand
/// out on the terminal. The rules are as long as the plain words need.
pub fn banner(cols: usize, heading: &str) -> (out: String)
    ensures
        out@ == banner_line(banner_padding(cols as nat, text_width(TITLE@)), heading@),
{
    banner_of_width(cols, measure(TITLE), heading)
}

/// The footer of a report of `cols` columns: a rule across all of them.
pub fn footer(cols: usize) -> (out: String)
    ensures
        out@ == run(rule_char(), cols as nat),
{
    proof {
        reveal_strlit("\u{2500}");
    }
    repeated(RULE, cols)
}

/// A task's line in a report of `cols` columns, behind the marker that
/// tells whether it is done.
pub fn row(task: &Task, cols: usize, checked: &str, unchecked: &str) -> (out: String)
    ensures
        out@ == row_line(marker_of(task@, checked@, unchecked@), task@, cols as nat),
{
    let mut out = String::from_str(if task.completed {
        checked
    } else {
        unchecked
    });
    proof {
        reveal_strlit(" ");
    }
    out.append(" ");
    out.append(task.to_string(cols).as_str());
    assert(" "@ =~= seq![' ']);
    out
}

/// The lines of the report on `tasks` in `cols` columns: the banner, the
/// tasks in their order, the footer. `heading` stands for the banner's
/// words, `checked` and `unchecked` are the markers of the tasks that are
/// done and of those that are not.
pub fn report(tasks: &Vec<Task>, cols: usize, heading: &str, checked: &str, unchecked: &str) -> (out:
    Vec<String>)
    ensures
        out@.len() == tasks@.len() + 2,
        out@[0]@ == banner_line(banner_padding(cols as nat, text_width(TITLE@)), heading@),
        forall|i: int|
            0 <= i < tasks@.len() ==> (#[trigger] out@[i + 1])@ == row_line(
                marker_of(tasks@[i]@, checked@, unchecked@),
                tasks@[i]@,
                cols as nat,
            ),
        out@[tasks@.len() + 1 as int]@ == run(rule_char(), cols as nat),
{
    let mut out: Vec<String> = Vec::new();
    out.push(banner(cols, heading));
    let mut i: usize = 0;
    while i < tasks.len()
        invariant
            i <= tasks@.len(),
            out@.len() == i + 1,
            out@[0]@ == banner_line(banner_padding(cols as nat, text_width(TITLE@)), heading@),
            forall|k: int|
                0 <= k < i ==> (#[trigger] out@[k + 1])@ == row_line(
                    marker_of(tasks@[k]@, checked@, unchecked@),
                    tasks@[k]@,
                    cols as nat,
                ),
        decreases tasks@.len() - i,
    {
        out.push(row(&tasks[i], cols, checked, unchecked));
        i = i + 1;
    }
    out.push(footer(cols));
    out
}

} // verus!
