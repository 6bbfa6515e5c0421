use todo_list::report::{banner, banner_of_width, footer, heading, report, row, RULE, TITLE};
use todo_list::task::Task;

fn entry(title: &str, completed: bool) -> Task {
    Task { title: title.to_string(), details: None, due: None, completed }
}

#[test]
fn the_heading_is_the_title_in_capitals() {
    assert_eq!(TITLE, "todo list");
    assert_eq!(heading(), "TODO LIST");
}

#[test]
fn the_rule_is_a_horizontal_bar() {
    assert_eq!(RULE, "\u{2500}");
    assert_ne!(RULE, "-");
}

#[test]
fn the_banner_in_eighty_columns() {
    // (80 - 9) / 2 - 1 = 34.
    let rule = "\u{2500}".repeat(34);
    assert_eq!(banner(80, "TODO LIST"), format!("{rule} TODO LIST {rule}"));
}

#[test]
fn the_banner_in_an_odd_number_of_columns() {
    // (81 - 9) / 2 - 1 = 35.
    let rule = "\u{2500}".repeat(35);
    assert_eq!(banner(81, "TODO LIST"), format!("{rule} TODO LIST {rule}"));
}

#[test]
fn the_banner_rules_go_by_the_plain_title() {
    let shown = "\u{1b}[1m\u{1b}[34mTODO LIST\u{1b}[0m";
    let rule = "\u{2500}".repeat(34);
    assert_eq!(banner(80, shown), format!("{rule} {shown} {rule}"));
}

#[test]
fn the_banner_of_a_narrow_terminal_has_no_rules() {
    assert_eq!(banner(11, "TODO LIST"), " TODO LIST ");
    assert_eq!(banner(12, "TODO LIST"), " TODO LIST ");
    assert_eq!(banner(10, "TODO LIST"), " TODO LIST ");
    assert_eq!(banner(9, "TODO LIST"), " TODO LIST ");
    assert_eq!(banner(3, "TODO LIST"), " TODO LIST ");
    assert_eq!(banner(0, "TODO LIST"), " TODO LIST ");
}

#[test]
fn the_banner_gets_its_first_rule_at_thirteen_columns() {
    assert_eq!(banner(13, "TODO LIST"), "\u{2500} TODO LIST \u{2500}");
    assert_eq!(banner(14, "TODO LIST"), "\u{2500} TODO LIST \u{2500}");
    assert_eq!(banner(15, "TODO LIST"), "\u{2500}\u{2500} TODO LIST \u{2500}\u{2500}");
}

#[test]
fn the_banner_goes_by_the_width_it_is_given() {
    assert_eq!(banner_of_width(10, 2, "hi"), "\u{2500}\u{2500}\u{2500} hi \u{2500}\u{2500}\u{2500}");
    assert_eq!(banner_of_width(4, 2, "hi"), " hi ");
    assert_eq!(banner_of_width(3, 2, "hi"), " hi ");
    assert_eq!(banner_of_width(1, 2, "hi"), " hi ");
    assert_eq!(banner_of_width(10, usize::MAX, "hi"), " hi ");
}

#[test]
fn the_footer_is_a_rule_across_all_columns() {
    assert_eq!(footer(0), "");
    assert_eq!(footer(3), "\u{2500}\u{2500}\u{2500}");
    assert_eq!(footer(80), "\u{2500}".repeat(80));
}

#[test]
fn a_row_is_marker_blank_and_line() {
    assert_eq!(row(&entry("write", true), 30, "x", " "), "x write          (no due date)");
    assert_eq!(row(&entry("write", false), 30, "x", " "), "  write          (no due date)");
}

#[test]
fn a_row_in_eighty_columns_is_eighty_columns_wide() {
    let line = row(&entry("write", true), 80, "\u{2714}", " ");
    assert_eq!(console::measure_text_width(&line), 80);
    let line = row(&entry("write", false), 80, "\u{2714}", " ");
    assert_eq!(console::measure_text_width(&line), 80);
}

#[test]
fn the_report_frames_the_tasks_in_their_order() {
    let tasks = vec![entry("b", false), entry("a", true)];
    let lines = report(&tasks, 20, "TODO LIST", "x", " ");
    assert_eq!(
        lines,
        [
            "\u{2500}\u{2500}\u{2500}\u{2500} TODO LIST \u{2500}\u{2500}\u{2500}\u{2500}",
            "  b    (no due date)",
            "x a    (no due date)",
            "\u{2500}\u{2500}\u{2500}\u{2500}\u{2500}\u{2500}\u{2500}\u{2500}\u{2500}\u{2500}\u{2500}\u{2500}\u{2500}\u{2500}\u{2500}\u{2500}\u{2500}\u{2500}\u{2500}\u{2500}",
        ]
    );
}

#[test]
fn the_report_on_no_task_is_banner_and_footer() {
    let lines = report(&Vec::new(), 13, "TODO LIST", "x", " ");
    assert_eq!(lines, ["\u{2500} TODO LIST \u{2500}", "\u{2500}".repeat(13).as_str()]);
}
