use todo_list::due::Due;
use todo_list::order::{sort_tasks, SortMode};
use todo_list::task::Task;
use todo_list::text::text_before;

fn titled(title: &str) -> Task {
    Task { title: title.to_string(), details: None, due: None, completed: false }
}

fn due_at(title: &str, secs: i64) -> Task {
    Task { due: Due::new(secs, 0, 0), ..titled(title) }
}

fn titles(tasks: &[Task]) -> Vec<String> {
    tasks.iter().map(|task| task.title.clone()).collect()
}

// 2024-01-01 and 2024-06-01, at midnight UTC.
const JANUARY: i64 = 1_704_067_200;
const JUNE: i64 = 1_717_200_000;

#[test]
fn by_date_the_latest_comes_first_and_never_due_last() {
    let mut tasks = vec![due_at("january", JANUARY), titled("never"), due_at("june", JUNE)];
    sort_tasks(&mut tasks, SortMode::Date);
    assert_eq!(titles(&tasks), ["june", "january", "never"]);
}

#[test]
fn by_date_the_same_moment_keeps_its_order() {
    let mut tasks = vec![
        due_at("first", JANUARY),
        due_at("late", JUNE),
        due_at("second", JANUARY),
        due_at("third", JANUARY),
    ];
    sort_tasks(&mut tasks, SortMode::Date);
    assert_eq!(titles(&tasks), ["late", "first", "second", "third"]);
}

#[test]
fn by_date_the_never_due_keep_their_order() {
    let mut tasks = vec![titled("b"), titled("a"), due_at("due", JANUARY), titled("c")];
    sort_tasks(&mut tasks, SortMode::Date);
    assert_eq!(titles(&tasks), ["due", "b", "a", "c"]);
}

#[test]
fn by_date_nanoseconds_decide_within_a_second() {
    let early = Task { due: Due::new(JANUARY, 1, 0), ..titled("early") };
    let late = Task { due: Due::new(JANUARY, 2, 0), ..titled("late") };
    let mut tasks = vec![early, late];
    sort_tasks(&mut tasks, SortMode::Date);
    assert_eq!(titles(&tasks), ["late", "early"]);
}

#[test]
fn by_date_the_offset_decides_nothing() {
    let here = Task { due: Due::new(JANUARY, 0, 0), ..titled("here") };
    let there = Task { due: Due::new(JANUARY, 0, 7_200), ..titled("there") };
    let mut tasks = vec![here.clone(), there.clone()];
    sort_tasks(&mut tasks, SortMode::Date);
    assert_eq!(titles(&tasks), ["here", "there"]);
    let mut tasks = vec![there, here];
    sort_tasks(&mut tasks, SortMode::Date);
    assert_eq!(titles(&tasks), ["there", "here"]);
}

#[test]
fn by_title_the_greatest_comes_first() {
    let mut tasks = vec![titled("banana"), titled("apple"), titled("cherry")];
    sort_tasks(&mut tasks, SortMode::Title);
    assert_eq!(titles(&tasks), ["cherry", "banana", "apple"]);
}

#[test]
fn by_title_the_same_title_keeps_its_order() {
    let mut tasks = vec![
        due_at("same", 1),
        titled("zebra"),
        due_at("same", 2),
        titled("ant"),
        due_at("same", 3),
    ];
    sort_tasks(&mut tasks, SortMode::Title);
    assert_eq!(titles(&tasks), ["zebra", "same", "same", "same", "ant"]);
    let moments: Vec<i64> = tasks[1..4].iter().map(|task| task.due.unwrap().secs()).collect();
    assert_eq!(moments, [1, 2, 3]);
}

#[test]
fn by_title_capitals_come_before_small_letters() {
    let mut tasks = vec![titled("Zoo"), titled("apple"), titled("Apple"), titled("zoo")];
    sort_tasks(&mut tasks, SortMode::Title);
    assert_eq!(titles(&tasks), ["zoo", "apple", "Zoo", "Apple"]);
}

#[test]
fn by_title_a_prefix_comes_after_the_longer_title() {
    let mut tasks = vec![titled("a"), titled("ab"), titled(""), titled("abc")];
    sort_tasks(&mut tasks, SortMode::Title);
    assert_eq!(titles(&tasks), ["abc", "ab", "a", ""]);
}

#[test]
fn sorting_agrees_with_the_standard_stable_sort() {
    let words = ["pear", "fig", "apple", "fig", "kiwi", "apple", "", "zucchini", "Fig", "\u{e9}clair"];
    let mut tasks: Vec<Task> =
        words.iter().enumerate().map(|(i, word)| due_at(word, (i as i64 * 7) % 4)).collect();
    let mut by_title = tasks.clone();
    by_title.sort_by(|y, x| x.title.cmp(&y.title));
    let mut by_date = tasks.clone();
    by_date.sort_by(|y, x| x.due.map(|d| (d.secs(), d.nanos())).cmp(&y.due.map(|d| (d.secs(), d.nanos()))));
    let mut sorted = tasks.clone();
    sort_tasks(&mut sorted, SortMode::Title);
    assert_eq!(sorted, by_title);
    sort_tasks(&mut tasks, SortMode::Date);
    assert_eq!(tasks, by_date);
}

#[test]
fn sorting_loses_no_task_and_changes_none() {
    let first = Task {
        title: "first".to_string(),
        details: Some(vec!["note".to_string(), "another".to_string()]),
        due: Due::new(5, 0, 0),
        completed: true,
    };
    let second = Task { completed: true, ..titled("second") };
    let mut tasks = vec![second.clone(), first.clone()];
    sort_tasks(&mut tasks, SortMode::Date);
    assert_eq!(tasks, [first, second]);
}

#[test]
fn sorting_an_empty_list_and_a_single_task() {
    let mut none: Vec<Task> = Vec::new();
    sort_tasks(&mut none, SortMode::Date);
    assert!(none.is_empty());
    let mut one = vec![titled("only")];
    sort_tasks(&mut one, SortMode::Title);
    assert_eq!(titles(&one), ["only"]);
}

#[test]
fn a_sorted_list_stays_as_it_is() {
    let mut tasks = vec![titled("banana"), titled("apple"), titled("cherry")];
    sort_tasks(&mut tasks, SortMode::Title);
    let once = tasks.clone();
    sort_tasks(&mut tasks, SortMode::Title);
    assert_eq!(tasks, once);
}

#[test]
fn the_list_is_ordered_by_date_where_nothing_is_said() {
    assert_eq!(SortMode::default(), SortMode::Date);
}

#[test]
fn is_less_compares_what_the_mode_orders_by() {
    let early_z = due_at("z", 1);
    let late_a = due_at("a", 2);
    assert!(SortMode::Date.is_less(&early_z, &late_a));
    assert!(!SortMode::Date.is_less(&late_a, &early_z));
    assert!(SortMode::Title.is_less(&late_a, &early_z));
    assert!(!SortMode::Title.is_less(&early_z, &late_a));
    assert!(SortMode::Date.is_less(&titled("never"), &early_z));
    assert!(!SortMode::Date.is_less(&early_z, &titled("never")));
    assert!(!SortMode::Date.is_less(&titled("never"), &titled("ever")));
}

#[test]
fn texts_are_ordered_character_by_character() {
    assert!(text_before("apple", "banana"));
    assert!(!text_before("banana", "apple"));
    assert!(text_before("app", "apple"));
    assert!(!text_before("apple", "app"));
    assert!(!text_before("apple", "apple"));
    assert!(text_before("", "a"));
    assert!(!text_before("", ""));
    assert!(!text_before("a", ""));
    assert!(text_before("Zebra", "apple"));
    assert!(text_before("abc", "abd"));
    assert!(!text_before("abd", "abc"));
}

#[test]
fn texts_are_ordered_as_the_standard_library_orders_them() {
    let words = ["", "a", "z", "\u{e9}", "\u{4efb}", "\u{1f4a9}", "a\u{e9}", "\u{7f}", "\u{80}", "\u{ffff}", "\u{10000}"];
    for a in words {
        for b in words {
            assert_eq!(text_before(a, b), a < b, "{a:?} before {b:?}");
        }
    }
}

#[test]
fn sorting_many_lists_agrees_with_the_standard_stable_sort() {
    // A small generator of numbers, so that the lists are the same on every run.
    let mut state: u64 = 0x2545_f491_4f6c_dd1d;
    let mut next = move |bound: u64| {
        state ^= state << 13;
        state ^= state >> 7;
        state ^= state << 17;
        state % bound
    };
    for round in 0..300 {
        let len = next(12) as usize;
        let tasks: Vec<Task> = (0..len)
            .map(|place| Task {
                title: format!("{}", (b'a' + next(4) as u8) as char).repeat(1 + next(2) as usize),
                details: Some(vec![format!("{round}:{place}")]),
                due: if next(3) == 0 { None } else { Due::new(next(4) as i64, next(2) as u32, 0) },
                completed: next(2) == 0,
            })
            .collect();
        let mut expected = tasks.clone();
        expected.sort_by(|y, x| x.title.cmp(&y.title));
        let mut sorted = tasks.clone();
        sort_tasks(&mut sorted, SortMode::Title);
        assert_eq!(sorted, expected);
        let moment = |task: &Task| task.due.map(|due| (due.secs(), due.nanos()));
        let mut expected = tasks.clone();
        expected.sort_by(|y, x| moment(x).cmp(&moment(y)));
        let mut sorted = tasks;
        sort_tasks(&mut sorted, SortMode::Date);
        assert_eq!(sorted, expected);
    }
}
