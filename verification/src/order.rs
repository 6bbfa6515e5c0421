//! The order of the list: by due moment or by title, greatest first, and
//! stable where two tasks tie.
use vstd::prelude::*;
use vstd::set_lib::{lemma_int_range, lemma_subset_equality, set_int_range};
use crate::due::Moment;
use crate::task::{Task, TaskView};
use crate::text::{lemma_text_less_asymmetric, lemma_text_less_total, lemma_text_less_transitive, text_before, text_less};

verus! {

/// What the list is ordered by.
#[derive(Clone, Copy, Debug, PartialEq, Eq)]
pub enum SortMode {
    /// By due moment, the latest first; tasks that are never due come last.
    Date,
    /// By title, the greatest first.
    Title,
}

impl Default for SortMode {
    fn default() -> (mode: SortMode)
        ensures
            mode == SortMode::Date,
    {
        SortMode::Date
    }
}

/// Whether the due moment `a` is less than `b`: no due moment is less than
/// any, and an earlier one is less than a later one.
pub open spec fn due_less(a: Option<Moment>, b: Option<Moment>) -> bool {
    match (a, b) {
        (None, Some(_)) => true,
        (Some(x), Some(y)) => x.before(y),
        _ => false,
    }
}

impl SortMode {
    /// Whether `a` is less than `b` in what this mode orders by.
    pub open spec fn less(self, a: TaskView, b: TaskView) -> bool {
        match self {
            SortMode::Date => due_less(a.due, b.due),
            SortMode::Title => text_less(a.title, b.title),
        }
    }

    /// Whether `a` and `b` tie: neither is less than the other.
    pub open spec fn ties(self, a: TaskView, b: TaskView) -> bool {
        !self.less(a, b) && !self.less(b, a)
    }

    /// Whether `a` is less than `b` in what this mode orders by.
    pub fn is_less(self, a: &Task, b: &Task) -> (less: bool)
        ensures
            less == self.less(a@, b@),
    {
        match self {
            SortMode::Date => match (&a.due, &b.due) {
                (None, Some(_)) => true,
                (Some(x), Some(y)) => x.before(y),
                _ => false,
            },
            SortMode::Title => text_before(a.title.as_str(), b.title.as_str()),
        }
    }
}

/// Being less is a strict weak order in either mode: nothing is less than
/// what is less than it, and what is not less than a second that is not
/// less than a third is not less than the third.
pub proof fn lemma_less_is_strict_weak(mode: SortMode, a: TaskView, b: TaskView, c: TaskView)
    ensures
        !(mode.less(a, b) && mode.less(b, a)),
        !mode.less(a, b) && !mode.less(b, c) ==> !mode.less(a, c),
{
    match mode {
        SortMode::Date => {},
        SortMode::Title => {
            let (x, y, z) = (a.title, b.title, c.title);
            lemma_text_less_asymmetric(x, y);
            if !text_less(x, y) && !text_less(y, z) && text_less(x, z) {
                lemma_text_less_total(x, y);
                lemma_text_less_total(y, z);
                if x == y {
                } else {
                    lemma_text_less_transitive(y, x, z);
                }
            }
        },
    }
}

/// Whether `output` holds the tasks of `input` in some order. `from` tells,
/// for each place of `output`, the place of `input` that its task came
/// from; no place of `input` is named twice.
pub open spec fn rearranged(input: Seq<Task>, output: Seq<Task>, from: Seq<int>) -> bool {
    &&& output.len() == input.len()
    &&& from.len() == input.len()
    &&& forall|i: int|
        0 <= i < from.len() ==> 0 <= #[trigger] from[i] < input.len() && output[i] == input[from[i]]
    &&& forall|i: int, j: int| 0 <= i < j < from.len() ==> from[i] != from[j]
}

/// Whether `output` is `input` in descending order of what `mode` orders
/// by, tasks that tie in the order they had in `input`. `from` tells where
/// in `input` each task of `output` came from.
pub open spec fn stable_descending(
    mode: SortMode,
    input: Seq<Task>,
    output: Seq<Task>,
    from: Seq<int>,
) -> bool {
    &&& rearranged(input, output, from)
    &&& forall|i: int, j: int|
        0 <= i < j < output.len() ==> !mode.less(#[trigger] output[i]@, #[trigger] output[j]@)
    &&& forall|i: int, j: int|
        0 <= i < j < from.len() && mode.ties(output[i]@, output[j]@) ==> #[trigger] from[i]
            < #[trigger] from[j]
}

/// The sequence `s` after the item at `i` has moved down to place `j`.
spec fn moved<T>(s: Seq<T>, i: int, j: int) -> Seq<T> {
    s.remove(i).insert(j, s[i])
}

/// Where each item of `moved(s, i, j)` stood in `s`.
proof fn lemma_moved<T>(s: Seq<T>, i: int, j: int)
    requires
        0 <= j <= i < s.len(),
    ensures
        moved(s, i, j).len() == s.len(),
        moved(s, i, j)[j] == s[i],
        forall|k: int| 0 <= k < j ==> moved(s, i, j)[k] == s[k],
        forall|k: int| j < k <= i ==> moved(s, i, j)[k] == s[k - 1],
        forall|k: int| i < k < s.len() ==> moved(s, i, j)[k] == s[k],
{
}

/// Puts the list in descending order of what `mode` orders by. Tasks that
/// tie keep the order they had.
pub fn sort_tasks(tasks: &mut Vec<Task>, mode: SortMode)
    ensures
        exists|from: Seq<int>| stable_descending(mode, old(tasks)@, final(tasks)@, from),
        final(tasks)@.to_multiset() == old(tasks)@.to_multiset(),
{
    let ghost input = tasks@;
    let ghost mut from: Seq<int> = Seq::new(tasks@.len(), |k: int| k);
    let n = tasks.len();
    let mut i: usize = 0;
    while i < n
        invariant
            i <= n,
            n == input.len(),
            tasks@.len() == n,
            from.len() == n,
            forall|k: int| 0 <= k < n ==> 0 <= #[trigger] from[k] < n && tasks@[k] == input[from[k]],
            forall|k: int| i <= k < n ==> from[k] == k,
            forall|k: int| 0 <= k < i ==> from[k] < i,
            forall|a: int, b: int| 0 <= a < b < n ==> from[a] != from[b],
            forall|a: int, b: int|
                0 <= a < b < i ==> !mode.less(#[trigger] tasks@[a]@, #[trigger] tasks@[b]@),
            forall|a: int, b: int|
                0 <= a < b < i && mode.ties(tasks@[a]@, tasks@[b]@) ==> #[trigger] from[a]
                    < #[trigger] from[b],
        decreases n - i,
    {
        let mut j: usize = i;
        while j > 0 && mode.is_less(&tasks[j - 1], &tasks[i])
            invariant
                j <= i < n,
                tasks@.len() == n,
                forall|k: int| j <= k < i ==> mode.less(#[trigger] tasks@[k]@, tasks@[i as int]@),
            decreases j,
        {
            j = j - 1;
        }
        let ghost before = tasks@;
        let ghost came = from;
        let task = tasks.remove(i);
        tasks.insert(j, task);
        proof {
            from = moved(came, i as int, j as int);
            lemma_moved(before, i as int, j as int);
            lemma_moved(came, i as int, j as int);
            assert(tasks@ == moved(before, i as int, j as int));
            assert forall|a: int, b: int| 0 <= a < b < i + 1 implies !mode.less(
                #[trigger] tasks@[a]@,
                #[trigger] tasks@[b]@,
            ) by {
                lemma_order_after_move(mode, before, i as int, j as int, a, b);
            }
            assert forall|a: int, b: int|
                0 <= a < b < i + 1 && mode.ties(tasks@[a]@, tasks@[b]@) implies #[trigger] from[a]
                < #[trigger] from[b] by {
                lemma_order_after_move(mode, before, i as int, j as int, a, b);
            }
        }
        i = i + 1;
    }
    proof {
        assert(stable_descending(mode, input, tasks@, from));
        lemma_rearranged_keeps_tasks(input, tasks@, from);
    }
}

/// After the item at `i` has moved down to place `j`, past the items that
/// are less than it and no further, the first `i + 1` items are in
/// descending order, and the one that moved ties with none behind it.
proof fn lemma_order_after_move(mode: SortMode, s: Seq<Task>, i: int, j: int, a: int, b: int)
    requires
        0 <= j <= i < s.len(),
        0 <= a < b <= i,
        forall|x: int, y: int| 0 <= x < y < i ==> !mode.less(#[trigger] s[x]@, #[trigger] s[y]@),
        forall|k: int| j <= k < i ==> mode.less(#[trigger] s[k]@, s[i]@),
        j > 0 ==> !mode.less(s[j - 1]@, s[i]@),
    ensures
        !mode.less(moved(s, i, j)[a]@, moved(s, i, j)[b]@),
        a == j ==> !mode.ties(moved(s, i, j)[a]@, moved(s, i, j)[b]@),
{
    lemma_moved(s, i, j);
    let t = moved(s, i, j);
    if b == j {
        // t[a] stood before s[j - 1], which is not less than the one that moved.
        if a < j - 1 {
            lemma_less_is_strict_weak(mode, s[a]@, s[j - 1]@, s[i]@);
        }
    } else if a == j {
        assert(t[b] == s[b - 1]);
        lemma_less_is_strict_weak(mode, s[b - 1]@, s[i]@, s[i]@);
    } else {
        assert(t[a] == if a < j { s[a] } else { s[a - 1] });
        assert(t[b] == if b < j { s[b] } else { s[b - 1] });
    }
}

/// Every place of the input is where some place of the output came from.
proof fn lemma_from_covers(input: Seq<Task>, output: Seq<Task>, from: Seq<int>, p: int)
    requires
        rearranged(input, output, from),
        0 <= p < input.len(),
    ensures
        exists|i: int| 0 <= i < from.len() && from[i] == p,
{
    broadcast use vstd::seq_lib::seq_to_set_is_finite;
    let places = set_int_range(0, input.len() as int);
    assert(from.no_duplicates());
    from.unique_seq_to_set();
    lemma_int_range(0, input.len() as int);
    assert(from.to_set().subset_of(places)) by {
        assert forall|x: int| from.to_set().contains(x) implies places.contains(x) by {
            let i = choose|i: int| 0 <= i < from.len() && from[i] == x;
        }
    }
    lemma_subset_equality(from.to_set(), places);
    assert(places.contains(p));
    assert(from.contains(p));
}

/// Two outputs of one input agree on their first `upto` places.
proof fn lemma_agree_upto(
    mode: SortMode,
    input: Seq<Task>,
    first: Seq<Task>,
    first_from: Seq<int>,
    second: Seq<Task>,
    second_from: Seq<int>,
    upto: int,
)
    requires
        stable_descending(mode, input, first, first_from),
        stable_descending(mode, input, second, second_from),
        0 <= upto <= input.len(),
    ensures
        forall|k: int| 0 <= k < upto ==> first_from[k] == second_from[k],
    decreases upto,
{
    if upto > 0 {
        let i = upto - 1;
        lemma_agree_upto(mode, input, first, first_from, second, second_from, i);
        let p = first_from[i];
        let q = second_from[i];
        if p != q {
            lemma_less_is_strict_weak(mode, input[p]@, input[q]@, input[p]@);
            // Whichever of the two tasks goes first, the output that holds the
            // other at place `i` holds it at a later place too.
            let p_first = mode.less(input[q]@, input[p]@) || (mode.ties(input[p]@, input[q]@) && p < q);
            if p_first {
                lemma_from_covers(input, second, second_from, p);
                let j = choose|j: int| 0 <= j < second_from.len() && second_from[j] == p;
                if j < i {
                    assert(first_from[j] == p);
                } else {
                    assert(second[i] == input[q] && second[j] == input[p]);
                }
            } else {
                lemma_from_covers(input, first, first_from, q);
                let j = choose|j: int| 0 <= j < first_from.len() && first_from[j] == q;
                if j < i {
                    assert(second_from[j] == q);
                } else {
                    assert(first[i] == input[p] && first[j] == input[q]);
                }
            }
        }
    }
}

/// A list has one descending stable order: two outputs of one input are
/// the same list, and each task of the two came from the same place.
pub proof fn lemma_stable_descending_unique(
    mode: SortMode,
    input: Seq<Task>,
    first: Seq<Task>,
    first_from: Seq<int>,
    second: Seq<Task>,
    second_from: Seq<int>,
)
    requires
        stable_descending(mode, input, first, first_from),
        stable_descending(mode, input, second, second_from),
    ensures
        first == second,
        first_from == second_from,
{
    lemma_agree_upto(mode, input, first, first_from, second, second_from, input.len() as int);
    assert(first_from =~= second_from);
    assert forall|k: int| 0 <= k < first.len() implies first[k] == second[k] by {
        assert(first[k] == input[first_from[k]] && second[k] == input[second_from[k]]);
    }
    assert(first =~= second);
}

/// A list that is in descending order already is its own stable order.
pub proof fn lemma_ordered_list_stays(
    mode: SortMode,
    list: Seq<Task>,
    output: Seq<Task>,
    from: Seq<int>,
)
    requires
        forall|i: int, j: int|
            0 <= i < j < list.len() ==> !mode.less(#[trigger] list[i]@, #[trigger] list[j]@),
        stable_descending(mode, list, output, from),
    ensures
        output == list,
{
    let stay = Seq::new(list.len(), |i: int| i);
    assert(stable_descending(mode, list, list, stay));
    lemma_stable_descending_unique(mode, list, output, from, list, stay);
}

/// Putting a list in order a second time changes nothing.
pub proof fn lemma_order_is_idempotent(
    mode: SortMode,
    input: Seq<Task>,
    once: Seq<Task>,
    once_from: Seq<int>,
    twice: Seq<Task>,
    twice_from: Seq<int>,
)
    requires
        stable_descending(mode, input, once, once_from),
        stable_descending(mode, once, twice, twice_from),
    ensures
        twice == once,
{
    lemma_ordered_list_stays(mode, once, twice, twice_from);
}

/// A list in another order holds the same tasks, each as often as before.
pub proof fn lemma_rearranged_keeps_tasks(input: Seq<Task>, output: Seq<Task>, from: Seq<int>)
    requires
        rearranged(input, output, from),
    ensures
        output.to_multiset() == input.to_multiset(),
    decreases input.len(),
{
    broadcast use
        vstd::seq_lib::to_multiset_build,
        vstd::seq_lib::to_multiset_remove,
        vstd::seq_lib::to_multiset_contains,
    ;
    if input.len() == 0 {
        assert(output =~= input);
    } else {
        let last = output.len() - 1;
        let p = from[last];
        let fewer = input.remove(p);
        let head = output.drop_last();
        let head_from = Seq::new(
            last as nat,
            |i: int|
                if from[i] > p {
                    from[i] - 1
                } else {
                    from[i]
                },
        );
        assert forall|i: int| 0 <= i < head_from.len() implies 0 <= #[trigger] head_from[i]
            < fewer.len() && head[i] == fewer[head_from[i]] by {
            assert(from[i] != from[last]);
            assert(head[i] == input[from[i]]);
        }
        assert forall|i: int, j: int| 0 <= i < j < head_from.len() implies head_from[i]
            != head_from[j] by {
            assert(from[i] != from[j] && from[i] != from[last] && from[j] != from[last]);
        }
        lemma_rearranged_keeps_tasks(fewer, head, head_from);
        assert(output =~= head.push(output[last]));
        assert(output[last] == input[p]);
        assert(input.contains(input[p]));
        assert(input.to_multiset() =~= fewer.to_multiset().insert(input[p]));
    }
}

/// In the order by due moment, no task that is never due stands before
/// one that is due.
pub proof fn lemma_never_due_last(input: Seq<Task>, output: Seq<Task>, from: Seq<int>)
    requires
        stable_descending(SortMode::Date, input, output, from),
    ensures
        forall|i: int, j: int|
            0 <= i < j < output.len() && output[i]@.due is None ==> output[j]@.due is None,
{
    assert forall|i: int, j: int|
        0 <= i < j < output.len() && output[i]@.due is None implies output[j]@.due is None by {
        assert(!SortMode::Date.less(output[i]@, output[j]@));
    }
}

} // verus!
