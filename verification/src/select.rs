//! What a selection of places does to the list: the tasks at the selected
//! places are marked as done, or leave the list.
use vstd::prelude::*;
use crate::task::Task;

verus! {

/// Whether `picked` is a selection from a list of `len` tasks: places of the
/// list, each named once, in ascending order.
pub open spec fn is_selection(picked: Seq<usize>, len: nat) -> bool {
    &&& forall|i: int, j: int| 0 <= i < j < picked.len() ==> picked[i] < picked[j]
    &&& forall|i: int| 0 <= i < picked.len() ==> picked[i] < len
}

/// The places that `picked` names.
pub open spec fn places(picked: Seq<usize>) -> Set<int> {
    Set::new(|p: int| exists|i: int| 0 <= i < picked.len() && picked[i] == p)
}

/// The items of `s` at the places that are not in `gone`, in the order they
/// have in `s`.
pub open spec fn without<T>(s: Seq<T>, gone: Set<int>) -> Seq<T>
    decreases s.len(),
{
    if s.len() == 0 {
        s
    } else if gone.contains(s.len() - 1) {
        without(s.drop_last(), gone)
    } else {
        without(s.drop_last(), gone).push(s.last())
    }
}

/// The list with the task at each place in `marked` done, and every other
/// task as it was.
pub open spec fn with_done(s: Seq<Task>, marked: Set<int>) -> Seq<Task> {
    Seq::new(
        s.len(),
        |i: int|
            if marked.contains(i) {
                Task { completed: true, ..s[i] }
            } else {
                s[i]
            },
    )
}

/// Whether `picked` is a selection from a list of `len` tasks.
pub fn check_selection(picked: &Vec<usize>, len: usize) -> (valid: bool)
    ensures
        valid == is_selection(picked@, len as nat),
{
    let mut i: usize = 0;
    while i < picked.len()
        invariant
            i <= picked@.len(),
            forall|a: int, b: int| 0 <= a < b < i ==> picked@[a] < picked@[b],
            forall|a: int| 0 <= a < i ==> picked@[a] < len,
        decreases picked@.len() - i,
    {
        if picked[i] >= len || (i > 0 && picked[i - 1] >= picked[i]) {
            return false;
        }
        i = i + 1;
    }
    true
}

/// Marks the tasks at the places in `picked` as done. No other task
/// changes, and nothing else changes of those.
pub fn mark_complete(tasks: &mut Vec<Task>, picked: &Vec<usize>)
    requires
        forall|i: int| 0 <= i < picked@.len() ==> picked@[i] < old(tasks)@.len(),
    ensures
        final(tasks)@ == with_done(old(tasks)@, places(picked@)),
{
    let mut k: usize = 0;
    while k < picked.len()
        invariant
            k <= picked@.len(),
            tasks@.len() == old(tasks)@.len(),
            forall|i: int| 0 <= i < picked@.len() ==> picked@[i] < tasks@.len(),
            tasks@ == with_done(old(tasks)@, places(picked@.take(k as int))),
        decreases picked@.len() - k,
    {
        let ghost before = tasks@;
        let place = picked[k];
        tasks[place].completed = true;
        proof {
            let head = picked@.take(k as int);
            let longer = picked@.take(k + 1);
            assert(longer[k as int] == place);
            assert forall|p: int| places(longer).contains(p) <==> places(head).contains(p) || p
                == place by {
                if places(head).contains(p) {
                    let i = choose|i: int| 0 <= i < head.len() && head[i] == p;
                    assert(longer[i] == p);
                }
                if places(longer).contains(p) && p != place {
                    let i = choose|i: int| 0 <= i < longer.len() && longer[i] == p;
                    assert(head[i] == p);
                }
            }
            assert(tasks@ =~= with_done(old(tasks)@, places(longer)));
        }
        k = k + 1;
    }
    assert(picked@.take(k as int) =~= picked@);
}

/// Removes the tasks at the places in `picked`, from the last place to the
/// first, so that no removal moves a task that is still to leave. The tasks
/// that stay keep their order.
pub fn remove_selected(tasks: &mut Vec<Task>, picked: &Vec<usize>)
    requires
        is_selection(picked@, old(tasks)@.len()),
    ensures
        final(tasks)@ == without(old(tasks)@, places(picked@)),
        final(tasks)@.len() == old(tasks)@.len() - picked@.len(),
{
    let mut k: usize = picked.len();
    proof {
        assert(places(picked@.skip(k as int)) =~= Set::<int>::empty());
        lemma_without_none(old(tasks)@, Set::<int>::empty());
    }
    while k > 0
        invariant
            k <= picked@.len(),
            is_selection(picked@, old(tasks)@.len()),
            tasks@ == without(old(tasks)@, places(picked@.skip(k as int))),
            tasks@.len() == old(tasks)@.len() - (picked@.len() - k),
        decreases k,
    {
        k = k - 1;
        let place = picked[k];
        proof {
            let tail = picked@.skip(k + 1);
            let longer = picked@.skip(k as int);
            assert forall|p: int| places(tail).contains(p) implies p > place by {
                let i = choose|i: int| 0 <= i < tail.len() && tail[i] == p;
                assert(picked@[k + 1 + i] == p);
            }
            lemma_without_one_more(old(tasks)@, places(tail), place as int);
            assert forall|p: int| places(longer).contains(p) <==> places(tail).contains(p) || p
                == place by {
                if places(tail).contains(p) {
                    let i = choose|i: int| 0 <= i < tail.len() && tail[i] == p;
                    assert(longer[i + 1] == p);
                }
                if p == place {
                    assert(longer[0] == p);
                }
                if places(longer).contains(p) && p != place {
                    let i = choose|i: int| 0 <= i < longer.len() && longer[i] == p;
                    assert(tail[i - 1] == p);
                }
            }
            assert(places(longer) =~= places(tail).insert(place as int));
        }
        tasks.remove(place);
    }
    assert(picked@.skip(0) =~= picked@);
}

/// Where no place of `s` is in `gone`, nothing leaves.
proof fn lemma_without_none<T>(s: Seq<T>, gone: Set<int>)
    requires
        forall|p: int| 0 <= p < s.len() ==> !gone.contains(p),
    ensures
        without(s, gone) == s,
    decreases s.len(),
{
    if s.len() > 0 {
        lemma_without_none(s.drop_last(), gone);
        assert(s.drop_last().push(s.last()) =~= s);
    }
}

/// Where every place in `gone` lies behind `p`, the item at `p` is still at
/// `p` once those places have left, and it can leave next.
proof fn lemma_without_one_more<T>(s: Seq<T>, gone: Set<int>, p: int)
    requires
        0 <= p < s.len(),
        forall|q: int| gone.contains(q) ==> q > p,
    ensures
        p < without(s, gone).len(),
        without(s, gone.insert(p)) == without(s, gone).remove(p),
    decreases s.len(),
{
    let rest = s.drop_last();
    if p == s.len() - 1 {
        lemma_without_none(rest, gone);
        lemma_without_none(rest, gone.insert(p));
        assert(rest.push(s.last()).remove(p) =~= rest);
    } else {
        lemma_without_one_more(rest, gone, p);
        if !gone.contains(s.len() - 1) {
            assert(without(rest, gone).push(s.last()).remove(p) =~= without(rest, gone).remove(
                p,
            ).push(s.last()));
        }
    }
}

/// The places of a list of `len` items that are not in `gone`, ascending.
pub open spec fn staying(len: nat, gone: Set<int>) -> Seq<int> {
    without(Seq::new(len, |p: int| p), gone)
}

/// What removal leaves: the items at the places that are not in `gone`,
/// every one of them, each once, in the order they had.
pub proof fn lemma_without_keeps_order<T>(s: Seq<T>, gone: Set<int>)
    ensures
        without(s, gone).len() == staying(s.len(), gone).len(),
        forall|i: int|
            0 <= i < staying(s.len(), gone).len() ==> {
                let p = #[trigger] staying(s.len(), gone)[i];
                0 <= p < s.len() && !gone.contains(p) && without(s, gone)[i] == s[p]
            },
        forall|i: int, j: int|
            0 <= i < j < staying(s.len(), gone).len() ==> staying(s.len(), gone)[i] < staying(
                s.len(),
                gone,
            )[j],
        forall|p: int|
            0 <= p < s.len() && !gone.contains(p) ==> staying(s.len(), gone).contains(p),
    decreases s.len(),
{
    if s.len() > 0 {
        let rest = s.drop_last();
        let last = s.len() - 1;
        lemma_without_keeps_order(rest, gone);
        assert(Seq::new(s.len(), |p: int| p).drop_last() =~= Seq::new(rest.len(), |p: int| p));
        let stay = staying(s.len(), gone);
        let before = staying(rest.len(), gone);
        if gone.contains(last) {
            assert(stay == before);
        } else {
            assert(stay == before.push(last));
            assert(stay[stay.len() - 1] == last);
            assert forall|p: int| 0 <= p < s.len() && !gone.contains(p) implies stay.contains(
                p,
            ) by {
                if p < last {
                    let i = choose|i: int| 0 <= i < before.len() && before[i] == p;
                    assert(stay[i] == p);
                }
            }
        }
    }
}

} // verus!
