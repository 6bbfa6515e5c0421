//! Text helpers: runs of one character and the order of two texts.
use vstd::prelude::*;
use vstd::std_specs::iter::IteratorSpec;
use vstd::string::*;

verus! {

/// `n` copies of the character `c`.
pub open spec fn run(c: char, n: nat) -> Seq<char> {
    Seq::new(n, |i: int| c)
}

/// A string of `n` copies of the single character of `unit`.
pub(crate) fn repeated(unit: &str, n: usize) -> (out: String)
    requires
        unit@.len() == 1,
    ensures
        out@ == run(unit@[0], n as nat),
{
    let mut out = String::new();
    let mut done: usize = 0;
    while done < n
        invariant
            done <= n,
            unit@.len() == 1,
            out@ == run(unit@[0], done as nat),
        decreases n - done,
    {
        out.append(unit);
        done = done + 1;
        assert(out@ =~= run(unit@[0], done as nat));
    }
    out
}

/// Whether `a` comes strictly before `b` when texts are ordered character
/// by character, a proper prefix before the longer text.
pub open spec fn text_less(a: Seq<char>, b: Seq<char>) -> bool {
    exists|k: int| differ_at(a, b, k)
}

/// `a` and `b` agree on their first `k` characters, and at position `k`
/// either `a` ends while `b` goes on, or `a` holds the smaller character.
pub open spec fn differ_at(a: Seq<char>, b: Seq<char>, k: int) -> bool {
    &&& 0 <= k <= a.len()
    &&& k < b.len()
    &&& forall|i: int| 0 <= i < k ==> a[i] == b[i]
    &&& (k < a.len() ==> a[k] < b[k])
}

/// Whether `a` comes strictly before `b`.
pub fn text_before(a: &str, b: &str) -> (less: bool)
    ensures
        less == text_less(a@, b@),
{
    broadcast use group_string_axioms;
    let mut xs = a.chars();
    let mut ys = b.chars();
    let ghost mut k: int = 0;
    loop
        invariant
            0 <= k <= a@.len(),
            k <= b@.len(),
            xs.remaining() == a@.skip(k),
            ys.remaining() == b@.skip(k),
            forall|i: int| 0 <= i < k ==> a@[i] == b@[i],
        decreases a@.len() - k,
    {
        let x = xs.next();
        let y = ys.next();
        match (x, y) {
            (_, None) => {
                assert(k == b@.len());
                return false;
            },
            (None, Some(_)) => {
                assert(differ_at(a@, b@, k));
                return true;
            },
            (Some(c), Some(d)) => {
                assert(c == a@[k] && d == b@[k]);
                if c != d {
                    assert(c < d ==> differ_at(a@, b@, k));
                    assert(forall|j: int| differ_at(a@, b@, j) ==> j == k);
                    return c < d;
                }
                proof {
                    k = k + 1;
                }
            },
        }
    }
}

/// No text comes before itself, and of two texts at most one comes before
/// the other.
pub proof fn lemma_text_less_asymmetric(a: Seq<char>, b: Seq<char>)
    ensures
        !(text_less(a, b) && text_less(b, a)),
        !text_less(a, a),
{
    if text_less(a, b) && text_less(b, a) {
        let k = choose|k: int| differ_at(a, b, k);
        let m = choose|m: int| differ_at(b, a, m);
        assert(false);
    }
    if text_less(a, a) {
        let k = choose|k: int| differ_at(a, a, k);
        assert(false);
    }
}

/// Of two different texts one comes before the other.
pub proof fn lemma_text_less_total(a: Seq<char>, b: Seq<char>)
    ensures
        a == b || text_less(a, b) || text_less(b, a),
{
    lemma_compare_from(a, b, 0);
}

/// Two texts that agree on their first `k` characters are equal or ordered.
proof fn lemma_compare_from(a: Seq<char>, b: Seq<char>, k: int)
    requires
        0 <= k <= a.len(),
        k <= b.len(),
        forall|i: int| 0 <= i < k ==> a[i] == b[i],
    ensures
        a == b || text_less(a, b) || text_less(b, a),
    decreases a.len() - k,
{
    if k == a.len() {
        if k == b.len() {
            assert(a =~= b);
        } else {
            assert(differ_at(a, b, k));
        }
    } else if k == b.len() {
        assert(differ_at(b, a, k));
    } else if a[k] == b[k] {
        lemma_compare_from(a, b, k + 1);
    } else if a[k] < b[k] {
        assert(differ_at(a, b, k));
    } else {
        assert(differ_at(b, a, k));
    }
}

/// What comes before a text that comes before a third comes before the third.
pub proof fn lemma_text_less_transitive(a: Seq<char>, b: Seq<char>, c: Seq<char>)
    requires
        text_less(a, b),
        text_less(b, c),
    ensures
        text_less(a, c),
{
    let k = choose|k: int| differ_at(a, b, k);
    let m = choose|m: int| differ_at(b, c, m);
    if k <= m {
        assert(differ_at(a, c, k));
    } else {
        assert(differ_at(a, c, m));
    }
}

} // verus!
