//! The regular language that every recognizer of `automata` decides, and the
//! facts about words over `{a, b}` that the proofs share.
use vstd::prelude::*;

verus! {

/// A letter of the alphabet `{a, b}`.
pub open spec fn is_ab(c: char) -> bool {
    c == 'a' || c == 'b'
}

/// Every letter of `w` is `a` or `b`.
pub open spec fn all_ab(w: Seq<char>) -> bool {
    forall|i: int| 0 <= i < w.len() ==> #[trigger] is_ab(w[i])
}

/// `w` holds at least one `a` and at least one `b`.
pub open spec fn has_both(w: Seq<char>) -> bool {
    w.contains('a') && w.contains('b')
}

/// The letter at position `j` of the pattern `abab`.
pub open spec fn pat(j: int) -> char {
    if j % 2 == 0 {
        'a'
    } else {
        'b'
    }
}

/// `w` ends with the first `k` letters of `abab??`, where the two last
/// places take any letter.
pub open spec fn suffix_match(w: Seq<char>, k: int) -> bool {
    &&& 0 <= k <= w.len()
    &&& forall|j: int| 0 <= j < k && j < 4 ==> #[trigger] w[w.len() - k + j] == pat(j)
}

/// The language of `((a|b)*aa*b(a|b)*|bb*a(a|b)*)abab(a|b)(a|b)`: words over
/// `{a, b}` that end with `abab` and two more letters, where what comes before
/// those six letters holds both an `a` and a `b`.
pub open spec fn in_language(w: Seq<char>) -> bool {
    &&& all_ab(w)
    &&& w.len() >= 6
    &&& suffix_match(w, 6)
    &&& has_both(w.take(w.len() - 6))
}

/// A letter occurs after a push where it occurred before or was pushed.
pub proof fn lemma_contains_push(w: Seq<char>, c: char, x: char)
    ensures
        w.push(c).contains(x) <==> (w.contains(x) || c == x),
{
    let w2 = w.push(c);
    if w.contains(x) {
        let i = choose|i: int| 0 <= i < w.len() && w[i] == x;
        assert(w2[i] == x);
    }
    if c == x {
        assert(w2[w.len() as int] == x);
    }
    if w2.contains(x) {
        let i = choose|i: int| 0 <= i < w2.len() && w2[i] == x;
        if i < w.len() {
            assert(w[i] == x);
        }
    }
}

/// A word stays over `{a, b}` after a push exactly when the pushed letter is `a` or `b`.
pub proof fn lemma_all_ab_push(w: Seq<char>, c: char)
    ensures
        all_ab(w.push(c)) <==> (all_ab(w) && is_ab(c)),
{
    let w2 = w.push(c);
    if all_ab(w2) {
        assert forall|i: int| 0 <= i < w.len() implies #[trigger] is_ab(w[i]) by {
            assert(w2[i] == w[i]);
            assert(is_ab(w2[i]));
        }
        assert(is_ab(w2[w.len() as int]));
    }
    if all_ab(w) && is_ab(c) {
        assert forall|i: int| 0 <= i < w2.len() implies #[trigger] is_ab(w2[i]) by {
            if i < w.len() {
                assert(is_ab(w[i]));
            }
        }
    }
}

/// A word over `{a, b}` without `b` is made of `a` only, and the other way round.
pub proof fn lemma_ab_other(w: Seq<char>, i: int)
    requires
        all_ab(w),
        0 <= i < w.len(),
    ensures
        !w.contains('b') ==> w[i] == 'a',
        !w.contains('a') ==> w[i] == 'b',
{
    assert(is_ab(w[i]));
}

/// A prefix one letter longer is the prefix with that letter pushed.
pub proof fn lemma_take_push(w: Seq<char>, i: int)
    requires
        0 <= i < w.len(),
    ensures
        w.take(i + 1) == w.take(i).push(w[i]),
{
    assert(w.take(i + 1) =~= w.take(i).push(w[i]));
}

/// Every prefix of a word over `{a, b}` is over `{a, b}`.
pub proof fn lemma_all_ab_take(w: Seq<char>, i: int)
    requires
        all_ab(w),
        0 <= i <= w.len(),
    ensures
        all_ab(w.take(i)),
{
    assert forall|j: int| 0 <= j < w.take(i).len() implies #[trigger] is_ab(w.take(i)[j]) by {
        assert(is_ab(w[j]));
    }
}

/// A word with a prefix not over `{a, b}` is not over `{a, b}`.
pub proof fn lemma_not_all_ab_extends(w: Seq<char>, i: int)
    requires
        0 <= i <= w.len(),
        !all_ab(w.take(i)),
    ensures
        !all_ab(w),
{
    if all_ab(w) {
        lemma_all_ab_take(w, i);
    }
}

/// Appending a letter extends a match of the pattern by one place.
pub proof fn lemma_suffix_match_push(w: Seq<char>, c: char, k: int)
    requires
        1 <= k <= w.len() + 1,
    ensures
        suffix_match(w.push(c), k) <==> (suffix_match(w, k - 1) && (k - 1 < 4 ==> c == pat(k - 1))),
{
    let w2 = w.push(c);
    if suffix_match(w2, k) {
        assert forall|j: int| 0 <= j < k - 1 && j < 4 implies #[trigger] w[w.len() - (k - 1) + j]
            == pat(j) by {
            assert(w2[w2.len() - k + j] == pat(j));
        }
        if k - 1 < 4 {
            assert(w2[w2.len() - k + (k - 1)] == pat(k - 1));
        }
    }
    if suffix_match(w, k - 1) && (k - 1 < 4 ==> c == pat(k - 1)) {
        assert forall|j: int| 0 <= j < k && j < 4 implies #[trigger] w2[w2.len() - k + j] == pat(
            j,
        ) by {
            if j < k - 1 {
                assert(w[w.len() - (k - 1) + j] == pat(j));
            }
        }
    }
}

} // verus!

verus! {

/// A number occurs after a push where it occurred before or was pushed.
pub proof fn lemma_contains_push_usize(w: Seq<usize>, c: usize, x: usize)
    ensures
        w.push(c).contains(x) <==> (w.contains(x) || c == x),
{
    let w2 = w.push(c);
    if w.contains(x) {
        let i = choose|i: int| 0 <= i < w.len() && w[i] == x;
        assert(w2[i] == x);
    }
    if c == x {
        assert(w2[w.len() as int] == x);
    }
    if w2.contains(x) {
        let i = choose|i: int| 0 <= i < w2.len() && w2[i] == x;
        if i < w.len() {
            assert(w[i] == x);
        }
    }
}

} // verus!
