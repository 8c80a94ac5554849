//! Finite automata that decide the language of `language::in_language`.
use vstd::prelude::*;
use crate::language::{self as lang};
use crate::text::char_vec;
use std::collections::HashSet;

verus! {

/// Class of a word in the automaton over `{a, b}` that accepts words holding both letters:
/// `-1` for a word with another letter, `0` for the empty word, `1` for `a`s
/// only, `2` for `b`s only, `3` once both letters occurred.
pub open spec fn prefix_class(w: Seq<char>) -> int {
    if !lang::all_ab(w) {
        -1
    } else if w.len() == 0 {
        0
    } else if lang::has_both(w) {
        3
    } else if w[0] == 'a' {
        1
    } else {
        2
    }
}

proof fn lemma_prefix_step(w: Seq<char>, c: char)
    requires
        lang::all_ab(w),
        lang::is_ab(c),
    ensures
        prefix_class(w.push(c)) == (if prefix_class(w) == 0 {
            if c == 'a' { 1int } else { 2int }
        } else if prefix_class(w) == 1 {
            if c == 'a' { 1int } else { 3int }
        } else if prefix_class(w) == 2 {
            if c == 'b' { 2int } else { 3int }
        } else {
            3int
        }),
{
    let w2 = w.push(c);
    lang::lemma_all_ab_push(w, c);
    lang::lemma_contains_push(w, c, 'a');
    lang::lemma_contains_push(w, c, 'b');
    assert(w2[0] == if w.len() == 0 { c } else { w[0] });
    if w.len() > 0 {
        assert(w.contains(w[0]));
        assert(lang::is_ab(w[0]));
    }
}

/// Whether `prefix` is a word over `{a, b}` that holds both an `a` and a `b`
/// (the empty word is refused).
pub fn prefix_accepts(prefix: &str) -> (res: bool)
    ensures
        res == (lang::all_ab(prefix@) && lang::has_both(prefix@)),
{
    let w = char_vec(prefix);
    if w.len() == 0 {
        return false;
    }
    let mut state: u8 = 0;
    let mut i: usize = 0;
    while i < w.len()
        invariant
            0 <= i <= w@.len(),
            w@ == prefix@,
            lang::all_ab(w@.take(i as int)),
            state as int == prefix_class(w@.take(i as int)),
        decreases w@.len() - i,
    {
        let b = w[i];
        proof {
            lang::lemma_take_push(w@, i as int);
            lang::lemma_all_ab_push(w@.take(i as int), b);
        }
        state = match (state, b) {
            (0, 'a') => 1,
            (0, 'b') => 2,
            (1, 'a') => 1,
            (1, 'b') => 3,
            (2, 'b') => 2,
            (2, 'a') => 3,
            (3, 'a') => 3,
            (3, 'b') => 3,
            _ => {
                proof {
                    lang::lemma_not_all_ab_extends(w@, i + 1);
                }
                return false;
            },
        };
        proof {
            lemma_prefix_step(w@.take(i as int), b);
        }
        i = i + 1;
    }
    assert(w@.take(w@.len() as int) =~= w@);
    state == 3
}

} // verus!

verus! {

/// States of the automaton that recognizes the words ending with `abab??`:
/// state `0` is always reached, state `k` in `1..=6` once the word ends with
/// the first `k` letters of that pattern.
pub open spec fn suffix_state(w: Seq<char>, k: int) -> bool {
    k == 0 || (1 <= k <= 6 && lang::suffix_match(w, k))
}

proof fn lemma_suffix_step(w: Seq<char>, c: char, k: int)
    requires
        1 <= k <= 6,
    ensures
        suffix_state(w.push(c), k) == (suffix_state(w, k - 1) && (k - 1 < 4 ==> c == lang::pat(k - 1))),
{
    if k <= w.len() + 1 {
        lang::lemma_suffix_match_push(w, c, k);
    }
}

/// The suffix automaton moves from state `s` to state `t` on the letter `c`
/// (`a` or `b`): `0` loops and starts the pattern on `a`, states `1` to `3`
/// follow `b`, `a`, `b`, states `4` and `5` take any letter, `6` is final.
pub open spec fn suffix_edge(s: u8, c: char, t: u8) -> bool {
    ||| s == 0 && t == 0
    ||| s == 0 && t == 1 && c == 'a'
    ||| s == 1 && t == 2 && c == 'b'
    ||| s == 2 && t == 3 && c == 'a'
    ||| s == 3 && t == 4 && c == 'b'
    ||| s == 4 && t == 5
    ||| s == 5 && t == 6
}

/// One step of the suffix automaton on a set of states and the letter `c`.
fn suffix_step(states: &HashSet<u8>, c: char) -> (next: HashSet<u8>)
    requires
        c == 'a' || c == 'b',
    ensures
        forall|t: u8| #[trigger] next@.contains(t) <==> exists|s: u8| #[trigger] states@.contains(s) && suffix_edge(s, c, t),
{
    let mut next: HashSet<u8> = HashSet::new();
    let ghost mut seen: Seq<u8> = Seq::empty();
    for s in it: states.iter()
        invariant
            c == 'a' || c == 'b',
            it.seq().unref().to_set() == states@,
            seen == it.seq().unref().take(it.index() as int),
            it.index() == it.seq().len() ==> seen == it.seq().unref(),
            forall|t: u8| #[trigger] next@.contains(t) <==> exists|k: int|
                0 <= k < seen.len() && suffix_edge(seen[k], c, t),
    {
        let ghost idx = it.index();
        let ghost sq = it.seq().unref();
        let sv: u8 = *s;
        let ghost before = next@;
        proof {
            assert(sq[idx] == sv);
        }
        if sv == 0 {
            next.insert(0);
            if c == 'a' {
                next.insert(1);
            }
        } else if sv == 1 {
            if c == 'b' {
                next.insert(2);
            }
        } else if sv == 2 {
            if c == 'a' {
                next.insert(3);
            }
        } else if sv == 3 {
            if c == 'b' {
                next.insert(4);
            }
        } else if sv == 4 {
            next.insert(5);
        } else if sv == 5 {
            next.insert(6);
        }
        proof {
            let s2 = seen.push(sv);
            assert(s2 =~= sq.take(idx + 1));
            assert(idx + 1 == sq.len() ==> s2 =~= sq);
            assert forall|t: u8| #[trigger] next@.contains(t) <==> exists|k: int|
                0 <= k < s2.len() && suffix_edge(s2[k], c, t) by {
                if next@.contains(t) && !before.contains(t) {
                    assert(suffix_edge(s2[idx], c, t));
                }
                if exists|k: int| 0 <= k < s2.len() && suffix_edge(s2[k], c, t) {
                    let k = choose|k: int| 0 <= k < s2.len() && suffix_edge(s2[k], c, t);
                    if k < idx {
                        assert(s2[k] == seen[k]);
                        assert(before.contains(t));
                    }
                }
            }
        }
        proof {
            seen = seen.push(sv);
        }
    }
    proof {
        let sq = seen;
        assert forall|t: u8| #[trigger] next@.contains(t) <==> exists|s: u8| #[trigger] states@.contains(s) && suffix_edge(s, c, t) by {
            if next@.contains(t) {
                let k = choose|k: int| 0 <= k < sq.len() && suffix_edge(sq[k], c, t);
                assert(sq.contains(sq[k]));
                assert(sq.to_set().contains(sq[k]));
                assert(states@.contains(sq[k]));
            }
            if exists|s: u8| #[trigger] states@.contains(s) && suffix_edge(s, c, t) {
                let s2 = choose|s: u8| #[trigger] states@.contains(s) && suffix_edge(s, c, t);
                assert(sq.to_set().contains(s2));
                let k = sq.index_of(s2);
                assert(sq[k] == s2);
            }
        }
    }
    next
}

/// Whether `word` is a word over `{a, b}` that ends with `abab` and two more letters.
pub fn suffix_accepts(word: &str) -> (res: bool)
    ensures
        res == (lang::all_ab(word@) && lang::suffix_match(word@, 6)),
{
    let w = char_vec(word);
    let mut states: HashSet<u8> = HashSet::new();
    states.insert(0);
    let mut i: usize = 0;
    while i < w.len()
        invariant
            0 <= i <= w@.len(),
            w@ == word@,
            lang::all_ab(w@.take(i as int)),
            forall|k: u8| #[trigger] states@.contains(k) <==> (k < 7 && suffix_state(w@.take(i as int), k as int)),
        decreases w@.len() - i,
    {
        let ch = w[i];
        proof {
            lang::lemma_take_push(w@, i as int);
            lang::lemma_all_ab_push(w@.take(i as int), ch);
        }
        if !(ch == 'a' || ch == 'b') {
            proof {
                lang::lemma_not_all_ab_extends(w@, i + 1);
            }
            return false;
        }
        let next = suffix_step(&states, ch);
        proof {
            let p = w@.take(i as int);
            assert forall|k: u8| #[trigger] next@.contains(k) <==> (k < 7 && suffix_state(w@.take(i + 1), k as int)) by {
                if 1 <= k < 7 {
                    lemma_suffix_step(p, ch, k as int);
                    let s = (k - 1) as u8;
                    assert(states@.contains(s) <==> suffix_state(p, s as int));
                    if next@.contains(k) {
                        let s2 = choose|s2: u8| #[trigger] states@.contains(s2) && suffix_edge(s2, ch, k);
                        assert(s2 == s);
                    }
                    if suffix_state(w@.take(i + 1), k as int) {
                        assert(states@.contains(s) && suffix_edge(s, ch, k));
                    }
                } else if k == 0 {
                    assert(states@.contains(0u8) && suffix_edge(0u8, ch, 0u8));
                } else if next@.contains(k) {
                    let s2 = choose|s2: u8| #[trigger] states@.contains(s2) && suffix_edge(s2, ch, k);
                }
            }
        }
        if next.is_empty() {
            proof {
                assert(next@.contains(0u8));
                assert(!next@.is_empty());
            }
            return false;
        }
        states = next;
        i = i + 1;
    }
    assert(w@.take(w@.len() as int) =~= w@);
    states.contains(&6)
}

/// Whether `word` is in the language: the prefix automaton accepts all but the
/// last six letters and the suffix automaton accepts the whole word.
pub fn afa_accepts(word: &str) -> (res: bool)
    ensures
        res == lang::in_language(word@),
{
    let w = char_vec(word);
    let n = w.len();
    if n < 8 {
        proof {
            if lang::in_language(word@) {
                let x = word@.take(word@.len() - 6);
                let ia = choose|i: int| 0 <= i < x.len() && x[i] == 'a';
                let ib = choose|i: int| 0 <= i < x.len() && x[i] == 'b';
                assert(ia != ib);
            }
        }
        return false;
    }
    let mut i: usize = 0;
    while i < n
        invariant
            0 <= i <= n,
            n == w@.len(),
            w@ == word@,
            forall|j: int| 0 <= j < i ==> #[trigger] lang::is_ab(w@[j]),
        decreases n - i,
    {
        let b = w[i];
        if b != 'a' && b != 'b' {
            assert(!lang::is_ab(word@[i as int]));
            return false;
        }
        i = i + 1;
    }
    assert(lang::all_ab(word@));
    let prefix_end = n - 6;
    let prefix = word.substring_char(0, prefix_end);
    assert(prefix@ =~= word@.take(word@.len() - 6));
    proof {
        lang::lemma_all_ab_take(word@, prefix_end as int);
    }
    prefix_accepts(prefix) && suffix_accepts(word)
}

} // verus!

verus! {

/// The transitions of the nondeterministic automaton with states `0..10`:
/// `0` start, `1` only `a`s, `2` only `b`s, `3` both letters seen, `4..=7`
/// reading `abab`, `8` and `9` the two last letters; `9` accepts.
pub open spec fn nfa_edge(s: int, c: char, t: int) -> bool {
    if c == 'a' {
        ||| (s == 0 && t == 1)
        ||| (s == 1 && t == 1)
        ||| (s == 2 && t == 3)
        ||| (s == 3 && (t == 3 || t == 4))
        ||| (s == 5 && t == 6)
        ||| (s == 7 && t == 8)
        ||| (s == 8 && t == 9)
    } else if c == 'b' {
        ||| (s == 0 && t == 2)
        ||| (s == 1 && t == 3)
        ||| (s == 2 && t == 2)
        ||| (s == 3 && t == 3)
        ||| (s == 4 && t == 5)
        ||| (s == 6 && t == 7)
        ||| (s == 7 && t == 8)
        ||| (s == 8 && t == 9)
    } else {
        false
    }
}

/// The words over `{a, b}` after which the automaton of `nfa_edge` can be in state `t`.
pub open spec fn nfa_class(w: Seq<char>, t: int) -> bool {
    if t == 0 {
        w.len() == 0
    } else if t == 1 {
        w.len() > 0 && !w.contains('b')
    } else if t == 2 {
        w.len() > 0 && !w.contains('a')
    } else if t == 3 {
        lang::has_both(w)
    } else if 4 <= t <= 9 {
        &&& t - 3 <= w.len()
        &&& lang::has_both(w.take(w.len() - (t - 3)))
        &&& lang::suffix_match(w, t - 3)
    } else {
        false
    }
}

/// The states that one step on `c` reaches from the states where `p` holds.
pub open spec fn nfa_post(p: spec_fn(int) -> bool, c: char, t: int) -> bool {
    exists|s: int| 0 <= s < 10 && #[trigger] p(s) && nfa_edge(s, c, t)
}

proof fn lemma_nfa_post_explicit(p: spec_fn(int) -> bool, c: char, t: int)
    requires
        lang::is_ab(c),
        0 <= t < 10,
    ensures
        nfa_post(p, c, t) == (if t == 0 {
            false
        } else if t == 1 {
            c == 'a' && (p(0) || p(1))
        } else if t == 2 {
            c == 'b' && (p(0) || p(2))
        } else if t == 3 {
            (c == 'b' && p(1)) || (c == 'a' && p(2)) || p(3)
        } else if t == 4 {
            c == 'a' && p(3)
        } else if t == 5 {
            c == 'b' && p(4)
        } else if t == 6 {
            c == 'a' && p(5)
        } else if t == 7 {
            c == 'b' && p(6)
        } else if t == 8 {
            p(7)
        } else {
            p(8)
        }),
{
    if t == 1 && c == 'a' && p(0) { assert(nfa_edge(0, c, t)); }
    if t == 1 && c == 'a' && p(1) { assert(nfa_edge(1, c, t)); }
    if t == 2 && c == 'b' && p(0) { assert(nfa_edge(0, c, t)); }
    if t == 2 && c == 'b' && p(2) { assert(nfa_edge(2, c, t)); }
    if t == 3 && c == 'b' && p(1) { assert(nfa_edge(1, c, t)); }
    if t == 3 && c == 'a' && p(2) { assert(nfa_edge(2, c, t)); }
    if t == 3 && p(3) { assert(nfa_edge(3, c, t)); }
    if t == 4 && c == 'a' && p(3) { assert(nfa_edge(3, c, t)); }
    if t == 5 && c == 'b' && p(4) { assert(nfa_edge(4, c, t)); }
    if t == 6 && c == 'a' && p(5) { assert(nfa_edge(5, c, t)); }
    if t == 7 && c == 'b' && p(6) { assert(nfa_edge(6, c, t)); }
    if t == 8 && p(7) { assert(nfa_edge(7, c, t)); }
    if t == 9 && p(8) { assert(nfa_edge(8, c, t)); }
}

proof fn lemma_nfa_class_step(w: Seq<char>, c: char, t: int)
    requires
        lang::all_ab(w),
        lang::is_ab(c),
        0 <= t < 10,
    ensures
        nfa_class(w.push(c), t) == nfa_post(|s: int| nfa_class(w, s), c, t),
{
    let p = |s: int| nfa_class(w, s);
    let w2 = w.push(c);
    lemma_nfa_post_explicit(p, c, t);
    lang::lemma_contains_push(w, c, 'a');
    lang::lemma_contains_push(w, c, 'b');
    if t == 3 {
        if w.len() > 0 {
            lang::lemma_ab_other(w, 0);
            assert(w.contains(w[0]));
        }
    } else if 4 <= t <= 9 {
        let k = t - 3;
        if k <= w2.len() {
            lang::lemma_suffix_match_push(w, c, k);
            assert(w2.take(w2.len() - k) =~= w.take(w.len() - (k - 1)));
            if k == 1 {
                assert(w.take(w.len() - 0) =~= w);
            }
        }
    }
}

proof fn lemma_nfa_class_empty(t: int)
    requires
        0 <= t < 10,
    ensures
        nfa_class(Seq::<char>::empty(), t) == (t == 0),
{
}

proof fn lemma_nfa_class_final(w: Seq<char>)
    requires
        lang::all_ab(w),
    ensures
        nfa_class(w, 9) == lang::in_language(w),
{
}

/// Some state is reached after every word over `{a, b}`.
proof fn lemma_nfa_class_nonempty(w: Seq<char>)
    requires
        lang::all_ab(w),
    ensures
        nfa_class(w, 0) || nfa_class(w, 1) || nfa_class(w, 2) || nfa_class(w, 3),
{
    if w.len() > 0 && !lang::has_both(w) {
        lang::lemma_ab_other(w, 0);
        assert(w.contains(w[0]));
    }
}

} // verus!

verus! {

/// The transition table of `nfa_edge` for the letter `c`: the entry at `s`
/// lists the states that `s` reaches on `c`.
pub open spec fn table_matches(tbl: Seq<Vec<usize>>, c: char) -> bool {
    &&& tbl.len() == 10
    &&& forall|s: int, t: int|
        0 <= s < 10 && 0 <= t < 10 ==> (#[trigger] tbl[s]@.contains(t as usize) <==> nfa_edge(
            s,
            c,
            t,
        ))
    &&& forall|s: int, j: int| 0 <= s < 10 && 0 <= j < tbl[s]@.len() ==> #[trigger] tbl[s]@[j] < 10
}

proof fn lemma_seq_contains_small(v: Seq<usize>, t: usize)
    ensures
        v.len() == 0 ==> !v.contains(t),
        v.len() == 1 ==> (v.contains(t) <==> v[0] == t),
        v.len() == 2 ==> (v.contains(t) <==> (v[0] == t || v[1] == t)),
{
    if v.len() == 1 && v[0] == t {
        assert(v[0] == t);
    }
    if v.len() == 2 && v[1] == t {
        assert(v[1] == t);
    }
}

fn nfa_tables() -> (r: (Vec<Vec<usize>>, Vec<Vec<usize>>))
    ensures
        table_matches(r.0@, 'a'),
        table_matches(r.1@, 'b'),
{
    let transitions_a: Vec<Vec<usize>> = vec![
        vec![1],
        vec![1],
        vec![3],
        vec![3, 4],
        vec![],
        vec![6],
        vec![],
        vec![8],
        vec![9],
        vec![],
    ];
    let transitions_b: Vec<Vec<usize>> = vec![
        vec![2],
        vec![3],
        vec![2],
        vec![3],
        vec![5],
        vec![],
        vec![7],
        vec![8],
        vec![9],
        vec![],
    ];
    proof {
        assert forall|s: int, t: int| 0 <= s < 10 && 0 <= t < 10 implies (
        #[trigger] transitions_a@[s]@.contains(t as usize) <==> nfa_edge(s, 'a', t)) by {
            lemma_seq_contains_small(transitions_a@[s]@, t as usize);
        }
        assert forall|s: int, t: int| 0 <= s < 10 && 0 <= t < 10 implies (
        #[trigger] transitions_b@[s]@.contains(t as usize) <==> nfa_edge(s, 'b', t)) by {
            lemma_seq_contains_small(transitions_b@[s]@, t as usize);
        }
    }
    (transitions_a, transitions_b)
}

} // verus!

verus! {

proof fn lemma_nfa_post_congr(p1: spec_fn(int) -> bool, p2: spec_fn(int) -> bool, c: char, t: int)
    requires
        forall|s: int| 0 <= s < 10 ==> #[trigger] p1(s) == p2(s),
    ensures
        nfa_post(p1, c, t) == nfa_post(p2, c, t),
{
    if nfa_post(p1, c, t) {
        let s = choose|s: int| 0 <= s < 10 && #[trigger] p1(s) && nfa_edge(s, c, t);
        assert(p2(s));
    }
    if nfa_post(p2, c, t) {
        let s = choose|s: int| 0 <= s < 10 && #[trigger] p2(s) && nfa_edge(s, c, t);
        assert(p1(s));
    }
}

/// One step of the subset simulation: the states that the states of
/// `states` reach through the table `tbl`.
fn nfa_step(tbl: &Vec<Vec<usize>>, states: &HashSet<usize>, Ghost(c): Ghost<char>) -> (next: HashSet<usize>)
    requires
        table_matches(tbl@, c),
        forall|s: usize| #[trigger] states@.contains(s) ==> s < 10,
    ensures
        forall|t: usize| #[trigger] next@.contains(t) <==> (t < 10 && nfa_post(|s: int| states@.contains(s as usize), c, t as int)),
{
    let mut next: HashSet<usize> = HashSet::new();
    let ghost mut seen: Seq<usize> = Seq::empty();
    for s in it: states.iter()
        invariant
            it.seq().unref().to_set() == states@,
            seen == it.seq().unref().take(it.index() as int),
            it.index() == it.seq().len() ==> seen == it.seq().unref(),
            table_matches(tbl@, c),
            forall|s: usize| #[trigger] states@.contains(s) ==> s < 10,
            forall|t: usize| #[trigger] next@.contains(t) <==> exists|k: int|
                0 <= k < seen.len() && tbl@[seen[k] as int]@.contains(t),
    {
        let ghost idx = it.index();
        let ghost sq = it.seq().unref();
        let sv: usize = *s;
        proof {
            assert(sq[idx] == sv);
            assert(sq.contains(sv));
            assert(sq.to_set().contains(sv));
        }
        let targets: &Vec<usize> = &tbl[sv];
        let ghost before = next@;
        let mut j: usize = 0;
        while j < targets.len()
            invariant
                0 <= j <= targets@.len(),
                forall|t: usize| #[trigger] next@.contains(t) <==> (before.contains(t) || targets@.take(j as int).contains(t)),
            decreases targets@.len() - j,
        {
            let t = targets[j];
            next.insert(t);
            proof {
                assert(targets@.take(j + 1) =~= targets@.take(j as int).push(t));
                assert forall|u: usize| #[trigger] next@.contains(u) <==> (before.contains(u) || targets@.take(j + 1).contains(u)) by {
                    lang::lemma_contains_push_usize(targets@.take(j as int), t, u);
                }
            }
            j = j + 1;
        }
        proof {
            assert(targets@.take(targets@.len() as int) =~= targets@);
            let s2 = seen.push(sv);
            assert(s2 =~= sq.take(idx + 1));
            assert forall|t: usize| #[trigger] next@.contains(t) <==> exists|k: int|
                0 <= k < s2.len() && tbl@[s2[k] as int]@.contains(t) by {
                if next@.contains(t) && !before.contains(t) {
                    assert(tbl@[s2[idx] as int]@.contains(t));
                }
                if exists|k: int| 0 <= k < s2.len() && tbl@[s2[k] as int]@.contains(t) {
                    let k = choose|k: int| 0 <= k < s2.len() && tbl@[s2[k] as int]@.contains(t);
                    if k < idx {
                        assert(s2[k] == seen[k]);
                        assert(before.contains(t));
                    }
                }
            }
            assert(idx + 1 == sq.len() ==> s2 =~= sq);
        }
        proof {
            seen = seen.push(sv);
        }
    }
    proof {
        let sq = seen;
        let p = |s: int| states@.contains(s as usize);
        assert forall|t: usize| #[trigger] next@.contains(t) <==> (t < 10 && nfa_post(p, c, t as int)) by {
            if next@.contains(t) {
                let k = choose|k: int| 0 <= k < sq.len() && tbl@[sq[k] as int]@.contains(t);
                let s2 = sq[k];
                assert(sq.contains(s2));
                assert(sq.to_set().contains(s2));
                assert(s2 < 10);
                let m = tbl@[s2 as int]@.index_of(t);
                assert(tbl@[s2 as int]@[m] == t);
                assert(t < 10);
                assert(states@.contains(s2));
                assert(((s2 as int) as usize) == s2);
                assert(p(s2 as int));
                assert(tbl@[s2 as int]@.contains((t as int) as usize));
                assert(nfa_edge(s2 as int, c, t as int));
            }
            if t < 10 && nfa_post(p, c, t as int) {
                let s2 = choose|s2: int| 0 <= s2 < 10 && #[trigger] p(s2) && nfa_edge(s2, c, t as int);
                assert(states@.contains(s2 as usize));
                assert(sq.to_set().contains(s2 as usize));
                let k = sq.index_of(s2 as usize);
                assert(sq[k] == s2 as usize);
                assert(tbl@[s2]@.contains((t as int) as usize));
                assert(tbl@[sq[k] as int]@.contains(t));
            }
        }
    }
    next
}

/// Whether the nondeterministic automaton of `nfa_edge` accepts `word`.
pub fn nfa_accepts(word: &str) -> (res: bool)
    ensures
        res == lang::in_language(word@),
{
    let (transitions_a, transitions_b) = nfa_tables();
    let w = char_vec(word);
    let mut states: HashSet<usize> = HashSet::new();
    states.insert(0);
    proof {
        assert forall|t: usize| #[trigger] states@.contains(t) <==> (t < 10 && nfa_class(w@.take(0), t as int)) by {
            assert(w@.take(0) =~= Seq::<char>::empty());
            if t < 10 {
                lemma_nfa_class_empty(t as int);
            }
        }
    }
    let mut i: usize = 0;
    while i < w.len()
        invariant
            0 <= i <= w@.len(),
            w@ == word@,
            table_matches(transitions_a@, 'a'),
            table_matches(transitions_b@, 'b'),
            lang::all_ab(w@.take(i as int)),
            forall|t: usize| #[trigger] states@.contains(t) <==> (t < 10 && nfa_class(w@.take(i as int), t as int)),
        decreases w@.len() - i,
    {
        let ch = w[i];
        let ghost p = w@.take(i as int);
        proof {
            lang::lemma_take_push(w@, i as int);
            lang::lemma_all_ab_push(p, ch);
        }
        if ch != 'a' && ch != 'b' {
            proof {
                lang::lemma_not_all_ab_extends(w@, i + 1);
            }
            return false;
        }
        let next = if ch == 'a' {
            nfa_step(&transitions_a, &states, Ghost(ch))
        } else {
            nfa_step(&transitions_b, &states, Ghost(ch))
        };
        proof {
            assert forall|t: usize| #[trigger] next@.contains(t) <==> (t < 10 && nfa_class(w@.take(i + 1), t as int)) by {
                if t < 10 {
                    lemma_nfa_class_step(p, ch, t as int);
                    let f1 = |s: int| states@.contains(s as usize);
                    let f2 = |s: int| nfa_class(p, s);
                    assert forall|s: int| 0 <= s < 10 implies #[trigger] f1(s) == f2(s) by {
                        assert(states@.contains(s as usize) <==> nfa_class(p, s));
                    }
                    lemma_nfa_post_congr(f1, f2, ch, t as int);
                }
            }
        }
        if next.is_empty() {
            proof {
                lemma_nfa_class_nonempty(w@.take(i + 1));
                if nfa_class(w@.take(i + 1), 0) {
                    assert(next@.contains(0usize));
                } else if nfa_class(w@.take(i + 1), 1) {
                    assert(next@.contains(1usize));
                } else if nfa_class(w@.take(i + 1), 2) {
                    assert(next@.contains(2usize));
                } else {
                    assert(next@.contains(3usize));
                }
                assert(!next@.is_empty());
            }
            return false;
        }
        states = next;
        i = i + 1;
    }
    proof {
        assert(w@.take(w@.len() as int) =~= w@);
        lemma_nfa_class_final(w@);
    }
    states.contains(&9)
}

} // verus!

verus! {

/// The transitions of the deterministic automaton, states `0..13`, with `-1`
/// for the dead state.
pub open spec fn dfa_delta(d: int, c: char) -> int {
    if c == 'a' {
        if d == 0 { 1 }
        else if d == 1 { 1 }
        else if d == 2 { 3 }
        else if d == 3 { 4 }
        else if d == 4 { 4 }
        else if d == 5 { 6 }
        else if d == 6 { 4 }
        else if d == 7 { 8 }
        else if d == 8 { 11 }
        else if d == 9 { 11 }
        else if d == 10 { 8 }
        else if d == 11 { 4 }
        else if d == 12 { 4 }
        else { -1 }
    } else if c == 'b' {
        if d == 0 { 2 }
        else if d == 1 { 3 }
        else if d == 2 { 2 }
        else if d == 3 { 3 }
        else if d == 4 { 5 }
        else if d == 5 { 3 }
        else if d == 6 { 7 }
        else if d == 7 { 9 }
        else if d == 8 { 10 }
        else if d == 9 { 12 }
        else if d == 10 { 9 }
        else if d == 11 { 5 }
        else if d == 12 { 3 }
        else { -1 }
    } else {
        -1
    }
}

/// The set of states of `nfa_edge` that the state `d` of the deterministic
/// automaton stands for.
pub open spec fn dfa_set(d: int, t: int) -> bool {
    if d == 0 { t == 0 }
    else if d == 1 { t == 1 }
    else if d == 2 { t == 2 }
    else if d == 3 { t == 3 }
    else if d == 4 { t == 3 || t == 4 }
    else if d == 5 { t == 3 || t == 5 }
    else if d == 6 { t == 3 || t == 4 || t == 6 }
    else if d == 7 { t == 3 || t == 5 || t == 7 }
    else if d == 8 { t == 3 || t == 4 || t == 6 || t == 8 }
    else if d == 9 { t == 3 || t == 8 }
    else if d == 10 { t == 3 || t == 5 || t == 7 || t == 9 }
    else if d == 11 { t == 3 || t == 4 || t == 9 }
    else if d == 12 { t == 3 || t == 9 }
    else { false }
}

/// The deterministic automaton is the subset construction of `nfa_edge`.
proof fn lemma_dfa_subset_step(d: int, c: char, t: int)
    requires
        0 <= d < 13,
        lang::is_ab(c),
        0 <= t < 10,
    ensures
        0 <= dfa_delta(d, c) < 13,
        dfa_set(dfa_delta(d, c), t) == nfa_post(|s: int| dfa_set(d, s), c, t),
{
    lemma_nfa_post_explicit(|s: int| dfa_set(d, s), c, t);
}

/// Whether the deterministic automaton accepts `word`; its accepting states
/// are `10`, `11` and `12`.
pub fn dfa_accepts(word: &str) -> (res: bool)
    ensures
        res == lang::in_language(word@),
{
    let w = char_vec(word);
    let mut state: i32 = 0;
    proof {
        assert forall|t: int| 0 <= t < 10 implies dfa_set(state as int, t) == #[trigger] nfa_class(w@.take(0), t) by {
            assert(w@.take(0) =~= Seq::<char>::empty());
            lemma_nfa_class_empty(t);
        }
    }
    let mut i: usize = 0;
    while i < w.len()
        invariant
            0 <= i <= w@.len(),
            w@ == word@,
            lang::all_ab(w@.take(i as int)),
            0 <= state < 13,
            forall|t: int| 0 <= t < 10 ==> dfa_set(state as int, t) == #[trigger] nfa_class(w@.take(i as int), t),
        decreases w@.len() - i,
    {
        let ch = w[i];
        let ghost p = w@.take(i as int);
        let ghost old_state = state as int;
        proof {
            lang::lemma_take_push(w@, i as int);
            lang::lemma_all_ab_push(p, ch);
        }
        state = match (state, ch) {
            (0, 'a') => 1,
            (0, 'b') => 2,
            (11, 'a') => 4,
            (11, 'b') => 5,
            (10, 'a') => 8,
            (10, 'b') => 9,
            (12, 'a') => 4,
            (12, 'b') => 3,
            (1, 'a') => 1,
            (1, 'b') => 3,
            (2, 'a') => 3,
            (2, 'b') => 2,
            (3, 'a') => 4,
            (3, 'b') => 3,
            (4, 'a') => 4,
            (4, 'b') => 5,
            (5, 'a') => 6,
            (5, 'b') => 3,
            (6, 'a') => 4,
            (6, 'b') => 7,
            (7, 'a') => 8,
            (7, 'b') => 9,
            (8, 'a') => 11,
            (8, 'b') => 10,
            (9, 'a') => 11,
            (9, 'b') => 12,
            _ => {
                proof {
                    lang::lemma_not_all_ab_extends(w@, i + 1);
                }
                return false;
            },
        };
        proof {
            assert(lang::is_ab(ch));
            assert(state as int == dfa_delta(old_state, ch));
            assert forall|t: int| 0 <= t < 10 implies dfa_set(state as int, t) == #[trigger] nfa_class(w@.take(i + 1), t) by {
                lemma_dfa_subset_step(old_state, ch, t);
                lemma_nfa_class_step(p, ch, t);
                lemma_nfa_post_congr(|s: int| dfa_set(old_state, s), |s: int| nfa_class(p, s), ch, t);
            }
        }
        i = i + 1;
    }
    proof {
        assert(w@.take(w@.len() as int) =~= w@);
        lemma_nfa_class_final(w@);
        assert(dfa_set(state as int, 9) == nfa_class(w@, 9));
    }
    state == 10 || state == 11 || state == 12
}

} // verus!

verus! {

/// Whether `word` is in the language, running the prefix automaton and the
/// suffix automaton side by side in a single pass over the word.
pub fn ext_automaton_accepts(word: &str) -> (res: bool)
    ensures
        res == lang::in_language(word@),
{
    let w = char_vec(word);
    let n = w.len();
    if n < 8 {
        proof {
            if lang::in_language(word@) {
                let x = word@.take(word@.len() - 6);
                let ia = choose|i: int| 0 <= i < x.len() && x[i] == 'a';
                let ib = choose|i: int| 0 <= i < x.len() && x[i] == 'b';
                assert(ia != ib);
            }
        }
        return false;
    }
    let prefix_end = n - 6;
    let mut alphabet_ok: bool = true;
    let mut prefix_state: u8 = 0;
    let mut suffix_states: HashSet<u8> = HashSet::new();
    suffix_states.insert(0);
    let mut i: usize = 0;
    while i < n
        invariant_except_break
            alphabet_ok,
            lang::all_ab(w@.take(i as int)),
            i <= prefix_end ==> prefix_state as int == prefix_class(w@.take(i as int)),
            i > prefix_end ==> prefix_state as int == prefix_class(w@.take(prefix_end as int)),
            forall|k: u8| #[trigger] suffix_states@.contains(k) <==> (k < 7 && suffix_state(w@.take(i as int), k as int)),
        invariant
            0 <= i <= n,
            n == w@.len(),
            n >= 8,
            prefix_end == n - 6,
            w@ == word@,
        ensures
            alphabet_ok ==> {
                &&& i == n
                &&& lang::all_ab(w@.take(i as int))
                &&& prefix_state as int == prefix_class(w@.take(prefix_end as int))
                &&& forall|k: u8| #[trigger] suffix_states@.contains(k) <==> (k < 7 && suffix_state(w@.take(i as int), k as int))
            },
            !alphabet_ok ==> !lang::all_ab(w@),
        decreases n - i,
    {
        let b = w[i];
        let ghost p = w@.take(i as int);
        proof {
            lang::lemma_take_push(w@, i as int);
            lang::lemma_all_ab_push(p, b);
        }
        if b != 'a' && b != 'b' {
            alphabet_ok = false;
            proof {
                lang::lemma_not_all_ab_extends(w@, i + 1);
            }
            break;
        }
        if i < prefix_end {
            prefix_state = match (prefix_state, b) {
                (0, 'a') => 1,
                (0, 'b') => 2,
                (1, 'a') => 1,
                (1, 'b') => 3,
                (2, 'b') => 2,
                (2, 'a') => 3,
                (3, 'a') => 3,
                (3, 'b') => 3,
                _ => 255,
            };
            proof {
                lemma_prefix_step(p, b);
            }
        }
        let next_suffix = suffix_step(&suffix_states, b);
        proof {
            assert forall|k: u8| #[trigger] next_suffix@.contains(k) <==> (k < 7 && suffix_state(w@.take(i + 1), k as int)) by {
                if 1 <= k < 7 {
                    lemma_suffix_step(p, b, k as int);
                    let s = (k - 1) as u8;
                    assert(suffix_states@.contains(s) <==> suffix_state(p, s as int));
                    if next_suffix@.contains(k) {
                        let s2 = choose|s2: u8| #[trigger] suffix_states@.contains(s2) && suffix_edge(s2, b, k);
                        assert(s2 == s);
                    }
                    if suffix_state(w@.take(i + 1), k as int) {
                        assert(suffix_states@.contains(s) && suffix_edge(s, b, k));
                    }
                } else if k == 0 {
                    assert(suffix_states@.contains(0u8) && suffix_edge(0u8, b, 0u8));
                } else if next_suffix@.contains(k) {
                    let s2 = choose|s2: u8| #[trigger] suffix_states@.contains(s2) && suffix_edge(s2, b, k);
                }
            }
        }
        if next_suffix.is_empty() {
            proof {
                assert(next_suffix@.contains(0u8));
                assert(!next_suffix@.is_empty());
            }
            return false;
        }
        suffix_states = next_suffix;
        i = i + 1;
    }
    if !alphabet_ok {
        return false;
    }
    if prefix_end == 0 {
        return false;
    }
    proof {
        assert(w@.take(w@.len() as int) =~= w@);
        assert(suffix_states@.contains(6u8) == suffix_state(w@, 6));
        lang::lemma_all_ab_take(w@, prefix_end as int);
    }
    (prefix_state == 3) && suffix_states.contains(&6)
}

/// The manual automaton for the extended regular expression
/// `^(?=[ab]*$)(a+b|b+a).*abab..$`.
pub fn extended_regex_accepts(word: &str) -> (res: bool)
    ensures
        res == lang::in_language(word@),
{
    ext_automaton_accepts(word)
}

} // verus!

verus! {

/// The letter that a coin `c` stands for: `a` for `0`, `b` otherwise.
pub open spec fn coin_letter(c: usize) -> char {
    if c == 0 {
        'a'
    } else {
        'b'
    }
}

/// A word of `a`s and `b`s whose length is drawn from `min_len..=max_len` and
/// whose letters are drawn one by one ([`word_from_coins`]).
pub fn random_word(rng: &mut rand::rngs::ThreadRng, min_len: usize, max_len: usize) -> (s: String)
    requires
        min_len <= max_len,
    ensures
        min_len <= s@.len() <= max_len,
        lang::all_ab(s@),
{
    let len = crate::random::random_in(rng, min_len, max_len);
    let mut coins: Vec<usize> = Vec::new();
    let mut k: usize = 0;
    while k < len
        invariant
            0 <= k <= len,
            coins@.len() == k,
        decreases len - k,
    {
        coins.push(crate::random::random_in(rng, 0, 1));
        k = k + 1;
    }
    word_from_coins(&coins)
}

/// The word whose letters the coins stand for: `a` for `0`, `b` otherwise.
pub fn word_from_coins(coins: &Vec<usize>) -> (s: String)
    ensures
        s@.len() == coins@.len(),
        forall|i: int| 0 <= i < coins@.len() ==> #[trigger] s@[i] == coin_letter(coins@[i]),
        lang::all_ab(s@),
{
    let len = coins.len();
    let mut s = String::new();
    let mut i: usize = 0;
    while i < len
        invariant
            0 <= i <= len,
            len == coins@.len(),
            s@.len() == i,
            lang::all_ab(s@),
            forall|j: int| 0 <= j < i ==> #[trigger] s@[j] == coin_letter(coins@[j]),
        decreases len - i,
    {
        let coin = coins[i];
        let ghost before = s@;
        proof {
            reveal_strlit("a");
            reveal_strlit("b");
        }
        if coin == 0 {
            s.append("a");
            proof { lang::lemma_all_ab_push(before, 'a'); assert(s@ =~= before.push('a')); }
        } else {
            s.append("b");
            proof { lang::lemma_all_ab_push(before, 'b'); assert(s@ =~= before.push('b')); }
        }
        i = i + 1;
    }
    s
}

} // verus!
