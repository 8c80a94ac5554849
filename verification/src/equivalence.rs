//! The random test that runs the recognizer on the three grammars of
//! `grammars` and looks for a word on which their answers differ.
use vstd::prelude::*;
use crate::earley::{self, ParseState};
use crate::grammar::Grammar;
use crate::grammars;

verus! {

/// The letters of a word given as bytes: `a` for the byte `a`, `b` for any other byte.
pub open spec fn bytes_text(word: Seq<u8>) -> Seq<char> {
    Seq::new(word.len(), |i: int| if word[i] == 97 { 'a' } else { 'b' })
}

/// The word as a string: `a` for the byte `a`, `b` for any other byte.
pub fn bytes_to_string(word: &Vec<u8>) -> (s: String)
    ensures
        s@ == bytes_text(word@),
{
    let mut s: String = String::new();
    let mut i: usize = 0;
    while i < word.len()
        invariant
            0 <= i <= word@.len(),
            s@ == bytes_text(word@).take(i as int),
        decreases word@.len() - i,
    {
        let ch: u8 = word[i];
        proof {
            reveal_strlit("a");
            reveal_strlit("b");
        }
        if ch == 97u8 {
            s.append("a");
        } else {
            s.append("b");
        }
        assert(s@ =~= bytes_text(word@).take(i + 1));
        i = i + 1;
    }
    assert(bytes_text(word@).take(word@.len() as int) =~= bytes_text(word@));
    s
}

/// The outcome of the comparison of the three grammars.
pub enum EquivalenceOutcome {
    /// The first word on which the grammars disagree, with the answer for each.
    Mismatch { word: Vec<u8>, original: bool, ll1: bool, lr0: bool },
    /// Every word drew the same answer from the three grammars.
    AllPassed { passed: usize },
}

/// Every byte of `w` is `a` or `b`.
pub open spec fn ab_bytes(w: Seq<u8>) -> bool {
    forall|i: int| 0 <= i < w.len() ==> #[trigger] w[i] == 97 || w[i] == 98
}

/// `n` letters drawn from the generator in state `state`, `a` for an even draw
/// and `b` for an odd one, and the state after them.
pub open spec fn draw_letters(state: u64, n: nat) -> (Seq<u8>, u64)
    decreases n,
{
    if n == 0 {
        (Seq::empty(), state)
    } else {
        let prev = draw_letters(state, (n - 1) as nat);
        let next = earley::xorshift(prev.1);
        (prev.0.push(if next % 2 == 0 { 97u8 } else { 98u8 }), next)
    }
}

/// The word drawn from the generator in state `state`: one draw gives its
/// length, `6 + draw % 25`, then one draw per letter; and the state after it.
pub open spec fn draw_word(state: u64) -> (Seq<u8>, u64) {
    let first = earley::xorshift(state);
    draw_letters(first, (first % 25 + 6) as nat)
}

/// The state of the generator started at `seed` after `t` words.
pub open spec fn state_after(seed: u64, t: nat) -> u64
    decreases t,
{
    if t == 0 {
        seed
    } else {
        draw_word(state_after(seed, (t - 1) as nat)).1
    }
}

/// The word number `t` (from `0`) drawn from the generator started at `seed`.
pub open spec fn word_at(seed: u64, t: nat) -> Seq<u8> {
    draw_word(state_after(seed, t)).0
}

/// The three grammars give the same answer on `w`.
pub open spec fn grammars_agree(g0: Grammar, gll: Grammar, glr: Grammar, w: Seq<u8>) -> bool {
    g0.generates(w) == gll.generates(w) && gll.generates(w) == glr.generates(w)
}

/// What comparing the three grammars on `tests` words drawn from `seed`
/// gives: all pass exactly when they agree on each of those words; otherwise
/// the first word on which they disagree, with the answer of each.
pub open spec fn comparison_outcome(
    g0: Grammar,
    gll: Grammar,
    glr: Grammar,
    tests: nat,
    seed: u64,
    r: EquivalenceOutcome,
) -> bool {
    &&& (r is AllPassed) == (forall|t: nat| t < tests ==> grammars_agree(g0, gll, glr, #[trigger] word_at(seed, t)))
    &&& r matches EquivalenceOutcome::AllPassed { passed } ==> passed == tests
    &&& r matches EquivalenceOutcome::Mismatch { word, original, ll1, lr0 } ==> {
        &&& 6 <= word@.len() <= 30
        &&& ab_bytes(word@)
        &&& original == g0.generates(word@)
        &&& ll1 == gll.generates(word@)
        &&& lr0 == glr.generates(word@)
        &&& !(original == ll1 && ll1 == lr0)
        &&& exists|t: nat| #![trigger word_at(seed, t)] t < tests && word@ == word_at(seed, t)
            && forall|u: nat| u < t ==> grammars_agree(g0, gll, glr, #[trigger] word_at(seed, u))
    }
}

/// Runs the recognizer for the three grammars on `tests` words drawn from the
/// xorshift generator started at `seed` ([`word_at`]); stops at the first word
/// on which the answers differ.
pub fn compare_grammars(g0: &Grammar, gll: &Grammar, glr: &Grammar, tests: usize, seed: u64) -> (r: EquivalenceOutcome)
    requires
        g0.wf(),
        gll.wf(),
        glr.wf(),
    ensures
        g0.eps_free() && gll.eps_free() && glr.eps_free() ==> comparison_outcome(*g0, *gll, *glr, tests as nat, seed, r),
        r matches EquivalenceOutcome::AllPassed { passed } ==> passed == tests,
        r matches EquivalenceOutcome::Mismatch { word, original, ll1, lr0 } ==> {
            &&& 6 <= word@.len() <= 30
            &&& ab_bytes(word@)
            &&& !(original == ll1 && ll1 == lr0)
            &&& (original ==> g0.generates(word@))
            &&& (ll1 ==> gll.generates(word@))
            &&& (lr0 ==> glr.generates(word@))
            &&& exists|t: nat| #![trigger word_at(seed, t)] t < tests && word@ == word_at(seed, t)
        },
{
    let mut ws0: ParseState = earley::ws_new(30usize);
    let mut wsll: ParseState = earley::ws_new(30usize);
    let mut wslr: ParseState = earley::ws_new(30usize);
    let mut rng: u64 = seed;
    let mut passed: usize = 0usize;
    let mut t: usize = 0;
    while t < tests
        invariant
            0 <= t <= tests,
            passed == t,
            g0.wf(),
            gll.wf(),
            glr.wf(),
            ws0.columns() == 31,
            wsll.columns() == 31,
            wslr.columns() == 31,
            rng == state_after(seed, t as nat),
            g0.eps_free() && gll.eps_free() && glr.eps_free() ==> forall|u: nat| u < t ==> grammars_agree(*g0, *gll, *glr, #[trigger] word_at(seed, u)),
        decreases tests - t,
    {
        let ghost state = rng;
        let rlen: u64 = earley::rng_next(&mut rng);
        let ghost first = rng;
        let mut len: usize = (rlen % 25u64) as usize;
        len = len + 6usize;
        let mut word: Vec<u8> = Vec::new();
        let mut i: usize = 0;
        while i < len
            invariant
                0 <= i <= len,
                len <= 30,
                len == first % 25 + 6,
                word@.len() == i,
                ab_bytes(word@),
                (word@, rng) == draw_letters(first, i as nat),
            decreases len - i,
        {
            let rbit: u64 = earley::rng_next(&mut rng);
            let bit: u64 = rbit % 2u64;
            if bit == 0u64 {
                word.push(97u8);
            } else {
                word.push(98u8);
            }
            i = i + 1;
        }
        assert(word@ == word_at(seed, t as nat));
        assert(rng == state_after(seed, (t + 1) as nat));
        let r0: bool = earley::parse_recognize(g0, &mut ws0, &word);
        let rll: bool = earley::parse_recognize(gll, &mut wsll, &word);
        let rlr: bool = earley::parse_recognize(glr, &mut wslr, &word);
        if !(r0 == rll && rll == rlr) {
            proof {
                if g0.eps_free() && gll.eps_free() && glr.eps_free() {
                    assert(!grammars_agree(*g0, *gll, *glr, word_at(seed, t as nat)));
                }
            }
            return EquivalenceOutcome::Mismatch { word, original: r0, ll1: rll, lr0: rlr };
        }
        passed = passed + 1usize;
        t = t + 1;
    }
    EquivalenceOutcome::AllPassed { passed }
}

/// Compares the original grammar with its LL(1) and LR(0) intersections on
/// `tests` random words, drawn from the generator started at `88172645463393265`:
/// the outcome is that of [`comparison_outcome`] for the three grammars that
/// `grammars` builds, each fixed by its table of rules ([`crate::grammar::built_from`]).
pub fn run_tests(tests: usize) -> (r: EquivalenceOutcome)
    ensures
        exists|g0: Grammar, gll: Grammar, glr: Grammar|
            {
                &&& crate::grammar::built_from(g0, grammars::original_rule_table(), "S"@)
                &&& crate::grammar::built_from(gll, grammars::ll1_rule_table(), "S'"@)
                &&& crate::grammar::built_from(glr, grammars::lr0_rule_table(), "S'"@)
                &&& #[trigger] comparison_outcome(g0, gll, glr, tests as nat, 88172645463393265u64, r)
            },
{
    let g0: Grammar = grammars::build_original_grammar();
    let gll: Grammar = grammars::build_ll1_intersection_grammar();
    let glr: Grammar = grammars::build_lr0_intersection_grammar();
    compare_grammars(&g0, &gll, &glr, tests, 88172645463393265u64)
}

} // verus!
