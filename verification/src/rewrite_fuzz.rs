//! Randomized experiments on the rule sets `T` and `T'`: whether words that
//! `T` rewrites into each other are linked by `T'`, and whether random
//! `T'`-chains keep the invariants `I`, `P`, `M`.
use crate::invariants::{
    check_ends, check_rules, inv_i_spec, inv_m_spec, inv_p_spec, keeps_i, keeps_m, keeps_p, RuleChecks,
};
use crate::search::{balls_exceed, bfs_path_tprime, no_short_path};
use crate::rewriting::{
    can_rewrite, build_tprime, generate_pair, is_chain, is_path, over_abcd, random_chain_tp, t_pair,
    t_rules, t_rules_spec, tprime_spec, words_view,
};
use vstd::prelude::*;

verus! {

/// How many words the reachability search may hold before it gives up.
pub const BFS_LIMIT: usize = 300000;

/// How many words the search that follows each invariant check may hold.
pub const CHECK_BFS_LIMIT: usize = 30000;

/// How many generated rules `T'` has in these experiments.
pub const TPRIME_RULES: usize = 12;

/// How a pair of words turned out to be linked by `T'`.
pub enum Reach {
    /// A path from the first word to the second.
    Forward(Vec<String>),
    /// A path from the second word to the first.
    Backward(Vec<String>),
    /// No path of two words or more was found in any attempt.
    Skipped,
}

/// One case of [`fuzz`]: the last pair of words tried, what was found, and
/// the pairs tried in it that yielded no path.
pub struct ReachCase {
    pub word: String,
    pub rewritten: String,
    pub reach: Reach,
    pub attempts: Vec<(String, String)>,
}

/// The outcome of [`fuzz`].
pub struct ReachReport {
    pub cases: Vec<ReachCase>,
    pub successful: usize,
    pub failed: usize,
}

/// `p` is a path of two words or more from `a` to `b` by `rules`.
pub open spec fn long_path(rules: Seq<(Seq<char>, Seq<char>)>, p: Seq<Seq<char>>, a: Seq<char>, b: Seq<char>) -> bool {
    &&& p.len() >= 2
    &&& p[0] == a
    &&& p.last() == b
    &&& is_path(rules, p)
}

/// A `T`-pair for which neither the search from the first word nor the one
/// from the second found a path: the second word is empty, or each search
/// ran past [`BFS_LIMIT`].
pub open spec fn missed_pair(w: Seq<char>, w2: Seq<char>) -> bool {
    &&& t_pair(t_rules_spec(), w, w2)
    &&& (w2.len() == 0 || balls_exceed(tprime_spec(12), w, w2, BFS_LIMIT as nat))
    &&& (w2.len() == 0 || balls_exceed(tprime_spec(12), w2, w, BFS_LIMIT as nat))
}

/// What a case of [`fuzz`] states: its words form a `T`-pair, and a path found
/// links them by `T'` in the direction it names; the search from the second
/// word is made only when the one from the first found no path; a case is
/// skipped only after 200 pairs that each yielded none; every pair recorded
/// as tried yielded none.
pub open spec fn reach_case_ok(c: ReachCase) -> bool {
    &&& t_pair(t_rules_spec(), c.word@, c.rewritten@)
    &&& forall|k: int| 0 <= k < c.attempts@.len() ==> missed_pair((#[trigger] c.attempts@[k]).0@, c.attempts@[k].1@)
    &&& match c.reach {
        Reach::Forward(p) => long_path(tprime_spec(12), words_view(p@), c.word@, c.rewritten@) && c.attempts@.len() < 200,
        Reach::Backward(p) => {
            &&& long_path(tprime_spec(12), words_view(p@), c.rewritten@, c.word@)
            &&& c.attempts@.len() < 200
            &&& no_short_path(tprime_spec(12), c.word@, c.rewritten@)
                || balls_exceed(tprime_spec(12), c.word@, c.rewritten@, BFS_LIMIT as nat)
        },
        Reach::Skipped => missed_pair(c.word@, c.rewritten@) && c.attempts@.len() == 200,
    }
}

/// How many of `cases` found a path.
pub open spec fn found_count(cases: Seq<ReachCase>) -> nat
    decreases cases.len(),
{
    if cases.len() == 0 {
        0
    } else {
        found_count(cases.drop_last()) + if cases.last().reach is Skipped { 0nat } else { 1nat }
    }
}

/// `tests` cases: in each, up to 200 attempts draw a pair of words linked by
/// `T` ([`generate_pair`]) and search for a `T'`-path from the first to the
/// second, then from the second to the first, until one of two words or more
/// is found. Counts the cases with a path and those without.
pub fn fuzz(rng: &mut rand::rngs::ThreadRng, tests: usize) -> (report: ReachReport)
    ensures
        report.cases@.len() == tests,
        forall|i: int| 0 <= i < tests ==> reach_case_ok(#[trigger] report.cases@[i]),
        report.successful == found_count(report.cases@),
        report.successful + report.failed == tests,
{
    let rules_t = t_rules();
    let rules_tp = build_tprime(TPRIME_RULES);
    let mut cases: Vec<ReachCase> = Vec::new();
    let mut success: usize = 0;
    let mut skipped: usize = 0;
    let mut i: usize = 0;
    while i < tests
        invariant
            0 <= i <= tests,
            cases@.len() == i,
            crate::rewriting::rules_view(rules_t@) == t_rules_spec(),
            crate::rewriting::rules_view(rules_tp@) == tprime_spec(12),
            forall|q: int| 0 <= q < i ==> reach_case_ok(#[trigger] cases@[q]),
            success == found_count(cases@),
            success + skipped == i,
        decreases tests - i,
    {
        let mut tries: usize = 0;
        let mut w = String::new();
        let mut w2 = String::new();
        let mut reach = Reach::Skipped;
        let mut attempts: Vec<(String, String)> = Vec::new();
        loop
            invariant_except_break
                reach is Skipped,
                tries > 0 ==> missed_pair(w@, w2@),
            invariant
                0 <= tries <= 200,
                attempts@.len() == tries,
                forall|k: int| 0 <= k < attempts@.len() ==> missed_pair((#[trigger] attempts@[k]).0@, attempts@[k].1@),
                crate::rewriting::rules_view(rules_t@) == t_rules_spec(),
                crate::rewriting::rules_view(rules_tp@) == tprime_spec(12),
                tries > 0 ==> t_pair(t_rules_spec(), w@, w2@),
            ensures
                reach_case_ok(ReachCase { word: w, rewritten: w2, reach, attempts }),
            decreases 200 - tries,
        {
            if tries >= 200 {
                break;
            }
            let pair = generate_pair(rng, &rules_t);
            w = pair.0;
            w2 = pair.1;
            let fwd = bfs_path_tprime(w.as_str(), w2.as_str(), &rules_tp, BFS_LIMIT);
            proof {
                crate::rewriting::lemma_tprime_nonempty_sides(12);
                if w2@.len() > 0 {
                    crate::search::lemma_t_pair_linked(12, w@, w2@);
                }
            }
            if let Some(p) = fwd {
                if p.len() >= 2 {
                    reach = Reach::Forward(p);
                    break;
                }
            }
            let ghost fwd_missed = w@ == w2@ || no_short_path(tprime_spec(12), w@, w2@)
                || balls_exceed(tprime_spec(12), w@, w2@, BFS_LIMIT as nat);
            assert(fwd_missed);
            let bwd = bfs_path_tprime(w2.as_str(), w.as_str(), &rules_tp, BFS_LIMIT);
            if let Some(p) = bwd {
                if p.len() >= 2 {
                    reach = Reach::Backward(p);
                    break;
                }
            }
            let ghost before_attempts = attempts@;
            attempts.push((w.clone(), w2.clone()));
            proof {
                assert(attempts@.last() == (w, w2));
                assert forall|k: int| 0 <= k < attempts@.len() implies missed_pair((#[trigger] attempts@[k]).0@, attempts@[k].1@) by {
                    if k < before_attempts.len() {
                        assert(attempts@[k] == before_attempts[k]);
                    }
                }
            }
            tries = tries + 1;
        }
        let found = !(matches!(reach, Reach::Skipped));
        let ghost before = cases@;
        cases.push(ReachCase { word: w, rewritten: w2, reach, attempts });
        proof {
            assert(cases@.drop_last() =~= before);
        }
        if found {
            success = success + 1;
        } else {
            skipped = skipped + 1;
        }
        i = i + 1;
    }
    ReachReport { cases, successful: success, failed: skipped }
}

} // verus!

verus! {

/// A chain drawn by [`fuzz_tp`] and whether its last word kept each of the
/// invariants `I`, `P`, `M` of its first.
pub struct ChainCase {
    pub chain: Vec<String>,
    pub kept: (bool, bool, bool),
}

/// The outcome of [`fuzz_tp`]; `tried[i]` holds the starting words of case
/// `i` from which no chain of two words or more came.
pub struct InvariantReport {
    pub rules_t: RuleChecks,
    pub rules_tp: RuleChecks,
    pub cases: Vec<Option<ChainCase>>,
    pub tried: Vec<Vec<String>>,
    pub successful: usize,
    pub failed: usize,
}

/// What a case of [`fuzz_tp`] with a chain states: the chain has two words or
/// more, starts with a word of 10 to 20 letters over `{a, b, c, d}`, rewrites
/// forward by `T'` at each step, and `kept` compares its ends' invariants.
pub open spec fn chain_case_ok(c: ChainCase) -> bool {
    let ws = words_view(c.chain@);
    &&& ws.len() >= 2
    &&& 10 <= ws[0].len() <= 20
    &&& over_abcd(ws[0])
    &&& is_chain(tprime_spec(12), ws)
    &&& c.kept == (
        inv_i_spec(ws[0]) == inv_i_spec(ws.last()),
        inv_p_spec(ws[0]) == inv_p_spec(ws.last()),
        inv_m_spec(ws[0]) == inv_m_spec(ws.last()),
    )
}

/// A word of 10 to 20 letters over `{a, b, c, d}` to which no rule of `T'`
/// applies forward.
pub open spec fn unrewritable_start(w: Seq<char>) -> bool {
    &&& 10 <= w.len() <= 20
    &&& over_abcd(w)
    &&& !can_rewrite(tprime_spec(12), w)
}

/// The starting words `ws` of a case that gave no chain: each has 10 to 20
/// letters over `{a, b, c, d}`, and when every chain must take a step, no
/// rule of `T'` applies to it.
pub open spec fn stuck_starts(ws: Seq<Seq<char>>, steps_min: nat) -> bool {
    forall|j: int| 0 <= j < ws.len() ==> {
        &&& 10 <= (#[trigger] ws[j]).len() <= 20
        &&& over_abcd(ws[j])
        &&& steps_min > 0 ==> unrewritable_start(ws[j])
    }
}

/// The chain kept all three invariants.
pub open spec fn all_kept(c: ChainCase) -> bool {
    c.kept.0 && c.kept.1 && c.kept.2
}

/// How many of `cases` have a chain that kept all three invariants.
pub open spec fn kept_count(cases: Seq<Option<ChainCase>>) -> nat
    decreases cases.len(),
{
    if cases.len() == 0 {
        0
    } else {
        kept_count(cases.drop_last()) + match cases.last() {
            Some(c) => if all_kept(c) { 1nat } else { 0nat },
            None => 0nat,
        }
    }
}

/// How many of `cases` have a chain that broke an invariant.
pub open spec fn broken_count(cases: Seq<Option<ChainCase>>) -> nat
    decreases cases.len(),
{
    if cases.len() == 0 {
        0
    } else {
        broken_count(cases.drop_last()) + match cases.last() {
            Some(c) => if all_kept(c) { 0nat } else { 1nat },
            None => 0nat,
        }
    }
}

/// Checks which invariants the rules of `T` and of `T'` keep, then runs
/// `tests` cases: in each, up to 200 attempts draw a `T`-pair
/// ([`generate_pair`]) and a random `T'`-chain of `steps_min..=steps_max`
/// steps from its first word, until a chain of two words or more comes; its
/// ends are compared on `I`, `P`, `M`, and a `T'`-path between the pair is
/// searched for. Counts the chains that kept all three invariants and those
/// that did not. `T` and `T'` keep all three, so no chain breaks one.
pub fn fuzz_tp(rng: &mut rand::rngs::ThreadRng, tests: usize, steps_min: usize, steps_max: usize) -> (report: InvariantReport)
    requires
        steps_min <= steps_max,
    ensures
        report.rules_t.i == keeps_i(t_rules_spec()),
        report.rules_t.p == keeps_p(t_rules_spec()),
        report.rules_t.m == keeps_m(t_rules_spec()),
        report.rules_tp.i == keeps_i(tprime_spec(12)),
        report.rules_tp.p == keeps_p(tprime_spec(12)),
        report.rules_tp.m == keeps_m(tprime_spec(12)),
        report.cases@.len() == tests,
        forall|i: int| 0 <= i < tests ==> (#[trigger] report.cases@[i] matches Some(c) ==> chain_case_ok(c)),
        report.successful == kept_count(report.cases@),
        report.failed == broken_count(report.cases@),
        report.rules_t.i && report.rules_t.p && report.rules_t.m,
        report.rules_tp.i && report.rules_tp.p && report.rules_tp.m,
        report.failed == 0,
        report.tried@.len() == tests,
        forall|i: int| 0 <= i < tests ==> stuck_starts(words_view(#[trigger] report.tried@[i]@), steps_min as nat),
        forall|i: int| 0 <= i < tests ==> (#[trigger] report.cases@[i] is None <==> report.tried@[i]@.len() == 200),
{
    let rules_tp = build_tprime(TPRIME_RULES);
    let rules_t0 = t_rules();
    proof {
        crate::invariants::lemma_t_rules_fit();
        crate::invariants::lemma_tprime_fit(12);
        crate::rewriting::lemma_tprime_shortening(12);
        crate::invariants::lemma_t_keeps_invariants();
        crate::invariants::lemma_tprime_keeps_invariants(12);
    }
    let r_t = check_rules(&rules_t0);
    let r_tp = check_rules(&rules_tp);
    let all_tp = r_tp.i && r_tp.p && r_tp.m;
    let mut cases: Vec<Option<ChainCase>> = Vec::new();
    let mut tried: Vec<Vec<String>> = Vec::new();
    let mut success: usize = 0;
    let mut fail: usize = 0;
    let mut i: usize = 0;
    while i < tests
        invariant
            0 <= i <= tests,
            steps_min <= steps_max,
            cases@.len() == i,
            tried@.len() == i,
            forall|q: int| 0 <= q < i ==> stuck_starts(words_view(#[trigger] tried@[q]@), steps_min as nat),
            forall|q: int| 0 <= q < i ==> (#[trigger] cases@[q] is None <==> tried@[q]@.len() == 200),
            crate::rewriting::rules_view(rules_tp@) == tprime_spec(12),
            crate::rewriting::shortening(tprime_spec(12)),
            all_tp == (keeps_i(tprime_spec(12)) && keeps_p(tprime_spec(12)) && keeps_m(tprime_spec(12))),
            forall|q: int| 0 <= q < i ==> (#[trigger] cases@[q] matches Some(c) ==> chain_case_ok(c)),
            success == kept_count(cases@),
            fail == broken_count(cases@),
            success + fail <= i,
            all_tp ==> fail == 0,
        decreases tests - i,
    {
        let mut tries: usize = 0;
        let mut chain: Option<Vec<String>> = None;
        let mut w0 = String::new();
        let mut w2 = String::new();
        let mut stuck: Vec<String> = Vec::new();
        while tries < 200
            invariant_except_break
                chain is None,
            invariant
                stuck@.len() == tries,
                stuck_starts(words_view(stuck@), steps_min as nat),
                0 <= tries <= 200,
                steps_min <= steps_max,
                crate::rewriting::rules_view(rules_tp@) == tprime_spec(12),
            ensures
                chain matches Some(c) ==> {
                    let ws = words_view(c@);
                    &&& ws.len() >= 2
                    &&& 10 <= ws[0].len() <= 20
                    &&& over_abcd(ws[0])
                    &&& is_chain(tprime_spec(12), ws)
                },
                chain is None <==> stuck@.len() == 200,
            decreases 200 - tries,
        {
            let rules_t = t_rules();
            let pair = generate_pair(rng, &rules_t);
            w0 = pair.0;
            w2 = pair.1;
            let c = random_chain_tp(w0.as_str(), rng, &rules_tp, steps_min, steps_max);
            if c.len() >= 2 {
                chain = Some(c);
                break;
            }
            let ghost before_stuck = words_view(stuck@);
            stuck.push(w0.clone());
            proof {
                assert(words_view(c@)[0] == c@.last()@);
                assert(words_view(stuck@) =~= before_stuck.push(w0@));
            }
            tries = tries + 1;
        }
        let ghost before = cases@;
        let ghost before_tried = tried@;
        let ghost chain_none = chain is None;
        tried.push(stuck);
        proof {
            assert(tried@.drop_last() =~= before_tried);
            assert forall|q: int| 0 <= q < i + 1 implies stuck_starts(words_view(#[trigger] tried@[q]@), steps_min as nat) by {
                if q < i {
                    assert(tried@[q] == before_tried[q]);
                }
            }
        }
        match chain {
            None => {
                cases.push(None);
                proof {
                    assert(cases@.drop_last() =~= before);
                    assert forall|q: int| 0 <= q < i + 1 implies (#[trigger] cases@[q] is None <==> tried@[q]@.len() == 200) by {
                        if q < i {
                            assert(cases@[q] == before[q]);
                            assert(tried@[q] == before_tried[q]);
                        }
                    }
                }
            },
            Some(ch) => {
                let ghost ws = words_view(ch@);
                proof {
                    crate::invariants::lemma_abcd_byte_len(ws[0]);
                    crate::rewriting::lemma_chain_shortening(tprime_spec(12), ws);
                    crate::invariants::lemma_abcd_byte_len(ws.last());
                    crate::invariants::lemma_chain_keeps_invariants(tprime_spec(12), ws);
                }
                let kept = check_ends(ch.as_slice());
                let ok = kept.0 && kept.1 && kept.2;
                cases.push(Some(ChainCase { chain: ch, kept }));
                proof {
                    assert(cases@.drop_last() =~= before);
                    assert forall|q: int| 0 <= q < i + 1 implies (#[trigger] cases@[q] is None <==> tried@[q]@.len() == 200) by {
                        if q < i {
                            assert(cases@[q] == before[q]);
                            assert(tried@[q] == before_tried[q]);
                        }
                    }
                }
                if ok {
                    success = success + 1;
                } else {
                    fail = fail + 1;
                }
                let _path = bfs_path_tprime(w0.as_str(), w2.as_str(), &rules_tp, CHECK_BFS_LIMIT);
            },
        }
        i = i + 1;
    }
    InvariantReport { rules_t: r_t, rules_tp: r_tp, cases, tried, successful: success, failed: fail }
}

} // verus!
