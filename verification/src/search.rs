//! The search for a path of rewrites between two words: a breadth-first
//! search from both ends at once, with the recorded predecessors giving the
//! path back. A path found is always a path; when the search finds none and
//! no rule has an empty side, no short path exists, or the words near the two
//! ends are too many for its limit.
use crate::rewriting::{
    chain_between, is_path, lemma_one_step_symmetric, lemma_t_chain_is_tprime_path, linked, neighbors_tprime,
    nonempty_sides, one_step, reaches_in, rules_view, t_pair, t_rules_spec, tprime_spec, words_view, Rules,
};
use vstd::prelude::*;

verus! {

/// How many levels each side of [`bfs_path_tprime`] explores at most.
pub const BFS_DEPTH: usize = 40;

/// The search tree of one side, ranked by `rank`: `root` is in `p` with no
/// predecessor; every other word in `p` names the word it was reached from,
/// which is in `p`, ranked lower, and rewrites to it in one step.
pub open spec fn ranked_tree(
    rules: Seq<(Seq<char>, Seq<char>)>,
    p: Map<Seq<char>, Option<String>>,
    root: Seq<char>,
    rank: Map<Seq<char>, nat>,
) -> bool {
    &&& p.contains_key(root)
    &&& p[root] is None
    &&& forall|y: Seq<char>| #[trigger] p.contains_key(y) ==> rank.contains_key(y) && match p[y] {
        None => y == root,
        Some(x) => p.contains_key(x@) && one_step(rules, x@, y) && rank[x@] < rank[y],
    }
}

/// No word of `p` is ranked above `d`.
pub open spec fn rank_bounded(p: Map<Seq<char>, Option<String>>, rank: Map<Seq<char>, nat>, d: nat) -> bool {
    forall|y: Seq<char>| #[trigger] p.contains_key(y) ==> rank[y] <= d
}

/// `p` is a search tree rooted at `root` under some ranking of at most `d`
/// levels.
pub open spec fn search_tree(rules: Seq<(Seq<char>, Seq<char>)>, p: Map<Seq<char>, Option<String>>, root: Seq<char>, d: nat) -> bool {
    exists|rank: Map<Seq<char>, nat>| #[trigger] ranked_tree(rules, p, root, rank) && rank_bounded(p, rank, d)
}

/// What one level of the search came to.
enum Expansion {
    Continue,
    Met(String),
    Overflow,
}

/// The predecessor recorded for `c`, copied.
fn parent_of(p: &vstd::hash_map::StringHashMap<Option<String>>, c: &str) -> (res: Option<String>)
    requires
        p@.contains_key(c@),
    ensures
        res == p@[c@],
{
    match p.get(c) {
        Some(v) => match v {
            Some(x) => Some(x.clone()),
            None => None,
        },
        None => None,
    }
}

/// Some word among the first `upto` of `xs` rewrites to `w` in one step.
pub open spec fn reached_from(rules: Seq<(Seq<char>, Seq<char>)>, xs: Seq<Seq<char>>, upto: int, w: Seq<char>) -> bool {
    exists|j: int| 0 <= j < upto && #[trigger] one_step(rules, xs[j], w)
}

/// Expands every word now in `queue` by one rewrite; new words enter `own`
/// with their predecessor and the queue. Stops where a new word is in `other`
/// too, or where both maps together hold more than `limit` words. When `own`
/// holds the words within `k` of `root` and the queue the words exactly `k`
/// away (and maybe more of the ball), a full level leaves the ball of radius
/// `k + 1` in `own` and its new words in the queue.
#[verifier::rlimit(30)]
fn expand_level(
    queue: &mut std::collections::VecDeque<String>,
    own: &mut vstd::hash_map::StringHashMap<Option<String>>,
    other: &vstd::hash_map::StringHashMap<Option<String>>,
    rules_tp: &Rules,
    limit: usize,
    Ghost(root): Ghost<Seq<char>>,
    Ghost(k): Ghost<nat>,
) -> (out: Expansion)
    requires
        search_tree(rules_view(rules_tp@), old(own)@, root, k),
        forall|i: int| 0 <= i < old(queue)@.len() ==> old(own)@.contains_key(#[trigger] old(queue)@[i]@),
        forall|w: Seq<char>| #[trigger] old(own)@.contains_key(w) <==> within(rules_view(rules_tp@), root, w, k),
        forall|w: Seq<char>| frontier(rules_view(rules_tp@), root, w, k) ==> #[trigger] words_view(old(queue)@).contains(w),
        forall|w: Seq<char>| !(#[trigger] old(own)@.contains_key(w) && other@.contains_key(w)),
    ensures
        search_tree(rules_view(rules_tp@), final(own)@, root, k + 1),
        forall|i: int| 0 <= i < final(queue)@.len() ==> final(own)@.contains_key(#[trigger] final(queue)@[i]@),
        out matches Expansion::Met(y) ==> final(own)@.contains_key(y@) && other@.contains_key(y@)
            && forall|w: Seq<char>| #[trigger] final(own)@.contains_key(w) && other@.contains_key(w) ==> w == y@,
        forall|w: Seq<char>| #[trigger] final(own)@.contains_key(w) ==> within(rules_view(rules_tp@), root, w, k + 1),
        out is Overflow ==> final(own)@.len() + other@.len() > limit,
        out is Continue ==> {
            &&& forall|w: Seq<char>| #[trigger] final(own)@.contains_key(w) <==> within(rules_view(rules_tp@), root, w, k + 1)
            &&& forall|w: Seq<char>| frontier(rules_view(rules_tp@), root, w, k + 1) ==> #[trigger] words_view(final(queue)@).contains(w)
            &&& forall|w: Seq<char>| !(#[trigger] final(own)@.contains_key(w) && other@.contains_key(w))
        },
{
    let ghost rv = rules_view(rules_tp@);
    let ghost own0 = own@;
    let ghost oq = words_view(queue@);
    let ghost mut added: Seq<Seq<char>> = Seq::empty();
    let ghost mut rank = choose|rank: Map<Seq<char>, nat>| #[trigger] ranked_tree(rv, own@, root, rank) && rank_bounded(own@, rank, k);
    let n = queue.len();
    let mut i: usize = 0;
    proof {
        assert(words_view(queue@) =~= oq.subrange(0, n as int) + added);
        assert forall|w: Seq<char>| #[trigger] own@.contains_key(w) implies within(rv, root, w, k + 1) by {
            lemma_within_mono(rv, root, w, k, k + 1);
        }
    }
    while i < n
        invariant
            0 <= i <= n,
            n == oq.len(),
            rv == rules_view(rules_tp@),
            ranked_tree(rv, own@, root, rank),
            rank_bounded(own@, rank, k + 1),
            forall|z: Seq<char>| #[trigger] own0.contains_key(z) ==> rank[z] <= k,
            forall|q: int| 0 <= q < queue@.len() ==> own@.contains_key(#[trigger] queue@[q]@),
            forall|w: Seq<char>| #[trigger] own0.contains_key(w) <==> within(rv, root, w, k),
            forall|w: Seq<char>| frontier(rv, root, w, k) ==> #[trigger] oq.contains(w),
            forall|q: int| 0 <= q < n ==> own0.contains_key(#[trigger] oq[q]),
            words_view(queue@) == oq.subrange(i as int, n as int) + added,
            forall|w: Seq<char>| #[trigger] own@.contains_key(w) <==> (own0.contains_key(w) || reached_from(rv, oq, i as int, w)),
            forall|w: Seq<char>| #[trigger] added.contains(w) <==> (own@.contains_key(w) && !own0.contains_key(w)),
            forall|w: Seq<char>| !(#[trigger] own@.contains_key(w) && other@.contains_key(w)),
            forall|w: Seq<char>| #[trigger] own@.contains_key(w) ==> within(rv, root, w, k + 1),
        decreases n - i,
    {
        let ghost before_pop = queue@;
        match queue.pop_front() {
            Some(x) => {
                proof {
                    assert(words_view(before_pop)[0] == x@);
                    assert(oq[i as int] == x@);
                    assert(words_view(queue@) =~= words_view(before_pop).subrange(1, before_pop.len() as int));
                    let front = oq.subrange(i as int, n as int);
                    assert(words_view(before_pop) == front + added);
                    assert(words_view(before_pop).len() == before_pop.len());
                    assert(before_pop.len() == front.len() + added.len());
                    assert((front + added).subrange(1, (front.len() + added.len()) as int) =~= front.subrange(1, front.len() as int) + added);
                    assert(front.subrange(1, front.len() as int) =~= oq.subrange(i + 1, n as int));
                    assert(words_view(queue@) =~= oq.subrange(i + 1, n as int) + added);
                    assert(own0.contains_key(oq[i as int]));
                }
                assert(own@.contains_key(x@));
                let nb = neighbors_tprime(x.as_str(), rules_tp);
                let mut j: usize = 0;
                while j < nb.len()
                    invariant
                        0 <= j <= nb@.len(),
                        0 <= i < n,
                        n == oq.len(),
                        rv == rules_view(rules_tp@),
                        x@ == oq[i as int],
                        own@.contains_key(x@),
                        own0.contains_key(x@),
                        within(rv, root, x@, k),
                        ranked_tree(rv, own@, root, rank),
                        rank_bounded(own@, rank, k + 1),
                        forall|z: Seq<char>| #[trigger] own0.contains_key(z) ==> rank[z] <= k,
                        forall|q: int| 0 <= q < queue@.len() ==> own@.contains_key(#[trigger] queue@[q]@),
                        forall|t: Seq<char>| #[trigger] words_view(nb@).contains(t) ==> one_step(rv, x@, t),
                        words_view(queue@) == oq.subrange(i + 1, n as int) + added,
                        forall|w: Seq<char>| #[trigger] own@.contains_key(w) <==> (own0.contains_key(w) || reached_from(rv, oq, i as int, w)
                            || exists|m: int| 0 <= m < j && #[trigger] words_view(nb@)[m] == w),
                        forall|w: Seq<char>| #[trigger] added.contains(w) <==> (own@.contains_key(w) && !own0.contains_key(w)),
                        forall|w: Seq<char>| !(#[trigger] own@.contains_key(w) && other@.contains_key(w)),
                        forall|w: Seq<char>| #[trigger] own@.contains_key(w) ==> within(rv, root, w, k + 1),
                    decreases nb@.len() - j,
                {
                    let y: &String = &nb[j];
                    assert(words_view(nb@)[j as int] == y@);
                    if own.contains_key(y.as_str()) {
                        proof {
                            assert forall|w: Seq<char>| #[trigger] own@.contains_key(w) <==> (own0.contains_key(w) || reached_from(rv, oq, i as int, w)
                                || exists|m: int| 0 <= m < j + 1 && #[trigger] words_view(nb@)[m] == w) by {
                                if exists|m: int| 0 <= m < j + 1 && #[trigger] words_view(nb@)[m] == w {
                                    let m = choose|m: int| 0 <= m < j + 1 && #[trigger] words_view(nb@)[m] == w;
                                    if m < j {
                                        assert(exists|m: int| 0 <= m < j && #[trigger] words_view(nb@)[m] == w);
                                    }
                                }
                            }
                        }
                        j = j + 1;
                        continue;
                    }
                    assert(words_view(nb@).contains(y@));
                    assert(one_step(rv, x@, y@));
                    let ghost old_own = own@;
                    let ghost old_added = added;
                    own.insert(y.clone(), Some(x.clone()));
                    proof {
                        let r2 = rank.insert(y@, rank[x@] + 1);
                        assert forall|z: Seq<char>| #[trigger] own@.contains_key(z) implies r2.contains_key(z) && match own@[z] {
                            None => z == root,
                            Some(w) => own@.contains_key(w@) && one_step(rv, w@, z) && r2[w@] < r2[z],
                        } by {
                            if z != y@ {
                                assert(old_own.contains_key(z));
                                match own@[z] {
                                    None => {},
                                    Some(w) => {
                                        assert(old_own.contains_key(w@));
                                    },
                                }
                            }
                        }
                        assert forall|z: Seq<char>| #[trigger] own@.contains_key(z) implies r2[z] <= k + 1 by {
                            if z != y@ {
                                assert(old_own.contains_key(z));
                            }
                        }
                        assert forall|z: Seq<char>| #[trigger] own0.contains_key(z) implies r2[z] <= k by {
                            assert(old_own.contains_key(z));
                        }
                        rank = r2;
                        lemma_within_extend(rv, root, x@, y@, k);
                        added = added.push(y@);
                        assert forall|w: Seq<char>| #[trigger] added.contains(w) <==> (own@.contains_key(w) && !own0.contains_key(w)) by {
                            if w == y@ {
                                assert(added[added.len() - 1] == w);
                                assert(!old_own.contains_key(w));
                            } else {
                                if old_added.contains(w) {
                                    let m = choose|m: int| 0 <= m < old_added.len() && old_added[m] == w;
                                    assert(added[m] == w);
                                }
                                if added.contains(w) {
                                    let m = choose|m: int| 0 <= m < added.len() && added[m] == w;
                                    assert(m < old_added.len());
                                    assert(old_added[m] == w);
                                }
                            }
                        }
                        assert forall|w: Seq<char>| #[trigger] own@.contains_key(w) <==> (own0.contains_key(w) || reached_from(rv, oq, i as int, w)
                            || exists|m: int| 0 <= m < j + 1 && #[trigger] words_view(nb@)[m] == w) by {
                            if w == y@ {
                                assert(words_view(nb@)[j as int] == w);
                            } else if exists|m: int| 0 <= m < j + 1 && #[trigger] words_view(nb@)[m] == w {
                                let m = choose|m: int| 0 <= m < j + 1 && #[trigger] words_view(nb@)[m] == w;
                                assert(m < j);
                                assert(exists|m: int| 0 <= m < j && #[trigger] words_view(nb@)[m] == w);
                            }
                        }
                    }
                    if other.contains_key(y.as_str()) {
                        proof {
                            assert(ranked_tree(rv, own@, root, rank) && rank_bounded(own@, rank, k + 1));
                            assert forall|w: Seq<char>| #[trigger] own@.contains_key(w) && other@.contains_key(w) implies w == y@ by {
                                if w != y@ {
                                    assert(old_own.contains_key(w));
                                }
                            }
                        }
                        return Expansion::Met(y.clone());
                    }
                    let ghost before_push = queue@;
                    queue.push_back(y.clone());
                    proof {
                        assert forall|q: int| 0 <= q < queue@.len() implies own@.contains_key(#[trigger] queue@[q]@) by {
                            if q < queue@.len() - 1 {
                                assert(old_own.contains_key(queue@[q]@));
                            }
                        }
                        assert(words_view(queue@) =~= words_view(before_push).push(y@));
                        assert(words_view(queue@) =~= oq.subrange(i + 1, n as int) + added);
                    }
                    if own.len() > limit || other.len() > limit - own.len() {
                        proof {
                            assert(ranked_tree(rv, own@, root, rank) && rank_bounded(own@, rank, k + 1));
                        }
                        return Expansion::Overflow;
                    }
                    j = j + 1;
                }
                proof {
                    assert forall|w: Seq<char>| #[trigger] own@.contains_key(w) <==> (own0.contains_key(w) || reached_from(rv, oq, i + 1, w)) by {
                        if reached_from(rv, oq, i + 1, w) {
                            let q = choose|q: int| 0 <= q < i + 1 && #[trigger] one_step(rv, oq[q], w);
                            if q == i {
                                assert(words_view(nb@).contains(w));
                                let m = choose|m: int| 0 <= m < words_view(nb@).len() && words_view(nb@)[m] == w;
                                assert(exists|m: int| 0 <= m < j && #[trigger] words_view(nb@)[m] == w);
                            } else {
                                assert(reached_from(rv, oq, i as int, w));
                            }
                        }
                        if exists|m: int| 0 <= m < j && #[trigger] words_view(nb@)[m] == w {
                            let m = choose|m: int| 0 <= m < j && #[trigger] words_view(nb@)[m] == w;
                            assert(words_view(nb@).contains(w));
                            assert(one_step(rv, oq[i as int], w));
                        }
                        if reached_from(rv, oq, i as int, w) {
                            let q = choose|q: int| 0 <= q < i && #[trigger] one_step(rv, oq[q], w);
                            assert(0 <= q < i + 1 && one_step(rv, oq[q], w));
                        }
                    }
                }
            },
            None => {
                assert(false);
            },
        }
        i = i + 1;
    }
    proof {
        assert(words_view(queue@) =~= added);
        assert(ranked_tree(rv, own@, root, rank) && rank_bounded(own@, rank, k + 1));
        assert forall|w: Seq<char>| #[trigger] own@.contains_key(w) <==> within(rv, root, w, k + 1) by {
            if within(rv, root, w, k + 1) && !within(rv, root, w, k) {
                let x = lemma_within_last_step(rv, root, w, k);
                assert(oq.contains(x));
                let q = choose|q: int| 0 <= q < oq.len() && oq[q] == x;
                assert(one_step(rv, oq[q], w));
                assert(reached_from(rv, oq, n as int, w));
            }
        }
        assert forall|w: Seq<char>| frontier(rv, root, w, k + 1) implies #[trigger] words_view(queue@).contains(w) by {
            assert(own@.contains_key(w));
            assert(!own0.contains_key(w));
            assert(added.contains(w));
        }
    }
    Expansion::Continue
}

/// `path` climbs from a root of `p_left` to its word `k` along the
/// predecessors that `p_left` records, then from there to a root of `p_right`
/// along those that `p_right` records.
spec fn follows_trees(
    p_left: Map<Seq<char>, Option<String>>,
    p_right: Map<Seq<char>, Option<String>>,
    path: Seq<String>,
    k: int,
) -> bool {
    &&& 0 <= k < path.len()
    &&& p_left[path[0]@] == None::<String>
    &&& forall|j: int| 0 < j <= k ==> p_left[(#[trigger] path[j])@] == Some(path[j - 1])
    &&& forall|j: int| k <= j < path.len() - 1 ==> p_right[(#[trigger] path[j])@] == Some(path[j + 1])
    &&& p_right[path.last()@] == None::<String>
}

/// The path from the root of `p_left` to `meet` and on to the root of
/// `p_right`, following the recorded predecessors. Its words are distinct, and
/// it has at most `d1 + d2 + 1` of them when the trees have `d1` and `d2`
/// levels and share only `meet`.
#[verifier::rlimit(40)]
fn build_path(
    p_left: &vstd::hash_map::StringHashMap<Option<String>>,
    p_right: &vstd::hash_map::StringHashMap<Option<String>>,
    meet: &str,
    Ghost(rv): Ghost<Seq<(Seq<char>, Seq<char>)>>,
    Ghost(src): Ghost<Seq<char>>,
    Ghost(dst): Ghost<Seq<char>>,
    Ghost(d1): Ghost<nat>,
    Ghost(d2): Ghost<nat>,
) -> (path: Vec<String>)
    requires
        search_tree(rv, p_left@, src, d1),
        search_tree(rv, p_right@, dst, d2),
        p_left@.contains_key(meet@),
        p_right@.contains_key(meet@),
        forall|w: Seq<char>| #[trigger] p_left@.contains_key(w) && p_right@.contains_key(w) ==> w == meet@,
    ensures
        words_view(path@).len() >= 1,
        words_view(path@)[0] == src,
        words_view(path@).last() == dst,
        is_path(rv, words_view(path@)),
        words_view(path@).len() <= d1 + d2 + 1,
        words_view(path@).no_duplicates(),
        exists|k: int| path@[k]@ == meet@ && follows_trees(p_left@, p_right@, path@, k),
{
    let ghost rank1 = choose|rank: Map<Seq<char>, nat>| #[trigger] ranked_tree(rv, p_left@, src, rank) && rank_bounded(p_left@, rank, d1);
    let ghost rank2 = choose|rank: Map<Seq<char>, nat>| #[trigger] ranked_tree(rv, p_right@, dst, rank) && rank_bounded(p_right@, rank, d2);
    let ghost top1 = rank1[meet@];
    let ghost top2 = rank2[meet@];
    let mut rev: Vec<String> = Vec::new();
    let mut c: String = meet.to_owned();
    loop
        invariant_except_break
            rev@.len() > 0 ==> one_step(rv, c@, rev@.last()@),
            rev@.len() > 0 ==> p_left@[rev@.last()@] == Some(c),
            forall|i: int| 0 <= i < rev@.len() ==> rank1[c@] < rank1[#[trigger] rev@[i]@],
            rank1[c@] + rev@.len() <= top1,
        invariant
            ranked_tree(rv, p_left@, src, rank1),
            rank_bounded(p_left@, rank1, d1),
            top1 == rank1[meet@],
            p_left@.contains_key(c@),
            rev@.len() == 0 ==> c@ == meet@,
            rev@.len() > 0 ==> rev@[0]@ == meet@,
            forall|i: int| 0 <= i < rev@.len() - 1 ==> #[trigger] one_step(rv, rev@[i + 1]@, rev@[i]@),
            forall|i: int| 0 <= i < rev@.len() ==> #[trigger] p_left@.contains_key(rev@[i]@),
            forall|i: int, j: int| 0 <= i < j < rev@.len() ==> rank1[#[trigger] rev@[j]@] < rank1[#[trigger] rev@[i]@],
            forall|i: int| 0 <= i < rev@.len() - 1 ==> p_left@[(#[trigger] rev@[i])@] == Some(rev@[i + 1]),
        ensures
            forall|i: int| 0 <= i < rev@.len() - 1 ==> p_left@[(#[trigger] rev@[i])@] == Some(rev@[i + 1]),
            p_left@[rev@.last()@] == None::<String>,
            rev@.len() >= 1,
            rev@[0]@ == meet@,
            rev@.last()@ == src,
            rev@.len() <= top1 + 1,
            forall|i: int| 0 <= i < rev@.len() - 1 ==> #[trigger] one_step(rv, rev@[i + 1]@, rev@[i]@),
            forall|i: int| 0 <= i < rev@.len() ==> #[trigger] p_left@.contains_key(rev@[i]@),
            forall|i: int, j: int| 0 <= i < j < rev@.len() ==> rank1[#[trigger] rev@[j]@] < rank1[#[trigger] rev@[i]@],
        decreases rank1[c@],
    {
        let next = parent_of(p_left, c.as_str());
        let ghost before = rev@;
        let ghost cv = c@;
        let ghost cs = c;
        rev.push(c);
        proof {
            assert forall|i: int| 0 <= i < rev@.len() - 1 implies p_left@[(#[trigger] rev@[i])@] == Some(rev@[i + 1]) by {
                if i < before.len() - 1 {
                    assert(rev@[i] == before[i]);
                    assert(rev@[i + 1] == before[i + 1]);
                } else {
                    assert(rev@[i] == before.last());
                    assert(rev@[i + 1] == cs);
                }
            }
            assert forall|i: int| 0 <= i < rev@.len() - 1 implies #[trigger] one_step(rv, rev@[i + 1]@, rev@[i]@) by {
                if i < before.len() - 1 {
                    assert(one_step(rv, before[i + 1]@, before[i]@));
                }
            }
            assert forall|i: int| 0 <= i < rev@.len() implies #[trigger] p_left@.contains_key(rev@[i]@) by {
                if i < before.len() {
                    assert(rev@[i] == before[i]);
                }
            }
            assert forall|i: int, j: int| 0 <= i < j < rev@.len() implies rank1[#[trigger] rev@[j]@] < rank1[#[trigger] rev@[i]@] by {
                assert(rev@[i] == before[i]);
                if j < before.len() {
                    assert(rev@[j] == before[j]);
                }
            }
        }
        match next {
            Some(x) => {
                assert(p_left@.contains_key(x@));
                assert(rank1[x@] < rank1[cv]);
                proof {
                    assert forall|i: int| 0 <= i < rev@.len() implies rank1[x@] < rank1[#[trigger] rev@[i]@] by {
                        if i < before.len() {
                            assert(rev@[i] == before[i]);
                        }
                    }
                }
                c = x;
            },
            None => {
                break;
            },
        }
    }
    let n = rev.len();
    let mut path: Vec<String> = Vec::new();
    let mut i: usize = n;
    while i > 0
        invariant
            0 <= i <= n,
            n == rev@.len(),
            n >= 1,
            path@.len() == n - i,
            forall|j: int| 0 <= j < path@.len() ==> #[trigger] path@[j] == rev@[n - 1 - j],
        decreases i,
    {
        i = i - 1;
        path.push(rev[i].clone());
    }
    proof {
        assert(words_view(path@)[0] == src);
        assert forall|j: int| 0 <= j < words_view(path@).len() - 1 implies #[trigger] linked(rv, words_view(path@)[j], words_view(path@)[j + 1]) by {
            let i2 = n - 2 - j;
            assert(one_step(rv, rev@[i2 + 1]@, rev@[i2]@));
            assert(path@[j]@ == rev@[n - 1 - j]@);
            assert(path@[j + 1]@ == rev@[n - 1 - (j + 1)]@);
        }
        assert forall|a: int, b: int| 0 <= a < b < words_view(path@).len() implies words_view(path@)[a] != words_view(path@)[b] by {
            assert(path@[a]@ == rev@[n - 1 - a]@);
            assert(path@[b]@ == rev@[n - 1 - b]@);
            assert(rank1[rev@[n - 1 - a]@] < rank1[rev@[n - 1 - b]@]);
        }
        assert forall|j: int| 0 <= j < path@.len() implies #[trigger] p_left@.contains_key(path@[j]@) by {
            assert(path@[j]@ == rev@[n - 1 - j]@);
        }
        assert(path@[n - 1]@ == meet@);
        assert(path@[0] == rev@[n - 1]);
        assert forall|j: int| 0 < j <= n - 1 implies p_left@[(#[trigger] path@[j])@] == Some(path@[j - 1]) by {
            assert(path@[j] == rev@[n - 1 - j]);
            assert(path@[j - 1] == rev@[n - 1 - j + 1]);
        }
    }
    let mut c2: String = meet.to_owned();
    assert(top2 <= d2);
    loop
        invariant
            top2 <= d2,
            forall|w: Seq<char>| #[trigger] p_left@.contains_key(w) && p_right@.contains_key(w) ==> w == meet@,
            ranked_tree(rv, p_right@, dst, rank2),
            rank_bounded(p_right@, rank2, d2),
            top2 == rank2[meet@],
            n >= 1,
            n <= d1 + 1,
            path@.len() >= n,
            p_right@.contains_key(c2@),
            words_view(path@).len() >= 1,
            words_view(path@)[0] == src,
            words_view(path@).last() == c2@,
            path@[n - 1]@ == meet@,
            is_path(rv, words_view(path@)),
            words_view(path@).no_duplicates(),
            forall|j: int| 0 <= j < n ==> #[trigger] p_left@.contains_key(path@[j]@),
            forall|j: int| n <= j < path@.len() ==> #[trigger] p_right@.contains_key(path@[j]@) && path@[j]@ != meet@,
            forall|j: int| n - 1 <= j < path@.len() ==> rank2[c2@] <= rank2[#[trigger] path@[j]@],
            rank2[c2@] + (path@.len() - n) <= top2,
            path@.last()@ == c2@,
            p_left@[path@[0]@] == None::<String>,
            forall|j: int| 0 < j <= n - 1 ==> p_left@[(#[trigger] path@[j])@] == Some(path@[j - 1]),
            forall|j: int| n - 1 <= j < path@.len() - 1 ==> p_right@[(#[trigger] path@[j])@] == Some(path@[j + 1]),
        ensures
            exists|k: int| path@[k]@ == meet@ && follows_trees(p_left@, p_right@, path@, k),
            words_view(path@).len() >= 1,
            words_view(path@)[0] == src,
            words_view(path@).last() == dst,
            is_path(rv, words_view(path@)),
            words_view(path@).no_duplicates(),
            words_view(path@).len() <= d1 + d2 + 1,
        decreases rank2[c2@],
    {
        let next = parent_of(p_right, c2.as_str());
        match next {
            Some(x) => {
                assert(p_right@.contains_key(x@));
                assert(one_step(rv, x@, c2@));
                assert(rank2[x@] < rank2[c2@]);
                let ghost before = words_view(path@);
                let ghost bp = path@;
                proof {
                    assert forall|j: int| 0 <= j < before.len() implies before[j] != x@ by {
                        if j < n {
                            assert(p_left@.contains_key(bp[j]@));
                            if bp[j]@ == x@ {
                                assert(p_left@.contains_key(x@) && p_right@.contains_key(x@));
                                assert(x@ == meet@);
                                assert(false);
                            }
                        } else {
                            assert(rank2[c2@] <= rank2[bp[j]@]);
                        }
                    }
                }
                path.push(x.clone());
                proof {
                    assert(words_view(path@) =~= before.push(x@));
                    assert forall|j: int| 0 <= j < words_view(path@).len() - 1 implies #[trigger] linked(rv, words_view(path@)[j], words_view(path@)[j + 1]) by {
                        if j < before.len() - 1 {
                            assert(linked(rv, before[j], before[j + 1]));
                        }
                    }
                    assert forall|a: int, b: int| 0 <= a < b < words_view(path@).len() implies words_view(path@)[a] != words_view(path@)[b] by {
                        if b < before.len() {
                            assert(before[a] != before[b]);
                        }
                    }
                    assert forall|j: int| 0 <= j < n implies #[trigger] p_left@.contains_key(path@[j]@) by {
                        assert(path@[j] == bp[j]);
                    }
                    assert forall|j: int| n <= j < path@.len() implies #[trigger] p_right@.contains_key(path@[j]@) && path@[j]@ != meet@ by {
                        if j < bp.len() {
                            assert(path@[j] == bp[j]);
                        }
                    }
                    assert forall|j: int| n - 1 <= j < path@.len() implies rank2[x@] <= rank2[#[trigger] path@[j]@] by {
                        if j < bp.len() {
                            assert(path@[j] == bp[j]);
                            assert(rank2[c2@] <= rank2[bp[j]@]);
                        }
                    }
                    assert(path@[0] == bp[0]);
                    assert forall|j: int| 0 < j <= n - 1 implies p_left@[(#[trigger] path@[j])@] == Some(path@[j - 1]) by {
                        assert(path@[j] == bp[j]);
                        assert(path@[j - 1] == bp[j - 1]);
                    }
                    assert forall|j: int| n - 1 <= j < path@.len() - 1 implies p_right@[(#[trigger] path@[j])@] == Some(path@[j + 1]) by {
                        assert(path@[j] == bp[j]);
                        if j < bp.len() - 1 {
                            assert(path@[j + 1] == bp[j + 1]);
                        } else {
                            assert(bp[j]@ == c2@);
                        }
                    }
                }
                c2 = x;
            },
            None => {
                assert(follows_trees(p_left@, p_right@, path@, n - 1));
                break;
            },
        }
    }
    path
}

/// The balls of radius [`BFS_DEPTH`] around `src` and `dst` hold more than
/// `limit` words together, or one of them is infinite.
pub open spec fn balls_exceed(rules: Seq<(Seq<char>, Seq<char>)>, src: Seq<char>, dst: Seq<char>, limit: nat) -> bool {
    ||| !ball(rules, src, BFS_DEPTH as nat).finite()
    ||| !ball(rules, dst, BFS_DEPTH as nat).finite()
    ||| ball(rules, src, BFS_DEPTH as nat).len() + ball(rules, dst, BFS_DEPTH as nat).len() > limit
}

/// Every path of rewrites from `src` to `dst` has more than `2 * BFS_DEPTH` steps.
pub open spec fn no_short_path(rules: Seq<(Seq<char>, Seq<char>)>, src: Seq<char>, dst: Seq<char>) -> bool {
    forall|c: Seq<Seq<char>>| #[trigger] is_path(rules, c) && c.len() >= 1 && c[0] == src && c.last() == dst ==> c.len() > 2 * BFS_DEPTH + 1
}

/// Two maps of words within [`BFS_DEPTH`] of `src` and of `dst` that together
/// hold more than `limit` words show that the balls do.
proof fn lemma_overflow_balls(
    rules: Seq<(Seq<char>, Seq<char>)>,
    src: Seq<char>,
    dst: Seq<char>,
    m1: Map<Seq<char>, Option<String>>,
    m2: Map<Seq<char>, Option<String>>,
    d1: nat,
    d2: nat,
    limit: nat,
)
    requires
        d1 <= BFS_DEPTH,
        d2 <= BFS_DEPTH,
        forall|w: Seq<char>| #[trigger] m1.contains_key(w) ==> within(rules, src, w, d1),
        forall|w: Seq<char>| #[trigger] m2.contains_key(w) ==> within(rules, dst, w, d2),
        m1.len() + m2.len() > limit,
    ensures
        balls_exceed(rules, src, dst, limit),
{
    let b1 = ball(rules, src, BFS_DEPTH as nat);
    let b2 = ball(rules, dst, BFS_DEPTH as nat);
    if b1.finite() && b2.finite() {
        assert forall|w: Seq<char>| m1.dom().contains(w) implies b1.contains(w) by {
            lemma_within_mono(rules, src, w, d1, BFS_DEPTH as nat);
        }
        assert forall|w: Seq<char>| m2.dom().contains(w) implies b2.contains(w) by {
            lemma_within_mono(rules, dst, w, d2, BFS_DEPTH as nat);
        }
        vstd::set_lib::lemma_len_subset(m1.dom(), b1);
        vstd::set_lib::lemma_len_subset(m2.dom(), b2);
    }
}

/// At the first level, a map of the words within one rewrite of `src` and a
/// map of `dst` alone fit in a limit that leaves room for them.
proof fn lemma_first_level_fits(
    rules: Seq<(Seq<char>, Seq<char>)>,
    src: Seq<char>,
    dst: Seq<char>,
    m1: Map<Seq<char>, Option<String>>,
    m2: Map<Seq<char>, Option<String>>,
    limit: nat,
)
    requires
        adjacent_within_limit(rules, src, dst, limit),
        forall|w: Seq<char>| #[trigger] m1.contains_key(w) ==> within(rules, src, w, 1),
        forall|w: Seq<char>| #[trigger] m2.contains_key(w) <==> within(rules, dst, w, 0),
    ensures
        m1.len() + m2.len() <= limit,
{
    let b1 = ball(rules, src, 1);
    assert forall|w: Seq<char>| m1.dom().contains(w) implies b1.contains(w) by {}
    vstd::set_lib::lemma_len_subset(m1.dom(), b1);
    assert forall|w: Seq<char>| m2.dom().contains(w) <==> set![dst].contains(w) by {
        if within(rules, dst, w, 0) {
            lemma_within_zero(rules, dst, w);
        }
        if w == dst {
            lemma_within_refl(rules, dst, 0);
        }
    }
    assert(m2.dom() =~= set![dst]);
}

/// A ball whose words exactly `d` away are all missing from an empty queue is closed.
proof fn lemma_empty_frontier_closed(rules: Seq<(Seq<char>, Seq<char>)>, a: Seq<char>, d: nat)
    requires
        forall|w: Seq<char>| !frontier(rules, a, w, d),
    ensures
        closed_ball(rules, a, d),
{
    assert forall|x: Seq<char>, y: Seq<char>| #[trigger] within(rules, a, x, d) && #[trigger] one_step(rules, x, y) implies within(rules, a, y, d) by {
        assert(!frontier(rules, a, x, d));
        assert(d > 0);
        lemma_within_extend(rules, a, x, y, (d - 1) as nat);
    }
}

/// `dst` is one rewrite from `src`, and the limit leaves room for every word
/// one rewrite from `src` and for `dst`.
pub open spec fn adjacent_within_limit(rules: Seq<(Seq<char>, Seq<char>)>, src: Seq<char>, dst: Seq<char>, limit: nat) -> bool {
    &&& src != dst
    &&& one_step(rules, src, dst)
    &&& ball(rules, src, 1).finite()
    &&& ball(rules, src, 1).len() + 1 <= limit
}

/// A path of rewrites by `T'`, each applied forward or backward, from `src`
/// to `dst`, found by a search from both ends at once, level by level, up to
/// [`BFS_DEPTH`] levels per side; `None` where the search ends without one,
/// or once its two sides hold more than `limit` words together. When no rule
/// has an empty side, `None` means that no path of at most `2 * BFS_DEPTH`
/// rewrites links the two words, or that the words within [`BFS_DEPTH`] of
/// them are more than `limit`. A path found has distinct words, at most
/// `2 * BFS_DEPTH + 1` of them; a word one rewrite away is reached directly.
pub fn bfs_path_tprime(src: &str, dst: &str, rules_tp: &Rules, limit: usize) -> (res: Option<Vec<String>>)
    ensures
        src@ == dst@ ==> (res matches Some(p) && words_view(p@) == seq![src@]),
        res matches Some(p) ==> {
            &&& words_view(p@).len() >= 1
            &&& words_view(p@)[0] == src@
            &&& words_view(p@).last() == dst@
            &&& is_path(rules_view(rules_tp@), words_view(p@))
            &&& words_view(p@).len() <= 2 * BFS_DEPTH + 1
            &&& words_view(p@).no_duplicates()
        },
        adjacent_within_limit(rules_view(rules_tp@), src@, dst@, limit as nat) ==> (res matches Some(p) && words_view(p@) == seq![src@, dst@]),
        res is None && nonempty_sides(rules_view(rules_tp@)) ==> no_short_path(rules_view(rules_tp@), src@, dst@)
            || balls_exceed(rules_view(rules_tp@), src@, dst@, limit as nat),
{
    let ghost rv = rules_view(rules_tp@);
    if crate::text::same_text(src, dst) {
        let mut v: Vec<String> = Vec::new();
        v.push(src.to_owned());
        assert(words_view(v@) =~= seq![src@]);
        return Some(v);
    }
    let mut q1: std::collections::VecDeque<String> = std::collections::VecDeque::new();
    let mut q2: std::collections::VecDeque<String> = std::collections::VecDeque::new();
    q1.push_back(src.to_owned());
    q2.push_back(dst.to_owned());
    let mut p1: vstd::hash_map::StringHashMap<Option<String>> = vstd::hash_map::StringHashMap::new();
    let mut p2: vstd::hash_map::StringHashMap<Option<String>> = vstd::hash_map::StringHashMap::new();
    p1.insert(src.to_owned(), None);
    p2.insert(dst.to_owned(), None);
    proof {
        assert(ranked_tree(rv, p1@, src@, map![src@ => 0nat]) && rank_bounded(p1@, map![src@ => 0nat], 0));
        assert(ranked_tree(rv, p2@, dst@, map![dst@ => 0nat]) && rank_bounded(p2@, map![dst@ => 0nat], 0));
        assert forall|w: Seq<char>| #[trigger] p1@.contains_key(w) <==> within(rv, src@, w, 0) by {
            if within(rv, src@, w, 0) {
                lemma_within_zero(rv, src@, w);
            }
            lemma_within_refl(rv, src@, 0);
        }
        assert forall|w: Seq<char>| #[trigger] p2@.contains_key(w) <==> within(rv, dst@, w, 0) by {
            if within(rv, dst@, w, 0) {
                lemma_within_zero(rv, dst@, w);
            }
            lemma_within_refl(rv, dst@, 0);
        }
        assert forall|w: Seq<char>| frontier(rv, src@, w, 0) implies #[trigger] words_view(q1@).contains(w) by {
            lemma_within_zero(rv, src@, w);
            assert(words_view(q1@)[0] == w);
        }
        assert forall|w: Seq<char>| frontier(rv, dst@, w, 0) implies #[trigger] words_view(q2@).contains(w) by {
            lemma_within_zero(rv, dst@, w);
            assert(words_view(q2@)[0] == w);
        }
    }
    let mut depth: usize = 0;
    while q1.len() > 0 && q2.len() > 0 && depth < BFS_DEPTH
        invariant
            0 <= depth <= BFS_DEPTH,
            src@ != dst@,
            rv == rules_view(rules_tp@),
            search_tree(rv, p1@, src@, depth as nat),
            search_tree(rv, p2@, dst@, depth as nat),
            depth > 0 ==> !adjacent_within_limit(rv, src@, dst@, limit as nat),
            depth == 0 ==> q1@.len() > 0 && q2@.len() > 0,
            forall|i: int| 0 <= i < q1@.len() ==> p1@.contains_key(#[trigger] q1@[i]@),
            forall|i: int| 0 <= i < q2@.len() ==> p2@.contains_key(#[trigger] q2@[i]@),
            forall|w: Seq<char>| #[trigger] p1@.contains_key(w) <==> within(rv, src@, w, depth as nat),
            forall|w: Seq<char>| #[trigger] p2@.contains_key(w) <==> within(rv, dst@, w, depth as nat),
            forall|w: Seq<char>| frontier(rv, src@, w, depth as nat) ==> #[trigger] words_view(q1@).contains(w),
            forall|w: Seq<char>| frontier(rv, dst@, w, depth as nat) ==> #[trigger] words_view(q2@).contains(w),
            forall|w: Seq<char>| !(#[trigger] p1@.contains_key(w) && p2@.contains_key(w)),
        decreases BFS_DEPTH - depth,
    {
        depth = depth + 1;
        let ghost p2_before = p2@;
        match expand_level(&mut q1, &mut p1, &p2, rules_tp, limit, Ghost(src@), Ghost((depth - 1) as nat)) {
            Expansion::Met(y) => {
                let path = build_path(&p1, &p2, y.as_str(), Ghost(rv), Ghost(src@), Ghost(dst@), Ghost(depth as nat), Ghost((depth - 1) as nat));
                proof {
                    if adjacent_within_limit(rv, src@, dst@, limit as nat) {
                        assert(words_view(path@) =~= seq![src@, dst@]);
                    }
                }
                return Some(path);
            },
            Expansion::Overflow => {
                proof {
                    lemma_overflow_balls(rv, src@, dst@, p1@, p2@, depth as nat, (depth - 1) as nat, limit as nat);
                    if adjacent_within_limit(rv, src@, dst@, limit as nat) {
                        lemma_first_level_fits(rv, src@, dst@, p1@, p2@, limit as nat);
                    }
                }
                return None;
            },
            Expansion::Continue => {
                proof {
                    if depth == 1 && adjacent_within_limit(rv, src@, dst@, limit as nat) {
                        lemma_within_refl(rv, src@, 0);
                        lemma_within_extend(rv, src@, src@, dst@, 0);
                        lemma_within_refl(rv, dst@, 0);
                        assert(p1@.contains_key(dst@) && p2@.contains_key(dst@));
                    }
                }
            },
        }
        match expand_level(&mut q2, &mut p2, &p1, rules_tp, limit, Ghost(dst@), Ghost((depth - 1) as nat)) {
            Expansion::Met(y) => {
                return Some(build_path(&p1, &p2, y.as_str(), Ghost(rv), Ghost(src@), Ghost(dst@), Ghost(depth as nat), Ghost(depth as nat)));
            },
            Expansion::Overflow => {
                proof {
                    lemma_overflow_balls(rv, src@, dst@, p1@, p2@, depth as nat, depth as nat, limit as nat);
                }
                return None;
            },
            Expansion::Continue => {},
        }
    }
    proof {
        if nonempty_sides(rv) {
            let d = depth as nat;
            if q1@.len() == 0 {
                assert forall|w: Seq<char>| !frontier(rv, src@, w, d) by {
                    if frontier(rv, src@, w, d) {
                        assert(words_view(q1@).contains(w));
                    }
                }
                lemma_empty_frontier_closed(rv, src@, d);
            } else if q2@.len() == 0 {
                assert forall|w: Seq<char>| !frontier(rv, dst@, w, d) by {
                    if frontier(rv, dst@, w, d) {
                        assert(words_view(q2@).contains(w));
                    }
                }
                lemma_empty_frontier_closed(rv, dst@, d);
            }
            assert forall|w: Seq<char>| !(#[trigger] within(rv, src@, w, d) && within(rv, dst@, w, d)) by {
                assert(!(p1@.contains_key(w) && p2@.contains_key(w)));
            }
            assert forall|c: Seq<Seq<char>>| #[trigger] is_path(rv, c) && c.len() >= 1 && c[0] == src@ && c.last() == dst@ implies c.len() > 2 * BFS_DEPTH + 1 by {
                lemma_no_short_path(rv, src@, dst@, d, d, BFS_DEPTH as nat, c);
            }
        }
    }
    None
}

} // verus!

verus! {

/// Each word of `c` (at least one) rewrites to the next in one step, by a
/// rule applied forward or backward.
pub open spec fn step_chain(rules: Seq<(Seq<char>, Seq<char>)>, c: Seq<Seq<char>>) -> bool {
    &&& c.len() >= 1
    &&& forall|i: int| 0 <= i < c.len() - 1 ==> #[trigger] one_step(rules, c[i], c[i + 1])
}

/// `b` is at most `d` one-step rewrites away from `a`.
pub open spec fn within(rules: Seq<(Seq<char>, Seq<char>)>, a: Seq<char>, b: Seq<char>, d: nat) -> bool {
    exists|c: Seq<Seq<char>>| #[trigger] step_chain(rules, c) && c[0] == a && c.last() == b && c.len() <= d + 1
}

/// The words at most `d` one-step rewrites away from `a`.
pub open spec fn ball(rules: Seq<(Seq<char>, Seq<char>)>, a: Seq<char>, d: nat) -> Set<Seq<char>> {
    Set::new(|b: Seq<char>| within(rules, a, b, d))
}

/// `b` is exactly `d` one-step rewrites away from `a`.
pub open spec fn frontier(rules: Seq<(Seq<char>, Seq<char>)>, a: Seq<char>, b: Seq<char>, d: nat) -> bool {
    within(rules, a, b, d) && (d == 0 || !within(rules, a, b, (d - 1) as nat))
}

/// One rewrite from a word within `d` of `a` stays within `d` of `a`.
pub open spec fn closed_ball(rules: Seq<(Seq<char>, Seq<char>)>, a: Seq<char>, d: nat) -> bool {
    forall|x: Seq<char>, y: Seq<char>| #[trigger] within(rules, a, x, d) && #[trigger] one_step(rules, x, y) ==> within(rules, a, y, d)
}

proof fn lemma_within_refl(rules: Seq<(Seq<char>, Seq<char>)>, a: Seq<char>, d: nat)
    ensures
        within(rules, a, a, d),
{
    let c = seq![a];
    assert(step_chain(rules, c));
}

proof fn lemma_within_zero(rules: Seq<(Seq<char>, Seq<char>)>, a: Seq<char>, b: Seq<char>)
    requires
        within(rules, a, b, 0),
    ensures
        a == b,
{
    let c = choose|c: Seq<Seq<char>>| #[trigger] step_chain(rules, c) && c[0] == a && c.last() == b && c.len() <= 1;
}

proof fn lemma_within_mono(rules: Seq<(Seq<char>, Seq<char>)>, a: Seq<char>, b: Seq<char>, d: nat, e: nat)
    requires
        within(rules, a, b, d),
        d <= e,
    ensures
        within(rules, a, b, e),
{
    let c = choose|c: Seq<Seq<char>>| #[trigger] step_chain(rules, c) && c[0] == a && c.last() == b && c.len() <= d + 1;
    assert(step_chain(rules, c));
}

proof fn lemma_within_extend(rules: Seq<(Seq<char>, Seq<char>)>, a: Seq<char>, x: Seq<char>, b: Seq<char>, d: nat)
    requires
        within(rules, a, x, d),
        one_step(rules, x, b),
    ensures
        within(rules, a, b, d + 1),
{
    let c = choose|c: Seq<Seq<char>>| #[trigger] step_chain(rules, c) && c[0] == a && c.last() == x && c.len() <= d + 1;
    let c2 = c.push(b);
    assert forall|i: int| 0 <= i < c2.len() - 1 implies #[trigger] one_step(rules, c2[i], c2[i + 1]) by {
        if i < c.len() - 1 {
            assert(one_step(rules, c[i], c[i + 1]));
        }
    }
    assert(step_chain(rules, c2));
}

/// A word within `d + 1` of `a` but not within `d` comes in one rewrite from a
/// word exactly `d` away.
proof fn lemma_within_last_step(rules: Seq<(Seq<char>, Seq<char>)>, a: Seq<char>, b: Seq<char>, d: nat) -> (x: Seq<char>)
    requires
        within(rules, a, b, d + 1),
        !within(rules, a, b, d),
    ensures
        frontier(rules, a, x, d),
        one_step(rules, x, b),
{
    let c = choose|c: Seq<Seq<char>>| #[trigger] step_chain(rules, c) && c[0] == a && c.last() == b && c.len() <= d + 2;
    if c.len() <= d + 1 {
        assert(step_chain(rules, c));
    }
    assert(c.len() == d + 2);
    let pre = c.take(d as int + 1);
    assert forall|i: int| 0 <= i < pre.len() - 1 implies #[trigger] one_step(rules, pre[i], pre[i + 1]) by {
        assert(one_step(rules, c[i], c[i + 1]));
    }
    assert(step_chain(rules, pre));
    let x = c[d as int];
    assert(one_step(rules, c[d as int], c[d as int + 1]));
    if d > 0 && within(rules, a, x, (d - 1) as nat) {
        lemma_within_extend(rules, a, x, b, (d - 1) as nat);
    }
    x
}

/// Every step of a chain of one-step rewrites can be taken backwards when no
/// rule has an empty side.
proof fn lemma_chain_reverse(rules: Seq<(Seq<char>, Seq<char>)>, c: Seq<Seq<char>>)
    requires
        nonempty_sides(rules),
        step_chain(rules, c),
    ensures
        step_chain(rules, c.reverse()),
{
    let r = c.reverse();
    assert forall|i: int| 0 <= i < r.len() - 1 implies #[trigger] one_step(rules, r[i], r[i + 1]) by {
        let j = c.len() - 2 - i;
        assert(one_step(rules, c[j], c[j + 1]));
        lemma_one_step_symmetric(rules, c[j], c[j + 1]);
    }
}

/// The words of a chain lie within `m` of its first word for the `m`-th, and
/// within the rest of its length of its last word.
proof fn lemma_chain_split(rules: Seq<(Seq<char>, Seq<char>)>, c: Seq<Seq<char>>, m: int)
    requires
        nonempty_sides(rules),
        step_chain(rules, c),
        0 <= m < c.len(),
    ensures
        within(rules, c[0], c[m], m as nat),
        within(rules, c.last(), c[m], (c.len() - 1 - m) as nat),
{
    let pre = c.take(m + 1);
    assert forall|i: int| 0 <= i < pre.len() - 1 implies #[trigger] one_step(rules, pre[i], pre[i + 1]) by {
        assert(one_step(rules, c[i], c[i + 1]));
    }
    assert(step_chain(rules, pre));
    let post = c.skip(m);
    assert forall|i: int| 0 <= i < post.len() - 1 implies #[trigger] one_step(rules, post[i], post[i + 1]) by {
        assert(one_step(rules, c[m + i], c[m + i + 1]));
    }
    assert(step_chain(rules, post));
    lemma_chain_reverse(rules, post);
    let back = post.reverse();
    assert(back[0] == c.last());
    assert(back.last() == c[m]);
    assert(step_chain(rules, back));
}

/// Every word of a chain from a word of a closed ball lies in the ball.
proof fn lemma_closed_chain(rules: Seq<(Seq<char>, Seq<char>)>, a: Seq<char>, d: nat, c: Seq<Seq<char>>)
    requires
        closed_ball(rules, a, d),
        step_chain(rules, c),
        within(rules, a, c[0], d),
    ensures
        within(rules, a, c.last(), d),
    decreases c.len(),
{
    if c.len() > 1 {
        let e = c.drop_last();
        assert forall|i: int| 0 <= i < e.len() - 1 implies #[trigger] one_step(rules, e[i], e[i + 1]) by {
            assert(one_step(rules, c[i], c[i + 1]));
        }
        lemma_closed_chain(rules, a, d, e);
        let i = c.len() - 2;
        assert(one_step(rules, c[i], c[i + 1]));
        assert(within(rules, a, c[i], d) && one_step(rules, c[i], c[i + 1]));
    }
}

/// A path (steps in either direction) is a chain of one-step rewrites when no
/// rule has an empty side.
proof fn lemma_path_is_chain(rules: Seq<(Seq<char>, Seq<char>)>, c: Seq<Seq<char>>)
    requires
        nonempty_sides(rules),
        is_path(rules, c),
        c.len() >= 1,
    ensures
        step_chain(rules, c),
{
    assert forall|i: int| 0 <= i < c.len() - 1 implies #[trigger] one_step(rules, c[i], c[i + 1]) by {
        assert(linked(rules, c[i], c[i + 1]));
        if one_step(rules, c[i + 1], c[i]) {
            lemma_one_step_symmetric(rules, c[i + 1], c[i]);
        }
    }
}

/// When the balls of radius `d1` around `src` and `d2` around `dst` share no
/// word, and either both radii reach `depth` or one ball is closed, no path
/// of at most `2 * depth` rewrites links `src` to `dst`.
proof fn lemma_no_short_path(
    rules: Seq<(Seq<char>, Seq<char>)>,
    src: Seq<char>,
    dst: Seq<char>,
    d1: nat,
    d2: nat,
    depth: nat,
    c: Seq<Seq<char>>,
)
    requires
        nonempty_sides(rules),
        forall|w: Seq<char>| !(#[trigger] within(rules, src, w, d1) && within(rules, dst, w, d2)),
        (d1 >= depth && d2 >= depth) || closed_ball(rules, src, d1) || closed_ball(rules, dst, d2),
        is_path(rules, c),
        c.len() >= 1,
        c[0] == src,
        c.last() == dst,
    ensures
        c.len() > 2 * depth + 1,
{
    lemma_path_is_chain(rules, c);
    if closed_ball(rules, src, d1) {
        lemma_within_refl(rules, src, d1);
        lemma_closed_chain(rules, src, d1, c);
        lemma_within_refl(rules, dst, d2);
        assert(within(rules, src, dst, d1) && within(rules, dst, dst, d2));
    } else if closed_ball(rules, dst, d2) {
        lemma_chain_reverse(rules, c);
        let r = c.reverse();
        lemma_within_refl(rules, dst, d2);
        lemma_closed_chain(rules, dst, d2, r);
        lemma_within_refl(rules, src, d1);
        assert(within(rules, src, src, d1) && within(rules, dst, src, d2));
    } else if c.len() <= 2 * depth + 1 {
        let m: int = if c.len() - 1 < depth { c.len() - 1 } else { depth as int };
        lemma_chain_split(rules, c, m);
        lemma_within_mono(rules, src, c[m], m as nat, d1);
        lemma_within_mono(rules, dst, c[m], (c.len() - 1 - m) as nat, d2);
        assert(within(rules, src, c[m], d1) && within(rules, dst, c[m], d2));
    }
}

/// The words of a `T`-pair with a nonempty second word are linked by a short
/// `T'`-path.
pub proof fn lemma_t_pair_linked(n: nat, w: Seq<char>, w2: Seq<char>)
    requires
        t_pair(t_rules_spec(), w, w2),
        w2.len() > 0,
    ensures
        !no_short_path(tprime_spec(n), w, w2),
        !no_short_path(tprime_spec(n), w2, w),
{
    let m = choose|m: nat| 5 <= m <= 8 && #[trigger] reaches_in(t_rules_spec(), w, w2, m);
    let c = choose|c: Seq<Seq<char>>| #[trigger] chain_between(t_rules_spec(), c, w, w2, m);
    lemma_t_chain_is_tprime_path(n, c);
    assert(is_path(tprime_spec(n), c) && c.len() >= 1 && c[0] == w && c.last() == w2);
    let rc = c.reverse();
    assert forall|i: int| 0 <= i < rc.len() - 1 implies #[trigger] linked(tprime_spec(n), rc[i], rc[i + 1]) by {
        let j = c.len() - 2 - i;
        assert(linked(tprime_spec(n), c[j], c[j + 1]));
        assert(rc[i] == c[j + 1]);
        assert(rc[i + 1] == c[j]);
    }
    assert(is_path(tprime_spec(n), rc) && rc.len() >= 1 && rc[0] == w2 && rc.last() == w);
}

} // verus!
