//! String rewriting over `{a, b, c, d}`: the rule sets `T` and `T'`, finding
//! and rewriting occurrences, the words one rewrite away, random rewriting
//! chains and pairs of words, and the facts that relate `T` to `T'`.
use vstd::prelude::*;

verus! {

broadcast use vstd::string::group_string_axioms;

/// A rule set: pairs of texts `(lhs, rhs)`.
pub type Rules = Vec<(String, String)>;

/// The texts of a rule set.
pub open spec fn rules_view(rules: Seq<(String, String)>) -> Seq<(Seq<char>, Seq<char>)> {
    rules.map_values(|p: (String, String)| (p.0@, p.1@))
}

/// `pat` occurs in `s` at position `i`.
pub open spec fn occurs_at(s: Seq<char>, pat: Seq<char>, i: int) -> bool {
    0 <= i && i + pat.len() <= s.len() && s.subrange(i, i + pat.len()) == pat
}

/// `s` with the `len` letters at `start` replaced by `rep`.
pub open spec fn replaced(s: Seq<char>, start: int, len: int, rep: Seq<char>) -> Seq<char> {
    s.take(start) + rep + s.skip(start + len)
}

/// `t` is `s` with the occurrence at `p` of the (nonempty) left-hand side of
/// rule `k` replaced by its right-hand side.
pub open spec fn fwd_at(rules: Seq<(Seq<char>, Seq<char>)>, s: Seq<char>, t: Seq<char>, k: int, p: int) -> bool {
    &&& 0 <= k < rules.len()
    &&& rules[k].0.len() > 0
    &&& occurs_at(s, rules[k].0, p)
    &&& t == replaced(s, p, rules[k].0.len() as int, rules[k].1)
}

/// `t` is `s` with the occurrence at `p` of the (nonempty) right-hand side of
/// rule `k` replaced by its left-hand side.
pub open spec fn bwd_at(rules: Seq<(Seq<char>, Seq<char>)>, s: Seq<char>, t: Seq<char>, k: int, p: int) -> bool {
    &&& 0 <= k < rules.len()
    &&& rules[k].1.len() > 0
    &&& occurs_at(s, rules[k].1, p)
    &&& t == replaced(s, p, rules[k].1.len() as int, rules[k].0)
}

/// `t` is `s` rewritten once by a rule applied forward.
pub open spec fn rewrites_to(rules: Seq<(Seq<char>, Seq<char>)>, s: Seq<char>, t: Seq<char>) -> bool {
    exists|k: int, p: int| #[trigger] fwd_at(rules, s, t, k, p)
}

/// `t` is `s` rewritten once by a rule applied forward or backward.
pub open spec fn one_step(rules: Seq<(Seq<char>, Seq<char>)>, s: Seq<char>, t: Seq<char>) -> bool {
    exists|k: int, p: int|
        #![trigger fwd_at(rules, s, t, k, p)]
        #![trigger bwd_at(rules, s, t, k, p)]
        fwd_at(rules, s, t, k, p) || bwd_at(rules, s, t, k, p)
}

/// One rewrite, forward or backward, leads from one of `a`, `b` to the other.
pub open spec fn linked(rules: Seq<(Seq<char>, Seq<char>)>, a: Seq<char>, b: Seq<char>) -> bool {
    one_step(rules, a, b) || one_step(rules, b, a)
}

/// Each word of `c` rewrites to the next by one rule applied forward.
pub open spec fn is_chain(rules: Seq<(Seq<char>, Seq<char>)>, c: Seq<Seq<char>>) -> bool {
    forall|i: int| 0 <= i < c.len() - 1 ==> #[trigger] rewrites_to(rules, c[i], c[i + 1])
}

/// Each word of `c` is linked to the next by one rewrite.
pub open spec fn is_path(rules: Seq<(Seq<char>, Seq<char>)>, c: Seq<Seq<char>>) -> bool {
    forall|i: int| 0 <= i < c.len() - 1 ==> #[trigger] linked(rules, c[i], c[i + 1])
}

/// The texts of a list of strings.
pub open spec fn words_view(ws: Seq<String>) -> Seq<Seq<char>> {
    ws.map_values(|s: String| s@)
}

/// All positions where `pat` occurs in `s`, overlapping ones included, in
/// increasing order; none for an empty pattern. Positions count letters.
pub fn letter_positions(s: &str, pat: &str) -> (res: Vec<usize>)
    ensures
        s@.len() <= usize::MAX,
        pat@.len() == 0 ==> res@.len() == 0,
        pat@.len() > 0 ==> {
            &&& forall|i: int, j: int| 0 <= i < j < res@.len() ==> res@[i] < res@[j]
            &&& forall|i: int| 0 <= i < res@.len() ==> occurs_at(s@, pat@, #[trigger] res@[i] as int)
            &&& forall|p: int| occurs_at(s@, pat@, p) ==> #[trigger] res@.contains(p as usize)
        },
{
    let sv = crate::text::char_vec(s);
    let pv = crate::text::char_vec(pat);
    let slen = sv.len();
    let mut res: Vec<usize> = Vec::new();
    if pv.len() == 0 {
        return res;
    }
    if pv.len() > sv.len() {
        proof {
            assert forall|p: int| occurs_at(s@, pat@, p) implies #[trigger] res@.contains(p as usize) by {
            }
        }
        return res;
    }
    let last = sv.len() - pv.len();
    let mut start: usize = 0;
    while start <= last
        invariant
            sv@ == s@,
            pv@ == pat@,
            pv@.len() > 0,
            last == sv@.len() - pv@.len(),
            slen == sv@.len(),
            0 <= start <= last + 1,
            forall|i: int, j: int| 0 <= i < j < res@.len() ==> res@[i] < res@[j],
            forall|i: int| 0 <= i < res@.len() ==> res@[i] < start,
            forall|i: int| 0 <= i < res@.len() ==> occurs_at(s@, pat@, #[trigger] res@[i] as int),
            forall|p: int| 0 <= p < start && occurs_at(s@, pat@, p) ==> #[trigger] res@.contains(p as usize),
        decreases last + 1 - start,
    {
        let mut k: usize = 0;
        let mut ok = true;
        while k < pv.len()
            invariant
                sv@ == s@,
                pv@ == pat@,
                start + pv@.len() <= sv@.len(),
                slen == sv@.len(),
                0 <= k <= pv@.len(),
                ok == forall|q: int| 0 <= q < k ==> sv@[start + q] == pv@[q],
            decreases pv@.len() - k,
        {
            if sv[start + k] != pv[k] {
                ok = false;
            }
            k = k + 1;
        }
        let ghost before = res@;
        proof {
            if ok {
                assert(s@.subrange(start as int, start + pat@.len()) =~= pat@);
            } else {
                let q = choose|q: int| 0 <= q < pv@.len() && sv@[start + q] != pv@[q];
                assert(s@.subrange(start as int, start + pat@.len())[q] != pat@[q]);
            }
        }
        if ok {
            res.push(start);
        }
        proof {
            assert forall|p: int| 0 <= p < start + 1 && occurs_at(s@, pat@, p) implies #[trigger] res@.contains(p as usize) by {
                if p < start {
                    assert(before.contains(p as usize));
                    let m = choose|m: int| 0 <= m < before.len() && before[m] == p as usize;
                    assert(res@[m] == p as usize);
                } else {
                    assert(res@[before.len() as int] == p as usize);
                }
            }
        }
        start = start + 1;
    }
    res
}

/// `s` with the `len` letters at `start` replaced by `rep`.
pub fn replace_letters(s: &str, start: usize, len: usize, rep: &str) -> (out: String)
    requires
        start + len <= s@.len(),
    ensures
        out@ == replaced(s@, start as int, len as int, rep@),
{
    let mut out = String::new();
    let n = s.unicode_len();
    out.append(s.substring_char(0, start));
    out.append(rep);
    out.append(s.substring_char(start + len, n));
    assert(out@ =~= replaced(s@, start as int, len as int, rep@));
    out
}

/// `pat` occurs in `s` beginning at byte `b` of the UTF-8 encoding of `s`.
pub open spec fn occurs_at_byte(s: Seq<char>, pat: Seq<char>, b: int) -> bool {
    exists|p: int| occurs_at(s, pat, p) && b == #[trigger] crate::text::byte_offset(s, p)
}

/// All byte offsets where `pat` occurs in `s`, overlapping occurrences
/// included, in increasing order; none for an empty pattern. The search steps
/// one byte past each occurrence, so a pattern that begins with a letter of
/// more than one byte must not occur.
pub fn find_all_positions(s: &str, pat: &str) -> (res: Vec<usize>)
    requires
        pat@.len() > 0 && (exists|p: int| occurs_at(s@, pat@, p)) ==> (pat@[0] as u32) < 0x80,
    ensures
        pat@.len() == 0 ==> res@.len() == 0,
        pat@.len() > 0 ==> {
            &&& forall|i: int, j: int| 0 <= i < j < res@.len() ==> res@[i] < res@[j]
            &&& forall|i: int| 0 <= i < res@.len() ==> occurs_at_byte(s@, pat@, #[trigger] res@[i] as int)
            &&& forall|p: int| occurs_at(s@, pat@, p) ==>
                #[trigger] res@.contains(crate::text::byte_offset(s@, p) as usize)
        },
{
    let lp = letter_positions(s, pat);
    let offs = crate::text::letter_offsets(s);
    let mut res: Vec<usize> = Vec::new();
    if pat.is_empty() {
        return res;
    }
    let mut i: usize = 0;
    while i < lp.len()
        invariant
            pat@.len() > 0,
            0 <= i <= lp@.len(),
            res@.len() == i,
            offs@.len() == s@.len() + 1,
            forall|p: int| 0 <= p <= s@.len() ==> #[trigger] offs@[p] == crate::text::byte_offset(s@, p),
            forall|a: int, b: int| 0 <= a < b <= s@.len() ==> offs@[a] < offs@[b],
            forall|a: int, b: int| 0 <= a < b < lp@.len() ==> lp@[a] < lp@[b],
            forall|a: int| 0 <= a < lp@.len() ==> occurs_at(s@, pat@, #[trigger] lp@[a] as int),
            forall|a: int| 0 <= a < i ==> #[trigger] res@[a] == offs@[lp@[a] as int],
        decreases lp@.len() - i,
    {
        let k = lp[i];
        res.push(offs[k]);
        i = i + 1;
    }
    proof {
        assert forall|a: int, b: int| 0 <= a < b < res@.len() implies res@[a] < res@[b] by {
            assert(lp@[a] < lp@[b]);
        }
        assert forall|a: int| 0 <= a < res@.len() implies occurs_at_byte(s@, pat@, #[trigger] res@[a] as int) by {
            let p = lp@[a] as int;
            assert(occurs_at(s@, pat@, p));
            assert(res@[a] == crate::text::byte_offset(s@, p));
        }
        assert forall|p: int| occurs_at(s@, pat@, p) implies
            #[trigger] res@.contains(crate::text::byte_offset(s@, p) as usize) by {
            assert(lp@.contains(p as usize));
            let m = choose|m: int| 0 <= m < lp@.len() && lp@[m] == p as usize;
            assert(res@[m] == offs@[p]);
            assert(offs@[p] == crate::text::byte_offset(s@, p));
            assert(res@[m] == crate::text::byte_offset(s@, p) as usize);
        }
    }
    res
}

/// `s` with the bytes `start..start + len` replaced by `rep`; both ends lie
/// where a letter begins or where `s` ends.
pub fn replace_at(s: &str, start: usize, len: usize, rep: &str) -> (out: String)
    requires
        exists|p: int, q: int|
            #![trigger crate::text::byte_offset(s@, p), crate::text::byte_offset(s@, q)]
            0 <= p <= q <= s@.len() && start == crate::text::byte_offset(s@, p)
                && start + len == crate::text::byte_offset(s@, q),
    ensures
        forall|p: int, q: int|
            #![trigger crate::text::byte_offset(s@, p), crate::text::byte_offset(s@, q)]
            0 <= p <= q <= s@.len() && start == crate::text::byte_offset(s@, p)
                && start + len == crate::text::byte_offset(s@, q)
                ==> out@ == replaced(s@, p, q - p, rep@),
{
    let offs = crate::text::letter_offsets(s);
    let ghost (gp, gq) = choose|p: int, q: int|
        #![trigger crate::text::byte_offset(s@, p), crate::text::byte_offset(s@, q)]
        0 <= p <= q <= s@.len() && start == crate::text::byte_offset(s@, p)
            && start + len == crate::text::byte_offset(s@, q);
    let mut p: usize = 0;
    while offs[p] != start
        invariant
            offs@.len() == s@.len() + 1,
            offs.len() == offs@.len(),
            forall|i: int| 0 <= i <= s@.len() ==> #[trigger] offs@[i] == crate::text::byte_offset(s@, i),
            forall|a: int, b: int| 0 <= a < b <= s@.len() ==> offs@[a] < offs@[b],
            0 <= gp <= gq <= s@.len(),
            offs@[gp] == start,
            0 <= p <= gp,
        decreases gp - p,
    {
        p = p + 1;
    }
    let mut q: usize = p;
    while offs[q] != start + len
        invariant
            offs@.len() == s@.len() + 1,
            offs.len() == offs@.len(),
            forall|i: int| 0 <= i <= s@.len() ==> #[trigger] offs@[i] == crate::text::byte_offset(s@, i),
            forall|a: int, b: int| 0 <= a < b <= s@.len() ==> offs@[a] < offs@[b],
            0 <= gp <= gq <= s@.len(),
            offs@[gq] == start + len,
            p == gp,
            p <= q <= gq,
        decreases gq - q,
    {
        q = q + 1;
    }
    proof {
        assert forall|p2: int, q2: int|
            #![trigger crate::text::byte_offset(s@, p2), crate::text::byte_offset(s@, q2)]
            0 <= p2 <= q2 <= s@.len() && start == crate::text::byte_offset(s@, p2)
                && start + len == crate::text::byte_offset(s@, q2)
            implies p2 == gp && q2 == gq by {
            if p2 < gp { assert(offs@[p2] < offs@[gp]); }
            if gp < p2 { assert(offs@[gp] < offs@[p2]); }
            if q2 < gq { assert(offs@[q2] < offs@[gq]); }
            if gq < q2 { assert(offs@[gq] < offs@[q2]); }
        }
    }
    replace_letters(s, p, q - p, rep)
}

} // verus!

verus! {

/// The rule set `T`.
pub open spec fn t_rules_spec() -> Seq<(Seq<char>, Seq<char>)> {
    seq![("aa"@, "bb"@), ("ccb"@, "dca"@), ("a"@, "dcc"@), ("cd"@, "bc"@)]
}

/// The rule set `T'` before its rules `gen_rule_n(k)`.
pub open spec fn tprime_base_spec() -> Seq<(Seq<char>, Seq<char>)> {
    seq![
        ("bb"@, "aa"@),
        ("dca"@, "ccb"@),
        ("dcc"@, "a"@),
        ("cd"@, "bc"@),
        ("cccb"@, "bcca"@),
        ("bccc"@, "ca"@),
    ]
}

/// `t` written `k` times.
pub open spec fn repeat_text(t: Seq<char>, k: nat) -> Seq<char>
    decreases k,
{
    if k == 0 {
        Seq::empty()
    } else {
        repeat_text(t, (k - 1) as nat) + t
    }
}

/// The rule `bcc (acc)^(n+1) c -> c^(3n+4) a`.
pub open spec fn gen_rule_spec(n: nat) -> (Seq<char>, Seq<char>) {
    ("bcc"@ + repeat_text("acc"@, n + 1) + "c"@, repeat_text("c"@, 3 * n + 4) + "a"@)
}

/// The rule set `T'` with its first `n` generated rules.
pub open spec fn tprime_spec(n: nat) -> Seq<(Seq<char>, Seq<char>)> {
    tprime_base_spec() + Seq::new(n, |k: int| gen_rule_spec(k as nat))
}

/// The rule set `T`.
pub fn t_rules() -> (rules: Rules)
    ensures
        rules_view(rules@) == t_rules_spec(),
{
    let rules = vec![
        ("aa".to_string(), "bb".to_string()),
        ("ccb".to_string(), "dca".to_string()),
        ("a".to_string(), "dcc".to_string()),
        ("cd".to_string(), "bc".to_string()),
    ];
    assert(rules_view(rules@) =~~= t_rules_spec());
    rules
}

/// The six fixed rules of `T'`.
pub fn tprime_base() -> (rules: Rules)
    ensures
        rules_view(rules@) == tprime_base_spec(),
{
    let rules = vec![
        ("bb".to_string(), "aa".to_string()),
        ("dca".to_string(), "ccb".to_string()),
        ("dcc".to_string(), "a".to_string()),
        ("cd".to_string(), "bc".to_string()),
        ("cccb".to_string(), "bcca".to_string()),
        ("bccc".to_string(), "ca".to_string()),
    ];
    assert(rules_view(rules@) =~~= tprime_base_spec());
    rules
}

/// `t` appended `k` times to `out`.
fn append_repeated(out: &mut String, t: &str, k: usize)
    ensures
        final(out)@ == old(out)@ + repeat_text(t@, k as nat),
{
    let mut i: usize = 0;
    while i < k
        invariant
            0 <= i <= k,
            out@ == old(out)@ + repeat_text(t@, i as nat),
        decreases k - i,
    {
        out.append(t);
        assert(out@ =~= old(out)@ + repeat_text(t@, (i + 1) as nat));
        i = i + 1;
    }
}

/// The `n`-th generated rule of `T'`: `bcc (acc)^(n+1) c -> c^(3n+4) a`.
pub fn gen_rule_n(n: usize) -> (rule: (String, String))
    requires
        3 * n + 4 <= usize::MAX,
    ensures
        (rule.0@, rule.1@) == gen_rule_spec(n as nat),
{
    let mut lhs = String::from_str("bcc");
    append_repeated(&mut lhs, "acc", n + 1);
    lhs.append("c");
    let mut rhs = String::new();
    append_repeated(&mut rhs, "c", 3 * n + 4);
    rhs.append("a");
    assert(lhs@ =~= "bcc"@ + repeat_text("acc"@, (n + 1) as nat) + "c"@);
    assert(rhs@ =~= repeat_text("c"@, (3 * n + 4) as nat) + "a"@);
    (lhs, rhs)
}

/// The rule set `T'` with its first `n` generated rules.
pub fn build_tprime(n: usize) -> (rules: Rules)
    requires
        3 * n + 4 <= usize::MAX,
    ensures
        rules_view(rules@) == tprime_spec(n as nat),
{
    let mut rules = tprime_base();
    let mut k: usize = 0;
    while k < n
        invariant
            0 <= k <= n,
            3 * n + 4 <= usize::MAX,
            rules_view(rules@) == tprime_spec(k as nat),
        decreases n - k,
    {
        let r = gen_rule_n(k);
        let ghost before = rules_view(rules@);
        rules.push(r);
        assert(rules_view(rules@) =~~= tprime_spec((k + 1) as nat)) by {
            assert(rules_view(rules@) =~= before.push((r.0@, r.1@)));
            assert(tprime_spec((k + 1) as nat) =~= tprime_spec(k as nat).push(gen_rule_spec(k as nat)));
        }
        k = k + 1;
    }
    rules
}

} // verus!

verus! {

/// Appends `x` unless a word with its text is there already; `seen` holds the
/// texts of `res`.
fn push_unique(res: &mut Vec<String>, seen: &mut vstd::hash_set::StringHashSet, x: String)
    requires
        words_view(old(res)@).no_duplicates(),
        old(seen)@ == words_view(old(res)@).to_set(),
    ensures
        words_view(final(res)@).no_duplicates(),
        final(seen)@ == words_view(final(res)@).to_set(),
        forall|t: Seq<char>| #[trigger] words_view(final(res)@).contains(t) <==> (words_view(old(res)@).contains(t) || t == x@),
{
    let ghost before = words_view(res@);
    let ghost xv = x@;
    let fresh = seen.insert(x.clone());
    if !fresh {
        proof {
            assert(before.to_set().contains(xv));
            assert(seen@ =~= before.to_set());
        }
        return;
    }
    res.push(x);
    assert(words_view(res@) =~= before.push(xv));
    proof {
        assert(!before.contains(xv));
        assert forall|t: Seq<char>| #[trigger] words_view(res@).contains(t) <==> (before.contains(t) || t == xv) by {
            if before.contains(t) {
                let k = choose|k: int| 0 <= k < before.len() && before[k] == t;
                assert(words_view(res@)[k] == t);
            }
            if t == xv {
                assert(words_view(res@)[before.len() as int] == t);
            }
            if words_view(res@).contains(t) {
                let k = choose|k: int| 0 <= k < words_view(res@).len() && words_view(res@)[k] == t;
                if k < before.len() {
                    assert(before[k] == t);
                }
            }
        }
        assert(seen@ =~= words_view(res@).to_set());
        assert forall|a: int, b: int| 0 <= a < b < words_view(res@).len() implies words_view(res@)[a] != words_view(res@)[b] by {
            if b == before.len() {
                assert(before.contains(before[a]));
            } else {
                assert(before[a] != before[b]);
            }
        }
    }
}

/// Every word that one rewrite of `s`, forward or backward, gives, each once.
pub fn neighbors_tprime(s: &str, rules_tp: &Rules) -> (res: Vec<String>)
    ensures
        words_view(res@).no_duplicates(),
        forall|t: Seq<char>| #[trigger] words_view(res@).contains(t) <==> one_step(rules_view(rules_tp@), s@, t),
{
    let ghost rv = rules_view(rules_tp@);
    let mut res: Vec<String> = Vec::new();
    let mut seen = vstd::hash_set::StringHashSet::new();
    let mut k: usize = 0;
    proof {
        assert(words_view(res@) =~= Seq::<Seq<char>>::empty());
        assert(seen@ =~= words_view(res@).to_set());
    }
    while k < rules_tp.len()
        invariant
            0 <= k <= rules_tp@.len(),
            rv == rules_view(rules_tp@),
            words_view(res@).no_duplicates(),
            seen@ == words_view(res@).to_set(),
            forall|t: Seq<char>| #[trigger] words_view(res@).contains(t) <==> exists|k2: int, p: int|
                #![trigger fwd_at(rv, s@, t, k2, p)]
                #![trigger bwd_at(rv, s@, t, k2, p)]
                k2 < k && (fwd_at(rv, s@, t, k2, p) || bwd_at(rv, s@, t, k2, p)),
        decreases rules_tp@.len() - k,
    {
        let l: &String = &rules_tp[k].0;
        let r: &String = &rules_tp[k].1;
        assert(rv[k as int] == (l@, r@));
        let pos_l = letter_positions(s, l.as_str());
        let mut i: usize = 0;
        while i < pos_l.len()
            invariant
                0 <= i <= pos_l@.len(),
                0 <= k < rules_tp@.len(),
                rv == rules_view(rules_tp@),
                rv[k as int] == (l@, r@),
                l@.len() == 0 ==> pos_l@.len() == 0,
                forall|q: int| 0 <= q < pos_l@.len() ==> occurs_at(s@, l@, #[trigger] pos_l@[q] as int),
                words_view(res@).no_duplicates(),
            seen@ == words_view(res@).to_set(),
                forall|t: Seq<char>| #[trigger] words_view(res@).contains(t) <==> ((exists|k2: int, p: int|
                    #![trigger fwd_at(rv, s@, t, k2, p)]
                    #![trigger bwd_at(rv, s@, t, k2, p)]
                    k2 < k && (fwd_at(rv, s@, t, k2, p) || bwd_at(rv, s@, t, k2, p))) || exists|q: int|
                    0 <= q < i && t == #[trigger] replaced(s@, pos_l@[q] as int, l@.len() as int, r@)),
            decreases pos_l@.len() - i,
        {
            let pos = pos_l[i];
            let t = replace_letters(s, pos, l.unicode_len(), r.as_str());
            push_unique(&mut res, &mut seen, t);
            proof {
                assert forall|u: Seq<char>| #[trigger] words_view(res@).contains(u) <==> ((exists|k2: int, p: int|
                    #![trigger fwd_at(rv, s@, u, k2, p)]
                    #![trigger bwd_at(rv, s@, u, k2, p)]
                    k2 < k && (fwd_at(rv, s@, u, k2, p) || bwd_at(rv, s@, u, k2, p))) || exists|q: int|
                    0 <= q < i + 1 && u == #[trigger] replaced(s@, pos_l@[q] as int, l@.len() as int, r@)) by {
                    if u == replaced(s@, pos_l@[i as int] as int, l@.len() as int, r@) {
                        assert(0 <= i < i + 1);
                    }
                }
            }
            i = i + 1;
        }
        let pos_r = letter_positions(s, r.as_str());
        let mut j: usize = 0;
        while j < pos_r.len()
            invariant
                0 <= j <= pos_r@.len(),
                0 <= k < rules_tp@.len(),
                rv == rules_view(rules_tp@),
                rv[k as int] == (l@, r@),
                l@.len() == 0 ==> pos_l@.len() == 0,
                r@.len() == 0 ==> pos_r@.len() == 0,
                forall|q: int| 0 <= q < pos_l@.len() ==> occurs_at(s@, l@, #[trigger] pos_l@[q] as int),
                forall|q: int| 0 <= q < pos_r@.len() ==> occurs_at(s@, r@, #[trigger] pos_r@[q] as int),
                l@.len() > 0 ==> forall|p: int| occurs_at(s@, l@, p) ==> #[trigger] pos_l@.contains(p as usize),
                r@.len() > 0 ==> forall|p: int| occurs_at(s@, r@, p) ==> #[trigger] pos_r@.contains(p as usize),
                s@.len() <= usize::MAX,
                words_view(res@).no_duplicates(),
            seen@ == words_view(res@).to_set(),
                forall|t: Seq<char>| #[trigger] words_view(res@).contains(t) <==> ((exists|k2: int, p: int|
                    #![trigger fwd_at(rv, s@, t, k2, p)]
                    #![trigger bwd_at(rv, s@, t, k2, p)]
                    k2 < k && (fwd_at(rv, s@, t, k2, p) || bwd_at(rv, s@, t, k2, p))) || (exists|q: int|
                    0 <= q < pos_l@.len() && t == #[trigger] replaced(s@, pos_l@[q] as int, l@.len() as int, r@))
                    || exists|q: int|
                    0 <= q < j && t == #[trigger] replaced(s@, pos_r@[q] as int, r@.len() as int, l@)),
            decreases pos_r@.len() - j,
        {
            let pos = pos_r[j];
            let t = replace_letters(s, pos, r.unicode_len(), l.as_str());
            push_unique(&mut res, &mut seen, t);
            proof {
                assert forall|u: Seq<char>| #[trigger] words_view(res@).contains(u) <==> ((exists|k2: int, p: int|
                    #![trigger fwd_at(rv, s@, u, k2, p)]
                    #![trigger bwd_at(rv, s@, u, k2, p)]
                    k2 < k && (fwd_at(rv, s@, u, k2, p) || bwd_at(rv, s@, u, k2, p))) || (exists|q: int|
                    0 <= q < pos_l@.len() && u == #[trigger] replaced(s@, pos_l@[q] as int, l@.len() as int, r@))
                    || exists|q: int|
                    0 <= q < j + 1 && u == #[trigger] replaced(s@, pos_r@[q] as int, r@.len() as int, l@)) by {
                    if u == replaced(s@, pos_r@[j as int] as int, r@.len() as int, l@) {
                        assert(0 <= j < j + 1);
                    }
                }
            }
            j = j + 1;
        }
        proof {
            assert forall|t: Seq<char>| #[trigger] words_view(res@).contains(t) <==> exists|k2: int, p: int|
                #![trigger fwd_at(rv, s@, t, k2, p)]
                #![trigger bwd_at(rv, s@, t, k2, p)]
                k2 < k + 1 && (fwd_at(rv, s@, t, k2, p) || bwd_at(rv, s@, t, k2, p)) by {
                if exists|q: int| 0 <= q < pos_l@.len() && t == #[trigger] replaced(s@, pos_l@[q] as int, l@.len() as int, r@) {
                    let q = choose|q: int| 0 <= q < pos_l@.len() && t == #[trigger] replaced(s@, pos_l@[q] as int, l@.len() as int, r@);
                    assert(occurs_at(s@, l@, pos_l@[q] as int));
                    assert(fwd_at(rv, s@, t, k as int, pos_l@[q] as int));
                }
                if exists|q: int| 0 <= q < pos_r@.len() && t == #[trigger] replaced(s@, pos_r@[q] as int, r@.len() as int, l@) {
                    let q = choose|q: int| 0 <= q < pos_r@.len() && t == #[trigger] replaced(s@, pos_r@[q] as int, r@.len() as int, l@);
                    assert(occurs_at(s@, r@, pos_r@[q] as int));
                    assert(bwd_at(rv, s@, t, k as int, pos_r@[q] as int));
                }
                if exists|k2: int, p: int|
                    #![trigger fwd_at(rv, s@, t, k2, p)]
                    #![trigger bwd_at(rv, s@, t, k2, p)]
                    k2 < k + 1 && (fwd_at(rv, s@, t, k2, p) || bwd_at(rv, s@, t, k2, p)) {
                    let (k2, p) = choose|k2: int, p: int|
                        #![trigger fwd_at(rv, s@, t, k2, p)]
                        #![trigger bwd_at(rv, s@, t, k2, p)]
                        k2 < k + 1 && (fwd_at(rv, s@, t, k2, p) || bwd_at(rv, s@, t, k2, p));
                    if k2 < k {
                        assert(fwd_at(rv, s@, t, k2, p) || bwd_at(rv, s@, t, k2, p));
                    } else if fwd_at(rv, s@, t, k2, p) {
                        assert(pos_l@.contains(p as usize));
                        let q = choose|q: int| 0 <= q < pos_l@.len() && pos_l@[q] == p as usize;
                        assert(t == replaced(s@, pos_l@[q] as int, l@.len() as int, r@));
                    } else {
                        assert(pos_r@.contains(p as usize));
                        let q = choose|q: int| 0 <= q < pos_r@.len() && pos_r@[q] == p as usize;
                        assert(t == replaced(s@, pos_r@[q] as int, r@.len() as int, l@));
                    }
                }
            }
        }
        k = k + 1;
    }
    proof {
        assert forall|t: Seq<char>| #[trigger] words_view(res@).contains(t) <==> one_step(rv, s@, t) by {
            if one_step(rv, s@, t) {
                let (k2, p) = choose|k2: int, p: int|
                    #![trigger fwd_at(rv, s@, t, k2, p)]
                    #![trigger bwd_at(rv, s@, t, k2, p)]
                    fwd_at(rv, s@, t, k2, p) || bwd_at(rv, s@, t, k2, p);
                assert(k2 < rules_tp@.len());
            }
        }
    }
    res
}

} // verus!

verus! {

/// `p` is a position where the (nonempty) left-hand side of rule `k` occurs in `s`.
pub open spec fn applicable(rules: Seq<(Seq<char>, Seq<char>)>, s: Seq<char>, k: int, p: int) -> bool {
    &&& 0 <= k < rules.len()
    &&& rules[k].0.len() > 0
    &&& occurs_at(s, rules[k].0, p)
}

/// Some rule applies forward somewhere in `s`.
pub open spec fn can_rewrite(rules: Seq<(Seq<char>, Seq<char>)>, s: Seq<char>) -> bool {
    exists|k: int, p: int| #[trigger] applicable(rules, s, k, p)
}

/// Options `(position, rule)` ordered by rule, then by position.
pub open spec fn option_before(a: (usize, usize), b: (usize, usize)) -> bool {
    a.1 < b.1 || (a.1 == b.1 && a.0 < b.0)
}

/// `c` is a chain of `n` forward rewrites from `a` to `b`.
pub open spec fn chain_between(rules: Seq<(Seq<char>, Seq<char>)>, c: Seq<Seq<char>>, a: Seq<char>, b: Seq<char>, n: nat) -> bool {
    &&& c.len() == n + 1
    &&& c[0] == a
    &&& c.last() == b
    &&& is_chain(rules, c)
}

/// `b` comes from `a` by `n` forward rewrites.
pub open spec fn reaches_in(rules: Seq<(Seq<char>, Seq<char>)>, a: Seq<char>, b: Seq<char>, n: nat) -> bool {
    exists|c: Seq<Seq<char>>| #[trigger] chain_between(rules, c, a, b, n)
}

/// Every way of rewriting `s` once by a rule applied forward, as
/// `(position, rule)`, ordered by rule and then by position.
pub fn rewrite_options(s: &str, rules: &Rules) -> (opts: Vec<(usize, usize)>)
    ensures
        forall|i: int| 0 <= i < opts@.len() ==> applicable(rules_view(rules@), s@, #[trigger] opts@[i].1 as int, opts@[i].0 as int),
        forall|k: int, p: int| #[trigger] applicable(rules_view(rules@), s@, k, p) ==> opts@.contains((p as usize, k as usize)),
        forall|i: int, j: int| 0 <= i < j < opts@.len() ==> option_before(opts@[i], opts@[j]),
{
    let ghost rv = rules_view(rules@);
    let mut opts: Vec<(usize, usize)> = Vec::new();
    let mut k: usize = 0;
    while k < rules.len()
        invariant
            0 <= k <= rules@.len(),
            rv == rules_view(rules@),
            forall|i: int| 0 <= i < opts@.len() ==> applicable(rv, s@, #[trigger] opts@[i].1 as int, opts@[i].0 as int),
            forall|i: int| 0 <= i < opts@.len() ==> #[trigger] opts@[i].1 < k,
            forall|k2: int, p: int| k2 < k && #[trigger] applicable(rv, s@, k2, p) ==> opts@.contains((p as usize, k2 as usize)),
            forall|i: int, j: int| 0 <= i < j < opts@.len() ==> option_before(opts@[i], opts@[j]),
        decreases rules@.len() - k,
    {
        let l: &String = &rules[k].0;
        assert(rv[k as int].0 == l@);
        let pos = letter_positions(s, l.as_str());
        let mut i: usize = 0;
        while i < pos.len()
            invariant
                0 <= i <= pos@.len(),
                0 <= k < rules@.len(),
                rv == rules_view(rules@),
                rv[k as int].0 == l@,
                l@.len() == 0 ==> pos@.len() == 0,
                forall|a: int, b: int| 0 <= a < b < pos@.len() ==> pos@[a] < pos@[b],
                forall|q: int| 0 <= q < pos@.len() ==> occurs_at(s@, l@, #[trigger] pos@[q] as int),
                forall|q: int| 0 <= q < opts@.len() ==> applicable(rv, s@, #[trigger] opts@[q].1 as int, opts@[q].0 as int),
                forall|q: int| 0 <= q < opts@.len() ==> #[trigger] opts@[q].1 <= k,
                forall|q: int, j: int| #![trigger opts@[q], pos@[j]] 0 <= q < opts@.len() && i <= j < pos@.len() && opts@[q].1 == k ==> opts@[q].0 < pos@[j],
                forall|k2: int, p: int| k2 < k && #[trigger] applicable(rv, s@, k2, p) ==> opts@.contains((p as usize, k2 as usize)),
                forall|j: int| 0 <= j < i ==> opts@.contains((#[trigger] pos@[j], k)),
                forall|a: int, b: int| 0 <= a < b < opts@.len() ==> option_before(opts@[a], opts@[b]),
            decreases pos@.len() - i,
        {
            let ghost before = opts@;
            opts.push((pos[i], k));
            proof {
                assert(opts@[before.len() as int] == (pos@[i as int], k));
                assert forall|k2: int, p: int| k2 < k && #[trigger] applicable(rv, s@, k2, p) implies opts@.contains((p as usize, k2 as usize)) by {
                    assert(before.contains((p as usize, k2 as usize)));
                    let m = choose|m: int| 0 <= m < before.len() && before[m] == (p as usize, k2 as usize);
                    assert(opts@[m] == before[m]);
                }
                assert forall|j: int| 0 <= j < i + 1 implies opts@.contains((#[trigger] pos@[j], k)) by {
                    if j < i {
                        assert(before.contains((pos@[j], k)));
                        let m = choose|m: int| 0 <= m < before.len() && before[m] == (pos@[j], k);
                        assert(opts@[m] == before[m]);
                    }
                }
                assert forall|a: int, b: int| 0 <= a < b < opts@.len() implies option_before(opts@[a], opts@[b]) by {
                    if b == before.len() {
                        assert(opts@[a] == before[a]);
                    }
                }
            }
            i = i + 1;
        }
        proof {
            assert forall|k2: int, p: int| k2 < k + 1 && #[trigger] applicable(rv, s@, k2, p) implies opts@.contains((p as usize, k2 as usize)) by {
                if k2 == k {
                    assert(pos@.contains(p as usize));
                    let j = choose|j: int| 0 <= j < pos@.len() && pos@[j] == p as usize;
                    assert(opts@.contains((pos@[j], k)));
                }
            }
        }
        k = k + 1;
    }
    opts
}

/// One rewrite of `s` by a rule of `rules` applied forward, at an occurrence
/// chosen at random among all of them ([`rewrite_options`], then
/// [`apply_option`] on the drawn one); `false`, and `s` itself, where none
/// applies.
pub fn step_t(s: &str, rng: &mut rand::rngs::ThreadRng, rules: &Rules) -> (res: (String, bool))
    ensures
        res.1 == can_rewrite(rules_view(rules@), s@),
        res.1 ==> rewrites_to(rules_view(rules@), s@, res.0@),
        !res.1 ==> res.0@ == s@,
{
    let ghost rv = rules_view(rules@);
    let opts = rewrite_options(s, rules);
    if opts.len() == 0 {
        proof {
            if can_rewrite(rv, s@) {
                let (k, p) = choose|k: int, p: int| #[trigger] applicable(rv, s@, k, p);
                assert(opts@.contains((p as usize, k as usize)));
            }
        }
        return (s.to_owned(), false);
    }
    let c = crate::random::random_in(rng, 0, opts.len() - 1);
    let (p, k) = opts[c];
    assert(applicable(rv, s@, opts@[c as int].1 as int, opts@[c as int].0 as int));
    let t = apply_option(s, rules, (p, k));
    assert(fwd_at(rv, s@, t@, k as int, p as int));
    (t, true)
}

/// `s` rewritten by the option `(position, rule)`: the left-hand side of the
/// rule at that position replaced by its right-hand side.
pub fn apply_option(s: &str, rules: &Rules, opt: (usize, usize)) -> (t: String)
    requires
        applicable(rules_view(rules@), s@, opt.1 as int, opt.0 as int),
    ensures
        t@ == replaced(s@, opt.0 as int, rules_view(rules@)[opt.1 as int].0.len() as int, rules_view(rules@)[opt.1 as int].1),
{
    let (p, k) = opt;
    let l: &String = &rules[k].0;
    let r: &String = &rules[k].1;
    assert(rules_view(rules@)[k as int] == (l@, r@));
    replace_letters(s, p, l.unicode_len(), r.as_str())
}

/// One rewrite of `s` by a rule of `T'` applied forward, chosen at random as
/// [`step_t`] does.
pub fn step_tp(s: &str, rng: &mut rand::rngs::ThreadRng, rules_tp: &Rules) -> (res: (String, bool))
    ensures
        res.1 == can_rewrite(rules_view(rules_tp@), s@),
        res.1 ==> rewrites_to(rules_view(rules_tp@), s@, res.0@),
        !res.1 ==> res.0@ == s@,
{
    step_t(s, rng, rules_tp)
}

/// A random number of steps in `min_steps..=max_steps`, then as many random
/// forward rewrites of `s` ([`rewrite_chain`]), stopping early where none
/// applies; the last word and the number of rewrites made.
pub fn random_chain_t(
    s: &str,
    rng: &mut rand::rngs::ThreadRng,
    min_steps: usize,
    max_steps: usize,
    rules: &Rules,
) -> (res: (String, usize))
    requires
        min_steps <= max_steps,
    ensures
        res.1 <= max_steps,
        reaches_in(rules_view(rules@), s@, res.0@, res.1 as nat),
        res.1 < min_steps ==> !can_rewrite(rules_view(rules@), res.0@),
{
    let steps = crate::random::random_in(rng, min_steps, max_steps);
    rewrite_chain(s, rng, steps, rules)
}

/// `steps` random forward rewrites of `s` ([`step_t`]), stopping early where
/// none applies: the last word and the number of rewrites made, which is
/// `steps` unless the last word admits no rewrite.
pub fn rewrite_chain(s: &str, rng: &mut rand::rngs::ThreadRng, steps: usize, rules: &Rules) -> (res: (String, usize))
    ensures
        res.1 <= steps,
        reaches_in(rules_view(rules@), s@, res.0@, res.1 as nat),
        res.1 < steps ==> !can_rewrite(rules_view(rules@), res.0@),
{
    let ghost rv = rules_view(rules@);
    let mut t = s.to_owned();
    let mut did: usize = 0;
    let ghost mut c: Seq<Seq<char>> = seq![s@];
    let mut n: usize = 0;
    while n < steps
        invariant_except_break
            did == n,
        invariant
            0 <= n <= steps,
            did <= n,
            rv == rules_view(rules@),
            chain_between(rv, c, s@, t@, did as nat),
        ensures
            did <= steps,
            chain_between(rv, c, s@, t@, did as nat),
            did < steps ==> !can_rewrite(rv, t@),
        decreases steps - n,
    {
        let (t2, ok) = step_t(t.as_str(), rng, rules);
        if !ok {
            break;
        }
        proof {
            let c2 = c.push(t2@);
            assert forall|i: int| 0 <= i < c2.len() - 1 implies #[trigger] rewrites_to(rv, c2[i], c2[i + 1]) by {
                if i < c.len() - 1 {
                    assert(rewrites_to(rv, c[i], c[i + 1]));
                }
            }
            c = c2;
        }
        t = t2;
        did = did + 1;
        n = n + 1;
    }
    (t, did)
}

/// A random number of steps in `min_steps..=max_steps`, then as many random
/// forward rewrites of `s` by `T'` ([`rewrite_chain_words`]), stopping early
/// where none applies; every word of the way, `s` first.
pub fn random_chain_tp(
    s: &str,
    rng: &mut rand::rngs::ThreadRng,
    rules_tp: &Rules,
    min_steps: usize,
    max_steps: usize,
) -> (chain: Vec<String>)
    requires
        min_steps <= max_steps,
    ensures
        1 <= chain@.len() <= max_steps + 1,
        words_view(chain@)[0] == s@,
        is_chain(rules_view(rules_tp@), words_view(chain@)),
        chain@.len() - 1 < min_steps ==> !can_rewrite(rules_view(rules_tp@), chain@.last()@),
{
    let steps = crate::random::random_in(rng, min_steps, max_steps);
    rewrite_chain_words(s, rng, rules_tp, steps)
}

/// `steps` random forward rewrites of `s` ([`step_tp`]), stopping early where
/// none applies: every word of the way, `s` first; there are `steps` rewrites
/// unless the last word admits no rewrite.
pub fn rewrite_chain_words(s: &str, rng: &mut rand::rngs::ThreadRng, rules_tp: &Rules, steps: usize) -> (chain: Vec<String>)
    ensures
        1 <= chain@.len() <= steps + 1,
        words_view(chain@)[0] == s@,
        is_chain(rules_view(rules_tp@), words_view(chain@)),
        chain@.len() < steps + 1 ==> !can_rewrite(rules_view(rules_tp@), chain@.last()@),
{
    let ghost rv = rules_view(rules_tp@);
    let mut t = s.to_owned();
    let mut chain: Vec<String> = Vec::new();
    chain.push(t.clone());
    let mut n: usize = 0;
    while n < steps
        invariant_except_break
            chain@.len() == n + 1,
        invariant
            0 <= n <= steps,
            chain@.len() <= n + 1,
            1 <= chain@.len(),
            rv == rules_view(rules_tp@),
            words_view(chain@)[0] == s@,
            chain@.last()@ == t@,
            is_chain(rv, words_view(chain@)),
        ensures
            chain@.len() <= steps + 1,
            1 <= chain@.len(),
            words_view(chain@)[0] == s@,
            chain@.last()@ == t@,
            is_chain(rv, words_view(chain@)),
            chain@.len() < steps + 1 ==> !can_rewrite(rv, t@),
        decreases steps - n,
    {
        let (t2, ok) = step_tp(t.as_str(), rng, rules_tp);
        if !ok {
            break;
        }
        t = t2;
        let ghost before = words_view(chain@);
        chain.push(t.clone());
        proof {
            assert(words_view(chain@) =~= before.push(t@));
            assert forall|i: int| 0 <= i < words_view(chain@).len() - 1 implies #[trigger] rewrites_to(rv, words_view(chain@)[i], words_view(chain@)[i + 1]) by {
                if i < before.len() - 1 {
                    assert(rewrites_to(rv, before[i], before[i + 1]));
                }
            }
        }
        n = n + 1;
    }
    chain
}

/// Every letter of `w` is one of `a`, `b`, `c`, `d`.
pub open spec fn over_abcd(w: Seq<char>) -> bool {
    forall|i: int| 0 <= i < w.len() ==> #[trigger] w[i] == 'a' || w[i] == 'b' || w[i] == 'c' || w[i] == 'd'
}

/// The letter that a draw `pick` in `0..=3` stands for.
pub open spec fn abcd_letter(pick: usize) -> char {
    if pick == 0 {
        'a'
    } else if pick == 1 {
        'b'
    } else if pick == 2 {
        'c'
    } else {
        'd'
    }
}

/// A random word over `{a, b, c, d}` with a random length in `min_len..=max_len`:
/// the length is drawn, then one letter at a time ([`word_from_picks`]).
pub fn random_word(rng: &mut rand::rngs::ThreadRng, min_len: usize, max_len: usize) -> (s: String)
    requires
        min_len <= max_len,
    ensures
        min_len <= s@.len() <= max_len,
        over_abcd(s@),
{
    let len = crate::random::random_in(rng, min_len, max_len);
    let mut picks: Vec<usize> = Vec::new();
    let mut k: usize = 0;
    while k < len
        invariant
            0 <= k <= len,
            picks@.len() == k,
        decreases len - k,
    {
        picks.push(crate::random::random_in(rng, 0, 3));
        k = k + 1;
    }
    word_from_picks(&picks)
}

/// The word whose letters the draws `picks` stand for: `0` is `a`, `1` is
/// `b`, `2` is `c`, anything else `d`.
pub fn word_from_picks(picks: &Vec<usize>) -> (s: String)
    ensures
        s@.len() == picks@.len(),
        forall|i: int| 0 <= i < picks@.len() ==> #[trigger] s@[i] == abcd_letter(picks@[i]),
        over_abcd(s@),
{
    let len = picks.len();
    let mut s = String::new();
    let mut i: usize = 0;
    proof {
        reveal_strlit("a");
        reveal_strlit("b");
        reveal_strlit("c");
        reveal_strlit("d");
    }
    while i < len
        invariant
            0 <= i <= len,
            len == picks@.len(),
            s@.len() == i,
            over_abcd(s@),
            forall|j: int| 0 <= j < i ==> #[trigger] s@[j] == abcd_letter(picks@[j]),
            "a"@ == seq!['a'],
            "b"@ == seq!['b'],
            "c"@ == seq!['c'],
            "d"@ == seq!['d'],
        decreases len - i,
    {
        let pick = picks[i];
        let ghost before = s@;
        if pick == 0 {
            s.append("a");
        } else if pick == 1 {
            s.append("b");
        } else if pick == 2 {
            s.append("c");
        } else {
            s.append("d");
        }
        assert(s@.len() == before.len() + 1);
        assert(forall|j: int| 0 <= j < before.len() ==> s@[j] == before[j]);
        i = i + 1;
    }
    s
}

/// `w` has 10 to 20 letters over `{a, b, c, d}`, and `w2` is either empty or
/// a different word that 5 to 8 forward rewrites by `rules_t` make of `w`.
pub open spec fn t_pair(rules_t: Seq<(Seq<char>, Seq<char>)>, w: Seq<char>, w2: Seq<char>) -> bool {
    &&& 10 <= w.len() <= 20
    &&& over_abcd(w)
    &&& (w2.len() == 0 || (w2 != w && exists|n: nat| 5 <= n <= 8 && #[trigger] reaches_in(rules_t, w, w2, n)))
}

/// An attempt of [`generate_pair`] is kept when it made at least 5 rewrites
/// and changed the word: `t` is the drawn word, what the rewrites made of it,
/// and how many rewrites were made.
pub open spec fn accepted(t: (String, String, usize)) -> bool {
    t.2 >= 5 && t.1@ != t.0@
}

/// Attempt `i` is the first one kept.
pub open spec fn first_kept(tries: Seq<(String, String, usize)>, i: int) -> bool {
    &&& 0 <= i < tries.len()
    &&& accepted(tries[i])
    &&& forall|j: int| 0 <= j < i ==> !accepted(#[trigger] tries[j])
}

/// Whether the attempt that rewrote `w` into `cand` in `did` steps is kept.
pub fn accept(w: &str, cand: &str, did: usize) -> (r: bool)
    ensures
        r == (did >= 5 && cand@ != w@),
{
    did >= 5 && !crate::text::same_text(cand, w)
}

/// The pair that a list of attempts yields: the word of the first kept
/// attempt and what it was rewritten into; when none is kept, the last word
/// and the empty word.
pub fn pick_pair(tries: &Vec<(String, String, usize)>) -> (res: (String, String))
    requires
        tries@.len() >= 1,
    ensures
        forall|i: int| #[trigger] first_kept(tries@, i) ==> res.0@ == tries@[i].0@ && res.1@ == tries@[i].1@,
        (forall|i: int| 0 <= i < tries@.len() ==> !accepted(#[trigger] tries@[i])) ==> res.0@ == tries@.last().0@
            && res.1@.len() == 0,
        (exists|i: int| 0 <= i < tries@.len() && accepted(tries@[i]) && res.0@ == tries@[i].0@ && res.1@ == tries@[i].1@)
            || (res.0@ == tries@.last().0@ && res.1@.len() == 0),
{
    let mut i: usize = 0;
    while i < tries.len()
        invariant
            0 <= i <= tries@.len(),
            forall|j: int| 0 <= j < i ==> !accepted(#[trigger] tries@[j]),
        decreases tries@.len() - i,
    {
        let t = &tries[i];
        if accept(t.0.as_str(), t.1.as_str(), t.2) {
            proof {
                assert(first_kept(tries@, i as int));
                assert forall|k: int| #[trigger] first_kept(tries@, k) implies k == i by {
                    if k < i {
                        assert(!accepted(tries@[k]));
                    }
                    if k > i {
                        assert(!accepted(tries@[i as int]));
                    }
                }
            }
            return (t.0.clone(), t.1.clone());
        }
        i = i + 1;
    }
    let last = &tries[tries.len() - 1];
    (last.0.clone(), String::new())
}

/// A random word `w` of 10 to 20 letters over `{a, b, c, d}` and a word that
/// 5 to 8 random forward rewrites by `rules_t` make of it, different from `w`:
/// up to 1000 attempts are drawn, each a word and its rewrites, until one is
/// kept ([`accept`]); [`pick_pair`] gives the result, which after 1000
/// rejected attempts is the last word and the empty word.
pub fn generate_pair(rng: &mut rand::rngs::ThreadRng, rules_t: &Rules) -> (res: (String, String))
    ensures
        t_pair(rules_view(rules_t@), res.0@, res.1@),
{
    let ghost rv = rules_view(rules_t@);
    let min_steps_t: usize = 5;
    let max_steps_t: usize = 8;
    let mut tries: Vec<(String, String, usize)> = Vec::new();
    let mut attempts: usize = 0;
    loop
        invariant_except_break
            attempts < 1000,
        invariant
            tries@.len() == attempts,
            min_steps_t == 5,
            max_steps_t == 8,
            rv == rules_view(rules_t@),
            forall|k: int| 0 <= k < tries@.len() ==> {
                &&& 10 <= (#[trigger] tries@[k]).0@.len() <= 20
                &&& over_abcd(tries@[k].0@)
                &&& tries@[k].2 <= 8
                &&& reaches_in(rv, tries@[k].0@, tries@[k].1@, tries@[k].2 as nat)
            },
        ensures
            tries@.len() >= 1,
        decreases 1000 - attempts,
    {
        let w = random_word(rng, 10, 20);
        let (cand, did) = random_chain_t(w.as_str(), rng, min_steps_t, max_steps_t, rules_t);
        let keep = accept(w.as_str(), cand.as_str(), did);
        let ghost before = tries@;
        tries.push((w, cand, did));
        proof {
            assert forall|k: int| 0 <= k < tries@.len() implies {
                &&& 10 <= (#[trigger] tries@[k]).0@.len() <= 20
                &&& over_abcd(tries@[k].0@)
                &&& tries@[k].2 <= 8
                &&& reaches_in(rv, tries@[k].0@, tries@[k].1@, tries@[k].2 as nat)
            } by {
                if k < before.len() {
                    assert(tries@[k] == before[k]);
                }
            }
        }
        attempts = attempts + 1;
        if keep || attempts == 1000 {
            break;
        }
    }
    let res = pick_pair(&tries);
    proof {
        if !(res.0@ == tries@.last().0@ && res.1@.len() == 0) {
            let i = choose|i: int| 0 <= i < tries@.len() && accepted(tries@[i]) && res.0@ == tries@[i].0@ && res.1@ == tries@[i].1@;
            assert(reaches_in(rv, tries@[i].0@, tries@[i].1@, tries@[i].2 as nat));
        } else {
            assert(tries@[tries@.len() - 1] == tries@.last());
        }
    }
    res
}

} // verus!


verus! {

/// No rule of `rules` makes a word longer, and each side of each rule is over
/// `{a, b, c, d}`.
pub open spec fn shortening(rules: Seq<(Seq<char>, Seq<char>)>) -> bool {
    forall|k: int| 0 <= k < rules.len() ==> {
        &&& (#[trigger] rules[k]).1.len() <= rules[k].0.len()
        &&& over_abcd(rules[k].0)
        &&& over_abcd(rules[k].1)
    }
}

proof fn lemma_over_abcd_concat(a: Seq<char>, b: Seq<char>)
    requires
        over_abcd(a),
        over_abcd(b),
    ensures
        over_abcd(a + b),
{
    assert forall|i: int| 0 <= i < (a + b).len() implies #[trigger] (a + b)[i] == 'a' || (a + b)[i] == 'b' || (a + b)[i] == 'c' || (a + b)[i] == 'd' by {
        if i < a.len() {
            assert((a + b)[i] == a[i]);
        } else {
            assert((a + b)[i] == b[i - a.len()]);
        }
    }
}

proof fn lemma_repeat_text(t: Seq<char>, k: nat)
    ensures
        repeat_text(t, k).len() == k * t.len(),
        over_abcd(t) ==> over_abcd(repeat_text(t, k)),
    decreases k,
{
    if k > 0 {
        let j = (k - 1) as nat;
        lemma_repeat_text(t, j);
        assert(repeat_text(t, k) == repeat_text(t, j) + t);
        assert(j * t.len() + t.len() == k * t.len()) by (nonlinear_arith)
            requires
                j + 1 == k,
        ;
        if over_abcd(t) {
            lemma_over_abcd_concat(repeat_text(t, j), t);
        }
    } else {
        assert(k * t.len() == 0) by (nonlinear_arith)
            requires
                k == 0,
        ;
    }
}

/// The sides of the generated rule `gen_rule_spec(n)` have `3n + 7` and
/// `3n + 5` letters.
pub proof fn lemma_gen_rule_lengths(n: nat)
    ensures
        gen_rule_spec(n).0.len() == 3 * n + 7,
        gen_rule_spec(n).1.len() == 3 * n + 5,
{
    reveal_strlit("bcc");
    reveal_strlit("acc");
    reveal_strlit("c");
    reveal_strlit("a");
    lemma_repeat_text("acc"@, n + 1);
    lemma_repeat_text("c"@, 3 * n + 4);
    assert((n + 1) * 3 == 3 * n + 3) by (nonlinear_arith);
    assert((3 * n + 4) * 1 == 3 * n + 4) by (nonlinear_arith);
}

/// No rule of `T'` makes a word longer, and all its rules are over `{a, b, c, d}`.
pub proof fn lemma_tprime_shortening(n: nat)
    ensures
        shortening(tprime_spec(n)),
        forall|k: int| 0 <= k < tprime_spec(n).len() ==> (#[trigger] tprime_spec(n)[k]).0.len() <= 3 * n + 7,
{
    reveal_strlit("bb");
    reveal_strlit("aa");
    reveal_strlit("dca");
    reveal_strlit("ccb");
    reveal_strlit("dcc");
    reveal_strlit("a");
    reveal_strlit("cd");
    reveal_strlit("bc");
    reveal_strlit("cccb");
    reveal_strlit("bcca");
    reveal_strlit("bccc");
    reveal_strlit("ca");
    reveal_strlit("bcc");
    reveal_strlit("acc");
    reveal_strlit("c");
    let rs = tprime_spec(n);
    assert forall|k: int| 0 <= k < rs.len() implies {
        &&& (#[trigger] rs[k]).1.len() <= rs[k].0.len()
        &&& over_abcd(rs[k].0)
        &&& over_abcd(rs[k].1)
        &&& rs[k].0.len() <= 3 * n + 7
    } by {
        if k >= 6 {
            let m = (k - 6) as nat;
            assert(rs[k] == gen_rule_spec(m));
            lemma_repeat_text("acc"@, m + 1);
            lemma_repeat_text("c"@, 3 * m + 4);
            lemma_over_abcd_concat("bcc"@, repeat_text("acc"@, m + 1));
            lemma_over_abcd_concat("bcc"@ + repeat_text("acc"@, m + 1), "c"@);
            lemma_over_abcd_concat(repeat_text("c"@, 3 * m + 4), "a"@);
            assert(m < n);
        }
    }
}

/// A forward rewrite by a shortening rule set keeps a word over `{a, b, c, d}`
/// and does not make it longer.
proof fn lemma_rewrite_shortening(rules: Seq<(Seq<char>, Seq<char>)>, s: Seq<char>, t: Seq<char>)
    requires
        shortening(rules),
        rewrites_to(rules, s, t),
        over_abcd(s),
    ensures
        over_abcd(t),
        t.len() <= s.len(),
{
    let (k, p) = choose|k: int, p: int| #[trigger] fwd_at(rules, s, t, k, p);
    let l = rules[k].0;
    let r = rules[k].1;
    let pre = s.take(p);
    let post = s.skip(p + l.len());
    assert(over_abcd(pre));
    assert(over_abcd(post));
    lemma_over_abcd_concat(pre, r);
    lemma_over_abcd_concat(pre + r, post);
    assert(t =~= pre + r + post);
}

/// Along a chain of forward rewrites by a shortening rule set, a word over
/// `{a, b, c, d}` stays over it and never gets longer.
pub proof fn lemma_chain_shortening(rules: Seq<(Seq<char>, Seq<char>)>, c: Seq<Seq<char>>)
    requires
        shortening(rules),
        is_chain(rules, c),
        c.len() >= 1,
        over_abcd(c[0]),
    ensures
        over_abcd(c.last()),
        c.last().len() <= c[0].len(),
    decreases c.len(),
{
    if c.len() > 1 {
        let d = c.drop_last();
        assert forall|i: int| 0 <= i < d.len() - 1 implies #[trigger] rewrites_to(rules, d[i], d[i + 1]) by {
            assert(rewrites_to(rules, c[i], c[i + 1]));
        }
        lemma_chain_shortening(rules, d);
        let i = c.len() - 2;
        assert(rewrites_to(rules, c[i], c[i + 1]));
        lemma_rewrite_shortening(rules, c[i], c[i + 1]);
    }
}

} // verus!


verus! {

/// Both sides of every rule are nonempty.
pub open spec fn nonempty_sides(rules: Seq<(Seq<char>, Seq<char>)>) -> bool {
    forall|k: int| 0 <= k < rules.len() ==> (#[trigger] rules[k]).0.len() > 0 && rules[k].1.len() > 0
}

/// Rewrites are reversible when no rule has an empty side.
pub proof fn lemma_one_step_symmetric(rules: Seq<(Seq<char>, Seq<char>)>, s: Seq<char>, t: Seq<char>)
    requires
        nonempty_sides(rules),
        one_step(rules, s, t),
    ensures
        one_step(rules, t, s),
{
    let (k, p) = choose|k: int, p: int|
        #![trigger fwd_at(rules, s, t, k, p)]
        #![trigger bwd_at(rules, s, t, k, p)]
        fwd_at(rules, s, t, k, p) || bwd_at(rules, s, t, k, p);
    let l = rules[k].0;
    let r = rules[k].1;
    assert(l.len() > 0 && r.len() > 0);
    if fwd_at(rules, s, t, k, p) {
        assert(t.subrange(p, p + r.len()) =~= r);
        assert(replaced(t, p, r.len() as int, l) =~= s);
        assert(bwd_at(rules, t, s, k, p));
    } else {
        assert(t.subrange(p, p + l.len()) =~= l);
        assert(replaced(t, p, l.len() as int, r) =~= s);
        assert(fwd_at(rules, t, s, k, p));
    }
}

/// Both sides of every rule of `T'` are nonempty.
pub proof fn lemma_tprime_nonempty_sides(n: nat)
    ensures
        nonempty_sides(tprime_spec(n)),
{
    reveal_strlit("aa");
    reveal_strlit("ccb");
    reveal_strlit("a");
    reveal_strlit("bc");
    reveal_strlit("bcca");
    reveal_strlit("ca");
    let rs = tprime_spec(n);
    lemma_tprime_shortening(n);
    assert forall|k: int| 0 <= k < rs.len() implies (#[trigger] rs[k]).0.len() > 0 && rs[k].1.len() > 0 by {
        if k >= 6 {
            let m = (k - 6) as nat;
            assert(rs[k] == gen_rule_spec(m));
            lemma_gen_rule_lengths(m);
        }
    }
}

/// Each forward rewrite by `T` is one rewrite by `T'`: the first three rules
/// of `T` are rules of `T'` read backwards, and the fourth is a rule of both.
pub proof fn lemma_t_step_in_tprime(n: nat, s: Seq<char>, t: Seq<char>)
    requires
        rewrites_to(t_rules_spec(), s, t),
    ensures
        one_step(tprime_spec(n), s, t),
{
    let tr = t_rules_spec();
    let tp = tprime_spec(n);
    let (k, p) = choose|k: int, p: int| #[trigger] fwd_at(tr, s, t, k, p);
    assert(tp[k] == tprime_base_spec()[k]);
    if k < 3 {
        assert(tp[k] == (tr[k].1, tr[k].0));
        assert(bwd_at(tp, s, t, k, p));
    } else {
        assert(tp[k] == tr[k]);
        assert(fwd_at(tp, s, t, k, p));
    }
}

/// A chain of forward rewrites by `T` is a path of rewrites by `T'`.
pub proof fn lemma_t_chain_is_tprime_path(n: nat, c: Seq<Seq<char>>)
    requires
        is_chain(t_rules_spec(), c),
    ensures
        is_path(tprime_spec(n), c),
{
    assert forall|i: int| 0 <= i < c.len() - 1 implies #[trigger] linked(tprime_spec(n), c[i], c[i + 1]) by {
        assert(rewrites_to(t_rules_spec(), c[i], c[i + 1]));
        lemma_t_step_in_tprime(n, c[i], c[i + 1]);
    }
}

/// `a` and `b` are joined by a path of rewrites by `T`, each used forward or
/// backward.
pub open spec fn t_linked(a: Seq<char>, b: Seq<char>) -> bool {
    exists|c: Seq<Seq<char>>| #[trigger] is_path(t_rules_spec(), c) && c.len() >= 1 && c[0] == a && c.last() == b
}

/// A forward rewrite by `T` links its two words, in either order.
proof fn lemma_t_rewrite_links(s: Seq<char>, t: Seq<char>, k: int, p: int)
    requires
        fwd_at(t_rules_spec(), s, t, k, p),
    ensures
        linked(t_rules_spec(), s, t),
        linked(t_rules_spec(), t, s),
{
    assert(one_step(t_rules_spec(), s, t));
}

/// The words `x`, `y` joined by one link are `T`-linked.
proof fn lemma_t_linked_two(x: Seq<char>, y: Seq<char>)
    requires
        linked(t_rules_spec(), x, y),
    ensures
        t_linked(x, y),
{
    let c = seq![x, y];
    assert(c[0] == x && c[1] == y);
    assert forall|i: int| 0 <= i < c.len() - 1 implies #[trigger] linked(t_rules_spec(), c[i], c[i + 1]) by {}
    assert(is_path(t_rules_spec(), c));
}

/// The words `x`, `y`, `z`, each linked to the next, make `x` and `z` `T`-linked.
proof fn lemma_t_linked_three(x: Seq<char>, y: Seq<char>, z: Seq<char>)
    requires
        linked(t_rules_spec(), x, y),
        linked(t_rules_spec(), y, z),
    ensures
        t_linked(x, z),
{
    let c = seq![x, y, z];
    assert(c[0] == x && c[1] == y && c[2] == z);
    assert forall|i: int| 0 <= i < c.len() - 1 implies #[trigger] linked(t_rules_spec(), c[i], c[i + 1]) by {
        if i == 0 {
            assert(linked(t_rules_spec(), c[0], c[1]));
        } else {
            assert(linked(t_rules_spec(), c[1], c[2]));
        }
    }
    assert(is_path(t_rules_spec(), c));
}

/// Each of the six fixed rules of `T'` holds in `T`: its two sides are joined
/// by a path of `T`-rewrites. `bb`, `dca`, `dcc` and `bc` are one rewrite of
/// `T` from their other sides, `cccb` rewrites to `bcca` through `cdca`, and
/// `ca` rewrites to `bccc` through `cdcc`; so `T'` joins no words that `T`
/// leaves apart.
pub proof fn lemma_tprime_base_rules_hold_in_t()
    ensures
        forall|k: int| 0 <= k < tprime_base_spec().len() ==> t_linked(
            #[trigger] tprime_base_spec()[k].0,
            tprime_base_spec()[k].1,
        ),
{
    reveal_strlit("aa");
    reveal_strlit("bb");
    reveal_strlit("ccb");
    reveal_strlit("dca");
    reveal_strlit("a");
    reveal_strlit("dcc");
    reveal_strlit("cd");
    reveal_strlit("bc");
    reveal_strlit("cccb");
    reveal_strlit("bcca");
    reveal_strlit("bccc");
    reveal_strlit("ca");
    let tr = t_rules_spec();
    let tb = tprime_base_spec();
    let cdca = seq!['c', 'd', 'c', 'a'];
    let cdcc = seq!['c', 'd', 'c', 'c'];
    assert(fwd_at(tr, "aa"@, "bb"@, 0, 0)) by {
        assert("aa"@.subrange(0, 2) =~= "aa"@);
        assert(replaced("aa"@, 0, 2, "bb"@) =~= "bb"@);
    }
    lemma_t_rewrite_links("aa"@, "bb"@, 0, 0);
    lemma_t_linked_two("bb"@, "aa"@);
    assert(fwd_at(tr, "ccb"@, "dca"@, 1, 0)) by {
        assert("ccb"@.subrange(0, 3) =~= "ccb"@);
        assert(replaced("ccb"@, 0, 3, "dca"@) =~= "dca"@);
    }
    lemma_t_rewrite_links("ccb"@, "dca"@, 1, 0);
    lemma_t_linked_two("dca"@, "ccb"@);
    assert(fwd_at(tr, "a"@, "dcc"@, 2, 0)) by {
        assert("a"@.subrange(0, 1) =~= "a"@);
        assert(replaced("a"@, 0, 1, "dcc"@) =~= "dcc"@);
    }
    lemma_t_rewrite_links("a"@, "dcc"@, 2, 0);
    lemma_t_linked_two("dcc"@, "a"@);
    assert(fwd_at(tr, "cd"@, "bc"@, 3, 0)) by {
        assert("cd"@.subrange(0, 2) =~= "cd"@);
        assert(replaced("cd"@, 0, 2, "bc"@) =~= "bc"@);
    }
    lemma_t_rewrite_links("cd"@, "bc"@, 3, 0);
    lemma_t_linked_two("cd"@, "bc"@);
    assert(fwd_at(tr, "cccb"@, cdca, 1, 1)) by {
        assert("cccb"@.subrange(1, 4) =~= "ccb"@);
        assert(replaced("cccb"@, 1, 3, "dca"@) =~= cdca);
    }
    lemma_t_rewrite_links("cccb"@, cdca, 1, 1);
    assert(fwd_at(tr, cdca, "bcca"@, 3, 0)) by {
        assert(cdca.subrange(0, 2) =~= "cd"@);
        assert(replaced(cdca, 0, 2, "bc"@) =~= "bcca"@);
    }
    lemma_t_rewrite_links(cdca, "bcca"@, 3, 0);
    lemma_t_linked_three("cccb"@, cdca, "bcca"@);
    assert(fwd_at(tr, cdcc, "bccc"@, 3, 0)) by {
        assert(cdcc.subrange(0, 2) =~= "cd"@);
        assert(replaced(cdcc, 0, 2, "bc"@) =~= "bccc"@);
    }
    lemma_t_rewrite_links(cdcc, "bccc"@, 3, 0);
    assert(fwd_at(tr, "ca"@, cdcc, 2, 1)) by {
        assert("ca"@.subrange(1, 2) =~= "a"@);
        assert(replaced("ca"@, 1, 1, "dcc"@) =~= cdcc);
    }
    lemma_t_rewrite_links("ca"@, cdcc, 2, 1);
    lemma_t_linked_three("bccc"@, cdcc, "ca"@);
    assert forall|k: int| 0 <= k < tb.len() implies t_linked(#[trigger] tb[k].0, tb[k].1) by {
        if k == 0 {
            assert(tb[0] == ("bb"@, "aa"@));
        } else if k == 1 {
            assert(tb[1] == ("dca"@, "ccb"@));
        } else if k == 2 {
            assert(tb[2] == ("dcc"@, "a"@));
        } else if k == 3 {
            assert(tb[3] == ("cd"@, "bc"@));
        } else if k == 4 {
            assert(tb[4] == ("cccb"@, "bcca"@));
        } else {
            assert(tb[5] == ("bccc"@, "ca"@));
        }
    }
}

/// `T`-paths join: a path from `a` to `b` and one from `b` to `c` make one
/// from `a` to `c`.
proof fn lemma_t_linked_trans(a: Seq<char>, b: Seq<char>, c: Seq<char>)
    requires
        t_linked(a, b),
        t_linked(b, c),
    ensures
        t_linked(a, c),
{
    let c1 = choose|c1: Seq<Seq<char>>| #[trigger] is_path(t_rules_spec(), c1) && c1.len() >= 1 && c1[0] == a && c1.last() == b;
    let c2 = choose|c2: Seq<Seq<char>>| #[trigger] is_path(t_rules_spec(), c2) && c2.len() >= 1 && c2[0] == b && c2.last() == c;
    let c3 = c1 + c2.drop_first();
    assert forall|i: int| 0 <= i < c3.len() - 1 implies #[trigger] linked(t_rules_spec(), c3[i], c3[i + 1]) by {
        if i < c1.len() - 1 {
            assert(linked(t_rules_spec(), c1[i], c1[i + 1]));
        } else {
            let j = i - (c1.len() - 1);
            assert(linked(t_rules_spec(), c2[j], c2[j + 1]));
            if i == c1.len() - 1 {
                assert(c3[i] == c1.last());
            } else {
                assert(c3[i] == c2[j]);
            }
            assert(c3[i + 1] == c2[j + 1]);
        }
    }
    assert(is_path(t_rules_spec(), c3));
    if c2.len() == 1 {
        assert(c3.last() == c1.last());
    } else {
        assert(c3.last() == c2.last());
    }
}

/// `t` written `m` times is `t` followed by `t` written `m - 1` times.
proof fn lemma_repeat_front(t: Seq<char>, m: nat)
    requires
        m >= 1,
    ensures
        repeat_text(t, m) == t + repeat_text(t, (m - 1) as nat),
    decreases m,
{
    if m == 1 {
        assert(repeat_text(t, 0) == Seq::<char>::empty());
        assert(repeat_text(t, 1) =~= t + repeat_text(t, 0));
    } else {
        lemma_repeat_front(t, (m - 1) as nat);
        assert(repeat_text(t, m) =~= t + repeat_text(t, (m - 1) as nat));
    }
}

/// The words along the `T`-path of a generated rule of `T'`: `c^(3j) bcc (acc)^m c`.
spec fn gen_stage(j: nat, m: nat) -> Seq<char> {
    repeat_text("c"@, 3 * j) + "bcc"@ + repeat_text("acc"@, m) + "c"@
}

/// Two rewrites of `T`, taken backward, turn `c^(3j) bcc acc (acc)^(m-1) c`
/// into `c^(3j+3) bcc (acc)^(m-1) c`.
proof fn lemma_gen_stage_step(j: nat, m: nat)
    requires
        m >= 1,
    ensures
        t_linked(gen_stage(j, m), gen_stage(j + 1, (m - 1) as nat)),
{
    reveal_strlit("c");
    reveal_strlit("bcc");
    reveal_strlit("acc");
    reveal_strlit("cd");
    reveal_strlit("bc");
    reveal_strlit("ccb");
    reveal_strlit("dca");
    let tr = t_rules_spec();
    let p = repeat_text("c"@, 3 * j);
    let r = repeat_text("acc"@, (m - 1) as nat);
    lemma_repeat_front("acc"@, m);
    let x = gen_stage(j, m);
    assert(x =~= p + seq!['b', 'c', 'c', 'a', 'c', 'c'] + r + seq!['c']);
    let y = p + seq!['c', 'd', 'c', 'a', 'c', 'c'] + r + seq!['c'];
    assert(repeat_text("c"@, 3 * (j + 1)) =~= p + seq!['c', 'c', 'c']) by {
        assert(3 * (j + 1) == 3 * j + 3);
        assert(repeat_text("c"@, 3 * j + 3) == repeat_text("c"@, 3 * j + 2) + "c"@);
        assert(repeat_text("c"@, 3 * j + 2) == repeat_text("c"@, 3 * j + 1) + "c"@);
        assert(repeat_text("c"@, 3 * j + 1) == repeat_text("c"@, 3 * j) + "c"@);
    }
    let z = gen_stage(j + 1, (m - 1) as nat);
    assert(z =~= p + seq!['c', 'c', 'c', 'b', 'c', 'c'] + r + seq!['c']);
    let n = p.len() as int;
    assert(fwd_at(tr, y, x, 3, n)) by {
        assert(y.subrange(n, n + 2) =~= "cd"@);
        assert(replaced(y, n, 2, "bc"@) =~= x);
    }
    lemma_t_rewrite_links(y, x, 3, n);
    assert(fwd_at(tr, z, y, 1, n + 1)) by {
        assert(z.subrange(n + 1, n + 4) =~= "ccb"@);
        assert(replaced(z, n + 1, 3, "dca"@) =~= y);
    }
    lemma_t_rewrite_links(z, y, 1, n + 1);
    lemma_t_linked_three(x, y, z);
}

/// Two rewrites of `T`, taken backward, turn `c^(3j) bccc` into `c^(3j+1) a`.
proof fn lemma_gen_stage_end(j: nat)
    ensures
        t_linked(gen_stage(j, 0), repeat_text("c"@, 3 * j + 1) + "a"@),
{
    reveal_strlit("c");
    reveal_strlit("a");
    reveal_strlit("bcc");
    reveal_strlit("cd");
    reveal_strlit("bc");
    reveal_strlit("dcc");
    let tr = t_rules_spec();
    let p = repeat_text("c"@, 3 * j);
    assert(repeat_text("acc"@, 0) == Seq::<char>::empty());
    let x = gen_stage(j, 0);
    assert(x =~= p + seq!['b', 'c', 'c', 'c']);
    let y = p + seq!['c', 'd', 'c', 'c'];
    let z = repeat_text("c"@, 3 * j + 1) + "a"@;
    assert(z =~= p + seq!['c', 'a']);
    let n = p.len() as int;
    assert(fwd_at(tr, y, x, 3, n)) by {
        assert(y.subrange(n, n + 2) =~= "cd"@);
        assert(replaced(y, n, 2, "bc"@) =~= x);
    }
    lemma_t_rewrite_links(y, x, 3, n);
    assert(fwd_at(tr, z, y, 2, n + 1)) by {
        assert(z.subrange(n + 1, n + 2) =~= "a"@);
        assert(replaced(z, n + 1, 1, "dcc"@) =~= y);
    }
    lemma_t_rewrite_links(z, y, 2, n + 1);
    lemma_t_linked_three(x, y, z);
}

/// `c^(3j) bcc (acc)^m c` is `T`-linked to `c^(3(j+m)+1) a`.
proof fn lemma_gen_stage_chain(j: nat, m: nat)
    ensures
        t_linked(gen_stage(j, m), repeat_text("c"@, 3 * (j + m) + 1) + "a"@),
    decreases m,
{
    if m == 0 {
        lemma_gen_stage_end(j);
    } else {
        lemma_gen_stage_step(j, m);
        lemma_gen_stage_chain(j + 1, (m - 1) as nat);
        assert(3 * ((j + 1) + (m - 1) as nat) + 1 == 3 * (j + m) + 1);
        lemma_t_linked_trans(gen_stage(j, m), gen_stage(j + 1, (m - 1) as nat), repeat_text("c"@, 3 * (j + m) + 1) + "a"@);
    }
}

/// Every rule of `T'`, fixed or generated, holds in `T`: its two sides are
/// joined by a path of `T`-rewrites. The generated rule
/// `bcc (acc)^(n+1) c -> c^(3n+4) a` unwinds one `acc` at a time by
/// `bc <- cd` and `dca <- ccb`, and ends with `bccc <- cdcc <- ca`.
pub proof fn lemma_tprime_rules_hold_in_t(n: nat)
    ensures
        forall|k: int| 0 <= k < tprime_spec(n).len() ==> t_linked(
            #[trigger] tprime_spec(n)[k].0,
            tprime_spec(n)[k].1,
        ),
{
    lemma_tprime_base_rules_hold_in_t();
    let tp = tprime_spec(n);
    assert forall|k: int| 0 <= k < tp.len() implies t_linked(#[trigger] tp[k].0, tp[k].1) by {
        if k < 6 {
            assert(tp[k] == tprime_base_spec()[k]);
        } else {
            let g = (k - 6) as nat;
            assert(tp[k] == gen_rule_spec(g));
            lemma_gen_stage_chain(0, g + 1);
            assert(repeat_text("c"@, 0) == Seq::<char>::empty());
            assert(gen_stage(0, g + 1) =~= gen_rule_spec(g).0);
            assert(3 * (0 + (g + 1)) + 1 == 3 * g + 4);
        }
    }
}

/// `T`-paths can be walked backward.
proof fn lemma_t_linked_sym(a: Seq<char>, b: Seq<char>)
    requires
        t_linked(a, b),
    ensures
        t_linked(b, a),
{
    let c = choose|c: Seq<Seq<char>>| #[trigger] is_path(t_rules_spec(), c) && c.len() >= 1 && c[0] == a && c.last() == b;
    let rc = c.reverse();
    assert forall|i: int| 0 <= i < rc.len() - 1 implies #[trigger] linked(t_rules_spec(), rc[i], rc[i + 1]) by {
        let j = c.len() - 2 - i;
        assert(linked(t_rules_spec(), c[j], c[j + 1]));
        assert(rc[i] == c[j + 1]);
        assert(rc[i + 1] == c[j]);
    }
    assert(is_path(t_rules_spec(), rc));
}

/// A rewrite stays a rewrite with text added on both sides.
proof fn lemma_one_step_context(rules: Seq<(Seq<char>, Seq<char>)>, a: Seq<char>, b: Seq<char>, pre: Seq<char>, post: Seq<char>)
    requires
        one_step(rules, a, b),
    ensures
        one_step(rules, pre + a + post, pre + b + post),
{
    let (k, p) = choose|k: int, p: int|
        #![trigger fwd_at(rules, a, b, k, p)]
        #![trigger bwd_at(rules, a, b, k, p)]
        fwd_at(rules, a, b, k, p) || bwd_at(rules, a, b, k, p);
    let s = pre + a + post;
    let t = pre + b + post;
    let q = p + pre.len();
    if fwd_at(rules, a, b, k, p) {
        let l = rules[k].0;
        assert(s.subrange(q, q + l.len()) =~= a.subrange(p, p + l.len()));
        assert(t =~= replaced(s, q, l.len() as int, rules[k].1));
        assert(fwd_at(rules, s, t, k, q));
    } else {
        let r = rules[k].1;
        assert(s.subrange(q, q + r.len()) =~= a.subrange(p, p + r.len()));
        assert(t =~= replaced(s, q, r.len() as int, rules[k].0));
        assert(bwd_at(rules, s, t, k, q));
    }
}

/// A `T`-path stays a `T`-path with text added on both sides of each word.
proof fn lemma_t_linked_context(a: Seq<char>, b: Seq<char>, pre: Seq<char>, post: Seq<char>)
    requires
        t_linked(a, b),
    ensures
        t_linked(pre + a + post, pre + b + post),
{
    let tr = t_rules_spec();
    let c = choose|c: Seq<Seq<char>>| #[trigger] is_path(tr, c) && c.len() >= 1 && c[0] == a && c.last() == b;
    let d = c.map_values(|w: Seq<char>| pre + w + post);
    assert forall|i: int| 0 <= i < d.len() - 1 implies #[trigger] linked(tr, d[i], d[i + 1]) by {
        assert(linked(tr, c[i], c[i + 1]));
        if one_step(tr, c[i], c[i + 1]) {
            lemma_one_step_context(tr, c[i], c[i + 1], pre, post);
        } else {
            lemma_one_step_context(tr, c[i + 1], c[i], pre, post);
        }
    }
    assert(is_path(tr, d));
    assert(d[0] == pre + a + post);
    assert(d.last() == pre + b + post);
}

/// One rewrite by `T'`, either way, joins words that `T` joins too.
proof fn lemma_tprime_step_in_t(n: nat, s: Seq<char>, t: Seq<char>)
    requires
        one_step(tprime_spec(n), s, t),
    ensures
        t_linked(s, t),
{
    let tp = tprime_spec(n);
    lemma_tprime_rules_hold_in_t(n);
    let (k, p) = choose|k: int, p: int|
        #![trigger fwd_at(tp, s, t, k, p)]
        #![trigger bwd_at(tp, s, t, k, p)]
        fwd_at(tp, s, t, k, p) || bwd_at(tp, s, t, k, p);
    let l = tp[k].0;
    let r = tp[k].1;
    assert(t_linked(l, r));
    if fwd_at(tp, s, t, k, p) {
        let pre = s.take(p);
        let post = s.skip(p + l.len());
        assert(s =~= pre + l + post);
        assert(t =~= pre + r + post);
        lemma_t_linked_context(l, r, pre, post);
    } else {
        let pre = s.take(p);
        let post = s.skip(p + r.len());
        assert(s =~= pre + r + post);
        assert(t =~= pre + l + post);
        lemma_t_linked_sym(l, r);
        lemma_t_linked_context(r, l, pre, post);
    }
}

/// `T` and `T'` join the same words: a path of `T'`-rewrites, each used
/// either way, joins words that a path of `T`-rewrites joins too; the other
/// way round is `lemma_t_chain_is_tprime_path`.
pub proof fn lemma_tprime_path_is_t_path(n: nat, c: Seq<Seq<char>>)
    requires
        is_path(tprime_spec(n), c),
        c.len() >= 1,
    ensures
        t_linked(c[0], c.last()),
    decreases c.len(),
{
    if c.len() == 1 {
        let d = seq![c[0]];
        assert(is_path(t_rules_spec(), d));
        assert(d.last() == c.last());
    } else {
        let e = c.drop_last();
        assert forall|i: int| 0 <= i < e.len() - 1 implies #[trigger] linked(tprime_spec(n), e[i], e[i + 1]) by {
            assert(linked(tprime_spec(n), c[i], c[i + 1]));
        }
        lemma_tprime_path_is_t_path(n, e);
        let i = c.len() - 2;
        assert(linked(tprime_spec(n), c[i], c[i + 1]));
        if one_step(tprime_spec(n), c[i], c[i + 1]) {
            lemma_tprime_step_in_t(n, c[i], c[i + 1]);
        } else {
            lemma_tprime_step_in_t(n, c[i + 1], c[i]);
            lemma_t_linked_sym(c[i + 1], c[i]);
        }
        assert(e.last() == c[i]);
        lemma_t_linked_trans(c[0], c[i], c.last());
    }
}

} // verus!
