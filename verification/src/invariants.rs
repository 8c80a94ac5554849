//! The invariants `I`, `P` and `M` of words over `{a, b, c, d}`: the parity of
//! a word's length in bytes, and the letter balance `#a + #c - #b - #d` taken
//! modulo 2 and modulo 4. A rule set keeps an invariant when each of its rules
//! has the same value on both sides; then every chain of rewrites keeps it too.
use crate::rewriting::{
    bwd_at, fwd_at, is_chain, is_path, linked, occurs_at, one_step, replaced, rewrites_to, rules_view, Rules,
};
use vstd::prelude::*;

verus! {

/// How many times `ch` occurs in `w`.
pub open spec fn count_of(w: Seq<char>, ch: char) -> nat
    decreases w.len(),
{
    if w.len() == 0 {
        0
    } else {
        count_of(w.drop_last(), ch) + if w.last() == ch { 1nat } else { 0nat }
    }
}

/// The length of `w` in bytes, encoded as UTF-8.
pub open spec fn byte_len(w: Seq<char>) -> nat {
    vstd::utf8::encode_utf8(w).len()
}

/// `#a + #c - #b - #d` in `w`.
pub open spec fn letter_balance(w: Seq<char>) -> int {
    count_of(w, 'a') + count_of(w, 'c') - count_of(w, 'b') - count_of(w, 'd')
}

/// The invariant `I`: the parity of the length in bytes.
pub open spec fn inv_i_spec(w: Seq<char>) -> int {
    (byte_len(w) % 2) as int
}

/// The invariant `P`: the letter balance modulo 2.
pub open spec fn inv_p_spec(w: Seq<char>) -> int {
    letter_balance(w) % 2
}

/// The invariant `M`: the letter balance modulo 4.
pub open spec fn inv_m_spec(w: Seq<char>) -> int {
    letter_balance(w) % 4
}

/// `w` is short enough for its counts and its length to fit in an `i32`.
pub open spec fn fits_i32(w: Seq<char>) -> bool {
    w.len() <= i32::MAX && byte_len(w) <= i32::MAX
}

/// Each rule has the same `I` on both sides.
pub open spec fn keeps_i(rules: Seq<(Seq<char>, Seq<char>)>) -> bool {
    forall|k: int| 0 <= k < rules.len() ==> inv_i_spec(#[trigger] rules[k].0) == inv_i_spec(rules[k].1)
}

/// Each rule has the same `P` on both sides.
pub open spec fn keeps_p(rules: Seq<(Seq<char>, Seq<char>)>) -> bool {
    forall|k: int| 0 <= k < rules.len() ==> inv_p_spec(#[trigger] rules[k].0) == inv_p_spec(rules[k].1)
}

/// Each rule has the same `M` on both sides.
pub open spec fn keeps_m(rules: Seq<(Seq<char>, Seq<char>)>) -> bool {
    forall|k: int| 0 <= k < rules.len() ==> inv_m_spec(#[trigger] rules[k].0) == inv_m_spec(rules[k].1)
}

proof fn lemma_count_concat(a: Seq<char>, b: Seq<char>, ch: char)
    ensures
        count_of(a + b, ch) == count_of(a, ch) + count_of(b, ch),
    decreases b.len(),
{
    if b.len() > 0 {
        assert((a + b).drop_last() =~= a + b.drop_last());
        lemma_count_concat(a, b.drop_last(), ch);
    } else {
        assert(a + b =~= a);
    }
}

/// Replacing an occurrence of `l` by `r` changes the counts and the length in
/// bytes by the difference between `r` and `l`.
proof fn lemma_replaced_measures(s: Seq<char>, p: int, l: Seq<char>, r: Seq<char>)
    requires
        occurs_at(s, l, p),
    ensures
        letter_balance(replaced(s, p, l.len() as int, r)) == letter_balance(s) - letter_balance(l) + letter_balance(r),
        byte_len(replaced(s, p, l.len() as int, r)) == byte_len(s) - byte_len(l) + byte_len(r),
{
    let pre = s.take(p);
    let post = s.skip(p + l.len());
    assert(s =~= pre + l + post);
    let t = replaced(s, p, l.len() as int, r);
    assert(t =~= pre + r + post);
    lemma_count_concat(pre + l, post, 'a');
    lemma_count_concat(pre, l, 'a');
    lemma_count_concat(pre + r, post, 'a');
    lemma_count_concat(pre, r, 'a');
    lemma_count_concat(pre + l, post, 'b');
    lemma_count_concat(pre, l, 'b');
    lemma_count_concat(pre + r, post, 'b');
    lemma_count_concat(pre, r, 'b');
    lemma_count_concat(pre + l, post, 'c');
    lemma_count_concat(pre, l, 'c');
    lemma_count_concat(pre + r, post, 'c');
    lemma_count_concat(pre, r, 'c');
    lemma_count_concat(pre + l, post, 'd');
    lemma_count_concat(pre, l, 'd');
    lemma_count_concat(pre + r, post, 'd');
    lemma_count_concat(pre, r, 'd');
    crate::text::lemma_encode_concat(pre + l, post);
    crate::text::lemma_encode_concat(pre, l);
    crate::text::lemma_encode_concat(pre + r, post);
    crate::text::lemma_encode_concat(pre, r);
}

/// One forward rewrite by rules that each keep an invariant keeps it.
pub proof fn lemma_rewrite_keeps_invariants(rules: Seq<(Seq<char>, Seq<char>)>, s: Seq<char>, t: Seq<char>)
    requires
        rewrites_to(rules, s, t),
    ensures
        keeps_i(rules) ==> inv_i_spec(t) == inv_i_spec(s),
        keeps_p(rules) ==> inv_p_spec(t) == inv_p_spec(s),
        keeps_m(rules) ==> inv_m_spec(t) == inv_m_spec(s),
{
    let (k, p) = choose|k: int, p: int| #[trigger] fwd_at(rules, s, t, k, p);
    let l = rules[k].0;
    let r = rules[k].1;
    lemma_replaced_measures(s, p, l, r);
    let bs = letter_balance(s);
    let bl = letter_balance(l);
    let br = letter_balance(r);
    let ys = byte_len(s) as int;
    let yl = byte_len(l) as int;
    let yr = byte_len(r) as int;
    if keeps_i(rules) {
        assert(inv_i_spec(rules[k].0) == inv_i_spec(rules[k].1));
        assert((ys - yl + yr) % 2 == ys % 2) by {
            vstd::arithmetic::div_mod::lemma_mod_sub_multiples_vanish(ys - yl + yr, 2);
            assert(yl % 2 == yr % 2);
            vstd::arithmetic::div_mod::lemma_fundamental_div_mod(yl, 2);
            vstd::arithmetic::div_mod::lemma_fundamental_div_mod(yr, 2);
            vstd::arithmetic::div_mod::lemma_mod_multiples_vanish(yr / 2 - yl / 2, ys, 2);
        }
    }
    if keeps_p(rules) {
        assert(inv_p_spec(rules[k].0) == inv_p_spec(rules[k].1));
        assert((bs - bl + br) % 2 == bs % 2) by {
            vstd::arithmetic::div_mod::lemma_fundamental_div_mod(bl, 2);
            vstd::arithmetic::div_mod::lemma_fundamental_div_mod(br, 2);
            vstd::arithmetic::div_mod::lemma_mod_multiples_vanish(br / 2 - bl / 2, bs, 2);
        }
    }
    if keeps_m(rules) {
        assert(inv_m_spec(rules[k].0) == inv_m_spec(rules[k].1));
        assert((bs - bl + br) % 4 == bs % 4) by {
            vstd::arithmetic::div_mod::lemma_fundamental_div_mod(bl, 4);
            vstd::arithmetic::div_mod::lemma_fundamental_div_mod(br, 4);
            vstd::arithmetic::div_mod::lemma_mod_multiples_vanish(br / 4 - bl / 4, bs, 4);
        }
    }
}

/// Along a chain of forward rewrites by rules that each keep an invariant,
/// every word has the invariant of the first word; in particular the last
/// word does.
pub proof fn lemma_chain_keeps_invariants(rules: Seq<(Seq<char>, Seq<char>)>, c: Seq<Seq<char>>)
    requires
        is_chain(rules, c),
        c.len() >= 1,
    ensures
        keeps_i(rules) ==> inv_i_spec(c.last()) == inv_i_spec(c[0]),
        keeps_p(rules) ==> inv_p_spec(c.last()) == inv_p_spec(c[0]),
        keeps_m(rules) ==> inv_m_spec(c.last()) == inv_m_spec(c[0]),
    decreases c.len(),
{
    if c.len() > 1 {
        let d = c.drop_last();
        assert forall|i: int| 0 <= i < d.len() - 1 implies #[trigger] rewrites_to(rules, d[i], d[i + 1]) by {
            assert(rewrites_to(rules, c[i], c[i + 1]));
        }
        lemma_chain_keeps_invariants(rules, d);
        let i = c.len() - 2;
        assert(rewrites_to(rules, c[i], c[i + 1]));
        lemma_rewrite_keeps_invariants(rules, c[i], c[i + 1]);
    }
}

/// Each rule with its two sides swapped.
pub open spec fn swapped(rules: Seq<(Seq<char>, Seq<char>)>) -> Seq<(Seq<char>, Seq<char>)> {
    rules.map_values(|q: (Seq<char>, Seq<char>)| (q.1, q.0))
}

/// One rewrite, forward or backward, by rules that each keep an invariant
/// keeps it.
pub proof fn lemma_one_step_keeps_invariants(rules: Seq<(Seq<char>, Seq<char>)>, s: Seq<char>, t: Seq<char>)
    requires
        one_step(rules, s, t),
    ensures
        keeps_i(rules) ==> inv_i_spec(t) == inv_i_spec(s),
        keeps_p(rules) ==> inv_p_spec(t) == inv_p_spec(s),
        keeps_m(rules) ==> inv_m_spec(t) == inv_m_spec(s),
{
    let (k, p) = choose|k: int, p: int|
        #![trigger fwd_at(rules, s, t, k, p)]
        #![trigger bwd_at(rules, s, t, k, p)]
        fwd_at(rules, s, t, k, p) || bwd_at(rules, s, t, k, p);
    if fwd_at(rules, s, t, k, p) {
        lemma_rewrite_keeps_invariants(rules, s, t);
    } else {
        let sw = swapped(rules);
        assert(sw[k] == (rules[k].1, rules[k].0));
        assert(fwd_at(sw, s, t, k, p));
        if keeps_i(rules) {
            assert forall|j: int| 0 <= j < sw.len() implies inv_i_spec(#[trigger] sw[j].0) == inv_i_spec(sw[j].1) by {
                assert(sw[j] == (rules[j].1, rules[j].0));
                assert(inv_i_spec(rules[j].0) == inv_i_spec(rules[j].1));
            }
        }
        if keeps_p(rules) {
            assert forall|j: int| 0 <= j < sw.len() implies inv_p_spec(#[trigger] sw[j].0) == inv_p_spec(sw[j].1) by {
                assert(sw[j] == (rules[j].1, rules[j].0));
                assert(inv_p_spec(rules[j].0) == inv_p_spec(rules[j].1));
            }
        }
        if keeps_m(rules) {
            assert forall|j: int| 0 <= j < sw.len() implies inv_m_spec(#[trigger] sw[j].0) == inv_m_spec(sw[j].1) by {
                assert(sw[j] == (rules[j].1, rules[j].0));
                assert(inv_m_spec(rules[j].0) == inv_m_spec(rules[j].1));
            }
        }
        lemma_rewrite_keeps_invariants(sw, s, t);
    }
}

/// Along a path of rewrites, each used forward or backward, by rules that
/// each keep an invariant, the last word has the invariant of the first: a
/// search by such rules finds no path between words that differ on it.
pub proof fn lemma_path_keeps_invariants(rules: Seq<(Seq<char>, Seq<char>)>, c: Seq<Seq<char>>)
    requires
        is_path(rules, c),
        c.len() >= 1,
    ensures
        keeps_i(rules) ==> inv_i_spec(c.last()) == inv_i_spec(c[0]),
        keeps_p(rules) ==> inv_p_spec(c.last()) == inv_p_spec(c[0]),
        keeps_m(rules) ==> inv_m_spec(c.last()) == inv_m_spec(c[0]),
    decreases c.len(),
{
    if c.len() > 1 {
        let d = c.drop_last();
        assert forall|i: int| 0 <= i < d.len() - 1 implies #[trigger] linked(rules, d[i], d[i + 1]) by {
            assert(linked(rules, c[i], c[i + 1]));
        }
        lemma_path_keeps_invariants(rules, d);
        let i = c.len() - 2;
        assert(linked(rules, c[i], c[i + 1]));
        if one_step(rules, c[i], c[i + 1]) {
            lemma_one_step_keeps_invariants(rules, c[i], c[i + 1]);
        } else {
            lemma_one_step_keeps_invariants(rules, c[i + 1], c[i]);
        }
    }
}

/// A `T'`-path, each rewrite used either way, joins only words that agree on
/// `I`, `P` and `M`; so the search between words that differ on one of them
/// returns no path.
pub proof fn lemma_tprime_path_keeps_invariants(n: nat, c: Seq<Seq<char>>)
    requires
        is_path(crate::rewriting::tprime_spec(n), c),
        c.len() >= 1,
    ensures
        inv_i_spec(c.last()) == inv_i_spec(c[0]),
        inv_p_spec(c.last()) == inv_p_spec(c[0]),
        inv_m_spec(c.last()) == inv_m_spec(c[0]),
{
    lemma_tprime_keeps_invariants(n);
    lemma_path_keeps_invariants(crate::rewriting::tprime_spec(n), c);
}

} // verus!

verus! {

/// How many `a`, `b`, `c` and `d` there are in `w`.
pub fn count_letters(w: &str) -> (res: (i32, i32, i32, i32))
    requires
        w@.len() <= i32::MAX,
    ensures
        res.0 == count_of(w@, 'a'),
        res.1 == count_of(w@, 'b'),
        res.2 == count_of(w@, 'c'),
        res.3 == count_of(w@, 'd'),
        res.0 + res.1 + res.2 + res.3 <= w@.len(),
{
    let v = crate::text::char_vec(w);
    let mut a: i32 = 0;
    let mut b: i32 = 0;
    let mut c: i32 = 0;
    let mut d: i32 = 0;
    let mut i: usize = 0;
    while i < v.len()
        invariant
            0 <= i <= v@.len(),
            v@ == w@,
            v@.len() <= i32::MAX,
            a == count_of(w@.take(i as int), 'a'),
            b == count_of(w@.take(i as int), 'b'),
            c == count_of(w@.take(i as int), 'c'),
            d == count_of(w@.take(i as int), 'd'),
            a + b + c + d <= i,
        decreases v@.len() - i,
    {
        assert(w@.take(i + 1).drop_last() =~= w@.take(i as int));
        let ch = v[i];
        if ch == 'a' {
            a = a + 1;
        } else if ch == 'b' {
            b = b + 1;
        } else if ch == 'c' {
            c = c + 1;
        } else if ch == 'd' {
            d = d + 1;
        }
        i = i + 1;
    }
    assert(w@.take(v@.len() as int) =~= w@);
    (a, b, c, d)
}

/// Rust's remainder of `x` by a positive `m`: it takes the sign of `x`.
pub open spec fn trunc_rem(x: int, m: int) -> int {
    if x >= 0 { x % m } else { -((-x) % m) }
}

/// The invariant `I` of `w`: the parity of its length in bytes.
pub fn inv_i(w: &str) -> (r: i32)
    ensures
        byte_len(w@) <= i32::MAX ==> r == inv_i_spec(w@),
        r == trunc_rem(byte_len(w@) as usize as i32 as int, 2),
{
    let n = w.len();
    let m: i32 = #[verifier::truncate] (n as i32);
    m % 2
}

/// The invariant `P` of `w`: its letter balance modulo 2.
pub fn inv_p(w: &str) -> (r: i32)
    requires
        w@.len() <= i32::MAX,
    ensures
        r == inv_p_spec(w@),
{
    let (a, b, c, d) = count_letters(w);
    let x = a + c - b - d;
    x.checked_rem_euclid(2).unwrap()
}

/// The invariant `M` of `w`: its letter balance modulo 4.
pub fn inv_m(w: &str) -> (r: i32)
    requires
        w@.len() <= i32::MAX,
    ensures
        r == inv_m_spec(w@),
{
    let (a, b, c, d) = count_letters(w);
    let x = a + c - b - d;
    x.checked_rem_euclid(4).unwrap()
}

/// The invariants `(I, P, M)` of `w`.
pub fn inv_vec(w: &str) -> (r: (i32, i32, i32))
    requires
        fits_i32(w@),
    ensures
        r == (inv_i_spec(w@) as i32, inv_p_spec(w@) as i32, inv_m_spec(w@) as i32),
{
    (inv_i(w), inv_p(w), inv_m(w))
}

/// For each invariant, whether every rule of a set keeps it.
#[derive(Clone, Copy)]
pub struct RuleChecks {
    pub i: bool,
    pub p: bool,
    pub m: bool,
}

/// Both sides of every rule fit in an `i32` as [`fits_i32`] says.
pub open spec fn rules_fit_i32(rules: Seq<(Seq<char>, Seq<char>)>) -> bool {
    forall|k: int| 0 <= k < rules.len() ==> fits_i32(#[trigger] rules[k].0) && fits_i32(rules[k].1)
}

/// Which of the invariants `I`, `P`, `M` every rule of `rules` keeps.
pub fn check_rules(rules: &Rules) -> (res: RuleChecks)
    requires
        rules_fit_i32(rules_view(rules@)),
    ensures
        res.i == keeps_i(rules_view(rules@)),
        res.p == keeps_p(rules_view(rules@)),
        res.m == keeps_m(rules_view(rules@)),
{
    let ghost rv = rules_view(rules@);
    let mut ok_i = true;
    let mut ok_p = true;
    let mut ok_m = true;
    let mut k: usize = 0;
    while k < rules.len()
        invariant
            0 <= k <= rules@.len(),
            rv == rules_view(rules@),
            rules_fit_i32(rv),
            ok_i ==> forall|q: int| 0 <= q < k ==> inv_i_spec(#[trigger] rv[q].0) == inv_i_spec(rv[q].1),
            ok_p ==> forall|q: int| 0 <= q < k ==> inv_p_spec(#[trigger] rv[q].0) == inv_p_spec(rv[q].1),
            ok_m ==> forall|q: int| 0 <= q < k ==> inv_m_spec(#[trigger] rv[q].0) == inv_m_spec(rv[q].1),
            !ok_i ==> exists|q: int| 0 <= q < k && inv_i_spec(#[trigger] rv[q].0) != inv_i_spec(rv[q].1),
            !ok_p ==> exists|q: int| 0 <= q < k && inv_p_spec(#[trigger] rv[q].0) != inv_p_spec(rv[q].1),
            !ok_m ==> exists|q: int| 0 <= q < k && inv_m_spec(#[trigger] rv[q].0) != inv_m_spec(rv[q].1),
        decreases rules@.len() - k,
    {
        let l: &String = &rules[k].0;
        let r: &String = &rules[k].1;
        assert(rv[k as int] == (l@, r@));
        assert(fits_i32(rv[k as int].0));
        let (li, lp, lm) = inv_vec(l.as_str());
        let (ri, rp, rm) = inv_vec(r.as_str());
        if li != ri {
            ok_i = false;
        }
        if lp != rp {
            ok_p = false;
        }
        if lm != rm {
            ok_m = false;
        }
        k = k + 1;
    }
    RuleChecks { i: ok_i, p: ok_p, m: ok_m }
}

/// Whether the last word of `chain` has each of the invariants `I`, `P`, `M`
/// of its first word.
pub fn check_ends(chain: &[String]) -> (res: (bool, bool, bool))
    requires
        chain@.len() >= 1,
        fits_i32(chain@[0]@),
        fits_i32(chain@.last()@),
    ensures
        res.0 == (inv_i_spec(chain@[0]@) == inv_i_spec(chain@.last()@)),
        res.1 == (inv_p_spec(chain@[0]@) == inv_p_spec(chain@.last()@)),
        res.2 == (inv_m_spec(chain@[0]@) == inv_m_spec(chain@.last()@)),
{
    let w0: &String = &chain[0];
    let w_n: &String = &chain[chain.len() - 1];
    let v0 = inv_vec(w0.as_str());
    let v_n = inv_vec(w_n.as_str());
    (v0.0 == v_n.0, v0.1 == v_n.1, v0.2 == v_n.2)
}

/// `"OK"` for `true`, `"FAIL"` for `false`.
pub fn status(v: bool) -> (r: &'static str)
    ensures
        r@ == (if v { "OK"@ } else { "FAIL"@ }),
{
    if v {
        "OK"
    } else {
        "FAIL"
    }
}

/// The words of `ws` joined by `sep`.
pub open spec fn joined(ws: Seq<Seq<char>>, sep: Seq<char>) -> Seq<char>
    decreases ws.len(),
{
    if ws.len() == 0 {
        Seq::empty()
    } else if ws.len() == 1 {
        ws[0]
    } else {
        joined(ws.drop_last(), sep) + sep + ws.last()
    }
}

/// The words of `chain` joined by `" -> "`.
pub fn join_chain(chain: &[String]) -> (s: String)
    ensures
        s@ == joined(crate::rewriting::words_view(chain@), " -> "@),
{
    let ghost wv = crate::rewriting::words_view(chain@);
    let mut s = String::new();
    let mut i: usize = 0;
    while i < chain.len()
        invariant
            0 <= i <= chain@.len(),
            wv == crate::rewriting::words_view(chain@),
            s@ == joined(wv.take(i as int), " -> "@),
        decreases chain@.len() - i,
    {
        assert(wv.take(i + 1).drop_last() =~= wv.take(i as int));
        if i > 0 {
            s.append(" -> ");
        } else {
            assert(wv.take(i as int).len() == 0);
        }
        s.append(chain[i].as_str());
        i = i + 1;
    }
    assert(wv.take(chain@.len() as int) =~= wv);
    s
}

} // verus!

verus! {

/// A word over `{a, b, c, d}` takes one byte per letter.
pub proof fn lemma_abcd_byte_len(w: Seq<char>)
    requires
        crate::rewriting::over_abcd(w),
    ensures
        byte_len(w) == w.len(),
{
    assert(vstd::utf8::is_ascii_chars(w));
    vstd::utf8::is_ascii_chars_encode_utf8(w);
}

/// Both sides of every rule of `T` fit in an `i32`.
pub proof fn lemma_t_rules_fit()
    ensures
        rules_fit_i32(crate::rewriting::t_rules_spec()),
{
    reveal_strlit("aa");
    reveal_strlit("bb");
    reveal_strlit("ccb");
    reveal_strlit("dca");
    reveal_strlit("a");
    reveal_strlit("dcc");
    reveal_strlit("cd");
    reveal_strlit("bc");
    let rs = crate::rewriting::t_rules_spec();
    assert forall|k: int| 0 <= k < rs.len() implies fits_i32(#[trigger] rs[k].0) && fits_i32(rs[k].1) by {
        lemma_abcd_byte_len(rs[k].0);
        lemma_abcd_byte_len(rs[k].1);
    }
}

/// Both sides of every rule of `T'` with up to 1000 generated rules fit in an `i32`.
pub proof fn lemma_tprime_fit(n: nat)
    requires
        n <= 1000,
    ensures
        rules_fit_i32(crate::rewriting::tprime_spec(n)),
{
    crate::rewriting::lemma_tprime_shortening(n);
    let rs = crate::rewriting::tprime_spec(n);
    assert forall|k: int| 0 <= k < rs.len() implies fits_i32(#[trigger] rs[k].0) && fits_i32(rs[k].1) by {
        assert(crate::rewriting::over_abcd(rs[k].0));
        lemma_abcd_byte_len(rs[k].0);
        lemma_abcd_byte_len(rs[k].1);
    }
}

} // verus!

verus! {

proof fn lemma_count_repeat(t: Seq<char>, k: nat, ch: char)
    ensures
        count_of(crate::rewriting::repeat_text(t, k), ch) == k * count_of(t, ch),
    decreases k,
{
    if k > 0 {
        let j = (k - 1) as nat;
        lemma_count_repeat(t, j, ch);
        lemma_count_concat(crate::rewriting::repeat_text(t, j), t, ch);
        assert(j * count_of(t, ch) + count_of(t, ch) == k * count_of(t, ch)) by (nonlinear_arith)
            requires
                j + 1 == k,
        ;
    } else {
        assert(k * count_of(t, ch) == 0) by (nonlinear_arith)
            requires
                k == 0,
        ;
    }
}

proof fn lemma_balance_concat(a: Seq<char>, b: Seq<char>)
    ensures
        letter_balance(a + b) == letter_balance(a) + letter_balance(b),
{
    lemma_count_concat(a, b, 'a');
    lemma_count_concat(a, b, 'b');
    lemma_count_concat(a, b, 'c');
    lemma_count_concat(a, b, 'd');
}

proof fn lemma_balance_repeat(t: Seq<char>, k: nat)
    ensures
        letter_balance(crate::rewriting::repeat_text(t, k)) == k * letter_balance(t),
{
    lemma_count_repeat(t, k, 'a');
    lemma_count_repeat(t, k, 'b');
    lemma_count_repeat(t, k, 'c');
    lemma_count_repeat(t, k, 'd');
    let ca = count_of(t, 'a') as int;
    let cb = count_of(t, 'b') as int;
    let cc = count_of(t, 'c') as int;
    let cd = count_of(t, 'd') as int;
    let ki = k as int;
    assert(ki * ca + ki * cc - ki * cb - ki * cd == ki * (ca + cc - cb - cd)) by (nonlinear_arith);
}

/// The generated rule `gen_rule_spec(n)` has the same length parity and the
/// same letter balance on both sides.
proof fn lemma_gen_rule_measures(n: nat)
    ensures
        letter_balance(crate::rewriting::gen_rule_spec(n).0) == letter_balance(crate::rewriting::gen_rule_spec(n).1),
        byte_len(crate::rewriting::gen_rule_spec(n).0) == 3 * n + 7,
        byte_len(crate::rewriting::gen_rule_spec(n).1) == 3 * n + 5,
{
    reveal_strlit("bcc");
    reveal_strlit("acc");
    reveal_strlit("c");
    reveal_strlit("a");
    reveal_with_fuel(count_of, 4);
    let r1 = crate::rewriting::repeat_text("acc"@, n + 1);
    let r2 = crate::rewriting::repeat_text("c"@, 3 * n + 4);
    assert(letter_balance("bcc"@) == 1);
    assert(letter_balance("acc"@) == 3);
    assert(letter_balance("c"@) == 1);
    assert(letter_balance("a"@) == 1);
    lemma_balance_repeat("acc"@, n + 1);
    lemma_balance_repeat("c"@, 3 * n + 4);
    lemma_balance_concat("bcc"@, r1);
    lemma_balance_concat("bcc"@ + r1, "c"@);
    lemma_balance_concat(r2, "a"@);
    assert((n + 1) * 3 == 3 * n + 3) by (nonlinear_arith);
    crate::rewriting::lemma_tprime_shortening(n + 1);
    assert(crate::rewriting::tprime_spec(n + 1)[6 + n as int] == crate::rewriting::gen_rule_spec(n));
    lemma_abcd_byte_len(crate::rewriting::gen_rule_spec(n).0);
    lemma_abcd_byte_len(crate::rewriting::gen_rule_spec(n).1);
    crate::rewriting::lemma_gen_rule_lengths(n);
}

/// The rule `(l, r)` has the same `I`, `P` and `M` on both sides.
pub open spec fn rule_keeps(l: Seq<char>, r: Seq<char>) -> bool {
    &&& inv_i_spec(l) == inv_i_spec(r)
    &&& inv_p_spec(l) == inv_p_spec(r)
    &&& inv_m_spec(l) == inv_m_spec(r)
}

proof fn lemma_tprime_base_keeps()
    ensures
        forall|k: int| 0 <= k < 6 ==> rule_keeps(#[trigger] crate::rewriting::tprime_base_spec()[k].0, crate::rewriting::tprime_base_spec()[k].1),
{
    reveal_strlit("bb");
    reveal_strlit("aa");
    reveal_strlit("dca");
    reveal_strlit("ccb");
    reveal_strlit("dcc");
    reveal_strlit("a");
    reveal_strlit("cd");
    reveal_strlit("bc");
    reveal_strlit("cccb");
    reveal_strlit("bcca");
    reveal_strlit("bccc");
    reveal_strlit("ca");
    reveal_with_fuel(count_of, 5);
    let rs = crate::rewriting::tprime_base_spec();
    assert forall|k: int| 0 <= k < 6 implies rule_keeps(#[trigger] rs[k].0, rs[k].1) by {
        crate::rewriting::lemma_tprime_shortening(0);
        assert(crate::rewriting::tprime_spec(0)[k] == rs[k]);
        lemma_abcd_byte_len(rs[k].0);
        lemma_abcd_byte_len(rs[k].1);
    }
}

/// Every rule of `T'`, with any number of generated rules, keeps the
/// invariants `I`, `P` and `M`.
pub proof fn lemma_tprime_keeps_invariants(n: nat)
    ensures
        keeps_i(crate::rewriting::tprime_spec(n)),
        keeps_p(crate::rewriting::tprime_spec(n)),
        keeps_m(crate::rewriting::tprime_spec(n)),
{
    let rs = crate::rewriting::tprime_spec(n);
    lemma_tprime_base_keeps();
    assert forall|k: int| 0 <= k < rs.len() implies rule_keeps(#[trigger] rs[k].0, rs[k].1) by {
        if k >= 6 {
            let m = (k - 6) as nat;
            assert(rs[k] == crate::rewriting::gen_rule_spec(m));
            lemma_gen_rule_measures(m);
        } else {
            assert(rs[k] == crate::rewriting::tprime_base_spec()[k]);
        }
    }
}

/// Every rule of `T` keeps the invariants `I`, `P` and `M`.
pub proof fn lemma_t_keeps_invariants()
    ensures
        keeps_i(crate::rewriting::t_rules_spec()),
        keeps_p(crate::rewriting::t_rules_spec()),
        keeps_m(crate::rewriting::t_rules_spec()),
{
    reveal_strlit("aa");
    reveal_strlit("bb");
    reveal_strlit("ccb");
    reveal_strlit("dca");
    reveal_strlit("a");
    reveal_strlit("dcc");
    reveal_strlit("cd");
    reveal_strlit("bc");
    reveal_with_fuel(count_of, 4);
    let rs = crate::rewriting::t_rules_spec();
    assert forall|k: int| 0 <= k < rs.len() implies {
        &&& inv_i_spec(#[trigger] rs[k].0) == inv_i_spec(rs[k].1)
        &&& inv_p_spec(rs[k].0) == inv_p_spec(rs[k].1)
        &&& inv_m_spec(rs[k].0) == inv_m_spec(rs[k].1)
    } by {
        lemma_abcd_byte_len(rs[k].0);
        lemma_abcd_byte_len(rs[k].1);
    }
}

} // verus!
