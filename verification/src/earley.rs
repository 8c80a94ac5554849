//! An Earley recognizer: items packed into `u64`, the chart of item sets,
//! and the proof that the recognizer decides the language of the grammar.
use std::collections::HashSet;
use vstd::prelude::*;
use crate::grammar::{Grammar, Symbol};

verus! {

broadcast use vstd::std_specs::hash::group_hash_axioms;

/// The next value of the xorshift generator `x ^= x << 7; x ^= x >> 9; x ^= x << 8`.
pub open spec fn xorshift(x: u64) -> u64 {
    let x1 = x ^ (x << 7u64);
    let x2 = x1 ^ (x1 >> 9u64);
    x2 ^ (x2 << 8u64)
}

/// Advances the generator state `seed` and returns the new state.
pub fn rng_next(seed: &mut u64) -> (r: u64)
    ensures
        r == xorshift(*old(seed)),
        *final(seed) == r,
{
    let mut x: u64 = *seed;
    x = x ^ (x << 7u64);
    x = x ^ (x >> 9u64);
    x = x ^ (x << 8u64);
    *seed = x;
    x
}

/// The xorshift step is one to one: distinct states have distinct successors,
/// so on the finite set of `u64` it is a permutation, and a nonzero state
/// never becomes `0`.
pub proof fn lemma_xorshift_injective(x: u64, y: u64)
    requires
        xorshift(x) == xorshift(y),
    ensures
        x == y,
{
    let x1 = x ^ (x << 7u64);
    let y1 = y ^ (y << 7u64);
    let x2 = x1 ^ (x1 >> 9u64);
    let y2 = y1 ^ (y1 >> 9u64);
    assert(x2 ^ (x2 << 8u64) == y2 ^ (y2 << 8u64) ==> x2 == y2) by (bit_vector);
    assert(x1 ^ (x1 >> 9u64) == y1 ^ (y1 >> 9u64) ==> x1 == y1) by (bit_vector);
    assert(x ^ (x << 7u64) == y ^ (y << 7u64) ==> x == y) by (bit_vector);
}

/// The generator keeps `0` at `0` and a nonzero state nonzero.
pub proof fn lemma_xorshift_zero(x: u64)
    ensures
        (xorshift(x) == 0) == (x == 0),
{
    assert(xorshift(0u64) == 0u64) by (bit_vector);
    if xorshift(x) == 0 {
        lemma_xorshift_injective(x, 0u64);
    }
}

/// The item `(rule, dot, origin)` packed as `rule | dot << 24 | origin << 32`.
pub open spec fn pack(rule: u64, dot: u64, origin: u64) -> u64 {
    rule | (dot << 24u64) | (origin << 32u64)
}

/// The rule of a packed item: its low 24 bits.
pub open spec fn rule_of(x: u64) -> u64 {
    x & 0xFFFFFFu64
}

/// The dot of a packed item: bits 24 to 31.
pub open spec fn dot_of(x: u64) -> u64 {
    (x >> 24u64) & 0xFFu64
}

/// The origin of a packed item: bits 32 to 39.
pub open spec fn origin_of(x: u64) -> u64 {
    (x >> 32u64) & 0xFFu64
}

/// Packs the item `(rule_id, dot, origin)`.
pub fn make_item(rule_id: usize, dot: usize, origin: usize) -> (x: u64)
    ensures
        x == pack(rule_id as u64, dot as u64, origin as u64),
{
    let a: u64 = rule_id as u64;
    let b: u64 = (dot as u64) << 24u64;
    let c: u64 = (origin as u64) << 32u64;
    a | b | c
}

/// The rule of the packed item `x`.
pub fn item_rule(x: u64) -> (r: usize)
    ensures
        r as u64 == rule_of(x),
{
    assert(x & 0xFFFFFFu64 <= 0xFFFFFFu64) by (bit_vector);
    (x & 0xFFFFFFu64) as usize
}

/// The dot of the packed item `x`.
pub fn item_dot(x: u64) -> (r: usize)
    ensures
        r as u64 == dot_of(x),
{
    assert((x >> 24u64) & 0xFFu64 <= 0xFFu64) by (bit_vector);
    ((x >> 24u64) & 0xFFu64) as usize
}

/// The origin of the packed item `x`.
pub fn item_origin(x: u64) -> (r: usize)
    ensures
        r as u64 == origin_of(x),
{
    assert((x >> 32u64) & 0xFFu64 <= 0xFFu64) by (bit_vector);
    ((x >> 32u64) & 0xFFu64) as usize
}

/// Unpacking gives back what was packed, for a rule below `2^24`, a dot and
/// an origin below `2^8`; the packed value is then below `2^40`.
pub proof fn lemma_pack_unpack(rule: u64, dot: u64, origin: u64)
    requires
        rule < 0x1000000,
        dot < 0x100,
        origin < 0x100,
    ensures
        rule_of(pack(rule, dot, origin)) == rule,
        dot_of(pack(rule, dot, origin)) == dot,
        origin_of(pack(rule, dot, origin)) == origin,
        pack(rule, dot, origin) < 0x10000000000u64,
{
    assert(rule_of(pack(rule, dot, origin)) == rule) by (bit_vector)
        requires
            rule < 0x1000000u64,
            dot < 0x100u64,
            origin < 0x100u64,
    ;
    assert(dot_of(pack(rule, dot, origin)) == dot) by (bit_vector)
        requires
            rule < 0x1000000u64,
            dot < 0x100u64,
            origin < 0x100u64,
    ;
    assert(origin_of(pack(rule, dot, origin)) == origin) by (bit_vector)
        requires
            rule < 0x1000000u64,
            dot < 0x100u64,
            origin < 0x100u64,
    ;
    assert(pack(rule, dot, origin) < 0x10000000000u64) by (bit_vector)
        requires
            rule < 0x1000000u64,
            dot < 0x100u64,
            origin < 0x100u64,
    ;
}

} // verus!

verus! {

/// The working storage of the recognizer, reused from word to word: for each
/// column an item set (`chart`) and a list of items still to process (`agenda`).
pub struct ParseState {
    pub chart: Vec<HashSet<u64>>,
    pub agenda: Vec<Vec<u64>>,
    pub temp: Vec<u64>,
}

impl ParseState {
    /// The same number of chart entries and of agenda entries as `other`.
    pub open spec fn same_shape_as(&self, other: ParseState) -> bool {
        self.chart@.len() == other.chart@.len() && self.agenda@.len() == other.agenda@.len()
    }

    /// The number of usable columns, those that both the chart and the agenda
    /// have, so words up to `columns() - 1` letters fit.
    pub open spec fn columns(&self) -> int {
        if self.chart@.len() <= self.agenda@.len() {
            self.chart@.len() as int
        } else {
            self.agenda@.len() as int
        }
    }
}

/// Storage for words of up to `max_len` letters: `max_len + 1` empty columns.
pub fn ws_new(max_len: usize) -> (ws: ParseState)
    requires
        max_len < usize::MAX,
    ensures
        ws.columns() == max_len + 1,
        ws.chart@.len() == max_len + 1,
        ws.agenda@.len() == max_len + 1,
        forall|i: int| 0 <= i <= max_len ==> (#[trigger] ws.chart@[i])@ == Set::<u64>::empty(),
        forall|i: int| 0 <= i <= max_len ==> (#[trigger] ws.agenda@[i])@ == Seq::<u64>::empty(),
        ws.temp@ == Seq::<u64>::empty(),
{
    let mut chart: Vec<HashSet<u64>> = Vec::new();
    let mut agenda: Vec<Vec<u64>> = Vec::new();
    let mut i: usize = 0;
    while i <= max_len
        invariant
            0 <= i <= max_len + 1,
            max_len < usize::MAX,
            chart@.len() == i,
            agenda@.len() == i,
            forall|k: int| 0 <= k < i ==> (#[trigger] chart@[k])@ == Set::<u64>::empty(),
            forall|k: int| 0 <= k < i ==> (#[trigger] agenda@[k])@ == Seq::<u64>::empty(),
        decreases max_len + 1 - i,
    {
        chart.push(HashSet::new());
        agenda.push(Vec::new());
        i = i + 1;
    }
    ParseState { chart: chart, agenda: agenda, temp: Vec::new() }
}

/// Empties the columns `0..=used_len` and the scratch list.
pub fn ws_clear(ws: &mut ParseState, used_len: usize)
    requires
        used_len < old(ws).columns(),
    ensures
        final(ws).same_shape_as(*old(ws)),
        forall|i: int| 0 <= i <= used_len ==> (#[trigger] final(ws).chart@[i])@ == Set::<u64>::empty(),
        forall|i: int| 0 <= i <= used_len ==> (#[trigger] final(ws).agenda@[i])@ == Seq::<u64>::empty(),
        forall|i: int| used_len < i < old(ws).chart@.len() ==> #[trigger] final(ws).chart@[i] == old(ws).chart@[i],
        forall|i: int| used_len < i < old(ws).agenda@.len() ==> #[trigger] final(ws).agenda@[i] == old(ws).agenda@[i],
        final(ws).temp@ == Seq::<u64>::empty(),
{
    let cols = ws.chart.len();
    let mut i: usize = 0;
    while i <= used_len
        invariant
            0 <= i <= used_len + 1,
            used_len < cols,
            cols == ws.chart@.len(),
            used_len < old(ws).columns(),
            ws.same_shape_as(*old(ws)),
            forall|k: int| 0 <= k < i ==> (#[trigger] ws.chart@[k])@ == Set::<u64>::empty(),
            forall|k: int| 0 <= k < i ==> (#[trigger] ws.agenda@[k])@ == Seq::<u64>::empty(),
            forall|k: int| i <= k < old(ws).chart@.len() ==> #[trigger] ws.chart@[k] == old(ws).chart@[k],
            forall|k: int| i <= k < old(ws).agenda@.len() ==> #[trigger] ws.agenda@[k] == old(ws).agenda@[k],
        decreases used_len + 1 - i,
    {
        ws.chart[i].clear();
        ws.agenda[i].clear();
        i = i + 1;
    }
    ws.temp.clear();
}

/// Adds `item` to the column `col`, and to its agenda when it is new there.
pub fn add_item(ws: &mut ParseState, col: usize, item: u64)
    requires
        col < old(ws).columns(),
    ensures
        final(ws).same_shape_as(*old(ws)),
        final(ws).chart@[col as int]@ == old(ws).chart@[col as int]@.insert(item),
        final(ws).agenda@[col as int]@ == if old(ws).chart@[col as int]@.contains(item) {
            old(ws).agenda@[col as int]@
        } else {
            old(ws).agenda@[col as int]@.push(item)
        },
        forall|i: int| 0 <= i < old(ws).chart@.len() && i != col ==> #[trigger] final(ws).chart@[i] == old(ws).chart@[i],
        forall|i: int| 0 <= i < old(ws).agenda@.len() && i != col ==> #[trigger] final(ws).agenda@[i] == old(ws).agenda@[i],
        final(ws).temp == old(ws).temp,
{
    let inserted: bool = ws.chart[col].insert(item);
    if inserted {
        ws.agenda[col].push(item);
    }
}

} // verus!

verus! {

/// `x` packs an item `(r, d, o)` valid at column `j` of the word `w`: the
/// first `d` symbols of rule `r` derive the letters `o..j` of `w`.
pub open spec fn item_valid(g: &Grammar, w: Seq<u8>, j: int, x: u64) -> bool {
    let r = rule_of(x) as int;
    let d = dot_of(x) as int;
    let o = origin_of(x) as int;
    &&& x == pack(rule_of(x), dot_of(x), origin_of(x))
    &&& r < g.num_rules()
    &&& d <= g.rhs(r).len()
    &&& o <= j
    &&& (g.eps_free() ==> o + d <= j)
    &&& exists|n: nat| #[trigger] g.seq_gen(g.rhs(r).take(d), w.subrange(o, j), n)
}

/// Scanning the item `x` of column `j` has been done.
pub open spec fn scan_done(g: &Grammar, w: Seq<u8>, cv: Seq<HashSet<u64>>, j: int, x: u64) -> bool {
    let r = rule_of(x) as int;
    let d = dot_of(x) as int;
    (d < g.rhs(r).len() && g.rhs(r)[d].terminal && j < w.len() && crate::grammar::term_matches(
        g.rhs(r)[d].value,
        w[j],
    )) ==> cv[j + 1]@.contains(pack(rule_of(x), (dot_of(x) + 1) as u64, origin_of(x)))
}

/// Predicting from the item `x` of column `j` has been done.
pub open spec fn predict_done(g: &Grammar, cv: Seq<HashSet<u64>>, j: int, x: u64) -> bool {
    let r = rule_of(x) as int;
    let d = dot_of(x) as int;
    (d < g.rhs(r).len() && !g.rhs(r)[d].terminal) ==> forall|p: int|
        0 <= p < g.num_rules() && g.lhs(p) == g.rhs(r)[d].value ==> cv[j]@.contains(
            #[trigger] pack(p as u64, 0, j as u64),
        )
}

/// Completing with the item `x` of column `j` has been done.
pub open spec fn complete_done(g: &Grammar, cv: Seq<HashSet<u64>>, j: int, x: u64) -> bool {
    let r = rule_of(x) as int;
    let d = dot_of(x) as int;
    let o = origin_of(x) as int;
    d == g.rhs(r).len() ==> forall|y: u64|
        #[trigger] cv[o]@.contains(y) && dot_of(y) < g.rhs(rule_of(y) as int).len() && !g.rhs(
            rule_of(y) as int,
        )[dot_of(y) as int].terminal && g.rhs(rule_of(y) as int)[dot_of(y) as int].value == g.lhs(r)
            ==> cv[j]@.contains(pack(rule_of(y), (dot_of(y) + 1) as u64, origin_of(y)))
}

/// The item `x` of column `j` has been scanned, predicted and completed.
pub open spec fn processed(g: &Grammar, w: Seq<u8>, cv: Seq<HashSet<u64>>, j: int, x: u64) -> bool {
    &&& scan_done(g, w, cv, j, x)
    &&& predict_done(g, cv, j, x)
    &&& complete_done(g, cv, j, x)
}

/// Every item in the columns `0..=w.len()` is valid.
pub open spec fn chart_sound(g: &Grammar, w: Seq<u8>, cv: Seq<HashSet<u64>>) -> bool {
    forall|j: int, x: u64| 0 <= j <= w.len() && #[trigger] cv[j]@.contains(x) ==> item_valid(g, w, j, x)
}

/// Every item of the columns before `col` has been processed.
pub open spec fn closed_below(g: &Grammar, w: Seq<u8>, cv: Seq<HashSet<u64>>, col: int) -> bool {
    forall|j: int, x: u64| 0 <= j < col && j <= w.len() && #[trigger] cv[j]@.contains(x) ==> processed(g, w, cv, j, x)
}

/// A set of numbers below `k` has at most `k` elements.
proof fn lemma_bounded_set(s: Set<u64>, k: int)
    requires
        0 <= k <= 0x10000000000,
        forall|x: u64| #[trigger] s.contains(x) ==> x < k,
    ensures
        s.finite(),
        s.len() <= k,
{
    let r = vstd::set_lib::set_int_range(0, k);
    vstd::set_lib::lemma_int_range(0, k);
    let f = |i: int| i as u64;
    let v = r.map(f);
    vstd::set_lib::lemma_map_size_bound(r, v, f);
    assert forall|x: u64| #[trigger] s.contains(x) implies v.contains(x) by {
        assert(r.contains(x as int));
        assert(f(x as int) == x);
    }
    vstd::set_lib::lemma_len_subset(s, v);
}

/// The items of a sound column are below `2^40`.
proof fn lemma_sound_column_bounded(g: &Grammar, w: Seq<u8>, cv: Seq<HashSet<u64>>, j: int)
    requires
        g.wf(),
        chart_sound(g, w, cv),
        0 <= j <= w.len(),
    ensures
        cv[j]@.finite(),
        cv[j]@.len() <= 0x10000000000,
{
    assert forall|x: u64| #[trigger] cv[j]@.contains(x) implies x < 0x10000000000 by {
        assert(item_valid(g, w, j, x));
        let r = rule_of(x);
        let d = dot_of(x);
        let o = origin_of(x);
        assert(r < 0x1000000);
        assert(d < 0x100) by {
            assert(g.rhs(r as int).len() < 256);
        }
        assert(o < 0x100) by (bit_vector)
            requires o == (x >> 32u64) & 0xFFu64;
        lemma_pack_unpack(r, d, o);
    }
    lemma_bounded_set(cv[j]@, 0x10000000000);
}

} // verus!

verus! {

proof fn lemma_scan_valid(g: &Grammar, w: Seq<u8>, j: int, x: u64)
    requires
        g.wf(),
        w.len() <= 255,
        0 <= j < w.len(),
        item_valid(g, w, j, x),
        dot_of(x) < g.rhs(rule_of(x) as int).len(),
        g.rhs(rule_of(x) as int)[dot_of(x) as int].terminal,
        crate::grammar::term_matches(g.rhs(rule_of(x) as int)[dot_of(x) as int].value, w[j]),
    ensures
        item_valid(g, w, j + 1, pack(rule_of(x), (dot_of(x) + 1) as u64, origin_of(x))),
{
    let r = rule_of(x);
    let d = dot_of(x);
    let o = origin_of(x);
    let rhs = g.rhs(r as int);
    assert(rhs.len() < 256);
    assert(o <= j);
    lemma_pack_unpack(r, (d + 1) as u64, o);
    let n = choose|n: nat| #[trigger] g.seq_gen(rhs.take(d as int), w.subrange(o as int, j), n);
    let sym = rhs[d as int];
    let v = w.subrange(j, j + 1);
    assert(g.sym_gen(sym, v, n));
    g.lemma_seq_gen_push(rhs.take(d as int), sym, w.subrange(o as int, j), v, n);
    assert(rhs.take(d as int).push(sym) =~= rhs.take(d + 1));
    assert(w.subrange(o as int, j) + v =~= w.subrange(o as int, j + 1));
    assert(g.seq_gen(rhs.take(d + 1), w.subrange(o as int, j + 1), n));
}

proof fn lemma_predict_valid(g: &Grammar, w: Seq<u8>, j: int, p: int)
    requires
        g.wf(),
        w.len() <= 255,
        0 <= j <= w.len(),
        0 <= p < g.num_rules(),
    ensures
        item_valid(g, w, j, pack(p as u64, 0, j as u64)),
{
    lemma_pack_unpack(p as u64, 0, j as u64);
    assert(g.rhs(p).take(0) =~= Seq::<Symbol>::empty());
    assert(w.subrange(j, j) =~= Seq::<u8>::empty());
    assert(g.seq_gen(g.rhs(p).take(0), w.subrange(j, j), 0));
}

proof fn lemma_complete_valid(g: &Grammar, w: Seq<u8>, j: int, x: u64, y: u64)
    requires
        g.wf(),
        w.len() <= 255,
        0 <= j <= w.len(),
        item_valid(g, w, j, x),
        dot_of(x) == g.rhs(rule_of(x) as int).len(),
        item_valid(g, w, origin_of(x) as int, y),
        dot_of(y) < g.rhs(rule_of(y) as int).len(),
        !g.rhs(rule_of(y) as int)[dot_of(y) as int].terminal,
        g.rhs(rule_of(y) as int)[dot_of(y) as int].value == g.lhs(rule_of(x) as int),
    ensures
        item_valid(g, w, j, pack(rule_of(y), (dot_of(y) + 1) as u64, origin_of(y))),
{
    let r = rule_of(x) as int;
    let o = origin_of(x) as int;
    let ry = rule_of(y);
    let dy = dot_of(y);
    let oy = origin_of(y);
    let rhs_y = g.rhs(ry as int);
    assert(rhs_y.len() < 256);
    lemma_pack_unpack(ry, (dy + 1) as u64, oy);
    let n1 = choose|n: nat| #[trigger] g.seq_gen(rhs_y.take(dy as int), w.subrange(oy as int, o), n);
    let n2 = choose|n: nat| #[trigger] g.seq_gen(g.rhs(r).take(g.rhs(r).len() as int), w.subrange(o, j), n);
    assert(g.rhs(r).take(g.rhs(r).len() as int) =~= g.rhs(r));
    let sym = rhs_y[dy as int];
    assert(g.sym_gen(sym, w.subrange(o, j), n2 + 1));
    let m = if n1 > n2 + 1 { n1 } else { n2 + 1 };
    g.lemma_seq_gen_mono(rhs_y.take(dy as int), w.subrange(oy as int, o), n1, m);
    g.lemma_sym_gen_mono(sym, w.subrange(o, j), n2 + 1, m);
    g.lemma_seq_gen_push(rhs_y.take(dy as int), sym, w.subrange(oy as int, o), w.subrange(o, j), m);
    assert(rhs_y.take(dy as int).push(sym) =~= rhs_y.take(dy + 1));
    assert(w.subrange(oy as int, o) + w.subrange(o, j) =~= w.subrange(oy as int, j));
    assert(g.seq_gen(rhs_y.take(dy + 1), w.subrange(oy as int, j), m));
}

/// Processing stays done when the columns only grow and the columns before
/// `col` stay as they are.
proof fn lemma_processed_mono(
    g: &Grammar,
    w: Seq<u8>,
    cv1: Seq<HashSet<u64>>,
    cv2: Seq<HashSet<u64>>,
    j: int,
    x: u64,
    col: int,
)
    requires
        g.eps_free(),
        item_valid(g, w, j, x),
        0 <= j <= col,
        j <= w.len(),
        w.len() < cv1.len(),
        cv1.len() == cv2.len(),
        forall|i: int, y: u64| 0 <= i < cv1.len() && #[trigger] cv1[i]@.contains(y) ==> cv2[i]@.contains(y),
        forall|i: int| 0 <= i < col ==> #[trigger] cv2[i]@ == cv1[i]@,
        processed(g, w, cv1, j, x),
    ensures
        processed(g, w, cv2, j, x),
{
    let r = rule_of(x) as int;
    let d = dot_of(x) as int;
    let o = origin_of(x) as int;
    if d < g.rhs(r).len() && g.rhs(r)[d].terminal && j < w.len() && crate::grammar::term_matches(
        g.rhs(r)[d].value,
        w[j],
    ) {
        assert(cv1[j + 1]@.contains(pack(rule_of(x), (dot_of(x) + 1) as u64, origin_of(x))));
    }
    if d < g.rhs(r).len() && !g.rhs(r)[d].terminal {
        assert forall|p: int| 0 <= p < g.num_rules() && g.lhs(p) == g.rhs(r)[d].value implies cv2[j]@.contains(
            #[trigger] pack(p as u64, 0, j as u64)) by {
            assert(cv1[j]@.contains(pack(p as u64, 0, j as u64)));
        }
    }
    if d == g.rhs(r).len() {
        assert(g.rhs(r).len() >= 1);
        assert(o < col);
        assert(cv2[o]@ == cv1[o]@);
        assert forall|y: u64|
            #[trigger] cv2[o]@.contains(y) && dot_of(y) < g.rhs(rule_of(y) as int).len() && !g.rhs(
                rule_of(y) as int,
            )[dot_of(y) as int].terminal && g.rhs(rule_of(y) as int)[dot_of(y) as int].value == g.lhs(r)
                implies cv2[j]@.contains(pack(rule_of(y), (dot_of(y) + 1) as u64, origin_of(y))) by {
            assert(cv1[o]@.contains(y));
            assert(cv1[j]@.contains(pack(rule_of(y), (dot_of(y) + 1) as u64, origin_of(y))));
        }
    }
    assert(scan_done(g, w, cv2, j, x));
    assert(predict_done(g, cv2, j, x));
    assert(complete_done(g, cv2, j, x));
}

} // verus!

verus! {

/// The rules of the start symbol have their initial items in column `0`.
pub open spec fn start_items_in(g: &Grammar, cv: Seq<HashSet<u64>>) -> bool {
    forall|k: int|
        0 <= k < g.rules_by_lhs@[g.start as int]@.len() ==> cv[0]@.contains(
            #[trigger] pack(g.rules_by_lhs@[g.start as int]@[k] as u64, 0, 0),
        )
}

/// `ws2` has the columns of `ws1` except maybe `col`, and `col + 1` where it
/// is at most `n`.
pub open spec fn touches_only(ws1: ParseState, ws2: ParseState, col: int, n: int) -> bool {
    &&& forall|i: int|
        0 <= i < ws1.chart@.len() && i != col && !(i == col + 1 && i <= n) ==> #[trigger] ws2.chart@[i] == ws1.chart@[i]
    &&& forall|i: int|
        0 <= i < ws1.agenda@.len() && i != col && !(i == col + 1 && i <= n) ==> #[trigger] ws2.agenda@[i] == ws1.agenda@[i]
}

/// The state of the recognizer while it works on column `col`: the chart is
/// sound; in an ε-free grammar the earlier columns are processed and every item
/// of column `col` is processed, on the agenda, or the item `skip` being
/// processed; the agenda of each later column lists the items of that column.
pub open spec fn column_inv(g: &Grammar, w: Seq<u8>, ws: ParseState, col: int, skip: Option<u64>) -> bool {
    &&& g.wf()
    &&& w.len() < ws.columns()
    &&& w.len() <= 255
    &&& 0 <= col <= w.len()
    &&& chart_sound(g, w, ws.chart@)
    &&& (g.eps_free() ==> closed_below(g, w, ws.chart@, col))
    &&& forall|x: u64|
        #[trigger] ws.chart@[col]@.contains(x) ==> (skip == Some(x) || ws.agenda@[col]@.contains(x) || (
        g.eps_free() ==> processed(g, w, ws.chart@, col, x)))
    &&& forall|x: u64| #[trigger] ws.agenda@[col]@.contains(x) ==> ws.chart@[col]@.contains(x)
    &&& forall|j: int, x: u64|
        #![trigger ws.chart@[j]@.contains(x)]
        #![trigger ws.agenda@[j]@.contains(x)]
        col < j <= w.len() ==> (ws.chart@[j]@.contains(x) <==> ws.agenda@[j]@.contains(x))
    &&& start_items_in(g, ws.chart@)
}

/// Adding a valid item to column `col` or `col + 1` keeps `column_inv`.
proof fn lemma_add_keeps_inv(
    g: &Grammar,
    w: Seq<u8>,
    ws1: ParseState,
    ws2: ParseState,
    col: int,
    c: int,
    it: u64,
    skip: Option<u64>,
)
    requires
        column_inv(g, w, ws1, col, skip),
        c == col || c == col + 1,
        c <= w.len(),
        item_valid(g, w, c, it),
        (ws2).same_shape_as(ws1),
        ws2.chart@[c]@ == ws1.chart@[c]@.insert(it),
        ws2.agenda@[c]@ == if ws1.chart@[c]@.contains(it) {
            ws1.agenda@[c]@
        } else {
            ws1.agenda@[c]@.push(it)
        },
        forall|i: int| 0 <= i < ws1.chart@.len() && i != c ==> #[trigger] ws2.chart@[i] == ws1.chart@[i],
        forall|i: int| 0 <= i < ws1.agenda@.len() && i != c ==> #[trigger] ws2.agenda@[i] == ws1.agenda@[i],
    ensures
        column_inv(g, w, ws2, col, skip),
{
    let cv1 = ws1.chart@;
    let cv2 = ws2.chart@;
    assert forall|i: int, y: u64| 0 <= i < cv1.len() && #[trigger] cv1[i]@.contains(y) implies cv2[i]@.contains(y) by {
        if i == c {
        } else {
            assert(cv2[i] == cv1[i]);
        }
    }
    assert forall|i: int| 0 <= i < col implies #[trigger] cv2[i]@ == cv1[i]@ by {
        assert(cv2[i] == cv1[i]);
    }
    assert forall|j: int, x: u64| 0 <= j <= w.len() && #[trigger] cv2[j]@.contains(x) implies item_valid(g, w, j, x) by {
        if j == c {
            if x != it {
                assert(cv1[j]@.contains(x));
            }
        } else {
            assert(cv2[j] == cv1[j]);
            assert(cv1[j]@.contains(x));
        }
    }
    if g.eps_free() {
        assert forall|j: int, x: u64| 0 <= j < col && j <= w.len() && #[trigger] cv2[j]@.contains(x) implies processed(g, w, cv2, j, x) by {
            assert(cv2[j] == cv1[j]);
            assert(cv1[j]@.contains(x));
            lemma_processed_mono(g, w, cv1, cv2, j, x, col);
        }
    }
    assert forall|x: u64| #[trigger] cv2[col]@.contains(x) implies (skip == Some(x) || ws2.agenda@[col]@.contains(x) || (
        g.eps_free() ==> processed(g, w, cv2, col, x))) by {
        if c == col && x == it && !cv1[col]@.contains(it) {
            assert(ws2.agenda@[col]@ == ws1.agenda@[col]@.push(it));
            assert(ws2.agenda@[col]@[ws1.agenda@[col]@.len() as int] == it);
        } else {
            assert(cv1[col]@.contains(x));
            if ws1.agenda@[col]@.contains(x) {
                if c == col {
                    if !cv1[col]@.contains(it) {
                        let k = choose|k: int| 0 <= k < ws1.agenda@[col]@.len() && ws1.agenda@[col]@[k] == x;
                        assert(ws2.agenda@[col]@[k] == x);
                    }
                } else {
                    assert(ws2.agenda@[col] == ws1.agenda@[col]);
                }
            } else if skip != Some(x) && g.eps_free() {
                assert(item_valid(g, w, col, x));
                lemma_processed_mono(g, w, cv1, cv2, col, x, col);
            }
        }
    }
    assert forall|x: u64| #[trigger] ws2.agenda@[col]@.contains(x) implies cv2[col]@.contains(x) by {
        if c == col {
            if x != it {
                if !cv1[col]@.contains(it) {
                    let k = choose|k: int| 0 <= k < ws2.agenda@[col]@.len() && ws2.agenda@[col]@[k] == x;
                    assert(ws1.agenda@[col]@[k] == x);
                }
                assert(ws1.agenda@[col]@.contains(x));
            }
        } else {
            assert(ws2.agenda@[col] == ws1.agenda@[col]);
        }
    }
    assert forall|j: int, x: u64| col < j <= w.len() implies (#[trigger] cv2[j]@.contains(x) <==> ws2.agenda@[j]@.contains(x)) by {
        if j == c {
            if x == it {
                if !cv1[j]@.contains(it) {
                    assert(ws2.agenda@[j]@[ws1.agenda@[j]@.len() as int] == it);
                } else {
                    assert(ws1.agenda@[j]@.contains(it));
                }
            } else {
                if !cv1[j]@.contains(it) {
                    if ws2.agenda@[j]@.contains(x) {
                        let k = choose|k: int| 0 <= k < ws2.agenda@[j]@.len() && ws2.agenda@[j]@[k] == x;
                        assert(ws1.agenda@[j]@[k] == x);
                    }
                    if ws1.agenda@[j]@.contains(x) {
                        let k = choose|k: int| 0 <= k < ws1.agenda@[j]@.len() && ws1.agenda@[j]@[k] == x;
                        assert(ws2.agenda@[j]@[k] == x);
                    }
                }
            }
        } else {
            assert(cv2[j] == cv1[j]);
            assert(ws2.agenda@[j] == ws1.agenda@[j]);
        }
    }
    assert forall|k: int|
        0 <= k < g.rules_by_lhs@[g.start as int]@.len() implies cv2[0]@.contains(
            #[trigger] pack(g.rules_by_lhs@[g.start as int]@[k] as u64, 0, 0)) by {
        assert(cv1[0]@.contains(pack(g.rules_by_lhs@[g.start as int]@[k] as u64, 0, 0)));
    }
}

} // verus!

verus! {

/// The items of a column, in the order in which the set hands them out.
fn column_items(h: &HashSet<u64>) -> (v: Vec<u64>)
    ensures
        forall|x: u64| #[trigger] h@.contains(x) <==> v@.contains(x),
{
    let mut v: Vec<u64> = Vec::new();
    for x in it: h.iter()
        invariant
            v@ == it.seq().unref().take(it.index() as int),
            it.seq().unref().to_set() == h@,
            it.index() == it.seq().len() ==> v@ == it.seq().unref(),
    {
        v.push(*x);
        assert(it.index() == it.seq().len() ==> v@ =~= it.seq().unref());
    }
    v
}

proof fn lemma_add_counts(s1: Set<u64>, a1: Seq<u64>, s2: Set<u64>, a2: Seq<u64>, it: u64)
    requires
        s1.finite(),
        s2 == s1.insert(it),
        a2 == if s1.contains(it) { a1 } else { a1.push(it) },
    ensures
        s2.finite(),
        a2.len() - a1.len() == s2.len() - s1.len(),
{
    if s1.contains(it) {
        assert(s2 =~= s1);
    }
}

} // verus!

verus! {

/// Processes the item `item` of column `col`: scanning the next letter,
/// predicting the rules of the next nonterminal, or completing the items that
/// wait for the nonterminal just recognized.
fn process_item(g: &Grammar, ws: &mut ParseState, word: &Vec<u8>, col: usize, item: u64)
    requires
        column_inv(g, word@, *old(ws), col as int, Some(item)),
        old(ws).chart@[col as int]@.contains(item),
    ensures
        column_inv(g, word@, *final(ws), col as int, None),
        final(ws).same_shape_as(*old(ws)),
        final(ws).chart@[col as int]@.finite(),
        final(ws).agenda@[col as int]@.len() - old(ws).agenda@[col as int]@.len()
            == final(ws).chart@[col as int]@.len() - old(ws).chart@[col as int]@.len(),
        forall|i: int| 0 <= i < col ==> #[trigger] final(ws).chart@[i] == old(ws).chart@[i],
        forall|x: u64| #[trigger] old(ws).chart@[col as int]@.contains(x) ==> final(ws).chart@[col as int]@.contains(x),
        touches_only(*old(ws), *final(ws), col as int, word@.len() as int),
{
    let ghost w = word@;
    let ghost ws0 = *ws;
    proof {
        lemma_sound_column_bounded(g, w, ws.chart@, col as int);
        assert(item_valid(g, w, col as int, item));
    }
    let n = word.len();
    let rid = item_rule(item);
    let dot = item_dot(item);
    let origin = item_origin(item);
    let rhs: &Vec<Symbol> = &g.rules_rhs[rid];
    if dot < rhs.len() {
        let sym: Symbol = rhs[dot];
        if sym.terminal {
            if col < n {
                let ch: u8 = word[col];
                if sym.value == 0usize && ch == 97u8 {
                    let it2 = make_item(rid, dot + 1, origin);
                    proof {
                        lemma_scan_valid(g, w, col as int, item);
                    }
                    let ghost before = *ws;
                    add_item(ws, col + 1, it2);
                    proof {
                        lemma_add_keeps_inv(g, w, before, *ws, col as int, col + 1, it2, Some(item));
                    }
                }
                if sym.value == 1usize && ch == 98u8 {
                    let it2 = make_item(rid, dot + 1, origin);
                    proof {
                        lemma_scan_valid(g, w, col as int, item);
                    }
                    let ghost before = *ws;
                    add_item(ws, col + 1, it2);
                    proof {
                        lemma_add_keeps_inv(g, w, before, *ws, col as int, col + 1, it2, Some(item));
                    }
                }
            }
            proof {
                assert(ws.chart@[col as int] == ws0.chart@[col as int]);
                assert(ws.agenda@[col as int] == ws0.agenda@[col as int]);
                assert(processed(g, w, ws.chart@, col as int, item));
            }
        } else {
            let nt: usize = sym.value;
            let preds: &Vec<usize> = &g.rules_by_lhs[nt];
            let mut p: usize = 0;
            while p < preds.len()
                invariant
                    0 <= p <= preds@.len(),
                    preds@ == g.rules_by_lhs@[nt as int]@,
                    w == word@,
                    n == w.len(),
                    col <= n,
                    nt < g.num_nts(),
                    rid as u64 == rule_of(item),
                    dot as u64 == dot_of(item),
                    dot < g.rhs(rid as int).len(),
                    g.rhs(rid as int)[dot as int].value == nt,
                    !g.rhs(rid as int)[dot as int].terminal,
                    column_inv(g, w, *ws, col as int, Some(item)),
                    ws.same_shape_as(ws0),
                    ws.chart@[col as int]@.finite(),
                    ws.agenda@[col as int]@.len() - ws0.agenda@[col as int]@.len()
                        == ws.chart@[col as int]@.len() - ws0.chart@[col as int]@.len(),
                    forall|q: int| 0 <= q < p ==> ws.chart@[col as int]@.contains(
                        #[trigger] pack(preds@[q] as u64, 0, col as u64),
                    ),
                    forall|x: u64| #[trigger] ws0.chart@[col as int]@.contains(x) ==> ws.chart@[col as int]@.contains(x),
                    forall|i: int| 0 <= i < col ==> #[trigger] ws.chart@[i] == ws0.chart@[i],
                    touches_only(ws0, *ws, col as int, n as int),
                decreases preds@.len() - p,
            {
                let pr: usize = preds[p];
                let itp: u64 = make_item(pr, 0usize, col);
                proof {
                    assert(g.lhs(pr as int) == nt);
                    lemma_predict_valid(g, w, col as int, pr as int);
                }
                let ghost before = *ws;
                add_item(ws, col, itp);
                proof {
                    lemma_add_keeps_inv(g, w, before, *ws, col as int, col as int, itp, Some(item));
                    lemma_add_counts(before.chart@[col as int]@, before.agenda@[col as int]@, ws.chart@[col as int]@, ws.agenda@[col as int]@, itp);
                }
                p = p + 1;
            }
            proof {
                assert forall|p2: int| 0 <= p2 < g.num_rules() && g.lhs(p2) == nt implies ws.chart@[col as int]@.contains(
                    #[trigger] pack(p2 as u64, 0, col as u64)) by {
                    assert(g.rules_by_lhs@[g.lhs(p2)]@.contains(p2 as usize));
                    let q = choose|q: int| 0 <= q < preds@.len() && preds@[q] == p2 as usize;
                    assert(ws.chart@[col as int]@.contains(pack(preds@[q] as u64, 0, col as u64)));
                }
                assert(predict_done(g, ws.chart@, col as int, item));
                assert(processed(g, w, ws.chart@, col as int, item));
            }
        }
    } else {
        let completed_nt: usize = g.rules_lhs[rid];
        ws.temp.clear();
        proof {
            assert(origin as int <= col);
        }
        let snap: Vec<u64> = column_items(&ws.chart[origin]);
        let ghost ws1 = *ws;
        let mut s: usize = 0;
        while s < snap.len()
            invariant
                0 <= s <= snap@.len(),
                w == word@,
                n == w.len(),
                col <= n,
                origin <= col,
                forall|x: u64| #[trigger] ws.chart@[origin as int]@.contains(x) <==> snap@.contains(x),
                ws.chart == ws1.chart,
                ws.agenda == ws1.agenda,
                item_valid(g, w, col as int, item),
                column_inv(g, w, *ws, col as int, Some(item)),
                rid as u64 == rule_of(item),
                origin as u64 == origin_of(item),
                dot_of(item) == g.rhs(rid as int).len(),
                completed_nt == g.lhs(rid as int),
                forall|t: int| 0 <= t < ws.temp@.len() ==> item_valid(g, w, col as int, #[trigger] ws.temp@[t]),
                forall|k: int|
                    0 <= k < s && dot_of(#[trigger] snap@[k]) < g.rhs(rule_of(snap@[k]) as int).len() && !g.rhs(
                        rule_of(snap@[k]) as int,
                    )[dot_of(snap@[k]) as int].terminal && g.rhs(rule_of(snap@[k]) as int)[dot_of(snap@[k]) as int].value == completed_nt
                        ==> ws.temp@.contains(pack(rule_of(snap@[k]), (dot_of(snap@[k]) + 1) as u64, origin_of(snap@[k]))),
            decreases snap@.len() - s,
        {
            let witem: u64 = snap[s];
            let wr: usize = item_rule(witem);
            let wd: usize = item_dot(witem);
            let wo: usize = item_origin(witem);
            proof {
                assert(snap@.contains(witem));
                assert(ws.chart@[origin as int]@.contains(witem));
                assert(item_valid(g, w, origin as int, witem));
            }
            let wrhs: &Vec<Symbol> = &g.rules_rhs[wr];
            if wd < wrhs.len() {
                let ns: Symbol = wrhs[wd];
                if !ns.terminal && ns.value == completed_nt {
                    let adv: u64 = make_item(wr, wd + 1usize, wo);
                    proof {
                        lemma_complete_valid(g, w, col as int, item, witem);
                    }
                    let ghost tb = ws.temp@;
                    ws.temp.push(adv);
                    proof {
                        assert forall|k: int|
                            0 <= k < s + 1 && dot_of(#[trigger] snap@[k]) < g.rhs(rule_of(snap@[k]) as int).len() && !g.rhs(
                                rule_of(snap@[k]) as int,
                            )[dot_of(snap@[k]) as int].terminal && g.rhs(rule_of(snap@[k]) as int)[dot_of(snap@[k]) as int].value == completed_nt
                                implies ws.temp@.contains(pack(rule_of(snap@[k]), (dot_of(snap@[k]) + 1) as u64, origin_of(snap@[k]))) by {
                            if k < s {
                                let m = choose|m: int| 0 <= m < tb.len() && tb[m] == pack(rule_of(snap@[k]), (dot_of(snap@[k]) + 1) as u64, origin_of(snap@[k]));
                                assert(ws.temp@[m] == tb[m]);
                            } else {
                                assert(ws.temp@[tb.len() as int] == adv);
                            }
                        }
                    }
                }
            }
            s = s + 1;
        }
        let ghost temp0 = ws.temp@;
        let mut t: usize = 0;
        while t < ws.temp.len()
            invariant
                0 <= t <= temp0.len(),
                ws.temp@ == temp0,
                w == word@,
                n == w.len(),
                col <= n,
                origin <= col,
                origin as u64 == origin_of(item),
                column_inv(g, w, *ws, col as int, Some(item)),
                ws.same_shape_as(ws0),
                ws.chart@[col as int]@.finite(),
                ws.agenda@[col as int]@.len() - ws0.agenda@[col as int]@.len()
                    == ws.chart@[col as int]@.len() - ws0.chart@[col as int]@.len(),
                forall|x: u64| #[trigger] ws0.chart@[col as int]@.contains(x) ==> ws.chart@[col as int]@.contains(x),
                forall|i: int| 0 <= i < col ==> #[trigger] ws.chart@[i] == ws0.chart@[i],
                touches_only(ws0, *ws, col as int, n as int),
                forall|k: int| 0 <= k < temp0.len() ==> item_valid(g, w, col as int, #[trigger] temp0[k]),
                forall|k: int| 0 <= k < t ==> ws.chart@[col as int]@.contains(#[trigger] temp0[k]),
            decreases temp0.len() - t,
        {
            let adv_item: u64 = ws.temp[t];
            let ghost before = *ws;
            add_item(ws, col, adv_item);
            proof {
                lemma_add_keeps_inv(g, w, before, *ws, col as int, col as int, adv_item, Some(item));
                lemma_add_counts(before.chart@[col as int]@, before.agenda@[col as int]@, ws.chart@[col as int]@, ws.agenda@[col as int]@, adv_item);
            }
            t = t + 1;
        }
        proof {
            if g.eps_free() {
                assert(g.rhs(rid as int).len() >= 1);
                assert(origin < col);
                assert(ws.chart@[origin as int] == ws0.chart@[origin as int]);
                assert forall|y: u64|
                    #[trigger] ws.chart@[origin as int]@.contains(y) && dot_of(y) < g.rhs(rule_of(y) as int).len() && !g.rhs(
                        rule_of(y) as int,
                    )[dot_of(y) as int].terminal && g.rhs(rule_of(y) as int)[dot_of(y) as int].value == g.lhs(rid as int)
                        implies ws.chart@[col as int]@.contains(pack(rule_of(y), (dot_of(y) + 1) as u64, origin_of(y))) by {
                    assert(ws1.chart@[origin as int]@.contains(y));
                    assert(snap@.contains(y));
                    let k = choose|k: int| 0 <= k < snap@.len() && snap@[k] == y;
                    assert(temp0.contains(pack(rule_of(snap@[k]), (dot_of(snap@[k]) + 1) as u64, origin_of(snap@[k]))));
                    let m = choose|m: int| 0 <= m < temp0.len() && temp0[m] == pack(rule_of(y), (dot_of(y) + 1) as u64, origin_of(y));
                    assert(ws.chart@[col as int]@.contains(temp0[m]));
                }
                assert(complete_done(g, ws.chart@, col as int, item));
                assert(processed(g, w, ws.chart@, col as int, item));
            }
        }
    }
    proof {
        assert forall|x: u64| #[trigger] ws.chart@[col as int]@.contains(x) implies (ws.agenda@[col as int]@.contains(x) || (
            g.eps_free() ==> processed(g, w, ws.chart@, col as int, x))) by {
            if x != item {
                assert(column_inv(g, w, *ws, col as int, Some(item)));
            }
        }
    }
}

} // verus!

verus! {

/// Processes the agenda of column `col` until it is empty.
fn process_column(g: &Grammar, ws: &mut ParseState, word: &Vec<u8>, col: usize)
    requires
        column_inv(g, word@, *old(ws), col as int, None),
    ensures
        column_inv(g, word@, *final(ws), col as int, None),
        final(ws).same_shape_as(*old(ws)),
        final(ws).agenda@[col as int]@ == Seq::<u64>::empty(),
        forall|i: int| 0 <= i < col ==> #[trigger] final(ws).chart@[i] == old(ws).chart@[i],
        touches_only(*old(ws), *final(ws), col as int, word@.len() as int),
{
    let ghost w = word@;
    let ghost ws0 = *ws;
    proof {
        lemma_sound_column_bounded(g, w, ws.chart@, col as int);
    }
    while !ws.agenda[col].is_empty()
        invariant
            w == word@,
            column_inv(g, w, *ws, col as int, None),
            ws.same_shape_as(ws0),
            forall|i: int| 0 <= i < col ==> #[trigger] ws.chart@[i] == ws0.chart@[i],
            touches_only(ws0, *ws, col as int, w.len() as int),
        decreases 2 * (0x10000000000 - ws.chart@[col as int]@.len()) + ws.agenda@[col as int]@.len(),
    {
        proof {
            lemma_sound_column_bounded(g, w, ws.chart@, col as int);
        }
        let ghost before = *ws;
        let item: u64 = ws.agenda[col].pop().unwrap();
        proof {
            let a0 = before.agenda@[col as int]@;
            assert(ws.agenda@[col as int]@ == a0.drop_last());
            assert(item == a0.last());
            assert(a0.contains(item));
            assert forall|x: u64| #[trigger] ws.chart@[col as int]@.contains(x) implies (Some(item) == Some(x)
                || ws.agenda@[col as int]@.contains(x) || (g.eps_free() ==> processed(g, w, ws.chart@, col as int, x))) by {
                assert(before.chart@[col as int]@.contains(x));
                if a0.contains(x) && x != item {
                    let k = choose|k: int| 0 <= k < a0.len() && a0[k] == x;
                    assert(k != a0.len() - 1);
                    assert(ws.agenda@[col as int]@[k] == x);
                }
            }
            assert forall|x: u64| #[trigger] ws.agenda@[col as int]@.contains(x) implies ws.chart@[col as int]@.contains(x) by {
                let k = choose|k: int| 0 <= k < ws.agenda@[col as int]@.len() && ws.agenda@[col as int]@[k] == x;
                assert(a0[k] == x);
                assert(a0.contains(x));
                assert(before.chart@[col as int]@.contains(x));
            }
            assert forall|j: int, x: u64| col < j <= w.len() implies (#[trigger] ws.chart@[j]@.contains(x) <==> ws.agenda@[j]@.contains(x)) by {
                assert(ws.chart@[j] == before.chart@[j]);
                assert(ws.agenda@[j] == before.agenda@[j]);
            }
            assert(column_inv(g, w, *ws, col as int, Some(item)));
        }
        let ghost mid = *ws;
        process_item(g, ws, word, col, item);
        proof {
            lemma_sound_column_bounded(g, w, ws.chart@, col as int);
            lemma_sound_column_bounded(g, w, mid.chart@, col as int);
            vstd::set_lib::lemma_len_subset(mid.chart@[col as int]@, ws.chart@[col as int]@);
            assert forall|i: int|
                0 <= i < ws0.chart@.len() && i != col && !(i == col + 1 && i <= w.len()) implies #[trigger] ws.chart@[i] == ws0.chart@[i] by {
                assert(mid.chart@[i] == before.chart@[i]);
                assert(ws.chart@[i] == mid.chart@[i]);
                assert(before.chart@[i] == ws0.chart@[i]);
            }
            assert forall|i: int|
                0 <= i < ws0.agenda@.len() && i != col && !(i == col + 1 && i <= w.len()) implies #[trigger] ws.agenda@[i] == ws0.agenda@[i] by {
                assert(mid.agenda@[i] == before.agenda@[i]);
                assert(ws.agenda@[i] == mid.agenda@[i]);
                assert(before.agenda@[i] == ws0.agenda@[i]);
            }
        }
    }
}

} // verus!

verus! {

/// In a chart where every item is processed, an item `(r, d, o)` of column
/// `j` whose remaining symbols derive the letters `j..j2` leads to the
/// complete item `(r, |rhs|, o)` in column `j2`.
proof fn lemma_complete_rhs(
    g: &Grammar,
    w: Seq<u8>,
    cv: Seq<HashSet<u64>>,
    r: int,
    d: int,
    o: int,
    j: int,
    j2: int,
    n: nat,
)
    requires
        g.wf(),
        g.eps_free(),
        w.len() <= 255,
        w.len() < cv.len(),
        chart_sound(g, w, cv),
        closed_below(g, w, cv, w.len() + 1int),
        0 <= o <= j <= j2 <= w.len(),
        0 <= r < g.num_rules(),
        0 <= d <= g.rhs(r).len(),
        cv[j]@.contains(pack(r as u64, d as u64, o as u64)),
        g.seq_gen(g.rhs(r).skip(d), w.subrange(j, j2), n),
    ensures
        cv[j2]@.contains(pack(r as u64, g.rhs(r).len() as u64, o as u64)),
    decreases n, g.rhs(r).len() - d + 1,
{
    let rhs = g.rhs(r);
    if d == rhs.len() {
        assert(rhs.skip(d).len() == 0);
        assert(w.subrange(j, j2).len() == 0);
    } else {
        let u = w.subrange(j, j2);
        let k = choose|k: int|
            #![trigger u.take(k)]
            0 <= k <= u.len() && g.sym_gen(rhs.skip(d)[0], u.take(k), n) && g.seq_gen(
                rhs.skip(d).drop_first(),
                u.skip(k),
                n,
            );
        assert(rhs.skip(d)[0] == rhs[d]);
        assert(u.take(k) =~= w.subrange(j, j + k));
        assert(u.skip(k) =~= w.subrange(j + k, j2));
        assert(rhs.skip(d).drop_first() =~= rhs.skip(d + 1));
        lemma_complete_sym(g, w, cv, r, d, o, j, j + k, n);
        lemma_complete_rhs(g, w, cv, r, d + 1, o, j + k, j2, n);
    }
}

/// In a chart where every item is processed, an item `(r, d, o)` of column
/// `j` whose next symbol derives the letters `j..j2` leads to the item
/// `(r, d + 1, o)` in column `j2`.
proof fn lemma_complete_sym(
    g: &Grammar,
    w: Seq<u8>,
    cv: Seq<HashSet<u64>>,
    r: int,
    d: int,
    o: int,
    j: int,
    j2: int,
    n: nat,
)
    requires
        g.wf(),
        g.eps_free(),
        w.len() <= 255,
        w.len() < cv.len(),
        chart_sound(g, w, cv),
        closed_below(g, w, cv, w.len() + 1int),
        0 <= o <= j <= j2 <= w.len(),
        0 <= r < g.num_rules(),
        0 <= d < g.rhs(r).len(),
        cv[j]@.contains(pack(r as u64, d as u64, o as u64)),
        g.sym_gen(g.rhs(r)[d], w.subrange(j, j2), n),
    ensures
        cv[j2]@.contains(pack(r as u64, (d + 1) as u64, o as u64)),
    decreases n, 0nat,
{
    let rhs = g.rhs(r);
    let x = pack(r as u64, d as u64, o as u64);
    assert(rhs.len() < 256);
    lemma_pack_unpack(r as u64, d as u64, o as u64);
    assert(processed(g, w, cv, j, x));
    let sym = rhs[d];
    if sym.terminal {
        assert(w.subrange(j, j2).len() == 1);
        assert(w.subrange(j, j2)[0] == w[j]);
        assert(scan_done(g, w, cv, j, x));
    } else {
        let u = w.subrange(j, j2);
        let p = choose|p: int|
            #![trigger g.rhs(p)]
            0 <= p < g.num_rules() && g.lhs(p) == sym.value && g.seq_gen(
                g.rhs(p),
                u,
                (n - 1) as nat,
            );
        assert(predict_done(g, cv, j, x));
        assert(cv[j]@.contains(pack(p as u64, 0, j as u64)));
        assert(g.rhs(p).skip(0) =~= g.rhs(p));
        lemma_complete_rhs(g, w, cv, p, 0, j, j, j2, (n - 1) as nat);
        let y = pack(p as u64, g.rhs(p).len() as u64, j as u64);
        assert(g.rhs(p).len() < 256);
        lemma_pack_unpack(p as u64, g.rhs(p).len() as u64, j as u64);
        assert(processed(g, w, cv, j2, y));
        assert(complete_done(g, cv, j2, y));
        assert(cv[j]@.contains(x));
    }
}

} // verus!

verus! {

/// Whether the grammar `g` generates `word` (letters `a` and `b`), by Earley
/// recognition on the storage `ws`. An accepted word is always generated; for a
/// grammar without empty right-hand sides every generated word is accepted.
pub fn parse_recognize(g: &Grammar, ws: &mut ParseState, word: &Vec<u8>) -> (res: bool)
    requires
        g.wf(),
        word@.len() < old(ws).columns(),
        word@.len() <= 255,
    ensures
        final(ws).same_shape_as(*old(ws)),
        res ==> g.generates(word@),
        g.eps_free() ==> (res == g.generates(word@)),
        forall|i: int| 0 <= i <= word@.len() ==> (#[trigger] final(ws).agenda@[i])@.len() == 0,
        forall|i: int| word@.len() < i < old(ws).chart@.len() ==> #[trigger] final(ws).chart@[i] == old(ws).chart@[i],
        forall|i: int| word@.len() < i < old(ws).agenda@.len() ==> #[trigger] final(ws).agenda@[i] == old(ws).agenda@[i],
{
    let ghost w = word@;
    let n: usize = word.len();
    ws_clear(ws, n);
    let start_rules: &Vec<usize> = &g.rules_by_lhs[g.start];
    let mut i: usize = 0;
    while i < start_rules.len()
        invariant
            0 <= i <= start_rules@.len(),
            start_rules@ == g.rules_by_lhs@[g.start as int]@,
            w == word@,
            n == w.len(),
            g.wf(),
            n < ws.columns(),
            n <= 255,
            ws.same_shape_as(*old(ws)),
            chart_sound(g, w, ws.chart@),
            forall|j: int, x: u64| 0 < j <= n ==> !(#[trigger] ws.chart@[j]@.contains(x)),
            forall|j: int, x: u64| 0 < j <= n ==> !(#[trigger] ws.agenda@[j]@.contains(x)),
            forall|x: u64| #[trigger] ws.chart@[0]@.contains(x) <==> ws.agenda@[0]@.contains(x),
            forall|k: int| 0 <= k < i ==> ws.chart@[0]@.contains(#[trigger] pack(start_rules@[k] as u64, 0, 0)),
            forall|k: int| n < k < old(ws).chart@.len() ==> #[trigger] ws.chart@[k] == old(ws).chart@[k],
            forall|k: int| n < k < old(ws).agenda@.len() ==> #[trigger] ws.agenda@[k] == old(ws).agenda@[k],
        decreases start_rules@.len() - i,
    {
        let rid: usize = start_rules[i];
        let it: u64 = make_item(rid, 0usize, 0usize);
        proof {
            lemma_predict_valid(g, w, 0, rid as int);
        }
        let ghost before = *ws;
        add_item(ws, 0usize, it);
        proof {
            assert forall|j: int, x: u64| 0 <= j <= w.len() && #[trigger] ws.chart@[j]@.contains(x) implies item_valid(g, w, j, x) by {
                if j != 0 {
                    assert(ws.chart@[j] == before.chart@[j]);
                } else if x != it {
                    assert(before.chart@[0]@.contains(x));
                }
            }
            assert forall|j: int, x: u64| 0 < j <= n implies !(#[trigger] ws.chart@[j]@.contains(x)) by {
                assert(ws.chart@[j] == before.chart@[j]);
            }
            assert forall|j: int, x: u64| 0 < j <= n implies !(#[trigger] ws.agenda@[j]@.contains(x)) by {
                assert(ws.agenda@[j] == before.agenda@[j]);
            }
            assert forall|x: u64| #[trigger] ws.chart@[0]@.contains(x) <==> ws.agenda@[0]@.contains(x) by {
                let a0 = before.agenda@[0]@;
                if !before.chart@[0]@.contains(it) {
                    if x == it {
                        assert(ws.agenda@[0]@[a0.len() as int] == it);
                    } else {
                        if ws.agenda@[0]@.contains(x) {
                            let k = choose|k: int| 0 <= k < ws.agenda@[0]@.len() && ws.agenda@[0]@[k] == x;
                            assert(a0[k] == x);
                        }
                        if a0.contains(x) {
                            let k = choose|k: int| 0 <= k < a0.len() && a0[k] == x;
                            assert(ws.agenda@[0]@[k] == x);
                        }
                    }
                }
            }
        }
        i = i + 1;
    }
    proof {
        assert forall|x: u64| #[trigger] ws.chart@[0]@.contains(x) implies (None::<u64> == Some(x) || ws.agenda@[0]@.contains(x) || (
            g.eps_free() ==> processed(g, w, ws.chart@, 0, x))) by {
        }
        assert(column_inv(g, w, *ws, 0, None));
    }
    let mut col: usize = 0;
    while col <= n
        invariant
            0 <= col <= n + 1,
            w == word@,
            n == w.len(),
            n <= 255,
            g.wf(),
            n < ws.columns(),
            ws.same_shape_as(*old(ws)),
            start_rules@ == g.rules_by_lhs@[g.start as int]@,
            col <= n ==> column_inv(g, w, *ws, col as int, None),
            col <= n ==> forall|x: u64| #[trigger] ws.chart@[col as int]@.contains(x) ==> ws.agenda@[col as int]@.contains(x),
            chart_sound(g, w, ws.chart@),
            start_items_in(g, ws.chart@),
            g.eps_free() ==> closed_below(g, w, ws.chart@, col as int),
            forall|k: int| n < k < old(ws).chart@.len() ==> #[trigger] ws.chart@[k] == old(ws).chart@[k],
            forall|k: int| n < k < old(ws).agenda@.len() ==> #[trigger] ws.agenda@[k] == old(ws).agenda@[k],
            forall|k: int| 0 <= k < col ==> (#[trigger] ws.agenda@[k])@.len() == 0,
        decreases n + 1 - col,
    {
        let ghost before = *ws;
        process_column(g, ws, word, col);
        proof {
            assert forall|k: int| n < k < old(ws).chart@.len() implies #[trigger] ws.chart@[k] == old(ws).chart@[k] by {
                assert(ws.chart@[k] == before.chart@[k]);
            }
            assert forall|k: int| n < k < old(ws).agenda@.len() implies #[trigger] ws.agenda@[k] == old(ws).agenda@[k] by {
                assert(ws.agenda@[k] == before.agenda@[k]);
            }
            assert forall|k: int| 0 <= k < col + 1 implies (#[trigger] ws.agenda@[k])@.len() == 0 by {
                if k < col {
                    assert(ws.chart@[k] == before.chart@[k]);
                }
            }
            if g.eps_free() {
                assert forall|j: int, x: u64| 0 <= j < col + 1 && j <= w.len() && #[trigger] ws.chart@[j]@.contains(x) implies processed(g, w, ws.chart@, j, x) by {
                    if j == col {
                        assert(!ws.agenda@[col as int]@.contains(x));
                    }
                }
            }
            if col + 1 <= n {
                let c1 = (col + 1) as int;
                assert forall|x: u64| #[trigger] ws.chart@[c1]@.contains(x) implies ws.agenda@[c1]@.contains(x) by {
                }
                assert forall|x: u64| #[trigger] ws.chart@[c1]@.contains(x) implies (None::<u64> == Some(x) || ws.agenda@[c1]@.contains(x) || (
                    g.eps_free() ==> processed(g, w, ws.chart@, c1, x))) by {
                }
                assert forall|x: u64| #[trigger] ws.agenda@[c1]@.contains(x) implies ws.chart@[c1]@.contains(x) by {
                }
                assert(column_inv(g, w, *ws, c1, None));
            }
        }
        col = col + 1;
    }
    let mut j: usize = 0;
    while j < start_rules.len()
        invariant
            0 <= j <= start_rules@.len(),
            start_rules@ == g.rules_by_lhs@[g.start as int]@,
            w == word@,
            n == w.len(),
            n <= 255,
            g.wf(),
            n < ws.columns(),
            ws.same_shape_as(*old(ws)),
            chart_sound(g, w, ws.chart@),
            start_items_in(g, ws.chart@),
            g.eps_free() ==> closed_below(g, w, ws.chart@, n + 1),
            forall|k: int| n < k < old(ws).chart@.len() ==> #[trigger] ws.chart@[k] == old(ws).chart@[k],
            forall|k: int| n < k < old(ws).agenda@.len() ==> #[trigger] ws.agenda@[k] == old(ws).agenda@[k],
            forall|k: int| 0 <= k <= n ==> (#[trigger] ws.agenda@[k])@.len() == 0,
            forall|k: int| 0 <= k < j ==> !ws.chart@[n as int]@.contains(
                #[trigger] pack(start_rules@[k] as u64, g.rhs(start_rules@[k] as int).len() as u64, 0)),
        decreases start_rules@.len() - j,
    {
        let rid: usize = start_rules[j];
        let need_dot: usize = g.rules_rhs[rid].len();
        let accept_item: u64 = make_item(rid, need_dot, 0usize);
        let ok: bool = ws.chart[n].contains(&accept_item);
        if ok {
            proof {
                assert(item_valid(g, w, n as int, accept_item));
                assert(g.rhs(rid as int).len() < 256);
                lemma_pack_unpack(rid as u64, need_dot as u64, 0);
                let m = choose|m: nat| #[trigger] g.seq_gen(g.rhs(rid as int).take(need_dot as int), w.subrange(0, n as int), m);
                assert(g.rhs(rid as int).take(need_dot as int) =~= g.rhs(rid as int));
                assert(w.subrange(0, n as int) =~= w);
                assert(g.lhs(rid as int) == g.start);
                let s = Symbol { terminal: false, value: g.start };
                assert(g.sym_gen(s, w, m + 1));
            }
            return true;
        }
        j = j + 1;
    }
    proof {
        if g.eps_free() && g.generates(w) {
            let m = choose|m: nat| g.sym_gen(Symbol { terminal: false, value: g.start }, w, m);
            let r = choose|r: int|
                #![trigger g.rhs(r)]
                0 <= r < g.num_rules() && g.lhs(r) == g.start && g.seq_gen(
                    g.rhs(r),
                    w,
                    (m - 1) as nat,
                );
            assert(g.rules_by_lhs@[g.lhs(r)]@.contains(r as usize));
            let k = choose|k: int| 0 <= k < start_rules@.len() && start_rules@[k] == r as usize;
            assert(ws.chart@[0]@.contains(pack(start_rules@[k] as u64, 0, 0)));
            assert(g.rhs(r).skip(0) =~= g.rhs(r));
            assert(w.subrange(0, n as int) =~= w);
            lemma_complete_rhs(g, w, ws.chart@, r, 0, 0, 0, n as int, (m - 1) as nat);
            assert(!ws.chart@[n as int]@.contains(pack(start_rules@[k] as u64, g.rhs(start_rules@[k] as int).len() as u64, 0)));
        }
    }
    false
}

} // verus!
