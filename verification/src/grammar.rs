//! Context-free grammars over the terminals `a` (value `0`) and `b` (value `1`),
//! and the words they generate.
use vstd::prelude::*;

verus! {

/// A symbol on the right-hand side of a rule: a terminal (`0` for `a`, `1`
/// for `b`) or the index of a nonterminal.
#[derive(Clone, Copy)]
pub struct Symbol {
    pub terminal: bool,
    pub value: usize,
}

/// A grammar: names of the nonterminals, the rules as left-hand side and
/// right-hand side, and for each nonterminal the rules that rewrite it.
pub struct Grammar {
    pub start: usize,
    pub nt_names: Vec<String>,
    pub rules_lhs: Vec<usize>,
    pub rules_rhs: Vec<Vec<Symbol>>,
    pub rules_by_lhs: Vec<Vec<usize>>,
}

/// Whether the terminal of value `v` is the letter `c`.
pub open spec fn term_matches(v: usize, c: u8) -> bool {
    (v == 0 && c == 97) || (v == 1 && c == 98)
}

impl Grammar {
    pub open spec fn num_rules(&self) -> int {
        self.rules_lhs@.len() as int
    }

    /// The nonterminals: those with a list of rules.
    pub open spec fn num_nts(&self) -> int {
        self.rules_by_lhs@.len() as int
    }

    /// The nonterminals with a name.
    pub open spec fn num_names(&self) -> int {
        self.nt_names@.len() as int
    }

    pub open spec fn lhs(&self, r: int) -> int {
        self.rules_lhs@[r] as int
    }

    pub open spec fn rhs(&self, r: int) -> Seq<Symbol> {
        self.rules_rhs@[r]@
    }

    /// The structure that the recognizer relies on: every nonterminal index
    /// in range of `rules_by_lhs`, `rules_by_lhs[n]` listing exactly the rules
    /// of `n`, and sizes that fit the packed items of the recognizer. The
    /// names are not read.
    pub open spec fn wf(&self) -> bool {
        &&& self.rules_rhs@.len() == self.rules_lhs@.len()
        &&& self.start < self.num_nts()
        &&& self.num_rules() < 0x1000000
        &&& forall|r: int| 0 <= r < self.num_rules() ==> #[trigger] self.lhs(r) < self.num_nts()
        &&& forall|r: int| 0 <= r < self.num_rules() ==> #[trigger] self.rhs(r).len() < 256
        &&& forall|r: int, i: int|
            0 <= r < self.num_rules() && 0 <= i < self.rhs(r).len() && !(#[trigger] self.rhs(r)[i]).terminal
                ==> self.rhs(r)[i].value < self.num_nts()
        &&& forall|n: int, k: int|
            0 <= n < self.num_nts() && 0 <= k < self.rules_by_lhs@[n]@.len() ==> {
                &&& (#[trigger] self.rules_by_lhs@[n]@[k]) < self.num_rules()
                &&& self.lhs(self.rules_by_lhs@[n]@[k] as int) == n
            }
        &&& forall|r: int| 0 <= r < self.num_rules() ==> #[trigger] self.rules_by_lhs@[self.lhs(r)]@.contains(r as usize)
    }

    /// No rule has an empty right-hand side.
    pub open spec fn eps_free(&self) -> bool {
        forall|r: int| 0 <= r < self.num_rules() ==> #[trigger] self.rhs(r).len() >= 1
    }

    /// The symbol `s` derives `w` in a derivation of depth at most `n`.
    pub open spec fn sym_gen(&self, s: Symbol, w: Seq<u8>, n: nat) -> bool
        decreases n, 0nat,
    {
        if s.terminal {
            w.len() == 1 && term_matches(s.value, w[0])
        } else if n == 0 {
            false
        } else {
            exists|r: int|
                #![trigger self.rhs(r)]
                0 <= r < self.num_rules() && self.lhs(r) == s.value && self.seq_gen(
                    self.rhs(r),
                    w,
                    (n - 1) as nat,
                )
        }
    }

    /// The symbols `syms` derive `w`, each in a derivation of depth at most `n`.
    pub open spec fn seq_gen(&self, syms: Seq<Symbol>, w: Seq<u8>, n: nat) -> bool
        decreases n, syms.len(),
    {
        if syms.len() == 0 {
            w.len() == 0
        } else {
            exists|k: int|
                #![trigger w.take(k)]
                0 <= k <= w.len() && self.sym_gen(syms[0], w.take(k), n) && self.seq_gen(
                    syms.drop_first(),
                    w.skip(k),
                    n,
                )
        }
    }

    /// The start symbol derives `w`: `w` is in the language of the grammar.
    pub open spec fn generates(&self, w: Seq<u8>) -> bool {
        exists|n: nat| self.sym_gen(Symbol { terminal: false, value: self.start }, w, n)
    }
}

} // verus!

verus! {

impl Grammar {
    /// A derivation of depth at most `n` is one of depth at most `m >= n`.
    pub proof fn lemma_sym_gen_mono(&self, s: Symbol, w: Seq<u8>, n: nat, m: nat)
        requires
            n <= m,
            self.sym_gen(s, w, n),
        ensures
            self.sym_gen(s, w, m),
        decreases n, 0nat,
    {
        if !s.terminal {
            let r = choose|r: int|
                #![trigger self.rhs(r)]
                0 <= r < self.num_rules() && self.lhs(r) == s.value && self.seq_gen(
                    self.rhs(r),
                    w,
                    (n - 1) as nat,
                );
            self.lemma_seq_gen_mono(self.rhs(r), w, (n - 1) as nat, (m - 1) as nat);
        }
    }

    pub proof fn lemma_seq_gen_mono(&self, syms: Seq<Symbol>, w: Seq<u8>, n: nat, m: nat)
        requires
            n <= m,
            self.seq_gen(syms, w, n),
        ensures
            self.seq_gen(syms, w, m),
        decreases n, syms.len(),
    {
        if syms.len() > 0 {
            let k = choose|k: int|
                #![trigger w.take(k)]
                0 <= k <= w.len() && self.sym_gen(syms[0], w.take(k), n) && self.seq_gen(
                    syms.drop_first(),
                    w.skip(k),
                    n,
                );
            self.lemma_sym_gen_mono(syms[0], w.take(k), n, m);
            self.lemma_seq_gen_mono(syms.drop_first(), w.skip(k), n, m);
        }
    }

    /// Appending a symbol that derives `v` to symbols that derive `u` gives
    /// symbols that derive `u + v`.
    pub proof fn lemma_seq_gen_push(&self, syms: Seq<Symbol>, s: Symbol, u: Seq<u8>, v: Seq<u8>, n: nat)
        requires
            self.seq_gen(syms, u, n),
            self.sym_gen(s, v, n),
        ensures
            self.seq_gen(syms.push(s), u + v, n),
        decreases syms.len(),
    {
        let all = syms.push(s);
        if syms.len() == 0 {
            assert(u.len() == 0);
            assert((u + v).take(v.len() as int) =~= v);
            assert((u + v).skip(v.len() as int) =~= Seq::<u8>::empty());
            assert(all.drop_first() =~= Seq::<Symbol>::empty());
            assert(self.seq_gen(all.drop_first(), (u + v).skip(v.len() as int), n));
            assert(self.sym_gen(all[0], (u + v).take(v.len() as int), n));
        } else {
            let k = choose|k: int|
                #![trigger u.take(k)]
                0 <= k <= u.len() && self.sym_gen(syms[0], u.take(k), n) && self.seq_gen(
                    syms.drop_first(),
                    u.skip(k),
                    n,
                );
            self.lemma_seq_gen_push(syms.drop_first(), s, u.skip(k), v, n);
            assert(all.drop_first() =~= syms.drop_first().push(s));
            assert((u + v).take(k) =~= u.take(k));
            assert((u + v).skip(k) =~= u.skip(k) + v);
            assert(self.sym_gen(all[0], (u + v).take(k), n));
            assert(self.seq_gen(all.drop_first(), (u + v).skip(k), n));
        }
    }
}

} // verus!

verus! {

/// The texts of a list of names.
pub open spec fn texts(names: Seq<String>) -> Seq<Seq<char>> {
    names.map_values(|s: String| s@)
}

/// The texts of a list of tokens.
pub open spec fn token_texts(toks: Seq<&str>) -> Seq<Seq<char>> {
    toks.map_values(|t: &str| t@)
}

/// `name` added at the end of `names` unless it is there already.
pub open spec fn intern(names: Seq<Seq<char>>, name: Seq<char>) -> Seq<Seq<char>> {
    if names.contains(name) {
        names
    } else {
        names.push(name)
    }
}

/// The terminal that a token stands for: `a` is `0`, `b` is `1`; any other
/// token names a nonterminal.
pub open spec fn term_of(tok: Seq<char>) -> Option<usize> {
    if tok == "a"@ {
        Some(0usize)
    } else if tok == "b"@ {
        Some(1usize)
    } else {
        None
    }
}

/// The names after the nonterminal tokens of `toks` were interned, left to right.
pub open spec fn intern_tokens(names: Seq<Seq<char>>, toks: Seq<Seq<char>>) -> Seq<Seq<char>>
    decreases toks.len(),
{
    if toks.len() == 0 {
        names
    } else {
        let before = intern_tokens(names, toks.drop_last());
        if term_of(toks.last()) is Some {
            before
        } else {
            intern(before, toks.last())
        }
    }
}

/// No name is the token of a terminal (`a` or `b`).
pub open spec fn nonterminal_names(names: Seq<Seq<char>>) -> bool {
    forall|i: int| 0 <= i < names.len() ==> term_of(#[trigger] names[i]) is None
}

/// Interning keeps every name a nonterminal name.
pub proof fn lemma_intern_tokens_nonterminal(names: Seq<Seq<char>>, toks: Seq<Seq<char>>)
    requires
        nonterminal_names(names),
    ensures
        nonterminal_names(intern_tokens(names, toks)),
    decreases toks.len(),
{
    if toks.len() > 0 {
        lemma_intern_tokens_nonterminal(names, toks.drop_last());
        let before = intern_tokens(names, toks.drop_last());
        if term_of(toks.last()) is None && !before.contains(toks.last()) {
            assert forall|i: int| 0 <= i < before.push(toks.last()).len() implies term_of(
                #[trigger] before.push(toks.last())[i],
            ) is None by {
                if i < before.len() {
                    assert(before.push(toks.last())[i] == before[i]);
                }
            }
        }
    }
}

/// `syms` are the symbols of the tokens `toks`, nonterminals by their index in `names`.
pub open spec fn symbols_match(names: Seq<Seq<char>>, toks: Seq<Seq<char>>, syms: Seq<Symbol>) -> bool {
    &&& syms.len() == toks.len()
    &&& forall|i: int|
        0 <= i < toks.len() ==> match term_of(#[trigger] toks[i]) {
            Some(t) => syms[i].terminal && syms[i].value == t,
            None => !syms[i].terminal && syms[i].value < names.len() && names[syms[i].value as int]
                == toks[i],
        }
}

/// The rules, in increasing order, whose left-hand side is `n`.
pub open spec fn rules_of(lhs: Seq<usize>, n: int) -> Seq<usize>
    decreases lhs.len(),
{
    if lhs.len() == 0 {
        Seq::empty()
    } else {
        let before = rules_of(lhs.drop_last(), n);
        if lhs.last() == n {
            before.push((lhs.len() - 1) as usize)
        } else {
            before
        }
    }
}

/// `rules_of(lhs, n)` lists exactly the rules whose left-hand side is `n`.
pub proof fn lemma_rules_of(lhs: Seq<usize>, n: int, x: usize)
    requires
        lhs.len() <= usize::MAX,
    ensures
        rules_of(lhs, n).contains(x) <==> (x < lhs.len() && lhs[x as int] == n),
        forall|k: int| 0 <= k < rules_of(lhs, n).len() ==> #[trigger] rules_of(lhs, n)[k] < lhs.len()
            && lhs[rules_of(lhs, n)[k] as int] == n,
    decreases lhs.len(),
{
    if lhs.len() > 0 {
        let p = lhs.drop_last();
        lemma_rules_of(p, n, x);
        let b = rules_of(p, n);
        assert forall|k: int| 0 <= k < b.len() implies #[trigger] b[k] < lhs.len() && lhs[b[k] as int] == n by {
            assert(b[k] < p.len() && p[b[k] as int] == n);
        }
        if x < p.len() {
            assert(lhs[x as int] == p[x as int]);
        }
        if lhs.last() == n {
            let s = b.push((lhs.len() - 1) as usize);
            if s.contains(x) {
                let k = choose|k: int| 0 <= k < s.len() && s[k] == x;
                if k < b.len() {
                    assert(b.contains(x));
                }
            }
            if x < lhs.len() && lhs[x as int] == n {
                if x < p.len() {
                    let k = choose|k: int| 0 <= k < b.len() && b[k] == x;
                    assert(s[k] == x);
                } else {
                    assert(s[b.len() as int] == x);
                }
            }
        }
    }
}

proof fn lemma_intern_prefix(names: Seq<Seq<char>>, name: Seq<char>)
    requires
        names.no_duplicates(),
    ensures
        intern(names, name).no_duplicates(),
        intern(names, name).contains(name),
        intern(names, name).len() >= names.len(),
        forall|k: int| 0 <= k < names.len() ==> #[trigger] intern(names, name)[k] == names[k],
{
    if !names.contains(name) {
        assert(intern(names, name)[names.len() as int] == name);
    }
}

/// The names that a table of rules uses, in order of first use: each rule's
/// left-hand side, then the nonterminal tokens of its right-hand side.
pub open spec fn table_names(table: Seq<(Seq<char>, Seq<Seq<char>>)>) -> Seq<Seq<char>>
    decreases table.len(),
{
    if table.len() == 0 {
        Seq::empty()
    } else {
        intern_tokens(intern(table_names(table.drop_last()), table.last().0), table.last().1)
    }
}

/// The names are those of the rules, in order of first use.
pub open spec fn names_in_rule_order(names: Seq<String>, lhs: Seq<usize>, rhs: Seq<Vec<Symbol>>) -> bool {
    texts(names) == table_names(rule_texts(texts(names), lhs, rhs))
}

/// Interning tokens keeps the names already there, in place.
proof fn lemma_intern_tokens_prefix(names: Seq<Seq<char>>, toks: Seq<Seq<char>>)
    ensures
        intern_tokens(names, toks).len() >= names.len(),
        forall|k: int| 0 <= k < names.len() ==> #[trigger] intern_tokens(names, toks)[k] == names[k],
    decreases toks.len(),
{
    if toks.len() > 0 {
        lemma_intern_tokens_prefix(names, toks.drop_last());
        let before = intern_tokens(names, toks.drop_last());
        if term_of(toks.last()) is None && !before.contains(toks.last()) {
            assert forall|k: int| 0 <= k < names.len() implies #[trigger] intern_tokens(names, toks)[k] == names[k] by {
                assert(before.push(toks.last())[k] == before[k]);
            }
        }
    }
}

/// The first name of a table is the left-hand side of its first rule.
proof fn lemma_table_names_first(table: Seq<(Seq<char>, Seq<Seq<char>>)>)
    requires
        table.len() > 0,
    ensures
        table_names(table).len() > 0,
        table_names(table)[0] == table[0].0,
    decreases table.len(),
{
    let before = table_names(table.drop_last());
    let n1 = intern(before, table.last().0);
    if table.len() == 1 {
        assert(table.drop_last().len() == 0);
        assert(before =~= Seq::<Seq<char>>::empty());
        assert(n1 =~= seq![table[0].0]);
    } else {
        lemma_table_names_first(table.drop_last());
        assert(table.drop_last()[0] == table[0]);
        if !before.contains(table.last().0) {
            assert(n1[0] == before[0]);
        }
    }
    lemma_intern_tokens_prefix(n1, table.last().1);
}

/// A map from each nonterminal name to its index.
pub type NameMap = vstd::hash_map::StringHashMap<usize>;

/// `map` gives each name of `names` its index there, and holds no other key.
pub open spec fn indexes(map: Map<Seq<char>, usize>, names: Seq<Seq<char>>) -> bool {
    &&& forall|t: Seq<char>| #[trigger] map.contains_key(t) ==> map[t] < names.len() && names[map[t] as int] == t
    &&& forall|i: int| 0 <= i < names.len() ==> #[trigger] map.contains_key(names[i])
}

/// `map` and `names` form a registry of names: the map is finite, has one
/// key per listed name, and gives each name its position in the list.
pub open spec fn registry(map: Map<Seq<char>, usize>, names: Seq<Seq<char>>) -> bool {
    &&& map.dom().finite()
    &&& map.len() == names.len()
    &&& forall|i: int| 0 <= i < names.len() ==> #[trigger] map.contains_key(names[i]) && map[names[i]] == i
}

/// A registry is a map that indexes distinct names, and back.
pub proof fn lemma_registry(map: Map<Seq<char>, usize>, names: Seq<Seq<char>>)
    ensures
        registry(map, names) <==> (names.no_duplicates() && indexes(map, names)),
{
    if registry(map, names) {
        assert forall|a: int, b: int| 0 <= a < b < names.len() implies names[a] != names[b] by {
            assert(map.contains_key(names[a]) && map[names[a]] == a);
            assert(map.contains_key(names[b]) && map[names[b]] == b);
        }
        assert(names.to_set().subset_of(map.dom()));
        names.unique_seq_to_set();
        vstd::set_lib::lemma_subset_equality(names.to_set(), map.dom());
        assert forall|t: Seq<char>| #[trigger] map.contains_key(t) implies map[t] < names.len() && names[map[t] as int] == t by {
            assert(names.to_set().contains(t));
            let i = choose|i: int| 0 <= i < names.len() && names[i] == t;
            assert(map[names[i]] == i);
        }
    }
    if names.no_duplicates() && indexes(map, names) {
        lemma_indexes_size(map, names);
        assert forall|i: int| 0 <= i < names.len() implies #[trigger] map.contains_key(names[i]) && map[names[i]] == i by {
            assert(map.contains_key(names[i]));
            let k = map[names[i]] as int;
            assert(names[k] == names[i]);
        }
    }
}

/// Finds `name` in the map of nonterminal names, adding it at the end of
/// `names` and to the map when it is not there; returns its index.
pub fn get_nt_index(map: &mut NameMap, names: &mut Vec<String>, name: &str) -> (idx: usize)
    ensures
        old(map)@.contains_key(name@) ==> {
            &&& final(map)@ == old(map)@
            &&& final(names)@ == old(names)@
            &&& idx == old(map)@[name@]
        },
        !old(map)@.contains_key(name@) ==> {
            &&& final(map)@ == old(map)@.insert(name@, idx)
            &&& idx == old(names)@.len()
            &&& final(names)@.len() == old(names)@.len() + 1
            &&& final(names)@.drop_last() == old(names)@
            &&& final(names)@.last()@ == name@
        },
        texts(old(names)@).no_duplicates() && indexes(old(map)@, texts(old(names)@)) ==> {
            &&& texts(final(names)@) == intern(texts(old(names)@), name@)
            &&& texts(final(names)@).no_duplicates()
            &&& indexes(final(map)@, texts(final(names)@))
            &&& idx < final(names)@.len()
            &&& texts(final(names)@)[idx as int] == name@
            &&& final(map)@.dom() == texts(final(names)@).to_set()
            &&& final(map)@.len() == final(names)@.len()
        },
        registry(old(map)@, texts(old(names)@)) ==> registry(final(map)@, texts(final(names)@)),
{
    let ghost before = texts(names@);
    let ghost ok = before.no_duplicates() && indexes(map@, before);
    proof {
        lemma_registry(map@, before);
    }
    match map.get(name) {
        Some(i) => {
            let k: usize = *i;
            proof {
                if ok {
                    assert(before.contains(name@));
                    lemma_indexes_size(map@, before);
                }
            }
            return k;
        },
        None => {},
    }
    proof {
        if ok && before.contains(name@) {
            let k = choose|k: int| 0 <= k < before.len() && before[k] == name@;
            assert(map@.contains_key(before[k]));
        }
    }
    let idx = names.len();
    names.push(name.to_owned());
    map.insert(name.to_owned(), idx);
    assert(texts(names@) =~= before.push(name@));
    assert(names@.drop_last() =~= old(names)@);
    proof {
        if ok {
            lemma_intern_prefix(before, name@);
            let ns = texts(names@);
            assert forall|t: Seq<char>| #[trigger] map@.contains_key(t) implies map@[t] < ns.len() && ns[map@[t] as int] == t by {
                if t != name@ {
                    assert(ns[map@[t] as int] == before[map@[t] as int]);
                }
            }
            assert forall|i: int| 0 <= i < ns.len() implies #[trigger] map@.contains_key(ns[i]) by {
                if i < before.len() {
                    assert(ns[i] == before[i]);
                }
            }
            lemma_indexes_size(map@, ns);
        }
        lemma_registry(map@, texts(names@));
    }
    idx
}

/// A map that indexes distinct names holds exactly those names, one key each.
pub proof fn lemma_indexes_size(map: Map<Seq<char>, usize>, names: Seq<Seq<char>>)
    requires
        indexes(map, names),
        names.no_duplicates(),
    ensures
        map.dom() == names.to_set(),
        map.len() == names.len(),
{
    assert forall|t: Seq<char>| map.dom().contains(t) <==> #[trigger] names.to_set().contains(t) by {
        if map.contains_key(t) {
            assert(names[map[t] as int] == t);
        }
        if names.contains(t) {
            let i = choose|i: int| 0 <= i < names.len() && names[i] == t;
            assert(map.contains_key(names[i]));
        }
    }
    assert(map.dom() =~= names.to_set());
    names.unique_seq_to_set();
}

} // verus!

verus! {

/// The text of a symbol: `a` or `b` for a terminal, its name for a nonterminal.
pub open spec fn sym_text(names: Seq<Seq<char>>, s: Symbol) -> Seq<char> {
    if s.terminal {
        if s.value == 0 {
            "a"@
        } else {
            "b"@
        }
    } else {
        names[s.value as int]
    }
}

/// The rules as texts: the name of the left-hand side and the texts of the
/// symbols on the right-hand side.
pub open spec fn rule_texts(names: Seq<Seq<char>>, lhs: Seq<usize>, rhs: Seq<Vec<Symbol>>) -> Seq<(Seq<char>, Seq<Seq<char>>)> {
    Seq::new(lhs.len(), |r: int| (names[lhs[r] as int], rhs[r]@.map_values(|s: Symbol| sym_text(names, s))))
}

/// Every name that the rules refer to is among the first `n` names, and
/// every terminal is `0` (`a`) or `1` (`b`).
#[verifier::opaque]
pub open spec fn refs_in_range(n: int, lhs: Seq<usize>, rhs: Seq<Vec<Symbol>>) -> bool {
    &&& lhs.len() == rhs.len()
    &&& forall|r: int| 0 <= r < lhs.len() ==> #[trigger] lhs[r] < n
    &&& forall|r: int, i: int|
        0 <= r < rhs.len() && 0 <= i < rhs[r]@.len() && !(#[trigger] rhs[r]@[i]).terminal ==> rhs[r]@[i].value < n
    &&& forall|r: int, i: int|
        0 <= r < rhs.len() && 0 <= i < rhs[r]@.len() && (#[trigger] rhs[r]@[i]).terminal ==> rhs[r]@[i].value < 2
}

/// Rules whose references are in range have their left-hand sides in range.
pub proof fn lemma_refs_lhs(n: int, lhs: Seq<usize>, rhs: Seq<Vec<Symbol>>)
    requires
        refs_in_range(n, lhs, rhs),
    ensures
        forall|r: int| 0 <= r < lhs.len() ==> #[trigger] lhs[r] < n,
{
    reveal(refs_in_range);
}

/// No rules refer to nothing.
pub proof fn lemma_refs_empty(n: int, lhs: Seq<usize>, rhs: Seq<Vec<Symbol>>)
    requires
        lhs.len() == 0,
        rhs.len() == 0,
    ensures
        refs_in_range(n, lhs, rhs),
{
    reveal(refs_in_range);
}

proof fn lemma_rule_texts_extend(
    names1: Seq<Seq<char>>,
    names2: Seq<Seq<char>>,
    lhs: Seq<usize>,
    rhs: Seq<Vec<Symbol>>,
)
    requires
        refs_in_range(names1.len() as int, lhs, rhs),
        names2.len() >= names1.len(),
        forall|k: int| 0 <= k < names1.len() ==> #[trigger] names2[k] == names1[k],
    ensures
        rule_texts(names2, lhs, rhs) == rule_texts(names1, lhs, rhs),
        refs_in_range(names2.len() as int, lhs, rhs),
{
    reveal(refs_in_range);
    assert forall|r: int| 0 <= r < lhs.len() implies #[trigger] rule_texts(names2, lhs, rhs)[r] == rule_texts(names1, lhs, rhs)[r] by {
        assert(rhs[r]@.map_values(|s: Symbol| sym_text(names2, s)) =~= rhs[r]@.map_values(|s: Symbol| sym_text(names1, s)));
    }
    assert(rule_texts(names2, lhs, rhs) =~= rule_texts(names1, lhs, rhs));
}

/// The terminal that the token `tok` stands for, if any.
pub fn sym_term_from_token(tok: &str) -> (r: Option<usize>)
    ensures
        r == term_of(tok@),
{
    if crate::text::same_text(tok, "a") {
        return Some(0usize);
    }
    if crate::text::same_text(tok, "b") {
        return Some(1usize);
    }
    None
}

/// Appends the rule `lhs -> rhs_tokens`, interning the nonterminal names it
/// uses; the tokens `a` and `b` are terminals. The new rule's left-hand side
/// and nonterminals get the indices that [`get_nt_index`] gives their names.
pub fn add_rule_tokens(
    map: &mut NameMap,
    names: &mut Vec<String>,
    rules_lhs: &mut Vec<usize>,
    rules_rhs: &mut Vec<Vec<Symbol>>,
    lhs: &str,
    rhs_tokens: &[&str],
)
    ensures
        final(rules_lhs)@.len() == old(rules_lhs)@.len() + 1,
        final(rules_lhs)@.drop_last() == old(rules_lhs)@,
        final(rules_rhs)@.len() == old(rules_rhs)@.len() + 1,
        final(rules_rhs)@.drop_last() == old(rules_rhs)@,
        final(rules_rhs)@.last()@.len() == rhs_tokens@.len(),
        forall|i: int| 0 <= i < rhs_tokens@.len() ==> match term_of((#[trigger] rhs_tokens@[i])@) {
            Some(v) => final(rules_rhs)@.last()@[i] == Symbol { terminal: true, value: v },
            None => !final(rules_rhs)@.last()@[i].terminal,
        },
        texts(old(names)@).no_duplicates() && indexes(old(map)@, texts(old(names)@)) ==> {
            &&& indexes(final(map)@, texts(final(names)@))
            &&& texts(final(names)@) == intern_tokens(intern(texts(old(names)@), lhs@), token_texts(rhs_tokens@))
            &&& texts(final(names)@).no_duplicates()
            &&& final(names)@.len() >= old(names)@.len()
            &&& forall|k: int| 0 <= k < old(names)@.len() ==> #[trigger] texts(final(names)@)[k] == texts(old(names)@)[k]
            &&& final(rules_lhs)@.last() < final(names)@.len()
            &&& texts(final(names)@)[final(rules_lhs)@.last() as int] == lhs@
            &&& symbols_match(texts(final(names)@), token_texts(rhs_tokens@), final(rules_rhs)@.last()@)
            &&& nonterminal_names(texts(old(names)@)) && term_of(lhs@) is None ==> nonterminal_names(texts(final(names)@))
            &&& refs_in_range(old(names)@.len() as int, old(rules_lhs)@, old(rules_rhs)@) ==> {
                &&& refs_in_range(final(names)@.len() as int, final(rules_lhs)@, final(rules_rhs)@)
                &&& rule_texts(texts(final(names)@), final(rules_lhs)@, final(rules_rhs)@) == rule_texts(
                    texts(old(names)@),
                    old(rules_lhs)@,
                    old(rules_rhs)@,
                ).push((lhs@, token_texts(rhs_tokens@)))
                &&& names_in_rule_order(old(names)@, old(rules_lhs)@, old(rules_rhs)@) ==> names_in_rule_order(
                    final(names)@,
                    final(rules_lhs)@,
                    final(rules_rhs)@,
                )
            }
        },
{
    let ghost names0 = texts(names@);
    let ghost ok = names0.no_duplicates() && indexes(map@, names0);
    proof {
        if ok && nonterminal_names(names0) && term_of(lhs@) is None {
            let n1 = intern(names0, lhs@);
            assert forall|i: int| 0 <= i < n1.len() implies term_of(#[trigger] n1[i]) is None by {
                if i < names0.len() && !names0.contains(lhs@) {
                    assert(n1[i] == names0[i]);
                }
            }
            lemma_intern_tokens_nonterminal(n1, token_texts(rhs_tokens@));
        }
    }
    let lhs_idx: usize = get_nt_index(map, names, lhs);
    proof {
        if ok {
            lemma_intern_prefix(names0, lhs@);
        }
    }
    let ghost names1 = texts(names@);
    let ghost toks = token_texts(rhs_tokens@);
    let mut rhs: Vec<Symbol> = Vec::new();
    let mut i: usize = 0;
    proof {
        assert(toks.take(0) =~= Seq::<Seq<char>>::empty());
    }
    while i < rhs_tokens.len()
        invariant
            0 <= i <= rhs_tokens@.len(),
            toks == token_texts(rhs_tokens@),
            rhs@.len() == i,
            forall|k: int| 0 <= k < i ==> match term_of((#[trigger] rhs_tokens@[k])@) {
                Some(v) => rhs@[k] == Symbol { terminal: true, value: v },
                None => !rhs@[k].terminal,
            },
            ok ==> {
                &&& names1 == intern(names0, lhs@)
                &&& names0.no_duplicates()
                &&& texts(names@) == intern_tokens(names1, toks.take(i as int))
                &&& texts(names@).no_duplicates()
                &&& indexes(map@, texts(names@))
                &&& names@.len() >= names1.len()
                &&& forall|k: int| 0 <= k < names1.len() ==> #[trigger] texts(names@)[k] == names1[k]
                &&& lhs_idx < names1.len()
                &&& names1[lhs_idx as int] == lhs@
                &&& symbols_match(texts(names@), toks.take(i as int), rhs@)
            },
        decreases rhs_tokens@.len() - i,
    {
        let tok: &str = rhs_tokens[i];
        let ghost nb = texts(names@);
        let ghost rb = rhs@;
        proof {
            assert(toks.take(i + 1).drop_last() =~= toks.take(i as int));
            assert(toks.take(i + 1).last() == tok@);
            assert(toks[i as int] == tok@);
        }
        let t: Option<usize> = sym_term_from_token(tok);
        if t.is_some() {
            rhs.push(Symbol { terminal: true, value: t.unwrap() });
        } else {
            let nt_idx: usize = get_nt_index(map, names, tok);
            proof {
                if ok {
                    lemma_intern_prefix(nb, tok@);
                }
            }
            rhs.push(Symbol { terminal: false, value: nt_idx });
        }
        proof {
            assert forall|k: int| 0 <= k < i + 1 implies match term_of((#[trigger] rhs_tokens@[k])@) {
                Some(v) => rhs@[k] == Symbol { terminal: true, value: v },
                None => !rhs@[k].terminal,
            } by {
                if k < i {
                    assert(rhs@[k] == rb[k]);
                }
            }
            if ok {
                let na = texts(names@);
                assert(na == intern_tokens(names1, toks.take(i + 1)));
                assert forall|k: int| 0 <= k < i + 1 implies match term_of(#[trigger] toks.take(i + 1)[k]) {
                    Some(v) => rhs@[k].terminal && rhs@[k].value == v,
                    None => !rhs@[k].terminal && rhs@[k].value < na.len() && na[rhs@[k].value as int] == toks.take(i + 1)[k],
                } by {
                    if k < i {
                        assert(toks.take(i + 1)[k] == toks.take(i as int)[k]);
                        match term_of(toks.take(i as int)[k]) {
                            Some(v) => {},
                            None => {
                                assert(nb[rhs@[k].value as int] == toks.take(i as int)[k]);
                                assert(na[rhs@[k].value as int] == nb[rhs@[k].value as int]);
                            },
                        }
                    }
                }
            }
        }
        i = i + 1;
    }
    rules_lhs.push(lhs_idx);
    rules_rhs.push(rhs);
    proof {
        assert(toks.take(rhs_tokens@.len() as int) =~= toks);
        assert(rules_lhs@.drop_last() =~= old(rules_lhs)@);
        assert(rules_rhs@.drop_last() =~= old(rules_rhs)@);
    }
    proof {
        reveal(refs_in_range);
        if ok && refs_in_range(names0.len() as int, old(rules_lhs)@, old(rules_rhs)@) {
        let nf = texts(names@);
        lemma_rule_texts_extend(names0, nf, old(rules_lhs)@, old(rules_rhs)@);
        let last = rules_rhs@.last()@;
        assert forall|r: int, i: int|
            0 <= r < rules_rhs@.len() && 0 <= i < rules_rhs@[r]@.len() && !(#[trigger] rules_rhs@[r]@[i]).terminal implies rules_rhs@[r]@[i].value < nf.len() by {
            if r < old(rules_rhs)@.len() {
                assert(rules_rhs@[r] == old(rules_rhs)@[r]);
            } else {
                match term_of(toks[i]) {
                    Some(v) => {},
                    None => {},
                }
            }
        }
        assert forall|r: int, i: int|
            0 <= r < rules_rhs@.len() && 0 <= i < rules_rhs@[r]@.len() && (#[trigger] rules_rhs@[r]@[i]).terminal implies rules_rhs@[r]@[i].value < 2 by {
            if r < old(rules_rhs)@.len() {
                assert(rules_rhs@[r] == old(rules_rhs)@[r]);
            } else {
                match term_of(toks[i]) {
                    Some(v) => {},
                    None => {},
                }
            }
        }
        assert forall|r: int| 0 <= r < rules_lhs@.len() implies #[trigger] rules_lhs@[r] < nf.len() by {
            if r < old(rules_lhs)@.len() {
                assert(rules_lhs@[r] == old(rules_lhs)@[r]);
            }
        }
        assert(last.map_values(|s: Symbol| sym_text(nf, s)) =~= toks) by {
            assert forall|i: int| 0 <= i < toks.len() implies last.map_values(|s: Symbol| sym_text(nf, s))[i] == #[trigger] toks[i] by {
                match term_of(toks[i]) {
                    Some(v) => {},
                    None => {},
                }
            }
        }
        let old_t = rule_texts(names0, old(rules_lhs)@, old(rules_rhs)@);
        let new_t = rule_texts(nf, rules_lhs@, rules_rhs@);
        assert forall|r: int| 0 <= r < new_t.len() implies #[trigger] new_t[r] == old_t.push((lhs@, toks))[r] by {
            if r < old_t.len() {
                assert(rules_lhs@[r] == old(rules_lhs)@[r]);
                assert(rules_rhs@[r] == old(rules_rhs)@[r]);
                assert(rule_texts(nf, old(rules_lhs)@, old(rules_rhs)@)[r] == old_t[r]);
            }
        }
        assert(new_t =~= old_t.push((lhs@, toks)));
        assert(new_t.drop_last() =~= old_t);
        }
    }
}

} // verus!

verus! {

/// The index of `name` among `names`, `0` when it is missing.
pub open spec fn index_or_zero(names: Seq<Seq<char>>, name: Seq<char>) -> int {
    if names.contains(name) {
        names.index_of(name)
    } else {
        0
    }
}

/// Assembles the grammar whose start symbol is the index that `map` gives
/// `start_name` (`0` when the map has no such name), listing for each
/// nonterminal its rules in order.
pub fn finalize_grammar(
    start_name: &str,
    map: NameMap,
    names: Vec<String>,
    rules_lhs: Vec<usize>,
    rules_rhs: Vec<Vec<Symbol>>,
) -> (g: Grammar)
    requires
        forall|r: int| 0 <= r < rules_lhs@.len() ==> #[trigger] rules_lhs@[r] < names@.len(),
    ensures
        g.nt_names@ == names@,
        g.rules_lhs@ == rules_lhs@,
        g.rules_rhs@ == rules_rhs@,
        g.start == (if map@.contains_key(start_name@) { map@[start_name@] as int } else { 0 }),
        texts(names@).no_duplicates() && indexes(map@, texts(names@)) ==> g.start == index_or_zero(texts(names@), start_name@),
        g.rules_by_lhs@.len() == names@.len(),
        forall|n: int| 0 <= n < names@.len() ==> (#[trigger] g.rules_by_lhs@[n])@ == rules_of(rules_lhs@, n),
{
    let start_idx: usize = match map.get(start_name) {
        Some(k) => *k,
        None => 0,
    };
    proof {
        let ns = texts(names@);
        if ns.no_duplicates() && indexes(map@, ns) && ns.contains(start_name@) {
            let k = choose|k: int| 0 <= k < ns.len() && ns[k] == start_name@;
            assert(map@.contains_key(ns[k]));
            assert(ns[start_idx as int] == start_name@);
            let m = ns.index_of(start_name@);
            assert(ns[m] == start_name@);
        }
    }
    let mut rules_by_lhs: Vec<Vec<usize>> = Vec::new();
    let mut i: usize = 0;
    while i < names.len()
        invariant
            0 <= i <= names@.len(),
            rules_by_lhs@.len() == i,
            forall|n: int| 0 <= n < i ==> (#[trigger] rules_by_lhs@[n])@ == Seq::<usize>::empty(),
        decreases names@.len() - i,
    {
        rules_by_lhs.push(Vec::new());
        i = i + 1;
    }
    proof {
        assert forall|n: int| 0 <= n < names@.len() implies (#[trigger] rules_by_lhs@[n])@ == rules_of(rules_lhs@.take(0), n) by {
            assert(rules_lhs@.take(0).len() == 0);
        }
    }
    let mut r: usize = 0;
    while r < rules_lhs.len()
        invariant
            0 <= r <= rules_lhs@.len(),
            rules_by_lhs@.len() == names@.len(),
            forall|q: int| 0 <= q < rules_lhs@.len() ==> #[trigger] rules_lhs@[q] < names@.len(),
            forall|n: int| 0 <= n < names@.len() ==> (#[trigger] rules_by_lhs@[n])@ == rules_of(rules_lhs@.take(r as int), n),
        decreases rules_lhs@.len() - r,
    {
        let lhs_idx: usize = rules_lhs[r];
        let ghost before = rules_by_lhs@;
        rules_by_lhs[lhs_idx].push(r);
        proof {
            assert(rules_lhs@.take(r + 1).drop_last() =~= rules_lhs@.take(r as int));
            assert forall|n: int| 0 <= n < names@.len() implies (#[trigger] rules_by_lhs@[n])@ == rules_of(rules_lhs@.take(r + 1), n) by {
                if n != lhs_idx {
                    assert(rules_by_lhs@[n] == before[n]);
                }
            }
        }
        r = r + 1;
    }
    proof {
        assert(rules_lhs@.take(rules_lhs@.len() as int) =~= rules_lhs@);
    }
    Grammar {
        start: start_idx,
        nt_names: names,
        rules_lhs: rules_lhs,
        rules_rhs: rules_rhs,
        rules_by_lhs: rules_by_lhs,
    }
}

/// The grammar built by `finalize_grammar` is well formed when it has a
/// nonterminal, fewer than `2^24` rules, right-hand sides of at most `255`
/// symbols and nonterminal symbols in range.
pub proof fn lemma_finalized_wf(g: &Grammar)
    requires
        g.nt_names@.len() > 0,
        g.rules_rhs@.len() == g.rules_lhs@.len(),
        g.rules_by_lhs@.len() == g.nt_names@.len(),
        g.start < g.nt_names@.len(),
        g.num_rules() < 0x1000000,
        forall|r: int| 0 <= r < g.num_rules() ==> #[trigger] g.lhs(r) < g.num_nts(),
        forall|r: int| 0 <= r < g.num_rules() ==> #[trigger] g.rhs(r).len() < 256,
        forall|r: int, i: int|
            0 <= r < g.num_rules() && 0 <= i < g.rhs(r).len() && !(#[trigger] g.rhs(r)[i]).terminal
                ==> g.rhs(r)[i].value < g.num_nts(),
        forall|n: int| 0 <= n < g.num_nts() ==> (#[trigger] g.rules_by_lhs@[n])@ == rules_of(g.rules_lhs@, n),
    ensures
        g.wf(),
{
    assert forall|n: int, k: int|
        0 <= n < g.num_nts() && 0 <= k < g.rules_by_lhs@[n]@.len() implies {
            &&& (#[trigger] g.rules_by_lhs@[n]@[k]) < g.num_rules()
            &&& g.lhs(g.rules_by_lhs@[n]@[k] as int) == n
        } by {
        lemma_rules_of(g.rules_lhs@, n, 0);
    }
    assert forall|r: int| 0 <= r < g.num_rules() implies #[trigger] g.rules_by_lhs@[g.lhs(r)]@.contains(r as usize) by {
        lemma_rules_of(g.rules_lhs@, g.lhs(r), r as usize);
    }
}

} // verus!

verus! {

impl Grammar {
    /// The rules of the grammar as texts.
    pub open spec fn rules_text(&self) -> Seq<(Seq<char>, Seq<Seq<char>>)> {
        rule_texts(texts(self.nt_names@), self.rules_lhs@, self.rules_rhs@)
    }
}

/// `g` is the well-formed grammar without empty right-hand sides whose rules,
/// as texts, are `table`; its nonterminal names are distinct and none is `a`
/// or `b`, and each terminal is `0` (`a`) or `1` (`b`), so each text names
/// one symbol; the names stand in order of first use in
/// `table`, so the start symbol `start_name`, the left-hand side of the first
/// rule, is nonterminal `0`; each nonterminal lists its rules in order. This
/// fixes every field of `g`.
pub open spec fn built_from(g: Grammar, table: Seq<(Seq<char>, Seq<Seq<char>>)>, start_name: Seq<char>) -> bool {
    &&& g.wf()
    &&& g.eps_free()
    &&& texts(g.nt_names@).no_duplicates()
    &&& nonterminal_names(texts(g.nt_names@))
    &&& texts(g.nt_names@)[g.start as int] == start_name
    &&& g.rules_text() == table
    &&& texts(g.nt_names@) == table_names(table)
    &&& g.start == 0
    &&& g.rules_by_lhs@.len() == g.nt_names@.len()
    &&& forall|r: int, i: int|
        0 <= r < g.num_rules() && 0 <= i < g.rhs(r).len() && (#[trigger] g.rhs(r)[i]).terminal ==> g.rhs(r)[i].value < 2
    &&& forall|n: int| 0 <= n < g.nt_names@.len() ==> (#[trigger] g.rules_by_lhs@[n])@ == rules_of(g.rules_lhs@, n)
}

/// What a grammar built from a table of rules with `finalize_grammar` is:
/// well formed, without empty right-hand sides, started by `start_name`.
pub proof fn lemma_table_grammar(g: &Grammar, table: Seq<(Seq<char>, Seq<Seq<char>>)>, start_name: Seq<char>)
    requires
        texts(g.nt_names@).no_duplicates(),
        refs_in_range(g.nt_names@.len() as int, g.rules_lhs@, g.rules_rhs@),
        g.rules_by_lhs@.len() == g.nt_names@.len(),
        forall|n: int| 0 <= n < g.nt_names@.len() ==> (#[trigger] g.rules_by_lhs@[n])@ == rules_of(g.rules_lhs@, n),
        g.start == index_or_zero(texts(g.nt_names@), start_name),
        g.rules_text() == table,
        0 < table.len() < 0x1000000,
        table[0].0 == start_name,
        forall|r: int| 0 <= r < table.len() ==> 1 <= (#[trigger] table[r]).1.len() < 256,
        nonterminal_names(texts(g.nt_names@)),
        texts(g.nt_names@) == table_names(table),
    ensures
        built_from(*g, table, start_name),
{
    reveal(refs_in_range);
    let ns = texts(g.nt_names@);
    lemma_table_names_first(table);
    assert(g.rules_text()[0] == table[0]);
    assert(ns[g.rules_lhs@[0] as int] == start_name);
    assert(ns.contains(start_name));
    let m = ns.index_of(start_name);
    assert(ns[0] == start_name);
    assert(ns[m] == start_name);
    assert(m == 0);
    assert forall|r: int| 0 <= r < g.num_rules() implies #[trigger] g.rhs(r).len() == table[r].1.len() by {
        assert(g.rules_text()[r] == table[r]);
    }
    assert forall|r: int| 0 <= r < g.num_rules() implies #[trigger] g.rhs(r).len() < 256 by {
        assert(g.rhs(r).len() == table[r].1.len());
    }
    assert forall|r: int| 0 <= r < g.num_rules() implies #[trigger] g.rhs(r).len() >= 1 by {
        assert(g.rhs(r).len() == table[r].1.len());
    }
    assert forall|r: int| 0 <= r < g.num_rules() implies #[trigger] g.lhs(r) < g.num_nts() by {
        assert(g.rules_lhs@[r] < g.nt_names@.len());
    }
    assert forall|r: int, i: int|
        0 <= r < g.num_rules() && 0 <= i < g.rhs(r).len() && (#[trigger] g.rhs(r)[i]).terminal implies g.rhs(r)[i].value < 2 by {
        assert(g.rules_rhs@[r]@[i] == g.rhs(r)[i]);
    }
    assert forall|r: int, i: int|
        0 <= r < g.num_rules() && 0 <= i < g.rhs(r).len() && !(#[trigger] g.rhs(r)[i]).terminal implies g.rhs(r)[i].value < g.num_nts() by {
        assert(g.rules_rhs@[r]@[i] == g.rhs(r)[i]);
    }
    lemma_finalized_wf(g);
}

} // verus!

verus! {

/// The right-hand side of rule `r` up to symbol `i`, symbols separated by spaces.
pub open spec fn rhs_string(g: &Grammar, r: int, i: int) -> Seq<char>
    decreases i,
{
    if i <= 0 {
        Seq::empty()
    } else {
        rhs_string(g, r, i - 1) + (if i - 1 > 0 {
            " "@
        } else {
            Seq::empty()
        }) + sym_text(texts(g.nt_names@), g.rhs(r)[i - 1])
    }
}

/// The line `lhs -> rhs` of rule `r`.
pub open spec fn rule_line(g: &Grammar, r: int) -> Seq<char> {
    texts(g.nt_names@)[g.lhs(r)] + " -> "@ + rhs_string(g, r, g.rhs(r).len() as int) + "\n"@
}

/// The lines of the first `k` rules.
pub open spec fn rule_lines(g: &Grammar, k: int) -> Seq<char>
    decreases k,
{
    if k <= 0 {
        Seq::empty()
    } else {
        rule_lines(g, k - 1) + rule_line(g, k - 1)
    }
}

/// The text that `grammar_to_string` gives: the start symbol, then one line per rule.
pub open spec fn grammar_string(g: &Grammar) -> Seq<char> {
    "Start symbol: "@ + texts(g.nt_names@)[g.start as int] + "\n"@ + rule_lines(g, g.num_rules())
}

impl Grammar {
    /// Every index that printing the grammar reads is in range: the start
    /// symbol, the left-hand sides, the right-hand sides and their nonterminals.
    pub open spec fn printable(&self) -> bool {
        &&& self.start < self.nt_names@.len()
        &&& self.rules_rhs@.len() >= self.rules_lhs@.len()
        &&& forall|r: int| 0 <= r < self.num_rules() ==> #[trigger] self.lhs(r) < self.num_names()
        &&& forall|r: int, i: int|
            0 <= r < self.num_rules() && 0 <= i < self.rhs(r).len() && !(#[trigger] self.rhs(r)[i]).terminal
                ==> self.rhs(r)[i].value < self.num_names()
    }
}

/// The grammar as text: the start symbol, then one line per rule.
pub fn grammar_to_string(g: &Grammar) -> (out: String)
    requires
        g.printable(),
    ensures
        out@ == grammar_string(g),
{
    let mut out: String = String::new();
    out.append("Start symbol: ");
    out.append(g.nt_names[g.start].as_str());
    out.append("\n");
    let mut r: usize = 0;
    while r < g.rules_lhs.len()
        invariant
            0 <= r <= g.num_rules(),
            g.printable(),
            out@ == "Start symbol: "@ + texts(g.nt_names@)[g.start as int] + "\n"@ + rule_lines(g, r as int),
        decreases g.num_rules() - r,
    {
        let ghost before = out@;
        proof {
            assert(g.lhs(r as int) < g.num_names());
        }
        let lhs: &String = &g.nt_names[g.rules_lhs[r]];
        out.append(lhs.as_str());
        out.append(" -> ");
        let rhs: &Vec<Symbol> = &g.rules_rhs[r];
        let mut i: usize = 0;
        while i < rhs.len()
            invariant
                0 <= i <= rhs@.len(),
                rhs@ == g.rhs(r as int),
                0 <= r < g.num_rules(),
                g.printable(),
                out@ == before + texts(g.nt_names@)[g.lhs(r as int)] + " -> "@ + rhs_string(g, r as int, i as int),
            decreases rhs@.len() - i,
        {
            let ghost mid = out@;
            if i > 0usize {
                out.append(" ");
            }
            let s: &Symbol = &rhs[i];
            if s.terminal {
                if s.value == 0usize {
                    out.append("a");
                } else {
                    out.append("b");
                }
            } else {
                out.append(g.nt_names[s.value].as_str());
            }
            proof {
                assert(out@ =~= before + texts(g.nt_names@)[g.lhs(r as int)] + " -> "@ + rhs_string(g, r as int, i + 1));
            }
            i = i + 1;
        }
        out.append("\n");
        proof {
            assert(out@ =~= "Start symbol: "@ + texts(g.nt_names@)[g.start as int] + "\n"@ + rule_lines(g, r + 1));
        }
        r = r + 1;
    }
    out
}

} // verus!
