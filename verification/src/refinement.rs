//! How the two intersection grammars relate to the original grammar: each
//! of their rules is a rule of the original grammar with automaton states
//! written around its nonterminals, or a rule of the new start symbol `S'`.
use vstd::prelude::*;
use crate::grammars::{ll1_rule_table, lr0_rule_table, original_rule_table};

verus! {

/// The symbol of the original grammar that a token of an intersection grammar
/// stands for: a name `⟨p,S,q⟩` or `S'` stands for `S`, a name `⟨p,T,q⟩` for
/// `T`; the terminals `a` and `b` stand for themselves.
pub open spec fn original_symbol(t: Seq<char>) -> Seq<char> {
    if t.contains('S') {
        "S"@
    } else if t.contains('T') {
        "T"@
    } else {
        t
    }
}

/// `rule` is a rule of the original grammar once each of its symbols is read
/// as the symbol of the original grammar it stands for, or it is a rule
/// `S' -> X` of the new start symbol with `X` standing for `S`.
pub open spec fn refines_original(rule: (Seq<char>, Seq<Seq<char>>)) -> bool {
    ||| exists|k: int|
        #![trigger original_rule_table()[k]]
        0 <= k < original_rule_table().len() && original_rule_table()[k].0 == original_symbol(rule.0)
            && original_rule_table()[k].1.len() == rule.1.len() && forall|i: int|
            0 <= i < rule.1.len() ==> original_rule_table()[k].1[i] == original_symbol(#[trigger] rule.1[i])
    ||| rule.0 == "S'"@ && rule.1.len() == 1 && original_symbol(rule.1[0]) == "S"@
}

/// The symbol of the original grammar that each token of `ll1_rule_table` stands for.
proof fn lemma_ll1_symbols()
    ensures
        original_symbol("S"@) == "S"@,
        original_symbol("S'"@) == "S"@,
        original_symbol("T"@) == "T"@,
        original_symbol("a"@) == "a"@,
        original_symbol("b"@) == "b"@,
        original_symbol("⟨0,S,10⟩"@) == "S"@,
        original_symbol("⟨0,S,1⟩"@) == "S"@,
        original_symbol("⟨1,S,1⟩"@) == "S"@,
        original_symbol("⟨1,T,1⟩"@) == "T"@,
        original_symbol("⟨1,T,8⟩"@) == "T"@,
        original_symbol("⟨10,S,1⟩"@) == "S"@,
        original_symbol("⟨10,T,1⟩"@) == "T"@,
        original_symbol("⟨10,T,8⟩"@) == "T"@,
        original_symbol("⟨3,S,10⟩"@) == "S"@,
        original_symbol("⟨3,S,1⟩"@) == "S"@,
        original_symbol("⟨3,T,10⟩"@) == "T"@,
        original_symbol("⟨3,T,1⟩"@) == "T"@,
        original_symbol("⟨3,T,8⟩"@) == "T"@,
        original_symbol("⟨7,S,1⟩"@) == "S"@,
        original_symbol("⟨8,S,1⟩"@) == "S"@,
        original_symbol("⟨8,T,1⟩"@) == "T"@,
        original_symbol("⟨8,T,8⟩"@) == "T"@,
{
    reveal_strlit("S");
    reveal_strlit("S'");
    reveal_strlit("T");
    reveal_strlit("a");
    reveal_strlit("b");
    reveal_strlit("⟨0,S,10⟩");
    reveal_strlit("⟨0,S,1⟩");
    reveal_strlit("⟨1,S,1⟩");
    reveal_strlit("⟨1,T,1⟩");
    reveal_strlit("⟨1,T,8⟩");
    reveal_strlit("⟨10,S,1⟩");
    reveal_strlit("⟨10,T,1⟩");
    reveal_strlit("⟨10,T,8⟩");
    reveal_strlit("⟨3,S,10⟩");
    reveal_strlit("⟨3,S,1⟩");
    reveal_strlit("⟨3,T,10⟩");
    reveal_strlit("⟨3,T,1⟩");
    reveal_strlit("⟨3,T,8⟩");
    reveal_strlit("⟨7,S,1⟩");
    reveal_strlit("⟨8,S,1⟩");
    reveal_strlit("⟨8,T,1⟩");
    reveal_strlit("⟨8,T,8⟩");
    assert("S"@[0] == 'S');
    assert("S'"@[0] == 'S');
    assert("T"@[0] == 'T');
    assert(!"T"@.contains('S'));
    assert(!"a"@.contains('S') && !"a"@.contains('T'));
    assert(!"b"@.contains('S') && !"b"@.contains('T'));
    assert("⟨0,S,10⟩"@[3] == 'S');
    assert("⟨0,S,1⟩"@[3] == 'S');
    assert("⟨1,S,1⟩"@[3] == 'S');
    assert("⟨1,T,1⟩"@[3] == 'T');
    assert(!"⟨1,T,1⟩"@.contains('S'));
    assert("⟨1,T,8⟩"@[3] == 'T');
    assert(!"⟨1,T,8⟩"@.contains('S'));
    assert("⟨10,S,1⟩"@[4] == 'S');
    assert("⟨10,T,1⟩"@[4] == 'T');
    assert(!"⟨10,T,1⟩"@.contains('S'));
    assert("⟨10,T,8⟩"@[4] == 'T');
    assert(!"⟨10,T,8⟩"@.contains('S'));
    assert("⟨3,S,10⟩"@[3] == 'S');
    assert("⟨3,S,1⟩"@[3] == 'S');
    assert("⟨3,T,10⟩"@[3] == 'T');
    assert(!"⟨3,T,10⟩"@.contains('S'));
    assert("⟨3,T,1⟩"@[3] == 'T');
    assert(!"⟨3,T,1⟩"@.contains('S'));
    assert("⟨3,T,8⟩"@[3] == 'T');
    assert(!"⟨3,T,8⟩"@.contains('S'));
    assert("⟨7,S,1⟩"@[3] == 'S');
    assert("⟨8,S,1⟩"@[3] == 'S');
    assert("⟨8,T,1⟩"@[3] == 'T');
    assert(!"⟨8,T,1⟩"@.contains('S'));
    assert("⟨8,T,8⟩"@[3] == 'T');
    assert(!"⟨8,T,8⟩"@.contains('S'));
}

proof fn lemma_ll1_refines_0_8()
    ensures
        forall|r: int| 0 <= r < 8 ==> refines_original(#[trigger] ll1_rule_table()[r]),
{
    lemma_ll1_symbols();
    let t = ll1_rule_table();
    let o = original_rule_table();
    assert(t[0] == ("S'"@, seq!["⟨0,S,1⟩"@]));
    assert(refines_original(t[0]));
    assert(t[1] == ("S'"@, seq!["⟨0,S,10⟩"@]));
    assert(refines_original(t[1]));
    assert(t[2] == ("⟨1,T,8⟩"@, seq!["b"@, "a"@, "b"@]));
    assert(refines_original(t[2])) by {
        assert(o[4] == ("T"@, seq!["b"@, "a"@, "b"@]));
        assert(o[4].1[0] == original_symbol(t[2].1[0]));
        assert(o[4].1[1] == original_symbol(t[2].1[1]));
        assert(o[4].1[2] == original_symbol(t[2].1[2]));
    }
    assert(t[3] == ("⟨3,T,8⟩"@, seq!["b"@, "a"@, "b"@]));
    assert(refines_original(t[3])) by {
        assert(o[4] == ("T"@, seq!["b"@, "a"@, "b"@]));
        assert(o[4].1[0] == original_symbol(t[3].1[0]));
        assert(o[4].1[1] == original_symbol(t[3].1[1]));
        assert(o[4].1[2] == original_symbol(t[3].1[2]));
    }
    assert(t[4] == ("⟨8,T,8⟩"@, seq!["b"@, "a"@, "b"@]));
    assert(refines_original(t[4])) by {
        assert(o[4] == ("T"@, seq!["b"@, "a"@, "b"@]));
        assert(o[4].1[0] == original_symbol(t[4].1[0]));
        assert(o[4].1[1] == original_symbol(t[4].1[1]));
        assert(o[4].1[2] == original_symbol(t[4].1[2]));
    }
    assert(t[5] == ("⟨10,T,8⟩"@, seq!["b"@, "a"@, "b"@]));
    assert(refines_original(t[5])) by {
        assert(o[4] == ("T"@, seq!["b"@, "a"@, "b"@]));
        assert(o[4].1[0] == original_symbol(t[5].1[0]));
        assert(o[4].1[1] == original_symbol(t[5].1[1]));
        assert(o[4].1[2] == original_symbol(t[5].1[2]));
    }
    assert(t[6] == ("⟨0,S,10⟩"@, seq!["a"@, "b"@, "b"@, "a"@]));
    assert(refines_original(t[6])) by {
        assert(o[1] == ("S"@, seq!["a"@, "b"@, "b"@, "a"@]));
        assert(o[1].1[0] == original_symbol(t[6].1[0]));
        assert(o[1].1[1] == original_symbol(t[6].1[1]));
        assert(o[1].1[2] == original_symbol(t[6].1[2]));
        assert(o[1].1[3] == original_symbol(t[6].1[3]));
    }
    assert(t[7] == ("⟨1,S,1⟩"@, seq!["a"@, "b"@, "b"@, "a"@]));
    assert(refines_original(t[7])) by {
        assert(o[1] == ("S"@, seq!["a"@, "b"@, "b"@, "a"@]));
        assert(o[1].1[0] == original_symbol(t[7].1[0]));
        assert(o[1].1[1] == original_symbol(t[7].1[1]));
        assert(o[1].1[2] == original_symbol(t[7].1[2]));
        assert(o[1].1[3] == original_symbol(t[7].1[3]));
    }
    assert forall|r: int| 0 <= r < 8 implies refines_original(#[trigger] t[r]) by {
        if r == 0 { assert(refines_original(t[0])); }
        if r == 1 { assert(refines_original(t[1])); }
        if r == 2 { assert(refines_original(t[2])); }
        if r == 3 { assert(refines_original(t[3])); }
        if r == 4 { assert(refines_original(t[4])); }
        if r == 5 { assert(refines_original(t[5])); }
        if r == 6 { assert(refines_original(t[6])); }
        if r == 7 { assert(refines_original(t[7])); }
    }
}

proof fn lemma_ll1_refines_8_16()
    ensures
        forall|r: int| 8 <= r < 16 ==> refines_original(#[trigger] ll1_rule_table()[r]),
{
    lemma_ll1_symbols();
    let t = ll1_rule_table();
    let o = original_rule_table();
    assert(t[8] == ("⟨3,S,10⟩"@, seq!["a"@, "b"@, "b"@, "a"@]));
    assert(refines_original(t[8])) by {
        assert(o[1] == ("S"@, seq!["a"@, "b"@, "b"@, "a"@]));
        assert(o[1].1[0] == original_symbol(t[8].1[0]));
        assert(o[1].1[1] == original_symbol(t[8].1[1]));
        assert(o[1].1[2] == original_symbol(t[8].1[2]));
        assert(o[1].1[3] == original_symbol(t[8].1[3]));
    }
    assert(t[9] == ("⟨7,S,1⟩"@, seq!["a"@, "b"@, "b"@, "a"@]));
    assert(refines_original(t[9])) by {
        assert(o[1] == ("S"@, seq!["a"@, "b"@, "b"@, "a"@]));
        assert(o[1].1[0] == original_symbol(t[9].1[0]));
        assert(o[1].1[1] == original_symbol(t[9].1[1]));
        assert(o[1].1[2] == original_symbol(t[9].1[2]));
        assert(o[1].1[3] == original_symbol(t[9].1[3]));
    }
    assert(t[10] == ("⟨8,S,1⟩"@, seq!["a"@, "b"@, "b"@, "a"@]));
    assert(refines_original(t[10])) by {
        assert(o[1] == ("S"@, seq!["a"@, "b"@, "b"@, "a"@]));
        assert(o[1].1[0] == original_symbol(t[10].1[0]));
        assert(o[1].1[1] == original_symbol(t[10].1[1]));
        assert(o[1].1[2] == original_symbol(t[10].1[2]));
        assert(o[1].1[3] == original_symbol(t[10].1[3]));
    }
    assert(t[11] == ("⟨10,S,1⟩"@, seq!["a"@, "b"@, "b"@, "a"@]));
    assert(refines_original(t[11])) by {
        assert(o[1] == ("S"@, seq!["a"@, "b"@, "b"@, "a"@]));
        assert(o[1].1[0] == original_symbol(t[11].1[0]));
        assert(o[1].1[1] == original_symbol(t[11].1[1]));
        assert(o[1].1[2] == original_symbol(t[11].1[2]));
        assert(o[1].1[3] == original_symbol(t[11].1[3]));
    }
    assert(t[12] == ("⟨1,T,1⟩"@, seq!["a"@, "⟨1,T,1⟩"@, "a"@]));
    assert(refines_original(t[12])) by {
        assert(o[2] == ("T"@, seq!["a"@, "T"@, "a"@]));
        assert(o[2].1[0] == original_symbol(t[12].1[0]));
        assert(o[2].1[1] == original_symbol(t[12].1[1]));
        assert(o[2].1[2] == original_symbol(t[12].1[2]));
    }
    assert(t[13] == ("⟨1,T,1⟩"@, seq!["a"@, "⟨1,T,8⟩"@, "a"@]));
    assert(refines_original(t[13])) by {
        assert(o[2] == ("T"@, seq!["a"@, "T"@, "a"@]));
        assert(o[2].1[0] == original_symbol(t[13].1[0]));
        assert(o[2].1[1] == original_symbol(t[13].1[1]));
        assert(o[2].1[2] == original_symbol(t[13].1[2]));
    }
    assert(t[14] == ("⟨3,T,1⟩"@, seq!["a"@, "⟨3,T,1⟩"@, "a"@]));
    assert(refines_original(t[14])) by {
        assert(o[2] == ("T"@, seq!["a"@, "T"@, "a"@]));
        assert(o[2].1[0] == original_symbol(t[14].1[0]));
        assert(o[2].1[1] == original_symbol(t[14].1[1]));
        assert(o[2].1[2] == original_symbol(t[14].1[2]));
    }
    assert(t[15] == ("⟨3,T,1⟩"@, seq!["a"@, "⟨3,T,8⟩"@, "a"@]));
    assert(refines_original(t[15])) by {
        assert(o[2] == ("T"@, seq!["a"@, "T"@, "a"@]));
        assert(o[2].1[0] == original_symbol(t[15].1[0]));
        assert(o[2].1[1] == original_symbol(t[15].1[1]));
        assert(o[2].1[2] == original_symbol(t[15].1[2]));
    }
    assert forall|r: int| 8 <= r < 16 implies refines_original(#[trigger] t[r]) by {
        if r == 8 { assert(refines_original(t[8])); }
        if r == 9 { assert(refines_original(t[9])); }
        if r == 10 { assert(refines_original(t[10])); }
        if r == 11 { assert(refines_original(t[11])); }
        if r == 12 { assert(refines_original(t[12])); }
        if r == 13 { assert(refines_original(t[13])); }
        if r == 14 { assert(refines_original(t[14])); }
        if r == 15 { assert(refines_original(t[15])); }
    }
}

proof fn lemma_ll1_refines_16_24()
    ensures
        forall|r: int| 16 <= r < 24 ==> refines_original(#[trigger] ll1_rule_table()[r]),
{
    lemma_ll1_symbols();
    let t = ll1_rule_table();
    let o = original_rule_table();
    assert(t[16] == ("⟨3,T,1⟩"@, seq!["a"@, "⟨3,T,10⟩"@, "a"@]));
    assert(refines_original(t[16])) by {
        assert(o[2] == ("T"@, seq!["a"@, "T"@, "a"@]));
        assert(o[2].1[0] == original_symbol(t[16].1[0]));
        assert(o[2].1[1] == original_symbol(t[16].1[1]));
        assert(o[2].1[2] == original_symbol(t[16].1[2]));
    }
    assert(t[17] == ("⟨8,T,1⟩"@, seq!["a"@, "⟨1,T,1⟩"@, "a"@]));
    assert(refines_original(t[17])) by {
        assert(o[2] == ("T"@, seq!["a"@, "T"@, "a"@]));
        assert(o[2].1[0] == original_symbol(t[17].1[0]));
        assert(o[2].1[1] == original_symbol(t[17].1[1]));
        assert(o[2].1[2] == original_symbol(t[17].1[2]));
    }
    assert(t[18] == ("⟨8,T,1⟩"@, seq!["a"@, "⟨1,T,8⟩"@, "a"@]));
    assert(refines_original(t[18])) by {
        assert(o[2] == ("T"@, seq!["a"@, "T"@, "a"@]));
        assert(o[2].1[0] == original_symbol(t[18].1[0]));
        assert(o[2].1[1] == original_symbol(t[18].1[1]));
        assert(o[2].1[2] == original_symbol(t[18].1[2]));
    }
    assert(t[19] == ("⟨10,T,1⟩"@, seq!["a"@, "⟨1,T,1⟩"@, "a"@]));
    assert(refines_original(t[19])) by {
        assert(o[2] == ("T"@, seq!["a"@, "T"@, "a"@]));
        assert(o[2].1[0] == original_symbol(t[19].1[0]));
        assert(o[2].1[1] == original_symbol(t[19].1[1]));
        assert(o[2].1[2] == original_symbol(t[19].1[2]));
    }
    assert(t[20] == ("⟨10,T,1⟩"@, seq!["a"@, "⟨1,T,8⟩"@, "a"@]));
    assert(refines_original(t[20])) by {
        assert(o[2] == ("T"@, seq!["a"@, "T"@, "a"@]));
        assert(o[2].1[0] == original_symbol(t[20].1[0]));
        assert(o[2].1[1] == original_symbol(t[20].1[1]));
        assert(o[2].1[2] == original_symbol(t[20].1[2]));
    }
    assert(t[21] == ("⟨1,T,1⟩"@, seq!["⟨1,S,1⟩"@, "b"@, "b"@, "⟨7,S,1⟩"@]));
    assert(refines_original(t[21])) by {
        assert(o[3] == ("T"@, seq!["S"@, "b"@, "b"@, "S"@]));
        assert(o[3].1[0] == original_symbol(t[21].1[0]));
        assert(o[3].1[1] == original_symbol(t[21].1[1]));
        assert(o[3].1[2] == original_symbol(t[21].1[2]));
        assert(o[3].1[3] == original_symbol(t[21].1[3]));
    }
    assert(t[22] == ("⟨3,T,1⟩"@, seq!["⟨3,S,1⟩"@, "b"@, "b"@, "⟨7,S,1⟩"@]));
    assert(refines_original(t[22])) by {
        assert(o[3] == ("T"@, seq!["S"@, "b"@, "b"@, "S"@]));
        assert(o[3].1[0] == original_symbol(t[22].1[0]));
        assert(o[3].1[1] == original_symbol(t[22].1[1]));
        assert(o[3].1[2] == original_symbol(t[22].1[2]));
        assert(o[3].1[3] == original_symbol(t[22].1[3]));
    }
    assert(t[23] == ("⟨3,T,1⟩"@, seq!["⟨3,S,10⟩"@, "b"@, "b"@, "⟨0,S,1⟩"@]));
    assert(refines_original(t[23])) by {
        assert(o[3] == ("T"@, seq!["S"@, "b"@, "b"@, "S"@]));
        assert(o[3].1[0] == original_symbol(t[23].1[0]));
        assert(o[3].1[1] == original_symbol(t[23].1[1]));
        assert(o[3].1[2] == original_symbol(t[23].1[2]));
        assert(o[3].1[3] == original_symbol(t[23].1[3]));
    }
    assert forall|r: int| 16 <= r < 24 implies refines_original(#[trigger] t[r]) by {
        if r == 16 { assert(refines_original(t[16])); }
        if r == 17 { assert(refines_original(t[17])); }
        if r == 18 { assert(refines_original(t[18])); }
        if r == 19 { assert(refines_original(t[19])); }
        if r == 20 { assert(refines_original(t[20])); }
        if r == 21 { assert(refines_original(t[21])); }
        if r == 22 { assert(refines_original(t[22])); }
        if r == 23 { assert(refines_original(t[23])); }
    }
}

proof fn lemma_ll1_refines_24_32()
    ensures
        forall|r: int| 24 <= r < 32 ==> refines_original(#[trigger] ll1_rule_table()[r]),
{
    lemma_ll1_symbols();
    let t = ll1_rule_table();
    let o = original_rule_table();
    assert(t[24] == ("⟨3,T,10⟩"@, seq!["⟨3,S,10⟩"@, "b"@, "b"@, "⟨0,S,10⟩"@]));
    assert(refines_original(t[24])) by {
        assert(o[3] == ("T"@, seq!["S"@, "b"@, "b"@, "S"@]));
        assert(o[3].1[0] == original_symbol(t[24].1[0]));
        assert(o[3].1[1] == original_symbol(t[24].1[1]));
        assert(o[3].1[2] == original_symbol(t[24].1[2]));
        assert(o[3].1[3] == original_symbol(t[24].1[3]));
    }
    assert(t[25] == ("⟨8,T,1⟩"@, seq!["⟨8,S,1⟩"@, "b"@, "b"@, "⟨7,S,1⟩"@]));
    assert(refines_original(t[25])) by {
        assert(o[3] == ("T"@, seq!["S"@, "b"@, "b"@, "S"@]));
        assert(o[3].1[0] == original_symbol(t[25].1[0]));
        assert(o[3].1[1] == original_symbol(t[25].1[1]));
        assert(o[3].1[2] == original_symbol(t[25].1[2]));
        assert(o[3].1[3] == original_symbol(t[25].1[3]));
    }
    assert(t[26] == ("⟨10,T,1⟩"@, seq!["⟨10,S,1⟩"@, "b"@, "b"@, "⟨7,S,1⟩"@]));
    assert(refines_original(t[26])) by {
        assert(o[3] == ("T"@, seq!["S"@, "b"@, "b"@, "S"@]));
        assert(o[3].1[0] == original_symbol(t[26].1[0]));
        assert(o[3].1[1] == original_symbol(t[26].1[1]));
        assert(o[3].1[2] == original_symbol(t[26].1[2]));
        assert(o[3].1[3] == original_symbol(t[26].1[3]));
    }
    assert(t[27] == ("⟨0,S,1⟩"@, seq!["a"@, "⟨3,T,1⟩"@, "⟨1,T,1⟩"@, "a"@]));
    assert(refines_original(t[27])) by {
        assert(o[0] == ("S"@, seq!["a"@, "T"@, "T"@, "a"@]));
        assert(o[0].1[0] == original_symbol(t[27].1[0]));
        assert(o[0].1[1] == original_symbol(t[27].1[1]));
        assert(o[0].1[2] == original_symbol(t[27].1[2]));
        assert(o[0].1[3] == original_symbol(t[27].1[3]));
    }
    assert(t[28] == ("⟨0,S,1⟩"@, seq!["a"@, "⟨3,T,1⟩"@, "⟨1,T,8⟩"@, "a"@]));
    assert(refines_original(t[28])) by {
        assert(o[0] == ("S"@, seq!["a"@, "T"@, "T"@, "a"@]));
        assert(o[0].1[0] == original_symbol(t[28].1[0]));
        assert(o[0].1[1] == original_symbol(t[28].1[1]));
        assert(o[0].1[2] == original_symbol(t[28].1[2]));
        assert(o[0].1[3] == original_symbol(t[28].1[3]));
    }
    assert(t[29] == ("⟨0,S,1⟩"@, seq!["a"@, "⟨3,T,8⟩"@, "⟨8,T,1⟩"@, "a"@]));
    assert(refines_original(t[29])) by {
        assert(o[0] == ("S"@, seq!["a"@, "T"@, "T"@, "a"@]));
        assert(o[0].1[0] == original_symbol(t[29].1[0]));
        assert(o[0].1[1] == original_symbol(t[29].1[1]));
        assert(o[0].1[2] == original_symbol(t[29].1[2]));
        assert(o[0].1[3] == original_symbol(t[29].1[3]));
    }
    assert(t[30] == ("⟨0,S,1⟩"@, seq!["a"@, "⟨3,T,8⟩"@, "⟨8,T,8⟩"@, "a"@]));
    assert(refines_original(t[30])) by {
        assert(o[0] == ("S"@, seq!["a"@, "T"@, "T"@, "a"@]));
        assert(o[0].1[0] == original_symbol(t[30].1[0]));
        assert(o[0].1[1] == original_symbol(t[30].1[1]));
        assert(o[0].1[2] == original_symbol(t[30].1[2]));
        assert(o[0].1[3] == original_symbol(t[30].1[3]));
    }
    assert(t[31] == ("⟨0,S,1⟩"@, seq!["a"@, "⟨3,T,10⟩"@, "⟨10,T,1⟩"@, "a"@]));
    assert(refines_original(t[31])) by {
        assert(o[0] == ("S"@, seq!["a"@, "T"@, "T"@, "a"@]));
        assert(o[0].1[0] == original_symbol(t[31].1[0]));
        assert(o[0].1[1] == original_symbol(t[31].1[1]));
        assert(o[0].1[2] == original_symbol(t[31].1[2]));
        assert(o[0].1[3] == original_symbol(t[31].1[3]));
    }
    assert forall|r: int| 24 <= r < 32 implies refines_original(#[trigger] t[r]) by {
        if r == 24 { assert(refines_original(t[24])); }
        if r == 25 { assert(refines_original(t[25])); }
        if r == 26 { assert(refines_original(t[26])); }
        if r == 27 { assert(refines_original(t[27])); }
        if r == 28 { assert(refines_original(t[28])); }
        if r == 29 { assert(refines_original(t[29])); }
        if r == 30 { assert(refines_original(t[30])); }
        if r == 31 { assert(refines_original(t[31])); }
    }
}

proof fn lemma_ll1_refines_32_40()
    ensures
        forall|r: int| 32 <= r < 40 ==> refines_original(#[trigger] ll1_rule_table()[r]),
{
    lemma_ll1_symbols();
    let t = ll1_rule_table();
    let o = original_rule_table();
    assert(t[32] == ("⟨0,S,1⟩"@, seq!["a"@, "⟨3,T,10⟩"@, "⟨10,T,8⟩"@, "a"@]));
    assert(refines_original(t[32])) by {
        assert(o[0] == ("S"@, seq!["a"@, "T"@, "T"@, "a"@]));
        assert(o[0].1[0] == original_symbol(t[32].1[0]));
        assert(o[0].1[1] == original_symbol(t[32].1[1]));
        assert(o[0].1[2] == original_symbol(t[32].1[2]));
        assert(o[0].1[3] == original_symbol(t[32].1[3]));
    }
    assert(t[33] == ("⟨1,S,1⟩"@, seq!["a"@, "⟨1,T,1⟩"@, "⟨1,T,1⟩"@, "a"@]));
    assert(refines_original(t[33])) by {
        assert(o[0] == ("S"@, seq!["a"@, "T"@, "T"@, "a"@]));
        assert(o[0].1[0] == original_symbol(t[33].1[0]));
        assert(o[0].1[1] == original_symbol(t[33].1[1]));
        assert(o[0].1[2] == original_symbol(t[33].1[2]));
        assert(o[0].1[3] == original_symbol(t[33].1[3]));
    }
    assert(t[34] == ("⟨1,S,1⟩"@, seq!["a"@, "⟨1,T,1⟩"@, "⟨1,T,8⟩"@, "a"@]));
    assert(refines_original(t[34])) by {
        assert(o[0] == ("S"@, seq!["a"@, "T"@, "T"@, "a"@]));
        assert(o[0].1[0] == original_symbol(t[34].1[0]));
        assert(o[0].1[1] == original_symbol(t[34].1[1]));
        assert(o[0].1[2] == original_symbol(t[34].1[2]));
        assert(o[0].1[3] == original_symbol(t[34].1[3]));
    }
    assert(t[35] == ("⟨1,S,1⟩"@, seq!["a"@, "⟨1,T,8⟩"@, "⟨8,T,1⟩"@, "a"@]));
    assert(refines_original(t[35])) by {
        assert(o[0] == ("S"@, seq!["a"@, "T"@, "T"@, "a"@]));
        assert(o[0].1[0] == original_symbol(t[35].1[0]));
        assert(o[0].1[1] == original_symbol(t[35].1[1]));
        assert(o[0].1[2] == original_symbol(t[35].1[2]));
        assert(o[0].1[3] == original_symbol(t[35].1[3]));
    }
    assert(t[36] == ("⟨1,S,1⟩"@, seq!["a"@, "⟨1,T,8⟩"@, "⟨8,T,8⟩"@, "a"@]));
    assert(refines_original(t[36])) by {
        assert(o[0] == ("S"@, seq!["a"@, "T"@, "T"@, "a"@]));
        assert(o[0].1[0] == original_symbol(t[36].1[0]));
        assert(o[0].1[1] == original_symbol(t[36].1[1]));
        assert(o[0].1[2] == original_symbol(t[36].1[2]));
        assert(o[0].1[3] == original_symbol(t[36].1[3]));
    }
    assert(t[37] == ("⟨3,S,1⟩"@, seq!["a"@, "⟨3,T,1⟩"@, "⟨1,T,1⟩"@, "a"@]));
    assert(refines_original(t[37])) by {
        assert(o[0] == ("S"@, seq!["a"@, "T"@, "T"@, "a"@]));
        assert(o[0].1[0] == original_symbol(t[37].1[0]));
        assert(o[0].1[1] == original_symbol(t[37].1[1]));
        assert(o[0].1[2] == original_symbol(t[37].1[2]));
        assert(o[0].1[3] == original_symbol(t[37].1[3]));
    }
    assert(t[38] == ("⟨3,S,1⟩"@, seq!["a"@, "⟨3,T,1⟩"@, "⟨1,T,8⟩"@, "a"@]));
    assert(refines_original(t[38])) by {
        assert(o[0] == ("S"@, seq!["a"@, "T"@, "T"@, "a"@]));
        assert(o[0].1[0] == original_symbol(t[38].1[0]));
        assert(o[0].1[1] == original_symbol(t[38].1[1]));
        assert(o[0].1[2] == original_symbol(t[38].1[2]));
        assert(o[0].1[3] == original_symbol(t[38].1[3]));
    }
    assert(t[39] == ("⟨3,S,1⟩"@, seq!["a"@, "⟨3,T,8⟩"@, "⟨8,T,1⟩"@, "a"@]));
    assert(refines_original(t[39])) by {
        assert(o[0] == ("S"@, seq!["a"@, "T"@, "T"@, "a"@]));
        assert(o[0].1[0] == original_symbol(t[39].1[0]));
        assert(o[0].1[1] == original_symbol(t[39].1[1]));
        assert(o[0].1[2] == original_symbol(t[39].1[2]));
        assert(o[0].1[3] == original_symbol(t[39].1[3]));
    }
    assert forall|r: int| 32 <= r < 40 implies refines_original(#[trigger] t[r]) by {
        if r == 32 { assert(refines_original(t[32])); }
        if r == 33 { assert(refines_original(t[33])); }
        if r == 34 { assert(refines_original(t[34])); }
        if r == 35 { assert(refines_original(t[35])); }
        if r == 36 { assert(refines_original(t[36])); }
        if r == 37 { assert(refines_original(t[37])); }
        if r == 38 { assert(refines_original(t[38])); }
        if r == 39 { assert(refines_original(t[39])); }
    }
}

proof fn lemma_ll1_refines_40_48()
    ensures
        forall|r: int| 40 <= r < 48 ==> refines_original(#[trigger] ll1_rule_table()[r]),
{
    lemma_ll1_symbols();
    let t = ll1_rule_table();
    let o = original_rule_table();
    assert(t[40] == ("⟨3,S,1⟩"@, seq!["a"@, "⟨3,T,8⟩"@, "⟨8,T,8⟩"@, "a"@]));
    assert(refines_original(t[40])) by {
        assert(o[0] == ("S"@, seq!["a"@, "T"@, "T"@, "a"@]));
        assert(o[0].1[0] == original_symbol(t[40].1[0]));
        assert(o[0].1[1] == original_symbol(t[40].1[1]));
        assert(o[0].1[2] == original_symbol(t[40].1[2]));
        assert(o[0].1[3] == original_symbol(t[40].1[3]));
    }
    assert(t[41] == ("⟨3,S,1⟩"@, seq!["a"@, "⟨3,T,10⟩"@, "⟨10,T,1⟩"@, "a"@]));
    assert(refines_original(t[41])) by {
        assert(o[0] == ("S"@, seq!["a"@, "T"@, "T"@, "a"@]));
        assert(o[0].1[0] == original_symbol(t[41].1[0]));
        assert(o[0].1[1] == original_symbol(t[41].1[1]));
        assert(o[0].1[2] == original_symbol(t[41].1[2]));
        assert(o[0].1[3] == original_symbol(t[41].1[3]));
    }
    assert(t[42] == ("⟨3,S,1⟩"@, seq!["a"@, "⟨3,T,10⟩"@, "⟨10,T,8⟩"@, "a"@]));
    assert(refines_original(t[42])) by {
        assert(o[0] == ("S"@, seq!["a"@, "T"@, "T"@, "a"@]));
        assert(o[0].1[0] == original_symbol(t[42].1[0]));
        assert(o[0].1[1] == original_symbol(t[42].1[1]));
        assert(o[0].1[2] == original_symbol(t[42].1[2]));
        assert(o[0].1[3] == original_symbol(t[42].1[3]));
    }
    assert(t[43] == ("⟨7,S,1⟩"@, seq!["a"@, "⟨1,T,1⟩"@, "⟨1,T,1⟩"@, "a"@]));
    assert(refines_original(t[43])) by {
        assert(o[0] == ("S"@, seq!["a"@, "T"@, "T"@, "a"@]));
        assert(o[0].1[0] == original_symbol(t[43].1[0]));
        assert(o[0].1[1] == original_symbol(t[43].1[1]));
        assert(o[0].1[2] == original_symbol(t[43].1[2]));
        assert(o[0].1[3] == original_symbol(t[43].1[3]));
    }
    assert(t[44] == ("⟨7,S,1⟩"@, seq!["a"@, "⟨1,T,1⟩"@, "⟨1,T,8⟩"@, "a"@]));
    assert(refines_original(t[44])) by {
        assert(o[0] == ("S"@, seq!["a"@, "T"@, "T"@, "a"@]));
        assert(o[0].1[0] == original_symbol(t[44].1[0]));
        assert(o[0].1[1] == original_symbol(t[44].1[1]));
        assert(o[0].1[2] == original_symbol(t[44].1[2]));
        assert(o[0].1[3] == original_symbol(t[44].1[3]));
    }
    assert(t[45] == ("⟨7,S,1⟩"@, seq!["a"@, "⟨1,T,8⟩"@, "⟨8,T,1⟩"@, "a"@]));
    assert(refines_original(t[45])) by {
        assert(o[0] == ("S"@, seq!["a"@, "T"@, "T"@, "a"@]));
        assert(o[0].1[0] == original_symbol(t[45].1[0]));
        assert(o[0].1[1] == original_symbol(t[45].1[1]));
        assert(o[0].1[2] == original_symbol(t[45].1[2]));
        assert(o[0].1[3] == original_symbol(t[45].1[3]));
    }
    assert(t[46] == ("⟨7,S,1⟩"@, seq!["a"@, "⟨1,T,8⟩"@, "⟨8,T,8⟩"@, "a"@]));
    assert(refines_original(t[46])) by {
        assert(o[0] == ("S"@, seq!["a"@, "T"@, "T"@, "a"@]));
        assert(o[0].1[0] == original_symbol(t[46].1[0]));
        assert(o[0].1[1] == original_symbol(t[46].1[1]));
        assert(o[0].1[2] == original_symbol(t[46].1[2]));
        assert(o[0].1[3] == original_symbol(t[46].1[3]));
    }
    assert(t[47] == ("⟨8,S,1⟩"@, seq!["a"@, "⟨1,T,1⟩"@, "⟨1,T,1⟩"@, "a"@]));
    assert(refines_original(t[47])) by {
        assert(o[0] == ("S"@, seq!["a"@, "T"@, "T"@, "a"@]));
        assert(o[0].1[0] == original_symbol(t[47].1[0]));
        assert(o[0].1[1] == original_symbol(t[47].1[1]));
        assert(o[0].1[2] == original_symbol(t[47].1[2]));
        assert(o[0].1[3] == original_symbol(t[47].1[3]));
    }
    assert forall|r: int| 40 <= r < 48 implies refines_original(#[trigger] t[r]) by {
        if r == 40 { assert(refines_original(t[40])); }
        if r == 41 { assert(refines_original(t[41])); }
        if r == 42 { assert(refines_original(t[42])); }
        if r == 43 { assert(refines_original(t[43])); }
        if r == 44 { assert(refines_original(t[44])); }
        if r == 45 { assert(refines_original(t[45])); }
        if r == 46 { assert(refines_original(t[46])); }
        if r == 47 { assert(refines_original(t[47])); }
    }
}

proof fn lemma_ll1_refines_48_55()
    ensures
        forall|r: int| 48 <= r < 55 ==> refines_original(#[trigger] ll1_rule_table()[r]),
{
    lemma_ll1_symbols();
    let t = ll1_rule_table();
    let o = original_rule_table();
    assert(t[48] == ("⟨8,S,1⟩"@, seq!["a"@, "⟨1,T,1⟩"@, "⟨1,T,8⟩"@, "a"@]));
    assert(refines_original(t[48])) by {
        assert(o[0] == ("S"@, seq!["a"@, "T"@, "T"@, "a"@]));
        assert(o[0].1[0] == original_symbol(t[48].1[0]));
        assert(o[0].1[1] == original_symbol(t[48].1[1]));
        assert(o[0].1[2] == original_symbol(t[48].1[2]));
        assert(o[0].1[3] == original_symbol(t[48].1[3]));
    }
    assert(t[49] == ("⟨8,S,1⟩"@, seq!["a"@, "⟨1,T,8⟩"@, "⟨8,T,1⟩"@, "a"@]));
    assert(refines_original(t[49])) by {
        assert(o[0] == ("S"@, seq!["a"@, "T"@, "T"@, "a"@]));
        assert(o[0].1[0] == original_symbol(t[49].1[0]));
        assert(o[0].1[1] == original_symbol(t[49].1[1]));
        assert(o[0].1[2] == original_symbol(t[49].1[2]));
        assert(o[0].1[3] == original_symbol(t[49].1[3]));
    }
    assert(t[50] == ("⟨8,S,1⟩"@, seq!["a"@, "⟨1,T,8⟩"@, "⟨8,T,8⟩"@, "a"@]));
    assert(refines_original(t[50])) by {
        assert(o[0] == ("S"@, seq!["a"@, "T"@, "T"@, "a"@]));
        assert(o[0].1[0] == original_symbol(t[50].1[0]));
        assert(o[0].1[1] == original_symbol(t[50].1[1]));
        assert(o[0].1[2] == original_symbol(t[50].1[2]));
        assert(o[0].1[3] == original_symbol(t[50].1[3]));
    }
    assert(t[51] == ("⟨10,S,1⟩"@, seq!["a"@, "⟨1,T,1⟩"@, "⟨1,T,1⟩"@, "a"@]));
    assert(refines_original(t[51])) by {
        assert(o[0] == ("S"@, seq!["a"@, "T"@, "T"@, "a"@]));
        assert(o[0].1[0] == original_symbol(t[51].1[0]));
        assert(o[0].1[1] == original_symbol(t[51].1[1]));
        assert(o[0].1[2] == original_symbol(t[51].1[2]));
        assert(o[0].1[3] == original_symbol(t[51].1[3]));
    }
    assert(t[52] == ("⟨10,S,1⟩"@, seq!["a"@, "⟨1,T,1⟩"@, "⟨1,T,8⟩"@, "a"@]));
    assert(refines_original(t[52])) by {
        assert(o[0] == ("S"@, seq!["a"@, "T"@, "T"@, "a"@]));
        assert(o[0].1[0] == original_symbol(t[52].1[0]));
        assert(o[0].1[1] == original_symbol(t[52].1[1]));
        assert(o[0].1[2] == original_symbol(t[52].1[2]));
        assert(o[0].1[3] == original_symbol(t[52].1[3]));
    }
    assert(t[53] == ("⟨10,S,1⟩"@, seq!["a"@, "⟨1,T,8⟩"@, "⟨8,T,1⟩"@, "a"@]));
    assert(refines_original(t[53])) by {
        assert(o[0] == ("S"@, seq!["a"@, "T"@, "T"@, "a"@]));
        assert(o[0].1[0] == original_symbol(t[53].1[0]));
        assert(o[0].1[1] == original_symbol(t[53].1[1]));
        assert(o[0].1[2] == original_symbol(t[53].1[2]));
        assert(o[0].1[3] == original_symbol(t[53].1[3]));
    }
    assert(t[54] == ("⟨10,S,1⟩"@, seq!["a"@, "⟨1,T,8⟩"@, "⟨8,T,8⟩"@, "a"@]));
    assert(refines_original(t[54])) by {
        assert(o[0] == ("S"@, seq!["a"@, "T"@, "T"@, "a"@]));
        assert(o[0].1[0] == original_symbol(t[54].1[0]));
        assert(o[0].1[1] == original_symbol(t[54].1[1]));
        assert(o[0].1[2] == original_symbol(t[54].1[2]));
        assert(o[0].1[3] == original_symbol(t[54].1[3]));
    }
    assert forall|r: int| 48 <= r < 55 implies refines_original(#[trigger] t[r]) by {
        if r == 48 { assert(refines_original(t[48])); }
        if r == 49 { assert(refines_original(t[49])); }
        if r == 50 { assert(refines_original(t[50])); }
        if r == 51 { assert(refines_original(t[51])); }
        if r == 52 { assert(refines_original(t[52])); }
        if r == 53 { assert(refines_original(t[53])); }
        if r == 54 { assert(refines_original(t[54])); }
    }
}

/// The symbol of the original grammar that each token of `lr0_rule_table` stands for.
proof fn lemma_lr0_symbols()
    ensures
        original_symbol("S"@) == "S"@,
        original_symbol("S'"@) == "S"@,
        original_symbol("T"@) == "T"@,
        original_symbol("a"@) == "a"@,
        original_symbol("b"@) == "b"@,
        original_symbol("⟨0,S,1⟩"@) == "S"@,
        original_symbol("⟨0,S,8⟩"@) == "S"@,
        original_symbol("⟨1,S,1⟩"@) == "S"@,
        original_symbol("⟨1,T,1⟩"@) == "T"@,
        original_symbol("⟨1,T,7⟩"@) == "T"@,
        original_symbol("⟨10,S,1⟩"@) == "S"@,
        original_symbol("⟨10,S,8⟩"@) == "S"@,
        original_symbol("⟨10,T,1⟩"@) == "T"@,
        original_symbol("⟨10,T,7⟩"@) == "T"@,
        original_symbol("⟨10,T,8⟩"@) == "T"@,
        original_symbol("⟨6,S,1⟩"@) == "S"@,
        original_symbol("⟨7,S,1⟩"@) == "S"@,
        original_symbol("⟨7,T,1⟩"@) == "T"@,
        original_symbol("⟨7,T,7⟩"@) == "T"@,
        original_symbol("⟨8,S,1⟩"@) == "S"@,
        original_symbol("⟨8,T,1⟩"@) == "T"@,
        original_symbol("⟨8,T,7⟩"@) == "T"@,
{
    reveal_strlit("S");
    reveal_strlit("S'");
    reveal_strlit("T");
    reveal_strlit("a");
    reveal_strlit("b");
    reveal_strlit("⟨0,S,1⟩");
    reveal_strlit("⟨0,S,8⟩");
    reveal_strlit("⟨1,S,1⟩");
    reveal_strlit("⟨1,T,1⟩");
    reveal_strlit("⟨1,T,7⟩");
    reveal_strlit("⟨10,S,1⟩");
    reveal_strlit("⟨10,S,8⟩");
    reveal_strlit("⟨10,T,1⟩");
    reveal_strlit("⟨10,T,7⟩");
    reveal_strlit("⟨10,T,8⟩");
    reveal_strlit("⟨6,S,1⟩");
    reveal_strlit("⟨7,S,1⟩");
    reveal_strlit("⟨7,T,1⟩");
    reveal_strlit("⟨7,T,7⟩");
    reveal_strlit("⟨8,S,1⟩");
    reveal_strlit("⟨8,T,1⟩");
    reveal_strlit("⟨8,T,7⟩");
    assert("S"@[0] == 'S');
    assert("S'"@[0] == 'S');
    assert("T"@[0] == 'T');
    assert(!"T"@.contains('S'));
    assert(!"a"@.contains('S') && !"a"@.contains('T'));
    assert(!"b"@.contains('S') && !"b"@.contains('T'));
    assert("⟨0,S,1⟩"@[3] == 'S');
    assert("⟨0,S,8⟩"@[3] == 'S');
    assert("⟨1,S,1⟩"@[3] == 'S');
    assert("⟨1,T,1⟩"@[3] == 'T');
    assert(!"⟨1,T,1⟩"@.contains('S'));
    assert("⟨1,T,7⟩"@[3] == 'T');
    assert(!"⟨1,T,7⟩"@.contains('S'));
    assert("⟨10,S,1⟩"@[4] == 'S');
    assert("⟨10,S,8⟩"@[4] == 'S');
    assert("⟨10,T,1⟩"@[4] == 'T');
    assert(!"⟨10,T,1⟩"@.contains('S'));
    assert("⟨10,T,7⟩"@[4] == 'T');
    assert(!"⟨10,T,7⟩"@.contains('S'));
    assert("⟨10,T,8⟩"@[4] == 'T');
    assert(!"⟨10,T,8⟩"@.contains('S'));
    assert("⟨6,S,1⟩"@[3] == 'S');
    assert("⟨7,S,1⟩"@[3] == 'S');
    assert("⟨7,T,1⟩"@[3] == 'T');
    assert(!"⟨7,T,1⟩"@.contains('S'));
    assert("⟨7,T,7⟩"@[3] == 'T');
    assert(!"⟨7,T,7⟩"@.contains('S'));
    assert("⟨8,S,1⟩"@[3] == 'S');
    assert("⟨8,T,1⟩"@[3] == 'T');
    assert(!"⟨8,T,1⟩"@.contains('S'));
    assert("⟨8,T,7⟩"@[3] == 'T');
    assert(!"⟨8,T,7⟩"@.contains('S'));
}

proof fn lemma_lr0_refines_0_8()
    ensures
        forall|r: int| 0 <= r < 8 ==> refines_original(#[trigger] lr0_rule_table()[r]),
{
    lemma_lr0_symbols();
    let t = lr0_rule_table();
    let o = original_rule_table();
    assert(t[0] == ("S'"@, seq!["⟨0,S,1⟩"@]));
    assert(refines_original(t[0]));
    assert(t[1] == ("S'"@, seq!["⟨0,S,8⟩"@]));
    assert(refines_original(t[1]));
    assert(t[2] == ("⟨0,S,8⟩"@, seq!["a"@, "b"@, "b"@, "a"@]));
    assert(refines_original(t[2])) by {
        assert(o[1] == ("S"@, seq!["a"@, "b"@, "b"@, "a"@]));
        assert(o[1].1[0] == original_symbol(t[2].1[0]));
        assert(o[1].1[1] == original_symbol(t[2].1[1]));
        assert(o[1].1[2] == original_symbol(t[2].1[2]));
        assert(o[1].1[3] == original_symbol(t[2].1[3]));
    }
    assert(t[3] == ("⟨1,S,1⟩"@, seq!["a"@, "b"@, "b"@, "a"@]));
    assert(refines_original(t[3])) by {
        assert(o[1] == ("S"@, seq!["a"@, "b"@, "b"@, "a"@]));
        assert(o[1].1[0] == original_symbol(t[3].1[0]));
        assert(o[1].1[1] == original_symbol(t[3].1[1]));
        assert(o[1].1[2] == original_symbol(t[3].1[2]));
        assert(o[1].1[3] == original_symbol(t[3].1[3]));
    }
    assert(t[4] == ("⟨6,S,1⟩"@, seq!["a"@, "b"@, "b"@, "a"@]));
    assert(refines_original(t[4])) by {
        assert(o[1] == ("S"@, seq!["a"@, "b"@, "b"@, "a"@]));
        assert(o[1].1[0] == original_symbol(t[4].1[0]));
        assert(o[1].1[1] == original_symbol(t[4].1[1]));
        assert(o[1].1[2] == original_symbol(t[4].1[2]));
        assert(o[1].1[3] == original_symbol(t[4].1[3]));
    }
    assert(t[5] == ("⟨7,S,1⟩"@, seq!["a"@, "b"@, "b"@, "a"@]));
    assert(refines_original(t[5])) by {
        assert(o[1] == ("S"@, seq!["a"@, "b"@, "b"@, "a"@]));
        assert(o[1].1[0] == original_symbol(t[5].1[0]));
        assert(o[1].1[1] == original_symbol(t[5].1[1]));
        assert(o[1].1[2] == original_symbol(t[5].1[2]));
        assert(o[1].1[3] == original_symbol(t[5].1[3]));
    }
    assert(t[6] == ("⟨8,S,1⟩"@, seq!["a"@, "b"@, "b"@, "a"@]));
    assert(refines_original(t[6])) by {
        assert(o[1] == ("S"@, seq!["a"@, "b"@, "b"@, "a"@]));
        assert(o[1].1[0] == original_symbol(t[6].1[0]));
        assert(o[1].1[1] == original_symbol(t[6].1[1]));
        assert(o[1].1[2] == original_symbol(t[6].1[2]));
        assert(o[1].1[3] == original_symbol(t[6].1[3]));
    }
    assert(t[7] == ("⟨10,S,8⟩"@, seq!["a"@, "b"@, "b"@, "a"@]));
    assert(refines_original(t[7])) by {
        assert(o[1] == ("S"@, seq!["a"@, "b"@, "b"@, "a"@]));
        assert(o[1].1[0] == original_symbol(t[7].1[0]));
        assert(o[1].1[1] == original_symbol(t[7].1[1]));
        assert(o[1].1[2] == original_symbol(t[7].1[2]));
        assert(o[1].1[3] == original_symbol(t[7].1[3]));
    }
    assert forall|r: int| 0 <= r < 8 implies refines_original(#[trigger] t[r]) by {
        if r == 0 { assert(refines_original(t[0])); }
        if r == 1 { assert(refines_original(t[1])); }
        if r == 2 { assert(refines_original(t[2])); }
        if r == 3 { assert(refines_original(t[3])); }
        if r == 4 { assert(refines_original(t[4])); }
        if r == 5 { assert(refines_original(t[5])); }
        if r == 6 { assert(refines_original(t[6])); }
        if r == 7 { assert(refines_original(t[7])); }
    }
}

proof fn lemma_lr0_refines_8_16()
    ensures
        forall|r: int| 8 <= r < 16 ==> refines_original(#[trigger] lr0_rule_table()[r]),
{
    lemma_lr0_symbols();
    let t = lr0_rule_table();
    let o = original_rule_table();
    assert(t[8] == ("⟨1,T,7⟩"@, seq!["b"@, "a"@, "b"@]));
    assert(refines_original(t[8])) by {
        assert(o[4] == ("T"@, seq!["b"@, "a"@, "b"@]));
        assert(o[4].1[0] == original_symbol(t[8].1[0]));
        assert(o[4].1[1] == original_symbol(t[8].1[1]));
        assert(o[4].1[2] == original_symbol(t[8].1[2]));
    }
    assert(t[9] == ("⟨7,T,7⟩"@, seq!["b"@, "a"@, "b"@]));
    assert(refines_original(t[9])) by {
        assert(o[4] == ("T"@, seq!["b"@, "a"@, "b"@]));
        assert(o[4].1[0] == original_symbol(t[9].1[0]));
        assert(o[4].1[1] == original_symbol(t[9].1[1]));
        assert(o[4].1[2] == original_symbol(t[9].1[2]));
    }
    assert(t[10] == ("⟨8,T,7⟩"@, seq!["b"@, "a"@, "b"@]));
    assert(refines_original(t[10])) by {
        assert(o[4] == ("T"@, seq!["b"@, "a"@, "b"@]));
        assert(o[4].1[0] == original_symbol(t[10].1[0]));
        assert(o[4].1[1] == original_symbol(t[10].1[1]));
        assert(o[4].1[2] == original_symbol(t[10].1[2]));
    }
    assert(t[11] == ("⟨10,T,7⟩"@, seq!["b"@, "a"@, "b"@]));
    assert(refines_original(t[11])) by {
        assert(o[4] == ("T"@, seq!["b"@, "a"@, "b"@]));
        assert(o[4].1[0] == original_symbol(t[11].1[0]));
        assert(o[4].1[1] == original_symbol(t[11].1[1]));
        assert(o[4].1[2] == original_symbol(t[11].1[2]));
    }
    assert(t[12] == ("⟨1,T,1⟩"@, seq!["a"@, "⟨1,T,1⟩"@, "a"@]));
    assert(refines_original(t[12])) by {
        assert(o[2] == ("T"@, seq!["a"@, "T"@, "a"@]));
        assert(o[2].1[0] == original_symbol(t[12].1[0]));
        assert(o[2].1[1] == original_symbol(t[12].1[1]));
        assert(o[2].1[2] == original_symbol(t[12].1[2]));
    }
    assert(t[13] == ("⟨1,T,1⟩"@, seq!["a"@, "⟨1,T,7⟩"@, "a"@]));
    assert(refines_original(t[13])) by {
        assert(o[2] == ("T"@, seq!["a"@, "T"@, "a"@]));
        assert(o[2].1[0] == original_symbol(t[13].1[0]));
        assert(o[2].1[1] == original_symbol(t[13].1[1]));
        assert(o[2].1[2] == original_symbol(t[13].1[2]));
    }
    assert(t[14] == ("⟨7,T,1⟩"@, seq!["a"@, "⟨1,T,1⟩"@, "a"@]));
    assert(refines_original(t[14])) by {
        assert(o[2] == ("T"@, seq!["a"@, "T"@, "a"@]));
        assert(o[2].1[0] == original_symbol(t[14].1[0]));
        assert(o[2].1[1] == original_symbol(t[14].1[1]));
        assert(o[2].1[2] == original_symbol(t[14].1[2]));
    }
    assert(t[15] == ("⟨7,T,1⟩"@, seq!["a"@, "⟨1,T,7⟩"@, "a"@]));
    assert(refines_original(t[15])) by {
        assert(o[2] == ("T"@, seq!["a"@, "T"@, "a"@]));
        assert(o[2].1[0] == original_symbol(t[15].1[0]));
        assert(o[2].1[1] == original_symbol(t[15].1[1]));
        assert(o[2].1[2] == original_symbol(t[15].1[2]));
    }
    assert forall|r: int| 8 <= r < 16 implies refines_original(#[trigger] t[r]) by {
        if r == 8 { assert(refines_original(t[8])); }
        if r == 9 { assert(refines_original(t[9])); }
        if r == 10 { assert(refines_original(t[10])); }
        if r == 11 { assert(refines_original(t[11])); }
        if r == 12 { assert(refines_original(t[12])); }
        if r == 13 { assert(refines_original(t[13])); }
        if r == 14 { assert(refines_original(t[14])); }
        if r == 15 { assert(refines_original(t[15])); }
    }
}

proof fn lemma_lr0_refines_16_24()
    ensures
        forall|r: int| 16 <= r < 24 ==> refines_original(#[trigger] lr0_rule_table()[r]),
{
    lemma_lr0_symbols();
    let t = lr0_rule_table();
    let o = original_rule_table();
    assert(t[16] == ("⟨8,T,1⟩"@, seq!["a"@, "⟨1,T,1⟩"@, "a"@]));
    assert(refines_original(t[16])) by {
        assert(o[2] == ("T"@, seq!["a"@, "T"@, "a"@]));
        assert(o[2].1[0] == original_symbol(t[16].1[0]));
        assert(o[2].1[1] == original_symbol(t[16].1[1]));
        assert(o[2].1[2] == original_symbol(t[16].1[2]));
    }
    assert(t[17] == ("⟨8,T,1⟩"@, seq!["a"@, "⟨1,T,7⟩"@, "a"@]));
    assert(refines_original(t[17])) by {
        assert(o[2] == ("T"@, seq!["a"@, "T"@, "a"@]));
        assert(o[2].1[0] == original_symbol(t[17].1[0]));
        assert(o[2].1[1] == original_symbol(t[17].1[1]));
        assert(o[2].1[2] == original_symbol(t[17].1[2]));
    }
    assert(t[18] == ("⟨10,T,1⟩"@, seq!["a"@, "⟨10,T,1⟩"@, "a"@]));
    assert(refines_original(t[18])) by {
        assert(o[2] == ("T"@, seq!["a"@, "T"@, "a"@]));
        assert(o[2].1[0] == original_symbol(t[18].1[0]));
        assert(o[2].1[1] == original_symbol(t[18].1[1]));
        assert(o[2].1[2] == original_symbol(t[18].1[2]));
    }
    assert(t[19] == ("⟨10,T,1⟩"@, seq!["a"@, "⟨10,T,7⟩"@, "a"@]));
    assert(refines_original(t[19])) by {
        assert(o[2] == ("T"@, seq!["a"@, "T"@, "a"@]));
        assert(o[2].1[0] == original_symbol(t[19].1[0]));
        assert(o[2].1[1] == original_symbol(t[19].1[1]));
        assert(o[2].1[2] == original_symbol(t[19].1[2]));
    }
    assert(t[20] == ("⟨10,T,1⟩"@, seq!["a"@, "⟨10,T,8⟩"@, "a"@]));
    assert(refines_original(t[20])) by {
        assert(o[2] == ("T"@, seq!["a"@, "T"@, "a"@]));
        assert(o[2].1[0] == original_symbol(t[20].1[0]));
        assert(o[2].1[1] == original_symbol(t[20].1[1]));
        assert(o[2].1[2] == original_symbol(t[20].1[2]));
    }
    assert(t[21] == ("⟨1,T,1⟩"@, seq!["⟨1,S,1⟩"@, "b"@, "b"@, "⟨6,S,1⟩"@]));
    assert(refines_original(t[21])) by {
        assert(o[3] == ("T"@, seq!["S"@, "b"@, "b"@, "S"@]));
        assert(o[3].1[0] == original_symbol(t[21].1[0]));
        assert(o[3].1[1] == original_symbol(t[21].1[1]));
        assert(o[3].1[2] == original_symbol(t[21].1[2]));
        assert(o[3].1[3] == original_symbol(t[21].1[3]));
    }
    assert(t[22] == ("⟨7,T,1⟩"@, seq!["⟨7,S,1⟩"@, "b"@, "b"@, "⟨6,S,1⟩"@]));
    assert(refines_original(t[22])) by {
        assert(o[3] == ("T"@, seq!["S"@, "b"@, "b"@, "S"@]));
        assert(o[3].1[0] == original_symbol(t[22].1[0]));
        assert(o[3].1[1] == original_symbol(t[22].1[1]));
        assert(o[3].1[2] == original_symbol(t[22].1[2]));
        assert(o[3].1[3] == original_symbol(t[22].1[3]));
    }
    assert(t[23] == ("⟨8,T,1⟩"@, seq!["⟨8,S,1⟩"@, "b"@, "b"@, "⟨6,S,1⟩"@]));
    assert(refines_original(t[23])) by {
        assert(o[3] == ("T"@, seq!["S"@, "b"@, "b"@, "S"@]));
        assert(o[3].1[0] == original_symbol(t[23].1[0]));
        assert(o[3].1[1] == original_symbol(t[23].1[1]));
        assert(o[3].1[2] == original_symbol(t[23].1[2]));
        assert(o[3].1[3] == original_symbol(t[23].1[3]));
    }
    assert forall|r: int| 16 <= r < 24 implies refines_original(#[trigger] t[r]) by {
        if r == 16 { assert(refines_original(t[16])); }
        if r == 17 { assert(refines_original(t[17])); }
        if r == 18 { assert(refines_original(t[18])); }
        if r == 19 { assert(refines_original(t[19])); }
        if r == 20 { assert(refines_original(t[20])); }
        if r == 21 { assert(refines_original(t[21])); }
        if r == 22 { assert(refines_original(t[22])); }
        if r == 23 { assert(refines_original(t[23])); }
    }
}

proof fn lemma_lr0_refines_24_32()
    ensures
        forall|r: int| 24 <= r < 32 ==> refines_original(#[trigger] lr0_rule_table()[r]),
{
    lemma_lr0_symbols();
    let t = lr0_rule_table();
    let o = original_rule_table();
    assert(t[24] == ("⟨10,T,1⟩"@, seq!["⟨10,S,1⟩"@, "b"@, "b"@, "⟨6,S,1⟩"@]));
    assert(refines_original(t[24])) by {
        assert(o[3] == ("T"@, seq!["S"@, "b"@, "b"@, "S"@]));
        assert(o[3].1[0] == original_symbol(t[24].1[0]));
        assert(o[3].1[1] == original_symbol(t[24].1[1]));
        assert(o[3].1[2] == original_symbol(t[24].1[2]));
        assert(o[3].1[3] == original_symbol(t[24].1[3]));
    }
    assert(t[25] == ("⟨10,T,1⟩"@, seq!["⟨10,S,8⟩"@, "b"@, "b"@, "⟨0,S,1⟩"@]));
    assert(refines_original(t[25])) by {
        assert(o[3] == ("T"@, seq!["S"@, "b"@, "b"@, "S"@]));
        assert(o[3].1[0] == original_symbol(t[25].1[0]));
        assert(o[3].1[1] == original_symbol(t[25].1[1]));
        assert(o[3].1[2] == original_symbol(t[25].1[2]));
        assert(o[3].1[3] == original_symbol(t[25].1[3]));
    }
    assert(t[26] == ("⟨10,T,8⟩"@, seq!["⟨10,S,8⟩"@, "b"@, "b"@, "⟨0,S,8⟩"@]));
    assert(refines_original(t[26])) by {
        assert(o[3] == ("T"@, seq!["S"@, "b"@, "b"@, "S"@]));
        assert(o[3].1[0] == original_symbol(t[26].1[0]));
        assert(o[3].1[1] == original_symbol(t[26].1[1]));
        assert(o[3].1[2] == original_symbol(t[26].1[2]));
        assert(o[3].1[3] == original_symbol(t[26].1[3]));
    }
    assert(t[27] == ("⟨0,S,1⟩"@, seq!["a"@, "⟨10,T,1⟩"@, "⟨1,T,1⟩"@, "a"@]));
    assert(refines_original(t[27])) by {
        assert(o[0] == ("S"@, seq!["a"@, "T"@, "T"@, "a"@]));
        assert(o[0].1[0] == original_symbol(t[27].1[0]));
        assert(o[0].1[1] == original_symbol(t[27].1[1]));
        assert(o[0].1[2] == original_symbol(t[27].1[2]));
        assert(o[0].1[3] == original_symbol(t[27].1[3]));
    }
    assert(t[28] == ("⟨0,S,1⟩"@, seq!["a"@, "⟨10,T,1⟩"@, "⟨1,T,7⟩"@, "a"@]));
    assert(refines_original(t[28])) by {
        assert(o[0] == ("S"@, seq!["a"@, "T"@, "T"@, "a"@]));
        assert(o[0].1[0] == original_symbol(t[28].1[0]));
        assert(o[0].1[1] == original_symbol(t[28].1[1]));
        assert(o[0].1[2] == original_symbol(t[28].1[2]));
        assert(o[0].1[3] == original_symbol(t[28].1[3]));
    }
    assert(t[29] == ("⟨0,S,1⟩"@, seq!["a"@, "⟨10,T,7⟩"@, "⟨7,T,1⟩"@, "a"@]));
    assert(refines_original(t[29])) by {
        assert(o[0] == ("S"@, seq!["a"@, "T"@, "T"@, "a"@]));
        assert(o[0].1[0] == original_symbol(t[29].1[0]));
        assert(o[0].1[1] == original_symbol(t[29].1[1]));
        assert(o[0].1[2] == original_symbol(t[29].1[2]));
        assert(o[0].1[3] == original_symbol(t[29].1[3]));
    }
    assert(t[30] == ("⟨0,S,1⟩"@, seq!["a"@, "⟨10,T,7⟩"@, "⟨7,T,7⟩"@, "a"@]));
    assert(refines_original(t[30])) by {
        assert(o[0] == ("S"@, seq!["a"@, "T"@, "T"@, "a"@]));
        assert(o[0].1[0] == original_symbol(t[30].1[0]));
        assert(o[0].1[1] == original_symbol(t[30].1[1]));
        assert(o[0].1[2] == original_symbol(t[30].1[2]));
        assert(o[0].1[3] == original_symbol(t[30].1[3]));
    }
    assert(t[31] == ("⟨0,S,1⟩"@, seq!["a"@, "⟨10,T,8⟩"@, "⟨8,T,1⟩"@, "a"@]));
    assert(refines_original(t[31])) by {
        assert(o[0] == ("S"@, seq!["a"@, "T"@, "T"@, "a"@]));
        assert(o[0].1[0] == original_symbol(t[31].1[0]));
        assert(o[0].1[1] == original_symbol(t[31].1[1]));
        assert(o[0].1[2] == original_symbol(t[31].1[2]));
        assert(o[0].1[3] == original_symbol(t[31].1[3]));
    }
    assert forall|r: int| 24 <= r < 32 implies refines_original(#[trigger] t[r]) by {
        if r == 24 { assert(refines_original(t[24])); }
        if r == 25 { assert(refines_original(t[25])); }
        if r == 26 { assert(refines_original(t[26])); }
        if r == 27 { assert(refines_original(t[27])); }
        if r == 28 { assert(refines_original(t[28])); }
        if r == 29 { assert(refines_original(t[29])); }
        if r == 30 { assert(refines_original(t[30])); }
        if r == 31 { assert(refines_original(t[31])); }
    }
}

proof fn lemma_lr0_refines_32_40()
    ensures
        forall|r: int| 32 <= r < 40 ==> refines_original(#[trigger] lr0_rule_table()[r]),
{
    lemma_lr0_symbols();
    let t = lr0_rule_table();
    let o = original_rule_table();
    assert(t[32] == ("⟨0,S,1⟩"@, seq!["a"@, "⟨10,T,8⟩"@, "⟨8,T,7⟩"@, "a"@]));
    assert(refines_original(t[32])) by {
        assert(o[0] == ("S"@, seq!["a"@, "T"@, "T"@, "a"@]));
        assert(o[0].1[0] == original_symbol(t[32].1[0]));
        assert(o[0].1[1] == original_symbol(t[32].1[1]));
        assert(o[0].1[2] == original_symbol(t[32].1[2]));
        assert(o[0].1[3] == original_symbol(t[32].1[3]));
    }
    assert(t[33] == ("⟨1,S,1⟩"@, seq!["a"@, "⟨1,T,1⟩"@, "⟨1,T,1⟩"@, "a"@]));
    assert(refines_original(t[33])) by {
        assert(o[0] == ("S"@, seq!["a"@, "T"@, "T"@, "a"@]));
        assert(o[0].1[0] == original_symbol(t[33].1[0]));
        assert(o[0].1[1] == original_symbol(t[33].1[1]));
        assert(o[0].1[2] == original_symbol(t[33].1[2]));
        assert(o[0].1[3] == original_symbol(t[33].1[3]));
    }
    assert(t[34] == ("⟨1,S,1⟩"@, seq!["a"@, "⟨1,T,1⟩"@, "⟨1,T,7⟩"@, "a"@]));
    assert(refines_original(t[34])) by {
        assert(o[0] == ("S"@, seq!["a"@, "T"@, "T"@, "a"@]));
        assert(o[0].1[0] == original_symbol(t[34].1[0]));
        assert(o[0].1[1] == original_symbol(t[34].1[1]));
        assert(o[0].1[2] == original_symbol(t[34].1[2]));
        assert(o[0].1[3] == original_symbol(t[34].1[3]));
    }
    assert(t[35] == ("⟨1,S,1⟩"@, seq!["a"@, "⟨1,T,7⟩"@, "⟨7,T,1⟩"@, "a"@]));
    assert(refines_original(t[35])) by {
        assert(o[0] == ("S"@, seq!["a"@, "T"@, "T"@, "a"@]));
        assert(o[0].1[0] == original_symbol(t[35].1[0]));
        assert(o[0].1[1] == original_symbol(t[35].1[1]));
        assert(o[0].1[2] == original_symbol(t[35].1[2]));
        assert(o[0].1[3] == original_symbol(t[35].1[3]));
    }
    assert(t[36] == ("⟨1,S,1⟩"@, seq!["a"@, "⟨1,T,7⟩"@, "⟨7,T,7⟩"@, "a"@]));
    assert(refines_original(t[36])) by {
        assert(o[0] == ("S"@, seq!["a"@, "T"@, "T"@, "a"@]));
        assert(o[0].1[0] == original_symbol(t[36].1[0]));
        assert(o[0].1[1] == original_symbol(t[36].1[1]));
        assert(o[0].1[2] == original_symbol(t[36].1[2]));
        assert(o[0].1[3] == original_symbol(t[36].1[3]));
    }
    assert(t[37] == ("⟨6,S,1⟩"@, seq!["a"@, "⟨1,T,1⟩"@, "⟨1,T,1⟩"@, "a"@]));
    assert(refines_original(t[37])) by {
        assert(o[0] == ("S"@, seq!["a"@, "T"@, "T"@, "a"@]));
        assert(o[0].1[0] == original_symbol(t[37].1[0]));
        assert(o[0].1[1] == original_symbol(t[37].1[1]));
        assert(o[0].1[2] == original_symbol(t[37].1[2]));
        assert(o[0].1[3] == original_symbol(t[37].1[3]));
    }
    assert(t[38] == ("⟨6,S,1⟩"@, seq!["a"@, "⟨1,T,1⟩"@, "⟨1,T,7⟩"@, "a"@]));
    assert(refines_original(t[38])) by {
        assert(o[0] == ("S"@, seq!["a"@, "T"@, "T"@, "a"@]));
        assert(o[0].1[0] == original_symbol(t[38].1[0]));
        assert(o[0].1[1] == original_symbol(t[38].1[1]));
        assert(o[0].1[2] == original_symbol(t[38].1[2]));
        assert(o[0].1[3] == original_symbol(t[38].1[3]));
    }
    assert(t[39] == ("⟨6,S,1⟩"@, seq!["a"@, "⟨1,T,7⟩"@, "⟨7,T,1⟩"@, "a"@]));
    assert(refines_original(t[39])) by {
        assert(o[0] == ("S"@, seq!["a"@, "T"@, "T"@, "a"@]));
        assert(o[0].1[0] == original_symbol(t[39].1[0]));
        assert(o[0].1[1] == original_symbol(t[39].1[1]));
        assert(o[0].1[2] == original_symbol(t[39].1[2]));
        assert(o[0].1[3] == original_symbol(t[39].1[3]));
    }
    assert forall|r: int| 32 <= r < 40 implies refines_original(#[trigger] t[r]) by {
        if r == 32 { assert(refines_original(t[32])); }
        if r == 33 { assert(refines_original(t[33])); }
        if r == 34 { assert(refines_original(t[34])); }
        if r == 35 { assert(refines_original(t[35])); }
        if r == 36 { assert(refines_original(t[36])); }
        if r == 37 { assert(refines_original(t[37])); }
        if r == 38 { assert(refines_original(t[38])); }
        if r == 39 { assert(refines_original(t[39])); }
    }
}

proof fn lemma_lr0_refines_40_48()
    ensures
        forall|r: int| 40 <= r < 48 ==> refines_original(#[trigger] lr0_rule_table()[r]),
{
    lemma_lr0_symbols();
    let t = lr0_rule_table();
    let o = original_rule_table();
    assert(t[40] == ("⟨6,S,1⟩"@, seq!["a"@, "⟨1,T,7⟩"@, "⟨7,T,7⟩"@, "a"@]));
    assert(refines_original(t[40])) by {
        assert(o[0] == ("S"@, seq!["a"@, "T"@, "T"@, "a"@]));
        assert(o[0].1[0] == original_symbol(t[40].1[0]));
        assert(o[0].1[1] == original_symbol(t[40].1[1]));
        assert(o[0].1[2] == original_symbol(t[40].1[2]));
        assert(o[0].1[3] == original_symbol(t[40].1[3]));
    }
    assert(t[41] == ("⟨7,S,1⟩"@, seq!["a"@, "⟨1,T,1⟩"@, "⟨1,T,1⟩"@, "a"@]));
    assert(refines_original(t[41])) by {
        assert(o[0] == ("S"@, seq!["a"@, "T"@, "T"@, "a"@]));
        assert(o[0].1[0] == original_symbol(t[41].1[0]));
        assert(o[0].1[1] == original_symbol(t[41].1[1]));
        assert(o[0].1[2] == original_symbol(t[41].1[2]));
        assert(o[0].1[3] == original_symbol(t[41].1[3]));
    }
    assert(t[42] == ("⟨7,S,1⟩"@, seq!["a"@, "⟨1,T,1⟩"@, "⟨1,T,7⟩"@, "a"@]));
    assert(refines_original(t[42])) by {
        assert(o[0] == ("S"@, seq!["a"@, "T"@, "T"@, "a"@]));
        assert(o[0].1[0] == original_symbol(t[42].1[0]));
        assert(o[0].1[1] == original_symbol(t[42].1[1]));
        assert(o[0].1[2] == original_symbol(t[42].1[2]));
        assert(o[0].1[3] == original_symbol(t[42].1[3]));
    }
    assert(t[43] == ("⟨7,S,1⟩"@, seq!["a"@, "⟨1,T,7⟩"@, "⟨7,T,1⟩"@, "a"@]));
    assert(refines_original(t[43])) by {
        assert(o[0] == ("S"@, seq!["a"@, "T"@, "T"@, "a"@]));
        assert(o[0].1[0] == original_symbol(t[43].1[0]));
        assert(o[0].1[1] == original_symbol(t[43].1[1]));
        assert(o[0].1[2] == original_symbol(t[43].1[2]));
        assert(o[0].1[3] == original_symbol(t[43].1[3]));
    }
    assert(t[44] == ("⟨7,S,1⟩"@, seq!["a"@, "⟨1,T,7⟩"@, "⟨7,T,7⟩"@, "a"@]));
    assert(refines_original(t[44])) by {
        assert(o[0] == ("S"@, seq!["a"@, "T"@, "T"@, "a"@]));
        assert(o[0].1[0] == original_symbol(t[44].1[0]));
        assert(o[0].1[1] == original_symbol(t[44].1[1]));
        assert(o[0].1[2] == original_symbol(t[44].1[2]));
        assert(o[0].1[3] == original_symbol(t[44].1[3]));
    }
    assert(t[45] == ("⟨8,S,1⟩"@, seq!["a"@, "⟨1,T,1⟩"@, "⟨1,T,1⟩"@, "a"@]));
    assert(refines_original(t[45])) by {
        assert(o[0] == ("S"@, seq!["a"@, "T"@, "T"@, "a"@]));
        assert(o[0].1[0] == original_symbol(t[45].1[0]));
        assert(o[0].1[1] == original_symbol(t[45].1[1]));
        assert(o[0].1[2] == original_symbol(t[45].1[2]));
        assert(o[0].1[3] == original_symbol(t[45].1[3]));
    }
    assert(t[46] == ("⟨8,S,1⟩"@, seq!["a"@, "⟨1,T,1⟩"@, "⟨1,T,7⟩"@, "a"@]));
    assert(refines_original(t[46])) by {
        assert(o[0] == ("S"@, seq!["a"@, "T"@, "T"@, "a"@]));
        assert(o[0].1[0] == original_symbol(t[46].1[0]));
        assert(o[0].1[1] == original_symbol(t[46].1[1]));
        assert(o[0].1[2] == original_symbol(t[46].1[2]));
        assert(o[0].1[3] == original_symbol(t[46].1[3]));
    }
    assert(t[47] == ("⟨8,S,1⟩"@, seq!["a"@, "⟨1,T,7⟩"@, "⟨7,T,1⟩"@, "a"@]));
    assert(refines_original(t[47])) by {
        assert(o[0] == ("S"@, seq!["a"@, "T"@, "T"@, "a"@]));
        assert(o[0].1[0] == original_symbol(t[47].1[0]));
        assert(o[0].1[1] == original_symbol(t[47].1[1]));
        assert(o[0].1[2] == original_symbol(t[47].1[2]));
        assert(o[0].1[3] == original_symbol(t[47].1[3]));
    }
    assert forall|r: int| 40 <= r < 48 implies refines_original(#[trigger] t[r]) by {
        if r == 40 { assert(refines_original(t[40])); }
        if r == 41 { assert(refines_original(t[41])); }
        if r == 42 { assert(refines_original(t[42])); }
        if r == 43 { assert(refines_original(t[43])); }
        if r == 44 { assert(refines_original(t[44])); }
        if r == 45 { assert(refines_original(t[45])); }
        if r == 46 { assert(refines_original(t[46])); }
        if r == 47 { assert(refines_original(t[47])); }
    }
}

proof fn lemma_lr0_refines_48_55()
    ensures
        forall|r: int| 48 <= r < 55 ==> refines_original(#[trigger] lr0_rule_table()[r]),
{
    lemma_lr0_symbols();
    let t = lr0_rule_table();
    let o = original_rule_table();
    assert(t[48] == ("⟨8,S,1⟩"@, seq!["a"@, "⟨1,T,7⟩"@, "⟨7,T,7⟩"@, "a"@]));
    assert(refines_original(t[48])) by {
        assert(o[0] == ("S"@, seq!["a"@, "T"@, "T"@, "a"@]));
        assert(o[0].1[0] == original_symbol(t[48].1[0]));
        assert(o[0].1[1] == original_symbol(t[48].1[1]));
        assert(o[0].1[2] == original_symbol(t[48].1[2]));
        assert(o[0].1[3] == original_symbol(t[48].1[3]));
    }
    assert(t[49] == ("⟨10,S,1⟩"@, seq!["a"@, "⟨10,T,1⟩"@, "⟨1,T,1⟩"@, "a"@]));
    assert(refines_original(t[49])) by {
        assert(o[0] == ("S"@, seq!["a"@, "T"@, "T"@, "a"@]));
        assert(o[0].1[0] == original_symbol(t[49].1[0]));
        assert(o[0].1[1] == original_symbol(t[49].1[1]));
        assert(o[0].1[2] == original_symbol(t[49].1[2]));
        assert(o[0].1[3] == original_symbol(t[49].1[3]));
    }
    assert(t[50] == ("⟨10,S,1⟩"@, seq!["a"@, "⟨10,T,1⟩"@, "⟨1,T,7⟩"@, "a"@]));
    assert(refines_original(t[50])) by {
        assert(o[0] == ("S"@, seq!["a"@, "T"@, "T"@, "a"@]));
        assert(o[0].1[0] == original_symbol(t[50].1[0]));
        assert(o[0].1[1] == original_symbol(t[50].1[1]));
        assert(o[0].1[2] == original_symbol(t[50].1[2]));
        assert(o[0].1[3] == original_symbol(t[50].1[3]));
    }
    assert(t[51] == ("⟨10,S,1⟩"@, seq!["a"@, "⟨10,T,7⟩"@, "⟨7,T,1⟩"@, "a"@]));
    assert(refines_original(t[51])) by {
        assert(o[0] == ("S"@, seq!["a"@, "T"@, "T"@, "a"@]));
        assert(o[0].1[0] == original_symbol(t[51].1[0]));
        assert(o[0].1[1] == original_symbol(t[51].1[1]));
        assert(o[0].1[2] == original_symbol(t[51].1[2]));
        assert(o[0].1[3] == original_symbol(t[51].1[3]));
    }
    assert(t[52] == ("⟨10,S,1⟩"@, seq!["a"@, "⟨10,T,7⟩"@, "⟨7,T,7⟩"@, "a"@]));
    assert(refines_original(t[52])) by {
        assert(o[0] == ("S"@, seq!["a"@, "T"@, "T"@, "a"@]));
        assert(o[0].1[0] == original_symbol(t[52].1[0]));
        assert(o[0].1[1] == original_symbol(t[52].1[1]));
        assert(o[0].1[2] == original_symbol(t[52].1[2]));
        assert(o[0].1[3] == original_symbol(t[52].1[3]));
    }
    assert(t[53] == ("⟨10,S,1⟩"@, seq!["a"@, "⟨10,T,8⟩"@, "⟨8,T,1⟩"@, "a"@]));
    assert(refines_original(t[53])) by {
        assert(o[0] == ("S"@, seq!["a"@, "T"@, "T"@, "a"@]));
        assert(o[0].1[0] == original_symbol(t[53].1[0]));
        assert(o[0].1[1] == original_symbol(t[53].1[1]));
        assert(o[0].1[2] == original_symbol(t[53].1[2]));
        assert(o[0].1[3] == original_symbol(t[53].1[3]));
    }
    assert(t[54] == ("⟨10,S,1⟩"@, seq!["a"@, "⟨10,T,8⟩"@, "⟨8,T,7⟩"@, "a"@]));
    assert(refines_original(t[54])) by {
        assert(o[0] == ("S"@, seq!["a"@, "T"@, "T"@, "a"@]));
        assert(o[0].1[0] == original_symbol(t[54].1[0]));
        assert(o[0].1[1] == original_symbol(t[54].1[1]));
        assert(o[0].1[2] == original_symbol(t[54].1[2]));
        assert(o[0].1[3] == original_symbol(t[54].1[3]));
    }
    assert forall|r: int| 48 <= r < 55 implies refines_original(#[trigger] t[r]) by {
        if r == 48 { assert(refines_original(t[48])); }
        if r == 49 { assert(refines_original(t[49])); }
        if r == 50 { assert(refines_original(t[50])); }
        if r == 51 { assert(refines_original(t[51])); }
        if r == 52 { assert(refines_original(t[52])); }
        if r == 53 { assert(refines_original(t[53])); }
        if r == 54 { assert(refines_original(t[54])); }
    }
}

/// Every rule of the LL(1) intersection grammar is a rule of the original
/// grammar `S -> a T T a | a b b a`, `T -> a T a | S b b S | b a b` with
/// automaton states around its nonterminals (so it has the same terminals in
/// the same places), or a rule `S' -> ⟨0,S,q⟩` of the new start symbol.
pub proof fn lemma_ll1_rules_refine_original()
    ensures
        forall|r: int| 0 <= r < ll1_rule_table().len() ==> refines_original(#[trigger] ll1_rule_table()[r]),
{
    lemma_ll1_refines_0_8();
    lemma_ll1_refines_8_16();
    lemma_ll1_refines_16_24();
    lemma_ll1_refines_24_32();
    lemma_ll1_refines_32_40();
    lemma_ll1_refines_40_48();
    lemma_ll1_refines_48_55();
    assert(ll1_rule_table().len() == 55);
    assert forall|r: int| 0 <= r < ll1_rule_table().len() implies refines_original(#[trigger] ll1_rule_table()[r]) by {
        if 0 <= r < 8 { assert(refines_original(ll1_rule_table()[r])); }
        if 8 <= r < 16 { assert(refines_original(ll1_rule_table()[r])); }
        if 16 <= r < 24 { assert(refines_original(ll1_rule_table()[r])); }
        if 24 <= r < 32 { assert(refines_original(ll1_rule_table()[r])); }
        if 32 <= r < 40 { assert(refines_original(ll1_rule_table()[r])); }
        if 40 <= r < 48 { assert(refines_original(ll1_rule_table()[r])); }
        if 48 <= r < 55 { assert(refines_original(ll1_rule_table()[r])); }
    }
}

/// Every rule of the LR(0) intersection grammar is a rule of the original
/// grammar `S -> a T T a | a b b a`, `T -> a T a | S b b S | b a b` with
/// automaton states around its nonterminals (so it has the same terminals in
/// the same places), or a rule `S' -> ⟨0,S,q⟩` of the new start symbol.
pub proof fn lemma_lr0_rules_refine_original()
    ensures
        forall|r: int| 0 <= r < lr0_rule_table().len() ==> refines_original(#[trigger] lr0_rule_table()[r]),
{
    lemma_lr0_refines_0_8();
    lemma_lr0_refines_8_16();
    lemma_lr0_refines_16_24();
    lemma_lr0_refines_24_32();
    lemma_lr0_refines_32_40();
    lemma_lr0_refines_40_48();
    lemma_lr0_refines_48_55();
    assert(lr0_rule_table().len() == 55);
    assert forall|r: int| 0 <= r < lr0_rule_table().len() implies refines_original(#[trigger] lr0_rule_table()[r]) by {
        if 0 <= r < 8 { assert(refines_original(lr0_rule_table()[r])); }
        if 8 <= r < 16 { assert(refines_original(lr0_rule_table()[r])); }
        if 16 <= r < 24 { assert(refines_original(lr0_rule_table()[r])); }
        if 24 <= r < 32 { assert(refines_original(lr0_rule_table()[r])); }
        if 32 <= r < 40 { assert(refines_original(lr0_rule_table()[r])); }
        if 40 <= r < 48 { assert(refines_original(lr0_rule_table()[r])); }
        if 48 <= r < 55 { assert(refines_original(lr0_rule_table()[r])); }
    }
}


/// The position of the first `c` in `t` at or after position `i`; the length
/// of `t` when there is none.
pub open spec fn first_from(t: Seq<char>, c: char, i: int) -> int
    decreases t.len() - i,
{
    if i < 0 || i >= t.len() {
        t.len() as int
    } else if t[i] == c {
        i
    } else {
        first_from(t, c, i + 1)
    }
}

/// The number that the decimal digits `s` write.
pub open spec fn number(s: Seq<char>) -> int
    decreases s.len(),
{
    if s.len() == 0 {
        0
    } else {
        number(s.drop_last()) * 10 + (s.last() as int - '0' as int)
    }
}

/// The first state `p` of a name `⟨p,X,q⟩`.
pub open spec fn from_state(t: Seq<char>) -> int {
    number(t.subrange(1, first_from(t, ',', 0)))
}

/// The last state `q` of a name `⟨p,X,q⟩`.
pub open spec fn to_state(t: Seq<char>) -> int {
    number(t.subrange(first_from(t, ',', 0) + 3, t.len() - 1))
}

/// The state that the automaton with transitions `d` reaches from `st` along
/// the symbols of `toks` from position `i` on: a terminal `a` or `b` takes a
/// transition, a name `⟨p,X,q⟩` goes from `p` to `q`; `-1` where no
/// transition applies or a name does not start where the run stands.
pub open spec fn run_from(d: spec_fn(int, char) -> int, st: int, toks: Seq<Seq<char>>, i: int) -> int
    decreases toks.len() - i,
{
    if i < 0 || i >= toks.len() {
        st
    } else {
        let t = toks[i];
        let next = if t == "a"@ {
            d(st, 'a')
        } else if t == "b"@ {
            d(st, 'b')
        } else if from_state(t) == st {
            to_state(t)
        } else {
            -1
        };
        if next < 0 {
            -1
        } else {
            run_from(d, next, toks, i + 1)
        }
    }
}

/// `rule` is a step of a run of the automaton with transitions `d`: a rule
/// `⟨p,X,q⟩ -> Y1 ... Yk` has a run from `p` through its symbols to `q`; a
/// rule of the new start `S'` leads to a name `⟨0,S,q⟩` from the start state
/// `0` to a final state `q` of `finals`.
pub open spec fn follows_automaton(rule: (Seq<char>, Seq<Seq<char>>), d: spec_fn(int, char) -> int, finals: Set<int>) -> bool {
    if rule.0 == "S'"@ {
        rule.1.len() == 1 && from_state(rule.1[0]) == 0 && finals.contains(to_state(rule.1[0]))
    } else {
        run_from(d, from_state(rule.0), rule.1, 0) == to_state(rule.0)
    }
}

/// The automaton with transitions `d` runs along every rule of `table`.
pub open spec fn all_follow(table: Seq<(Seq<char>, Seq<Seq<char>>)>, d: spec_fn(int, char) -> int, finals: Set<int>) -> bool {
    forall|r: int| 0 <= r < table.len() ==> #[trigger] follows_automaton(table[r], d, finals)
}

/// Some automaton over `a` and `b` with start state `0` and final states
/// `finals` runs along every rule of `table`.
pub open spec fn rules_follow_one_automaton(table: Seq<(Seq<char>, Seq<Seq<char>>)>, finals: Set<int>) -> bool {
    exists|d: spec_fn(int, char) -> int| #[trigger] all_follow(table, d, finals)
}

/// The states of each name of `ll1_rule_table`.
proof fn lemma_ll1_name_states()
    ensures
        from_state("⟨0,S,10⟩"@) == 0 && to_state("⟨0,S,10⟩"@) == 10 && "⟨0,S,10⟩"@ != "a"@ && "⟨0,S,10⟩"@ != "b"@ && "⟨0,S,10⟩"@ != "S'"@,
        from_state("⟨0,S,1⟩"@) == 0 && to_state("⟨0,S,1⟩"@) == 1 && "⟨0,S,1⟩"@ != "a"@ && "⟨0,S,1⟩"@ != "b"@ && "⟨0,S,1⟩"@ != "S'"@,
        from_state("⟨1,S,1⟩"@) == 1 && to_state("⟨1,S,1⟩"@) == 1 && "⟨1,S,1⟩"@ != "a"@ && "⟨1,S,1⟩"@ != "b"@ && "⟨1,S,1⟩"@ != "S'"@,
        from_state("⟨1,T,1⟩"@) == 1 && to_state("⟨1,T,1⟩"@) == 1 && "⟨1,T,1⟩"@ != "a"@ && "⟨1,T,1⟩"@ != "b"@ && "⟨1,T,1⟩"@ != "S'"@,
        from_state("⟨1,T,8⟩"@) == 1 && to_state("⟨1,T,8⟩"@) == 8 && "⟨1,T,8⟩"@ != "a"@ && "⟨1,T,8⟩"@ != "b"@ && "⟨1,T,8⟩"@ != "S'"@,
        from_state("⟨10,S,1⟩"@) == 10 && to_state("⟨10,S,1⟩"@) == 1 && "⟨10,S,1⟩"@ != "a"@ && "⟨10,S,1⟩"@ != "b"@ && "⟨10,S,1⟩"@ != "S'"@,
        from_state("⟨10,T,1⟩"@) == 10 && to_state("⟨10,T,1⟩"@) == 1 && "⟨10,T,1⟩"@ != "a"@ && "⟨10,T,1⟩"@ != "b"@ && "⟨10,T,1⟩"@ != "S'"@,
        from_state("⟨10,T,8⟩"@) == 10 && to_state("⟨10,T,8⟩"@) == 8 && "⟨10,T,8⟩"@ != "a"@ && "⟨10,T,8⟩"@ != "b"@ && "⟨10,T,8⟩"@ != "S'"@,
        from_state("⟨3,S,10⟩"@) == 3 && to_state("⟨3,S,10⟩"@) == 10 && "⟨3,S,10⟩"@ != "a"@ && "⟨3,S,10⟩"@ != "b"@ && "⟨3,S,10⟩"@ != "S'"@,
        from_state("⟨3,S,1⟩"@) == 3 && to_state("⟨3,S,1⟩"@) == 1 && "⟨3,S,1⟩"@ != "a"@ && "⟨3,S,1⟩"@ != "b"@ && "⟨3,S,1⟩"@ != "S'"@,
        from_state("⟨3,T,10⟩"@) == 3 && to_state("⟨3,T,10⟩"@) == 10 && "⟨3,T,10⟩"@ != "a"@ && "⟨3,T,10⟩"@ != "b"@ && "⟨3,T,10⟩"@ != "S'"@,
        from_state("⟨3,T,1⟩"@) == 3 && to_state("⟨3,T,1⟩"@) == 1 && "⟨3,T,1⟩"@ != "a"@ && "⟨3,T,1⟩"@ != "b"@ && "⟨3,T,1⟩"@ != "S'"@,
        from_state("⟨3,T,8⟩"@) == 3 && to_state("⟨3,T,8⟩"@) == 8 && "⟨3,T,8⟩"@ != "a"@ && "⟨3,T,8⟩"@ != "b"@ && "⟨3,T,8⟩"@ != "S'"@,
        from_state("⟨7,S,1⟩"@) == 7 && to_state("⟨7,S,1⟩"@) == 1 && "⟨7,S,1⟩"@ != "a"@ && "⟨7,S,1⟩"@ != "b"@ && "⟨7,S,1⟩"@ != "S'"@,
        from_state("⟨8,S,1⟩"@) == 8 && to_state("⟨8,S,1⟩"@) == 1 && "⟨8,S,1⟩"@ != "a"@ && "⟨8,S,1⟩"@ != "b"@ && "⟨8,S,1⟩"@ != "S'"@,
        from_state("⟨8,T,1⟩"@) == 8 && to_state("⟨8,T,1⟩"@) == 1 && "⟨8,T,1⟩"@ != "a"@ && "⟨8,T,1⟩"@ != "b"@ && "⟨8,T,1⟩"@ != "S'"@,
        from_state("⟨8,T,8⟩"@) == 8 && to_state("⟨8,T,8⟩"@) == 8 && "⟨8,T,8⟩"@ != "a"@ && "⟨8,T,8⟩"@ != "b"@ && "⟨8,T,8⟩"@ != "S'"@,
{
    reveal_strlit("a");
    reveal_strlit("b");
    reveal_strlit("S'");
    reveal_with_fuel(first_from, 4);
    reveal_with_fuel(number, 3);
    reveal_strlit("⟨0,S,10⟩");
    assert(first_from("⟨0,S,10⟩"@, ',', 0) == 2);
    assert("⟨0,S,10⟩"@.subrange(1, 2) =~= seq!['0']);
    assert("⟨0,S,10⟩"@.subrange(5, 7) =~= seq!['1', '0']);
    assert(number(seq!['0']) == 0);
    assert(number(seq!['1', '0']) == 10);
    assert("⟨0,S,10⟩"@.len() != 1 && "⟨0,S,10⟩"@.len() != 2);
    reveal_strlit("⟨0,S,1⟩");
    assert(first_from("⟨0,S,1⟩"@, ',', 0) == 2);
    assert("⟨0,S,1⟩"@.subrange(1, 2) =~= seq!['0']);
    assert("⟨0,S,1⟩"@.subrange(5, 6) =~= seq!['1']);
    assert(number(seq!['0']) == 0);
    assert(number(seq!['1']) == 1);
    assert("⟨0,S,1⟩"@.len() != 1 && "⟨0,S,1⟩"@.len() != 2);
    reveal_strlit("⟨1,S,1⟩");
    assert(first_from("⟨1,S,1⟩"@, ',', 0) == 2);
    assert("⟨1,S,1⟩"@.subrange(1, 2) =~= seq!['1']);
    assert("⟨1,S,1⟩"@.subrange(5, 6) =~= seq!['1']);
    assert(number(seq!['1']) == 1);
    assert(number(seq!['1']) == 1);
    assert("⟨1,S,1⟩"@.len() != 1 && "⟨1,S,1⟩"@.len() != 2);
    reveal_strlit("⟨1,T,1⟩");
    assert(first_from("⟨1,T,1⟩"@, ',', 0) == 2);
    assert("⟨1,T,1⟩"@.subrange(1, 2) =~= seq!['1']);
    assert("⟨1,T,1⟩"@.subrange(5, 6) =~= seq!['1']);
    assert(number(seq!['1']) == 1);
    assert(number(seq!['1']) == 1);
    assert("⟨1,T,1⟩"@.len() != 1 && "⟨1,T,1⟩"@.len() != 2);
    reveal_strlit("⟨1,T,8⟩");
    assert(first_from("⟨1,T,8⟩"@, ',', 0) == 2);
    assert("⟨1,T,8⟩"@.subrange(1, 2) =~= seq!['1']);
    assert("⟨1,T,8⟩"@.subrange(5, 6) =~= seq!['8']);
    assert(number(seq!['1']) == 1);
    assert(number(seq!['8']) == 8);
    assert("⟨1,T,8⟩"@.len() != 1 && "⟨1,T,8⟩"@.len() != 2);
    reveal_strlit("⟨10,S,1⟩");
    assert(first_from("⟨10,S,1⟩"@, ',', 0) == 3);
    assert("⟨10,S,1⟩"@.subrange(1, 3) =~= seq!['1', '0']);
    assert("⟨10,S,1⟩"@.subrange(6, 7) =~= seq!['1']);
    assert(number(seq!['1', '0']) == 10);
    assert(number(seq!['1']) == 1);
    assert("⟨10,S,1⟩"@.len() != 1 && "⟨10,S,1⟩"@.len() != 2);
    reveal_strlit("⟨10,T,1⟩");
    assert(first_from("⟨10,T,1⟩"@, ',', 0) == 3);
    assert("⟨10,T,1⟩"@.subrange(1, 3) =~= seq!['1', '0']);
    assert("⟨10,T,1⟩"@.subrange(6, 7) =~= seq!['1']);
    assert(number(seq!['1', '0']) == 10);
    assert(number(seq!['1']) == 1);
    assert("⟨10,T,1⟩"@.len() != 1 && "⟨10,T,1⟩"@.len() != 2);
    reveal_strlit("⟨10,T,8⟩");
    assert(first_from("⟨10,T,8⟩"@, ',', 0) == 3);
    assert("⟨10,T,8⟩"@.subrange(1, 3) =~= seq!['1', '0']);
    assert("⟨10,T,8⟩"@.subrange(6, 7) =~= seq!['8']);
    assert(number(seq!['1', '0']) == 10);
    assert(number(seq!['8']) == 8);
    assert("⟨10,T,8⟩"@.len() != 1 && "⟨10,T,8⟩"@.len() != 2);
    reveal_strlit("⟨3,S,10⟩");
    assert(first_from("⟨3,S,10⟩"@, ',', 0) == 2);
    assert("⟨3,S,10⟩"@.subrange(1, 2) =~= seq!['3']);
    assert("⟨3,S,10⟩"@.subrange(5, 7) =~= seq!['1', '0']);
    assert(number(seq!['3']) == 3);
    assert(number(seq!['1', '0']) == 10);
    assert("⟨3,S,10⟩"@.len() != 1 && "⟨3,S,10⟩"@.len() != 2);
    reveal_strlit("⟨3,S,1⟩");
    assert(first_from("⟨3,S,1⟩"@, ',', 0) == 2);
    assert("⟨3,S,1⟩"@.subrange(1, 2) =~= seq!['3']);
    assert("⟨3,S,1⟩"@.subrange(5, 6) =~= seq!['1']);
    assert(number(seq!['3']) == 3);
    assert(number(seq!['1']) == 1);
    assert("⟨3,S,1⟩"@.len() != 1 && "⟨3,S,1⟩"@.len() != 2);
    reveal_strlit("⟨3,T,10⟩");
    assert(first_from("⟨3,T,10⟩"@, ',', 0) == 2);
    assert("⟨3,T,10⟩"@.subrange(1, 2) =~= seq!['3']);
    assert("⟨3,T,10⟩"@.subrange(5, 7) =~= seq!['1', '0']);
    assert(number(seq!['3']) == 3);
    assert(number(seq!['1', '0']) == 10);
    assert("⟨3,T,10⟩"@.len() != 1 && "⟨3,T,10⟩"@.len() != 2);
    reveal_strlit("⟨3,T,1⟩");
    assert(first_from("⟨3,T,1⟩"@, ',', 0) == 2);
    assert("⟨3,T,1⟩"@.subrange(1, 2) =~= seq!['3']);
    assert("⟨3,T,1⟩"@.subrange(5, 6) =~= seq!['1']);
    assert(number(seq!['3']) == 3);
    assert(number(seq!['1']) == 1);
    assert("⟨3,T,1⟩"@.len() != 1 && "⟨3,T,1⟩"@.len() != 2);
    reveal_strlit("⟨3,T,8⟩");
    assert(first_from("⟨3,T,8⟩"@, ',', 0) == 2);
    assert("⟨3,T,8⟩"@.subrange(1, 2) =~= seq!['3']);
    assert("⟨3,T,8⟩"@.subrange(5, 6) =~= seq!['8']);
    assert(number(seq!['3']) == 3);
    assert(number(seq!['8']) == 8);
    assert("⟨3,T,8⟩"@.len() != 1 && "⟨3,T,8⟩"@.len() != 2);
    reveal_strlit("⟨7,S,1⟩");
    assert(first_from("⟨7,S,1⟩"@, ',', 0) == 2);
    assert("⟨7,S,1⟩"@.subrange(1, 2) =~= seq!['7']);
    assert("⟨7,S,1⟩"@.subrange(5, 6) =~= seq!['1']);
    assert(number(seq!['7']) == 7);
    assert(number(seq!['1']) == 1);
    assert("⟨7,S,1⟩"@.len() != 1 && "⟨7,S,1⟩"@.len() != 2);
    reveal_strlit("⟨8,S,1⟩");
    assert(first_from("⟨8,S,1⟩"@, ',', 0) == 2);
    assert("⟨8,S,1⟩"@.subrange(1, 2) =~= seq!['8']);
    assert("⟨8,S,1⟩"@.subrange(5, 6) =~= seq!['1']);
    assert(number(seq!['8']) == 8);
    assert(number(seq!['1']) == 1);
    assert("⟨8,S,1⟩"@.len() != 1 && "⟨8,S,1⟩"@.len() != 2);
    reveal_strlit("⟨8,T,1⟩");
    assert(first_from("⟨8,T,1⟩"@, ',', 0) == 2);
    assert("⟨8,T,1⟩"@.subrange(1, 2) =~= seq!['8']);
    assert("⟨8,T,1⟩"@.subrange(5, 6) =~= seq!['1']);
    assert(number(seq!['8']) == 8);
    assert(number(seq!['1']) == 1);
    assert("⟨8,T,1⟩"@.len() != 1 && "⟨8,T,1⟩"@.len() != 2);
    reveal_strlit("⟨8,T,8⟩");
    assert(first_from("⟨8,T,8⟩"@, ',', 0) == 2);
    assert("⟨8,T,8⟩"@.subrange(1, 2) =~= seq!['8']);
    assert("⟨8,T,8⟩"@.subrange(5, 6) =~= seq!['8']);
    assert(number(seq!['8']) == 8);
    assert(number(seq!['8']) == 8);
    assert("⟨8,T,8⟩"@.len() != 1 && "⟨8,T,8⟩"@.len() != 2);
}

/// Transitions of an automaton along whose runs the rules of `ll1_rule_table` are built.
spec fn ll1_transitions(p: int, c: char) -> int {
    if p == 0 && c == 'a' {
        3
    } else if p == 0 && c == 'b' {
        8
    } else if p == 1 && c == 'a' {
        1
    } else if p == 1 && c == 'b' {
        5
    } else if p == 2 && c == 'a' {
        0
    } else if p == 2 && c == 'b' {
        4
    } else if p == 3 && c == 'a' {
        3
    } else if p == 3 && c == 'b' {
        2
    } else if p == 4 && c == 'a' {
        10
    } else if p == 5 && c == 'a' {
        0
    } else if p == 5 && c == 'b' {
        7
    } else if p == 6 && c == 'a' {
        0
    } else if p == 6 && c == 'b' {
        0
    } else if p == 7 && c == 'a' {
        1
    } else if p == 8 && c == 'a' {
        1
    } else if p == 8 && c == 'b' {
        2
    } else if p == 10 && c == 'a' {
        1
    } else if p == 10 && c == 'b' {
        6
    } else {
        -1
    }
}

proof fn lemma_ll1_follows_0_8()
    ensures
        forall|r: int| 0 <= r < 8 ==> follows_automaton(#[trigger] ll1_rule_table()[r], |p: int, c: char| ll1_transitions(p, c), set![1, 10]),
{
    lemma_ll1_name_states();
    reveal_strlit("a");
    reveal_strlit("b");
    reveal_strlit("S'");
    reveal_with_fuel(run_from, 5);
    assert("b"@ != "a"@) by {
        assert("b"@[0] != "a"@[0]);
    }
    let d = |p: int, c: char| ll1_transitions(p, c);
    let t = ll1_rule_table();
    assert(t[0] == ("S'"@, seq!["⟨0,S,1⟩"@]));
    assert(follows_automaton(t[0], d, set![1, 10]));
    assert(t[1] == ("S'"@, seq!["⟨0,S,10⟩"@]));
    assert(follows_automaton(t[1], d, set![1, 10]));
    assert(t[2] == ("⟨1,T,8⟩"@, seq!["b"@, "a"@, "b"@]));
    assert(follows_automaton(t[2], d, set![1, 10])) by {
        assert(d(1, 'b') == 5);
        assert(d(5, 'a') == 0);
        assert(d(0, 'b') == 8);
        assert(run_from(d, 8, seq!["b"@, "a"@, "b"@], 3) == 8);
        assert(run_from(d, 0, seq!["b"@, "a"@, "b"@], 2) == 8);
        assert(run_from(d, 5, seq!["b"@, "a"@, "b"@], 1) == 8);
        assert(run_from(d, 1, seq!["b"@, "a"@, "b"@], 0) == 8);
    }
    assert(t[3] == ("⟨3,T,8⟩"@, seq!["b"@, "a"@, "b"@]));
    assert(follows_automaton(t[3], d, set![1, 10])) by {
        assert(d(3, 'b') == 2);
        assert(d(2, 'a') == 0);
        assert(d(0, 'b') == 8);
        assert(run_from(d, 8, seq!["b"@, "a"@, "b"@], 3) == 8);
        assert(run_from(d, 0, seq!["b"@, "a"@, "b"@], 2) == 8);
        assert(run_from(d, 2, seq!["b"@, "a"@, "b"@], 1) == 8);
        assert(run_from(d, 3, seq!["b"@, "a"@, "b"@], 0) == 8);
    }
    assert(t[4] == ("⟨8,T,8⟩"@, seq!["b"@, "a"@, "b"@]));
    assert(follows_automaton(t[4], d, set![1, 10])) by {
        assert(d(8, 'b') == 2);
        assert(d(2, 'a') == 0);
        assert(d(0, 'b') == 8);
        assert(run_from(d, 8, seq!["b"@, "a"@, "b"@], 3) == 8);
        assert(run_from(d, 0, seq!["b"@, "a"@, "b"@], 2) == 8);
        assert(run_from(d, 2, seq!["b"@, "a"@, "b"@], 1) == 8);
        assert(run_from(d, 8, seq!["b"@, "a"@, "b"@], 0) == 8);
    }
    assert(t[5] == ("⟨10,T,8⟩"@, seq!["b"@, "a"@, "b"@]));
    assert(follows_automaton(t[5], d, set![1, 10])) by {
        assert(d(10, 'b') == 6);
        assert(d(6, 'a') == 0);
        assert(d(0, 'b') == 8);
        assert(run_from(d, 8, seq!["b"@, "a"@, "b"@], 3) == 8);
        assert(run_from(d, 0, seq!["b"@, "a"@, "b"@], 2) == 8);
        assert(run_from(d, 6, seq!["b"@, "a"@, "b"@], 1) == 8);
        assert(run_from(d, 10, seq!["b"@, "a"@, "b"@], 0) == 8);
    }
    assert(t[6] == ("⟨0,S,10⟩"@, seq!["a"@, "b"@, "b"@, "a"@]));
    assert(follows_automaton(t[6], d, set![1, 10])) by {
        assert(d(0, 'a') == 3);
        assert(d(3, 'b') == 2);
        assert(d(2, 'b') == 4);
        assert(d(4, 'a') == 10);
        assert(run_from(d, 10, seq!["a"@, "b"@, "b"@, "a"@], 4) == 10);
        assert(run_from(d, 4, seq!["a"@, "b"@, "b"@, "a"@], 3) == 10);
        assert(run_from(d, 2, seq!["a"@, "b"@, "b"@, "a"@], 2) == 10);
        assert(run_from(d, 3, seq!["a"@, "b"@, "b"@, "a"@], 1) == 10);
        assert(run_from(d, 0, seq!["a"@, "b"@, "b"@, "a"@], 0) == 10);
    }
    assert(t[7] == ("⟨1,S,1⟩"@, seq!["a"@, "b"@, "b"@, "a"@]));
    assert(follows_automaton(t[7], d, set![1, 10])) by {
        assert(d(1, 'a') == 1);
        assert(d(1, 'b') == 5);
        assert(d(5, 'b') == 7);
        assert(d(7, 'a') == 1);
        assert(run_from(d, 1, seq!["a"@, "b"@, "b"@, "a"@], 4) == 1);
        assert(run_from(d, 7, seq!["a"@, "b"@, "b"@, "a"@], 3) == 1);
        assert(run_from(d, 5, seq!["a"@, "b"@, "b"@, "a"@], 2) == 1);
        assert(run_from(d, 1, seq!["a"@, "b"@, "b"@, "a"@], 1) == 1);
        assert(run_from(d, 1, seq!["a"@, "b"@, "b"@, "a"@], 0) == 1);
    }
    assert forall|r: int| 0 <= r < 8 implies follows_automaton(#[trigger] t[r], d, set![1, 10]) by {
        if r == 0 { assert(follows_automaton(t[0], d, set![1, 10])); }
        if r == 1 { assert(follows_automaton(t[1], d, set![1, 10])); }
        if r == 2 { assert(follows_automaton(t[2], d, set![1, 10])); }
        if r == 3 { assert(follows_automaton(t[3], d, set![1, 10])); }
        if r == 4 { assert(follows_automaton(t[4], d, set![1, 10])); }
        if r == 5 { assert(follows_automaton(t[5], d, set![1, 10])); }
        if r == 6 { assert(follows_automaton(t[6], d, set![1, 10])); }
        if r == 7 { assert(follows_automaton(t[7], d, set![1, 10])); }
    }
}

proof fn lemma_ll1_follows_8_16()
    ensures
        forall|r: int| 8 <= r < 16 ==> follows_automaton(#[trigger] ll1_rule_table()[r], |p: int, c: char| ll1_transitions(p, c), set![1, 10]),
{
    lemma_ll1_name_states();
    reveal_strlit("a");
    reveal_strlit("b");
    reveal_strlit("S'");
    reveal_with_fuel(run_from, 5);
    assert("b"@ != "a"@) by {
        assert("b"@[0] != "a"@[0]);
    }
    let d = |p: int, c: char| ll1_transitions(p, c);
    let t = ll1_rule_table();
    assert(t[8] == ("⟨3,S,10⟩"@, seq!["a"@, "b"@, "b"@, "a"@]));
    assert(follows_automaton(t[8], d, set![1, 10])) by {
        assert(d(3, 'a') == 3);
        assert(d(3, 'b') == 2);
        assert(d(2, 'b') == 4);
        assert(d(4, 'a') == 10);
        assert(run_from(d, 10, seq!["a"@, "b"@, "b"@, "a"@], 4) == 10);
        assert(run_from(d, 4, seq!["a"@, "b"@, "b"@, "a"@], 3) == 10);
        assert(run_from(d, 2, seq!["a"@, "b"@, "b"@, "a"@], 2) == 10);
        assert(run_from(d, 3, seq!["a"@, "b"@, "b"@, "a"@], 1) == 10);
        assert(run_from(d, 3, seq!["a"@, "b"@, "b"@, "a"@], 0) == 10);
    }
    assert(t[9] == ("⟨7,S,1⟩"@, seq!["a"@, "b"@, "b"@, "a"@]));
    assert(follows_automaton(t[9], d, set![1, 10])) by {
        assert(d(7, 'a') == 1);
        assert(d(1, 'b') == 5);
        assert(d(5, 'b') == 7);
        assert(d(7, 'a') == 1);
        assert(run_from(d, 1, seq!["a"@, "b"@, "b"@, "a"@], 4) == 1);
        assert(run_from(d, 7, seq!["a"@, "b"@, "b"@, "a"@], 3) == 1);
        assert(run_from(d, 5, seq!["a"@, "b"@, "b"@, "a"@], 2) == 1);
        assert(run_from(d, 1, seq!["a"@, "b"@, "b"@, "a"@], 1) == 1);
        assert(run_from(d, 7, seq!["a"@, "b"@, "b"@, "a"@], 0) == 1);
    }
    assert(t[10] == ("⟨8,S,1⟩"@, seq!["a"@, "b"@, "b"@, "a"@]));
    assert(follows_automaton(t[10], d, set![1, 10])) by {
        assert(d(8, 'a') == 1);
        assert(d(1, 'b') == 5);
        assert(d(5, 'b') == 7);
        assert(d(7, 'a') == 1);
        assert(run_from(d, 1, seq!["a"@, "b"@, "b"@, "a"@], 4) == 1);
        assert(run_from(d, 7, seq!["a"@, "b"@, "b"@, "a"@], 3) == 1);
        assert(run_from(d, 5, seq!["a"@, "b"@, "b"@, "a"@], 2) == 1);
        assert(run_from(d, 1, seq!["a"@, "b"@, "b"@, "a"@], 1) == 1);
        assert(run_from(d, 8, seq!["a"@, "b"@, "b"@, "a"@], 0) == 1);
    }
    assert(t[11] == ("⟨10,S,1⟩"@, seq!["a"@, "b"@, "b"@, "a"@]));
    assert(follows_automaton(t[11], d, set![1, 10])) by {
        assert(d(10, 'a') == 1);
        assert(d(1, 'b') == 5);
        assert(d(5, 'b') == 7);
        assert(d(7, 'a') == 1);
        assert(run_from(d, 1, seq!["a"@, "b"@, "b"@, "a"@], 4) == 1);
        assert(run_from(d, 7, seq!["a"@, "b"@, "b"@, "a"@], 3) == 1);
        assert(run_from(d, 5, seq!["a"@, "b"@, "b"@, "a"@], 2) == 1);
        assert(run_from(d, 1, seq!["a"@, "b"@, "b"@, "a"@], 1) == 1);
        assert(run_from(d, 10, seq!["a"@, "b"@, "b"@, "a"@], 0) == 1);
    }
    assert(t[12] == ("⟨1,T,1⟩"@, seq!["a"@, "⟨1,T,1⟩"@, "a"@]));
    assert(follows_automaton(t[12], d, set![1, 10])) by {
        assert(d(1, 'a') == 1);
        assert(d(1, 'a') == 1);
        assert(run_from(d, 1, seq!["a"@, "⟨1,T,1⟩"@, "a"@], 3) == 1);
        assert(run_from(d, 1, seq!["a"@, "⟨1,T,1⟩"@, "a"@], 2) == 1);
        assert(run_from(d, 1, seq!["a"@, "⟨1,T,1⟩"@, "a"@], 1) == 1);
        assert(run_from(d, 1, seq!["a"@, "⟨1,T,1⟩"@, "a"@], 0) == 1);
    }
    assert(t[13] == ("⟨1,T,1⟩"@, seq!["a"@, "⟨1,T,8⟩"@, "a"@]));
    assert(follows_automaton(t[13], d, set![1, 10])) by {
        assert(d(1, 'a') == 1);
        assert(d(8, 'a') == 1);
        assert(run_from(d, 1, seq!["a"@, "⟨1,T,8⟩"@, "a"@], 3) == 1);
        assert(run_from(d, 8, seq!["a"@, "⟨1,T,8⟩"@, "a"@], 2) == 1);
        assert(run_from(d, 1, seq!["a"@, "⟨1,T,8⟩"@, "a"@], 1) == 1);
        assert(run_from(d, 1, seq!["a"@, "⟨1,T,8⟩"@, "a"@], 0) == 1);
    }
    assert(t[14] == ("⟨3,T,1⟩"@, seq!["a"@, "⟨3,T,1⟩"@, "a"@]));
    assert(follows_automaton(t[14], d, set![1, 10])) by {
        assert(d(3, 'a') == 3);
        assert(d(1, 'a') == 1);
        assert(run_from(d, 1, seq!["a"@, "⟨3,T,1⟩"@, "a"@], 3) == 1);
        assert(run_from(d, 1, seq!["a"@, "⟨3,T,1⟩"@, "a"@], 2) == 1);
        assert(run_from(d, 3, seq!["a"@, "⟨3,T,1⟩"@, "a"@], 1) == 1);
        assert(run_from(d, 3, seq!["a"@, "⟨3,T,1⟩"@, "a"@], 0) == 1);
    }
    assert(t[15] == ("⟨3,T,1⟩"@, seq!["a"@, "⟨3,T,8⟩"@, "a"@]));
    assert(follows_automaton(t[15], d, set![1, 10])) by {
        assert(d(3, 'a') == 3);
        assert(d(8, 'a') == 1);
        assert(run_from(d, 1, seq!["a"@, "⟨3,T,8⟩"@, "a"@], 3) == 1);
        assert(run_from(d, 8, seq!["a"@, "⟨3,T,8⟩"@, "a"@], 2) == 1);
        assert(run_from(d, 3, seq!["a"@, "⟨3,T,8⟩"@, "a"@], 1) == 1);
        assert(run_from(d, 3, seq!["a"@, "⟨3,T,8⟩"@, "a"@], 0) == 1);
    }
    assert forall|r: int| 8 <= r < 16 implies follows_automaton(#[trigger] t[r], d, set![1, 10]) by {
        if r == 8 { assert(follows_automaton(t[8], d, set![1, 10])); }
        if r == 9 { assert(follows_automaton(t[9], d, set![1, 10])); }
        if r == 10 { assert(follows_automaton(t[10], d, set![1, 10])); }
        if r == 11 { assert(follows_automaton(t[11], d, set![1, 10])); }
        if r == 12 { assert(follows_automaton(t[12], d, set![1, 10])); }
        if r == 13 { assert(follows_automaton(t[13], d, set![1, 10])); }
        if r == 14 { assert(follows_automaton(t[14], d, set![1, 10])); }
        if r == 15 { assert(follows_automaton(t[15], d, set![1, 10])); }
    }
}

proof fn lemma_ll1_follows_16_24()
    ensures
        forall|r: int| 16 <= r < 24 ==> follows_automaton(#[trigger] ll1_rule_table()[r], |p: int, c: char| ll1_transitions(p, c), set![1, 10]),
{
    lemma_ll1_name_states();
    reveal_strlit("a");
    reveal_strlit("b");
    reveal_strlit("S'");
    reveal_with_fuel(run_from, 5);
    assert("b"@ != "a"@) by {
        assert("b"@[0] != "a"@[0]);
    }
    let d = |p: int, c: char| ll1_transitions(p, c);
    let t = ll1_rule_table();
    assert(t[16] == ("⟨3,T,1⟩"@, seq!["a"@, "⟨3,T,10⟩"@, "a"@]));
    assert(follows_automaton(t[16], d, set![1, 10])) by {
        assert(d(3, 'a') == 3);
        assert(d(10, 'a') == 1);
        assert(run_from(d, 1, seq!["a"@, "⟨3,T,10⟩"@, "a"@], 3) == 1);
        assert(run_from(d, 10, seq!["a"@, "⟨3,T,10⟩"@, "a"@], 2) == 1);
        assert(run_from(d, 3, seq!["a"@, "⟨3,T,10⟩"@, "a"@], 1) == 1);
        assert(run_from(d, 3, seq!["a"@, "⟨3,T,10⟩"@, "a"@], 0) == 1);
    }
    assert(t[17] == ("⟨8,T,1⟩"@, seq!["a"@, "⟨1,T,1⟩"@, "a"@]));
    assert(follows_automaton(t[17], d, set![1, 10])) by {
        assert(d(8, 'a') == 1);
        assert(d(1, 'a') == 1);
        assert(run_from(d, 1, seq!["a"@, "⟨1,T,1⟩"@, "a"@], 3) == 1);
        assert(run_from(d, 1, seq!["a"@, "⟨1,T,1⟩"@, "a"@], 2) == 1);
        assert(run_from(d, 1, seq!["a"@, "⟨1,T,1⟩"@, "a"@], 1) == 1);
        assert(run_from(d, 8, seq!["a"@, "⟨1,T,1⟩"@, "a"@], 0) == 1);
    }
    assert(t[18] == ("⟨8,T,1⟩"@, seq!["a"@, "⟨1,T,8⟩"@, "a"@]));
    assert(follows_automaton(t[18], d, set![1, 10])) by {
        assert(d(8, 'a') == 1);
        assert(d(8, 'a') == 1);
        assert(run_from(d, 1, seq!["a"@, "⟨1,T,8⟩"@, "a"@], 3) == 1);
        assert(run_from(d, 8, seq!["a"@, "⟨1,T,8⟩"@, "a"@], 2) == 1);
        assert(run_from(d, 1, seq!["a"@, "⟨1,T,8⟩"@, "a"@], 1) == 1);
        assert(run_from(d, 8, seq!["a"@, "⟨1,T,8⟩"@, "a"@], 0) == 1);
    }
    assert(t[19] == ("⟨10,T,1⟩"@, seq!["a"@, "⟨1,T,1⟩"@, "a"@]));
    assert(follows_automaton(t[19], d, set![1, 10])) by {
        assert(d(10, 'a') == 1);
        assert(d(1, 'a') == 1);
        assert(run_from(d, 1, seq!["a"@, "⟨1,T,1⟩"@, "a"@], 3) == 1);
        assert(run_from(d, 1, seq!["a"@, "⟨1,T,1⟩"@, "a"@], 2) == 1);
        assert(run_from(d, 1, seq!["a"@, "⟨1,T,1⟩"@, "a"@], 1) == 1);
        assert(run_from(d, 10, seq!["a"@, "⟨1,T,1⟩"@, "a"@], 0) == 1);
    }
    assert(t[20] == ("⟨10,T,1⟩"@, seq!["a"@, "⟨1,T,8⟩"@, "a"@]));
    assert(follows_automaton(t[20], d, set![1, 10])) by {
        assert(d(10, 'a') == 1);
        assert(d(8, 'a') == 1);
        assert(run_from(d, 1, seq!["a"@, "⟨1,T,8⟩"@, "a"@], 3) == 1);
        assert(run_from(d, 8, seq!["a"@, "⟨1,T,8⟩"@, "a"@], 2) == 1);
        assert(run_from(d, 1, seq!["a"@, "⟨1,T,8⟩"@, "a"@], 1) == 1);
        assert(run_from(d, 10, seq!["a"@, "⟨1,T,8⟩"@, "a"@], 0) == 1);
    }
    assert(t[21] == ("⟨1,T,1⟩"@, seq!["⟨1,S,1⟩"@, "b"@, "b"@, "⟨7,S,1⟩"@]));
    assert(follows_automaton(t[21], d, set![1, 10])) by {
        assert(d(1, 'b') == 5);
        assert(d(5, 'b') == 7);
        assert(run_from(d, 1, seq!["⟨1,S,1⟩"@, "b"@, "b"@, "⟨7,S,1⟩"@], 4) == 1);
        assert(run_from(d, 7, seq!["⟨1,S,1⟩"@, "b"@, "b"@, "⟨7,S,1⟩"@], 3) == 1);
        assert(run_from(d, 5, seq!["⟨1,S,1⟩"@, "b"@, "b"@, "⟨7,S,1⟩"@], 2) == 1);
        assert(run_from(d, 1, seq!["⟨1,S,1⟩"@, "b"@, "b"@, "⟨7,S,1⟩"@], 1) == 1);
        assert(run_from(d, 1, seq!["⟨1,S,1⟩"@, "b"@, "b"@, "⟨7,S,1⟩"@], 0) == 1);
    }
    assert(t[22] == ("⟨3,T,1⟩"@, seq!["⟨3,S,1⟩"@, "b"@, "b"@, "⟨7,S,1⟩"@]));
    assert(follows_automaton(t[22], d, set![1, 10])) by {
        assert(d(1, 'b') == 5);
        assert(d(5, 'b') == 7);
        assert(run_from(d, 1, seq!["⟨3,S,1⟩"@, "b"@, "b"@, "⟨7,S,1⟩"@], 4) == 1);
        assert(run_from(d, 7, seq!["⟨3,S,1⟩"@, "b"@, "b"@, "⟨7,S,1⟩"@], 3) == 1);
        assert(run_from(d, 5, seq!["⟨3,S,1⟩"@, "b"@, "b"@, "⟨7,S,1⟩"@], 2) == 1);
        assert(run_from(d, 1, seq!["⟨3,S,1⟩"@, "b"@, "b"@, "⟨7,S,1⟩"@], 1) == 1);
        assert(run_from(d, 3, seq!["⟨3,S,1⟩"@, "b"@, "b"@, "⟨7,S,1⟩"@], 0) == 1);
    }
    assert(t[23] == ("⟨3,T,1⟩"@, seq!["⟨3,S,10⟩"@, "b"@, "b"@, "⟨0,S,1⟩"@]));
    assert(follows_automaton(t[23], d, set![1, 10])) by {
        assert(d(10, 'b') == 6);
        assert(d(6, 'b') == 0);
        assert(run_from(d, 1, seq!["⟨3,S,10⟩"@, "b"@, "b"@, "⟨0,S,1⟩"@], 4) == 1);
        assert(run_from(d, 0, seq!["⟨3,S,10⟩"@, "b"@, "b"@, "⟨0,S,1⟩"@], 3) == 1);
        assert(run_from(d, 6, seq!["⟨3,S,10⟩"@, "b"@, "b"@, "⟨0,S,1⟩"@], 2) == 1);
        assert(run_from(d, 10, seq!["⟨3,S,10⟩"@, "b"@, "b"@, "⟨0,S,1⟩"@], 1) == 1);
        assert(run_from(d, 3, seq!["⟨3,S,10⟩"@, "b"@, "b"@, "⟨0,S,1⟩"@], 0) == 1);
    }
    assert forall|r: int| 16 <= r < 24 implies follows_automaton(#[trigger] t[r], d, set![1, 10]) by {
        if r == 16 { assert(follows_automaton(t[16], d, set![1, 10])); }
        if r == 17 { assert(follows_automaton(t[17], d, set![1, 10])); }
        if r == 18 { assert(follows_automaton(t[18], d, set![1, 10])); }
        if r == 19 { assert(follows_automaton(t[19], d, set![1, 10])); }
        if r == 20 { assert(follows_automaton(t[20], d, set![1, 10])); }
        if r == 21 { assert(follows_automaton(t[21], d, set![1, 10])); }
        if r == 22 { assert(follows_automaton(t[22], d, set![1, 10])); }
        if r == 23 { assert(follows_automaton(t[23], d, set![1, 10])); }
    }
}

proof fn lemma_ll1_follows_24_32()
    ensures
        forall|r: int| 24 <= r < 32 ==> follows_automaton(#[trigger] ll1_rule_table()[r], |p: int, c: char| ll1_transitions(p, c), set![1, 10]),
{
    lemma_ll1_name_states();
    reveal_strlit("a");
    reveal_strlit("b");
    reveal_strlit("S'");
    reveal_with_fuel(run_from, 5);
    assert("b"@ != "a"@) by {
        assert("b"@[0] != "a"@[0]);
    }
    let d = |p: int, c: char| ll1_transitions(p, c);
    let t = ll1_rule_table();
    assert(t[24] == ("⟨3,T,10⟩"@, seq!["⟨3,S,10⟩"@, "b"@, "b"@, "⟨0,S,10⟩"@]));
    assert(follows_automaton(t[24], d, set![1, 10])) by {
        assert(d(10, 'b') == 6);
        assert(d(6, 'b') == 0);
        assert(run_from(d, 10, seq!["⟨3,S,10⟩"@, "b"@, "b"@, "⟨0,S,10⟩"@], 4) == 10);
        assert(run_from(d, 0, seq!["⟨3,S,10⟩"@, "b"@, "b"@, "⟨0,S,10⟩"@], 3) == 10);
        assert(run_from(d, 6, seq!["⟨3,S,10⟩"@, "b"@, "b"@, "⟨0,S,10⟩"@], 2) == 10);
        assert(run_from(d, 10, seq!["⟨3,S,10⟩"@, "b"@, "b"@, "⟨0,S,10⟩"@], 1) == 10);
        assert(run_from(d, 3, seq!["⟨3,S,10⟩"@, "b"@, "b"@, "⟨0,S,10⟩"@], 0) == 10);
    }
    assert(t[25] == ("⟨8,T,1⟩"@, seq!["⟨8,S,1⟩"@, "b"@, "b"@, "⟨7,S,1⟩"@]));
    assert(follows_automaton(t[25], d, set![1, 10])) by {
        assert(d(1, 'b') == 5);
        assert(d(5, 'b') == 7);
        assert(run_from(d, 1, seq!["⟨8,S,1⟩"@, "b"@, "b"@, "⟨7,S,1⟩"@], 4) == 1);
        assert(run_from(d, 7, seq!["⟨8,S,1⟩"@, "b"@, "b"@, "⟨7,S,1⟩"@], 3) == 1);
        assert(run_from(d, 5, seq!["⟨8,S,1⟩"@, "b"@, "b"@, "⟨7,S,1⟩"@], 2) == 1);
        assert(run_from(d, 1, seq!["⟨8,S,1⟩"@, "b"@, "b"@, "⟨7,S,1⟩"@], 1) == 1);
        assert(run_from(d, 8, seq!["⟨8,S,1⟩"@, "b"@, "b"@, "⟨7,S,1⟩"@], 0) == 1);
    }
    assert(t[26] == ("⟨10,T,1⟩"@, seq!["⟨10,S,1⟩"@, "b"@, "b"@, "⟨7,S,1⟩"@]));
    assert(follows_automaton(t[26], d, set![1, 10])) by {
        assert(d(1, 'b') == 5);
        assert(d(5, 'b') == 7);
        assert(run_from(d, 1, seq!["⟨10,S,1⟩"@, "b"@, "b"@, "⟨7,S,1⟩"@], 4) == 1);
        assert(run_from(d, 7, seq!["⟨10,S,1⟩"@, "b"@, "b"@, "⟨7,S,1⟩"@], 3) == 1);
        assert(run_from(d, 5, seq!["⟨10,S,1⟩"@, "b"@, "b"@, "⟨7,S,1⟩"@], 2) == 1);
        assert(run_from(d, 1, seq!["⟨10,S,1⟩"@, "b"@, "b"@, "⟨7,S,1⟩"@], 1) == 1);
        assert(run_from(d, 10, seq!["⟨10,S,1⟩"@, "b"@, "b"@, "⟨7,S,1⟩"@], 0) == 1);
    }
    assert(t[27] == ("⟨0,S,1⟩"@, seq!["a"@, "⟨3,T,1⟩"@, "⟨1,T,1⟩"@, "a"@]));
    assert(follows_automaton(t[27], d, set![1, 10])) by {
        assert(d(0, 'a') == 3);
        assert(d(1, 'a') == 1);
        assert(run_from(d, 1, seq!["a"@, "⟨3,T,1⟩"@, "⟨1,T,1⟩"@, "a"@], 4) == 1);
        assert(run_from(d, 1, seq!["a"@, "⟨3,T,1⟩"@, "⟨1,T,1⟩"@, "a"@], 3) == 1);
        assert(run_from(d, 1, seq!["a"@, "⟨3,T,1⟩"@, "⟨1,T,1⟩"@, "a"@], 2) == 1);
        assert(run_from(d, 3, seq!["a"@, "⟨3,T,1⟩"@, "⟨1,T,1⟩"@, "a"@], 1) == 1);
        assert(run_from(d, 0, seq!["a"@, "⟨3,T,1⟩"@, "⟨1,T,1⟩"@, "a"@], 0) == 1);
    }
    assert(t[28] == ("⟨0,S,1⟩"@, seq!["a"@, "⟨3,T,1⟩"@, "⟨1,T,8⟩"@, "a"@]));
    assert(follows_automaton(t[28], d, set![1, 10])) by {
        assert(d(0, 'a') == 3);
        assert(d(8, 'a') == 1);
        assert(run_from(d, 1, seq!["a"@, "⟨3,T,1⟩"@, "⟨1,T,8⟩"@, "a"@], 4) == 1);
        assert(run_from(d, 8, seq!["a"@, "⟨3,T,1⟩"@, "⟨1,T,8⟩"@, "a"@], 3) == 1);
        assert(run_from(d, 1, seq!["a"@, "⟨3,T,1⟩"@, "⟨1,T,8⟩"@, "a"@], 2) == 1);
        assert(run_from(d, 3, seq!["a"@, "⟨3,T,1⟩"@, "⟨1,T,8⟩"@, "a"@], 1) == 1);
        assert(run_from(d, 0, seq!["a"@, "⟨3,T,1⟩"@, "⟨1,T,8⟩"@, "a"@], 0) == 1);
    }
    assert(t[29] == ("⟨0,S,1⟩"@, seq!["a"@, "⟨3,T,8⟩"@, "⟨8,T,1⟩"@, "a"@]));
    assert(follows_automaton(t[29], d, set![1, 10])) by {
        assert(d(0, 'a') == 3);
        assert(d(1, 'a') == 1);
        assert(run_from(d, 1, seq!["a"@, "⟨3,T,8⟩"@, "⟨8,T,1⟩"@, "a"@], 4) == 1);
        assert(run_from(d, 1, seq!["a"@, "⟨3,T,8⟩"@, "⟨8,T,1⟩"@, "a"@], 3) == 1);
        assert(run_from(d, 8, seq!["a"@, "⟨3,T,8⟩"@, "⟨8,T,1⟩"@, "a"@], 2) == 1);
        assert(run_from(d, 3, seq!["a"@, "⟨3,T,8⟩"@, "⟨8,T,1⟩"@, "a"@], 1) == 1);
        assert(run_from(d, 0, seq!["a"@, "⟨3,T,8⟩"@, "⟨8,T,1⟩"@, "a"@], 0) == 1);
    }
    assert(t[30] == ("⟨0,S,1⟩"@, seq!["a"@, "⟨3,T,8⟩"@, "⟨8,T,8⟩"@, "a"@]));
    assert(follows_automaton(t[30], d, set![1, 10])) by {
        assert(d(0, 'a') == 3);
        assert(d(8, 'a') == 1);
        assert(run_from(d, 1, seq!["a"@, "⟨3,T,8⟩"@, "⟨8,T,8⟩"@, "a"@], 4) == 1);
        assert(run_from(d, 8, seq!["a"@, "⟨3,T,8⟩"@, "⟨8,T,8⟩"@, "a"@], 3) == 1);
        assert(run_from(d, 8, seq!["a"@, "⟨3,T,8⟩"@, "⟨8,T,8⟩"@, "a"@], 2) == 1);
        assert(run_from(d, 3, seq!["a"@, "⟨3,T,8⟩"@, "⟨8,T,8⟩"@, "a"@], 1) == 1);
        assert(run_from(d, 0, seq!["a"@, "⟨3,T,8⟩"@, "⟨8,T,8⟩"@, "a"@], 0) == 1);
    }
    assert(t[31] == ("⟨0,S,1⟩"@, seq!["a"@, "⟨3,T,10⟩"@, "⟨10,T,1⟩"@, "a"@]));
    assert(follows_automaton(t[31], d, set![1, 10])) by {
        assert(d(0, 'a') == 3);
        assert(d(1, 'a') == 1);
        assert(run_from(d, 1, seq!["a"@, "⟨3,T,10⟩"@, "⟨10,T,1⟩"@, "a"@], 4) == 1);
        assert(run_from(d, 1, seq!["a"@, "⟨3,T,10⟩"@, "⟨10,T,1⟩"@, "a"@], 3) == 1);
        assert(run_from(d, 10, seq!["a"@, "⟨3,T,10⟩"@, "⟨10,T,1⟩"@, "a"@], 2) == 1);
        assert(run_from(d, 3, seq!["a"@, "⟨3,T,10⟩"@, "⟨10,T,1⟩"@, "a"@], 1) == 1);
        assert(run_from(d, 0, seq!["a"@, "⟨3,T,10⟩"@, "⟨10,T,1⟩"@, "a"@], 0) == 1);
    }
    assert forall|r: int| 24 <= r < 32 implies follows_automaton(#[trigger] t[r], d, set![1, 10]) by {
        if r == 24 { assert(follows_automaton(t[24], d, set![1, 10])); }
        if r == 25 { assert(follows_automaton(t[25], d, set![1, 10])); }
        if r == 26 { assert(follows_automaton(t[26], d, set![1, 10])); }
        if r == 27 { assert(follows_automaton(t[27], d, set![1, 10])); }
        if r == 28 { assert(follows_automaton(t[28], d, set![1, 10])); }
        if r == 29 { assert(follows_automaton(t[29], d, set![1, 10])); }
        if r == 30 { assert(follows_automaton(t[30], d, set![1, 10])); }
        if r == 31 { assert(follows_automaton(t[31], d, set![1, 10])); }
    }
}

proof fn lemma_ll1_follows_32_40()
    ensures
        forall|r: int| 32 <= r < 40 ==> follows_automaton(#[trigger] ll1_rule_table()[r], |p: int, c: char| ll1_transitions(p, c), set![1, 10]),
{
    lemma_ll1_name_states();
    reveal_strlit("a");
    reveal_strlit("b");
    reveal_strlit("S'");
    reveal_with_fuel(run_from, 5);
    assert("b"@ != "a"@) by {
        assert("b"@[0] != "a"@[0]);
    }
    let d = |p: int, c: char| ll1_transitions(p, c);
    let t = ll1_rule_table();
    assert(t[32] == ("⟨0,S,1⟩"@, seq!["a"@, "⟨3,T,10⟩"@, "⟨10,T,8⟩"@, "a"@]));
    assert(follows_automaton(t[32], d, set![1, 10])) by {
        assert(d(0, 'a') == 3);
        assert(d(8, 'a') == 1);
        assert(run_from(d, 1, seq!["a"@, "⟨3,T,10⟩"@, "⟨10,T,8⟩"@, "a"@], 4) == 1);
        assert(run_from(d, 8, seq!["a"@, "⟨3,T,10⟩"@, "⟨10,T,8⟩"@, "a"@], 3) == 1);
        assert(run_from(d, 10, seq!["a"@, "⟨3,T,10⟩"@, "⟨10,T,8⟩"@, "a"@], 2) == 1);
        assert(run_from(d, 3, seq!["a"@, "⟨3,T,10⟩"@, "⟨10,T,8⟩"@, "a"@], 1) == 1);
        assert(run_from(d, 0, seq!["a"@, "⟨3,T,10⟩"@, "⟨10,T,8⟩"@, "a"@], 0) == 1);
    }
    assert(t[33] == ("⟨1,S,1⟩"@, seq!["a"@, "⟨1,T,1⟩"@, "⟨1,T,1⟩"@, "a"@]));
    assert(follows_automaton(t[33], d, set![1, 10])) by {
        assert(d(1, 'a') == 1);
        assert(d(1, 'a') == 1);
        assert(run_from(d, 1, seq!["a"@, "⟨1,T,1⟩"@, "⟨1,T,1⟩"@, "a"@], 4) == 1);
        assert(run_from(d, 1, seq!["a"@, "⟨1,T,1⟩"@, "⟨1,T,1⟩"@, "a"@], 3) == 1);
        assert(run_from(d, 1, seq!["a"@, "⟨1,T,1⟩"@, "⟨1,T,1⟩"@, "a"@], 2) == 1);
        assert(run_from(d, 1, seq!["a"@, "⟨1,T,1⟩"@, "⟨1,T,1⟩"@, "a"@], 1) == 1);
        assert(run_from(d, 1, seq!["a"@, "⟨1,T,1⟩"@, "⟨1,T,1⟩"@, "a"@], 0) == 1);
    }
    assert(t[34] == ("⟨1,S,1⟩"@, seq!["a"@, "⟨1,T,1⟩"@, "⟨1,T,8⟩"@, "a"@]));
    assert(follows_automaton(t[34], d, set![1, 10])) by {
        assert(d(1, 'a') == 1);
        assert(d(8, 'a') == 1);
        assert(run_from(d, 1, seq!["a"@, "⟨1,T,1⟩"@, "⟨1,T,8⟩"@, "a"@], 4) == 1);
        assert(run_from(d, 8, seq!["a"@, "⟨1,T,1⟩"@, "⟨1,T,8⟩"@, "a"@], 3) == 1);
        assert(run_from(d, 1, seq!["a"@, "⟨1,T,1⟩"@, "⟨1,T,8⟩"@, "a"@], 2) == 1);
        assert(run_from(d, 1, seq!["a"@, "⟨1,T,1⟩"@, "⟨1,T,8⟩"@, "a"@], 1) == 1);
        assert(run_from(d, 1, seq!["a"@, "⟨1,T,1⟩"@, "⟨1,T,8⟩"@, "a"@], 0) == 1);
    }
    assert(t[35] == ("⟨1,S,1⟩"@, seq!["a"@, "⟨1,T,8⟩"@, "⟨8,T,1⟩"@, "a"@]));
    assert(follows_automaton(t[35], d, set![1, 10])) by {
        assert(d(1, 'a') == 1);
        assert(d(1, 'a') == 1);
        assert(run_from(d, 1, seq!["a"@, "⟨1,T,8⟩"@, "⟨8,T,1⟩"@, "a"@], 4) == 1);
        assert(run_from(d, 1, seq!["a"@, "⟨1,T,8⟩"@, "⟨8,T,1⟩"@, "a"@], 3) == 1);
        assert(run_from(d, 8, seq!["a"@, "⟨1,T,8⟩"@, "⟨8,T,1⟩"@, "a"@], 2) == 1);
        assert(run_from(d, 1, seq!["a"@, "⟨1,T,8⟩"@, "⟨8,T,1⟩"@, "a"@], 1) == 1);
        assert(run_from(d, 1, seq!["a"@, "⟨1,T,8⟩"@, "⟨8,T,1⟩"@, "a"@], 0) == 1);
    }
    assert(t[36] == ("⟨1,S,1⟩"@, seq!["a"@, "⟨1,T,8⟩"@, "⟨8,T,8⟩"@, "a"@]));
    assert(follows_automaton(t[36], d, set![1, 10])) by {
        assert(d(1, 'a') == 1);
        assert(d(8, 'a') == 1);
        assert(run_from(d, 1, seq!["a"@, "⟨1,T,8⟩"@, "⟨8,T,8⟩"@, "a"@], 4) == 1);
        assert(run_from(d, 8, seq!["a"@, "⟨1,T,8⟩"@, "⟨8,T,8⟩"@, "a"@], 3) == 1);
        assert(run_from(d, 8, seq!["a"@, "⟨1,T,8⟩"@, "⟨8,T,8⟩"@, "a"@], 2) == 1);
        assert(run_from(d, 1, seq!["a"@, "⟨1,T,8⟩"@, "⟨8,T,8⟩"@, "a"@], 1) == 1);
        assert(run_from(d, 1, seq!["a"@, "⟨1,T,8⟩"@, "⟨8,T,8⟩"@, "a"@], 0) == 1);
    }
    assert(t[37] == ("⟨3,S,1⟩"@, seq!["a"@, "⟨3,T,1⟩"@, "⟨1,T,1⟩"@, "a"@]));
    assert(follows_automaton(t[37], d, set![1, 10])) by {
        assert(d(3, 'a') == 3);
        assert(d(1, 'a') == 1);
        assert(run_from(d, 1, seq!["a"@, "⟨3,T,1⟩"@, "⟨1,T,1⟩"@, "a"@], 4) == 1);
        assert(run_from(d, 1, seq!["a"@, "⟨3,T,1⟩"@, "⟨1,T,1⟩"@, "a"@], 3) == 1);
        assert(run_from(d, 1, seq!["a"@, "⟨3,T,1⟩"@, "⟨1,T,1⟩"@, "a"@], 2) == 1);
        assert(run_from(d, 3, seq!["a"@, "⟨3,T,1⟩"@, "⟨1,T,1⟩"@, "a"@], 1) == 1);
        assert(run_from(d, 3, seq!["a"@, "⟨3,T,1⟩"@, "⟨1,T,1⟩"@, "a"@], 0) == 1);
    }
    assert(t[38] == ("⟨3,S,1⟩"@, seq!["a"@, "⟨3,T,1⟩"@, "⟨1,T,8⟩"@, "a"@]));
    assert(follows_automaton(t[38], d, set![1, 10])) by {
        assert(d(3, 'a') == 3);
        assert(d(8, 'a') == 1);
        assert(run_from(d, 1, seq!["a"@, "⟨3,T,1⟩"@, "⟨1,T,8⟩"@, "a"@], 4) == 1);
        assert(run_from(d, 8, seq!["a"@, "⟨3,T,1⟩"@, "⟨1,T,8⟩"@, "a"@], 3) == 1);
        assert(run_from(d, 1, seq!["a"@, "⟨3,T,1⟩"@, "⟨1,T,8⟩"@, "a"@], 2) == 1);
        assert(run_from(d, 3, seq!["a"@, "⟨3,T,1⟩"@, "⟨1,T,8⟩"@, "a"@], 1) == 1);
        assert(run_from(d, 3, seq!["a"@, "⟨3,T,1⟩"@, "⟨1,T,8⟩"@, "a"@], 0) == 1);
    }
    assert(t[39] == ("⟨3,S,1⟩"@, seq!["a"@, "⟨3,T,8⟩"@, "⟨8,T,1⟩"@, "a"@]));
    assert(follows_automaton(t[39], d, set![1, 10])) by {
        assert(d(3, 'a') == 3);
        assert(d(1, 'a') == 1);
        assert(run_from(d, 1, seq!["a"@, "⟨3,T,8⟩"@, "⟨8,T,1⟩"@, "a"@], 4) == 1);
        assert(run_from(d, 1, seq!["a"@, "⟨3,T,8⟩"@, "⟨8,T,1⟩"@, "a"@], 3) == 1);
        assert(run_from(d, 8, seq!["a"@, "⟨3,T,8⟩"@, "⟨8,T,1⟩"@, "a"@], 2) == 1);
        assert(run_from(d, 3, seq!["a"@, "⟨3,T,8⟩"@, "⟨8,T,1⟩"@, "a"@], 1) == 1);
        assert(run_from(d, 3, seq!["a"@, "⟨3,T,8⟩"@, "⟨8,T,1⟩"@, "a"@], 0) == 1);
    }
    assert forall|r: int| 32 <= r < 40 implies follows_automaton(#[trigger] t[r], d, set![1, 10]) by {
        if r == 32 { assert(follows_automaton(t[32], d, set![1, 10])); }
        if r == 33 { assert(follows_automaton(t[33], d, set![1, 10])); }
        if r == 34 { assert(follows_automaton(t[34], d, set![1, 10])); }
        if r == 35 { assert(follows_automaton(t[35], d, set![1, 10])); }
        if r == 36 { assert(follows_automaton(t[36], d, set![1, 10])); }
        if r == 37 { assert(follows_automaton(t[37], d, set![1, 10])); }
        if r == 38 { assert(follows_automaton(t[38], d, set![1, 10])); }
        if r == 39 { assert(follows_automaton(t[39], d, set![1, 10])); }
    }
}

proof fn lemma_ll1_follows_40_48()
    ensures
        forall|r: int| 40 <= r < 48 ==> follows_automaton(#[trigger] ll1_rule_table()[r], |p: int, c: char| ll1_transitions(p, c), set![1, 10]),
{
    lemma_ll1_name_states();
    reveal_strlit("a");
    reveal_strlit("b");
    reveal_strlit("S'");
    reveal_with_fuel(run_from, 5);
    assert("b"@ != "a"@) by {
        assert("b"@[0] != "a"@[0]);
    }
    let d = |p: int, c: char| ll1_transitions(p, c);
    let t = ll1_rule_table();
    assert(t[40] == ("⟨3,S,1⟩"@, seq!["a"@, "⟨3,T,8⟩"@, "⟨8,T,8⟩"@, "a"@]));
    assert(follows_automaton(t[40], d, set![1, 10])) by {
        assert(d(3, 'a') == 3);
        assert(d(8, 'a') == 1);
        assert(run_from(d, 1, seq!["a"@, "⟨3,T,8⟩"@, "⟨8,T,8⟩"@, "a"@], 4) == 1);
        assert(run_from(d, 8, seq!["a"@, "⟨3,T,8⟩"@, "⟨8,T,8⟩"@, "a"@], 3) == 1);
        assert(run_from(d, 8, seq!["a"@, "⟨3,T,8⟩"@, "⟨8,T,8⟩"@, "a"@], 2) == 1);
        assert(run_from(d, 3, seq!["a"@, "⟨3,T,8⟩"@, "⟨8,T,8⟩"@, "a"@], 1) == 1);
        assert(run_from(d, 3, seq!["a"@, "⟨3,T,8⟩"@, "⟨8,T,8⟩"@, "a"@], 0) == 1);
    }
    assert(t[41] == ("⟨3,S,1⟩"@, seq!["a"@, "⟨3,T,10⟩"@, "⟨10,T,1⟩"@, "a"@]));
    assert(follows_automaton(t[41], d, set![1, 10])) by {
        assert(d(3, 'a') == 3);
        assert(d(1, 'a') == 1);
        assert(run_from(d, 1, seq!["a"@, "⟨3,T,10⟩"@, "⟨10,T,1⟩"@, "a"@], 4) == 1);
        assert(run_from(d, 1, seq!["a"@, "⟨3,T,10⟩"@, "⟨10,T,1⟩"@, "a"@], 3) == 1);
        assert(run_from(d, 10, seq!["a"@, "⟨3,T,10⟩"@, "⟨10,T,1⟩"@, "a"@], 2) == 1);
        assert(run_from(d, 3, seq!["a"@, "⟨3,T,10⟩"@, "⟨10,T,1⟩"@, "a"@], 1) == 1);
        assert(run_from(d, 3, seq!["a"@, "⟨3,T,10⟩"@, "⟨10,T,1⟩"@, "a"@], 0) == 1);
    }
    assert(t[42] == ("⟨3,S,1⟩"@, seq!["a"@, "⟨3,T,10⟩"@, "⟨10,T,8⟩"@, "a"@]));
    assert(follows_automaton(t[42], d, set![1, 10])) by {
        assert(d(3, 'a') == 3);
        assert(d(8, 'a') == 1);
        assert(run_from(d, 1, seq!["a"@, "⟨3,T,10⟩"@, "⟨10,T,8⟩"@, "a"@], 4) == 1);
        assert(run_from(d, 8, seq!["a"@, "⟨3,T,10⟩"@, "⟨10,T,8⟩"@, "a"@], 3) == 1);
        assert(run_from(d, 10, seq!["a"@, "⟨3,T,10⟩"@, "⟨10,T,8⟩"@, "a"@], 2) == 1);
        assert(run_from(d, 3, seq!["a"@, "⟨3,T,10⟩"@, "⟨10,T,8⟩"@, "a"@], 1) == 1);
        assert(run_from(d, 3, seq!["a"@, "⟨3,T,10⟩"@, "⟨10,T,8⟩"@, "a"@], 0) == 1);
    }
    assert(t[43] == ("⟨7,S,1⟩"@, seq!["a"@, "⟨1,T,1⟩"@, "⟨1,T,1⟩"@, "a"@]));
    assert(follows_automaton(t[43], d, set![1, 10])) by {
        assert(d(7, 'a') == 1);
        assert(d(1, 'a') == 1);
        assert(run_from(d, 1, seq!["a"@, "⟨1,T,1⟩"@, "⟨1,T,1⟩"@, "a"@], 4) == 1);
        assert(run_from(d, 1, seq!["a"@, "⟨1,T,1⟩"@, "⟨1,T,1⟩"@, "a"@], 3) == 1);
        assert(run_from(d, 1, seq!["a"@, "⟨1,T,1⟩"@, "⟨1,T,1⟩"@, "a"@], 2) == 1);
        assert(run_from(d, 1, seq!["a"@, "⟨1,T,1⟩"@, "⟨1,T,1⟩"@, "a"@], 1) == 1);
        assert(run_from(d, 7, seq!["a"@, "⟨1,T,1⟩"@, "⟨1,T,1⟩"@, "a"@], 0) == 1);
    }
    assert(t[44] == ("⟨7,S,1⟩"@, seq!["a"@, "⟨1,T,1⟩"@, "⟨1,T,8⟩"@, "a"@]));
    assert(follows_automaton(t[44], d, set![1, 10])) by {
        assert(d(7, 'a') == 1);
        assert(d(8, 'a') == 1);
        assert(run_from(d, 1, seq!["a"@, "⟨1,T,1⟩"@, "⟨1,T,8⟩"@, "a"@], 4) == 1);
        assert(run_from(d, 8, seq!["a"@, "⟨1,T,1⟩"@, "⟨1,T,8⟩"@, "a"@], 3) == 1);
        assert(run_from(d, 1, seq!["a"@, "⟨1,T,1⟩"@, "⟨1,T,8⟩"@, "a"@], 2) == 1);
        assert(run_from(d, 1, seq!["a"@, "⟨1,T,1⟩"@, "⟨1,T,8⟩"@, "a"@], 1) == 1);
        assert(run_from(d, 7, seq!["a"@, "⟨1,T,1⟩"@, "⟨1,T,8⟩"@, "a"@], 0) == 1);
    }
    assert(t[45] == ("⟨7,S,1⟩"@, seq!["a"@, "⟨1,T,8⟩"@, "⟨8,T,1⟩"@, "a"@]));
    assert(follows_automaton(t[45], d, set![1, 10])) by {
        assert(d(7, 'a') == 1);
        assert(d(1, 'a') == 1);
        assert(run_from(d, 1, seq!["a"@, "⟨1,T,8⟩"@, "⟨8,T,1⟩"@, "a"@], 4) == 1);
        assert(run_from(d, 1, seq!["a"@, "⟨1,T,8⟩"@, "⟨8,T,1⟩"@, "a"@], 3) == 1);
        assert(run_from(d, 8, seq!["a"@, "⟨1,T,8⟩"@, "⟨8,T,1⟩"@, "a"@], 2) == 1);
        assert(run_from(d, 1, seq!["a"@, "⟨1,T,8⟩"@, "⟨8,T,1⟩"@, "a"@], 1) == 1);
        assert(run_from(d, 7, seq!["a"@, "⟨1,T,8⟩"@, "⟨8,T,1⟩"@, "a"@], 0) == 1);
    }
    assert(t[46] == ("⟨7,S,1⟩"@, seq!["a"@, "⟨1,T,8⟩"@, "⟨8,T,8⟩"@, "a"@]));
    assert(follows_automaton(t[46], d, set![1, 10])) by {
        assert(d(7, 'a') == 1);
        assert(d(8, 'a') == 1);
        assert(run_from(d, 1, seq!["a"@, "⟨1,T,8⟩"@, "⟨8,T,8⟩"@, "a"@], 4) == 1);
        assert(run_from(d, 8, seq!["a"@, "⟨1,T,8⟩"@, "⟨8,T,8⟩"@, "a"@], 3) == 1);
        assert(run_from(d, 8, seq!["a"@, "⟨1,T,8⟩"@, "⟨8,T,8⟩"@, "a"@], 2) == 1);
        assert(run_from(d, 1, seq!["a"@, "⟨1,T,8⟩"@, "⟨8,T,8⟩"@, "a"@], 1) == 1);
        assert(run_from(d, 7, seq!["a"@, "⟨1,T,8⟩"@, "⟨8,T,8⟩"@, "a"@], 0) == 1);
    }
    assert(t[47] == ("⟨8,S,1⟩"@, seq!["a"@, "⟨1,T,1⟩"@, "⟨1,T,1⟩"@, "a"@]));
    assert(follows_automaton(t[47], d, set![1, 10])) by {
        assert(d(8, 'a') == 1);
        assert(d(1, 'a') == 1);
        assert(run_from(d, 1, seq!["a"@, "⟨1,T,1⟩"@, "⟨1,T,1⟩"@, "a"@], 4) == 1);
        assert(run_from(d, 1, seq!["a"@, "⟨1,T,1⟩"@, "⟨1,T,1⟩"@, "a"@], 3) == 1);
        assert(run_from(d, 1, seq!["a"@, "⟨1,T,1⟩"@, "⟨1,T,1⟩"@, "a"@], 2) == 1);
        assert(run_from(d, 1, seq!["a"@, "⟨1,T,1⟩"@, "⟨1,T,1⟩"@, "a"@], 1) == 1);
        assert(run_from(d, 8, seq!["a"@, "⟨1,T,1⟩"@, "⟨1,T,1⟩"@, "a"@], 0) == 1);
    }
    assert forall|r: int| 40 <= r < 48 implies follows_automaton(#[trigger] t[r], d, set![1, 10]) by {
        if r == 40 { assert(follows_automaton(t[40], d, set![1, 10])); }
        if r == 41 { assert(follows_automaton(t[41], d, set![1, 10])); }
        if r == 42 { assert(follows_automaton(t[42], d, set![1, 10])); }
        if r == 43 { assert(follows_automaton(t[43], d, set![1, 10])); }
        if r == 44 { assert(follows_automaton(t[44], d, set![1, 10])); }
        if r == 45 { assert(follows_automaton(t[45], d, set![1, 10])); }
        if r == 46 { assert(follows_automaton(t[46], d, set![1, 10])); }
        if r == 47 { assert(follows_automaton(t[47], d, set![1, 10])); }
    }
}

proof fn lemma_ll1_follows_48_55()
    ensures
        forall|r: int| 48 <= r < 55 ==> follows_automaton(#[trigger] ll1_rule_table()[r], |p: int, c: char| ll1_transitions(p, c), set![1, 10]),
{
    lemma_ll1_name_states();
    reveal_strlit("a");
    reveal_strlit("b");
    reveal_strlit("S'");
    reveal_with_fuel(run_from, 5);
    assert("b"@ != "a"@) by {
        assert("b"@[0] != "a"@[0]);
    }
    let d = |p: int, c: char| ll1_transitions(p, c);
    let t = ll1_rule_table();
    assert(t[48] == ("⟨8,S,1⟩"@, seq!["a"@, "⟨1,T,1⟩"@, "⟨1,T,8⟩"@, "a"@]));
    assert(follows_automaton(t[48], d, set![1, 10])) by {
        assert(d(8, 'a') == 1);
        assert(d(8, 'a') == 1);
        assert(run_from(d, 1, seq!["a"@, "⟨1,T,1⟩"@, "⟨1,T,8⟩"@, "a"@], 4) == 1);
        assert(run_from(d, 8, seq!["a"@, "⟨1,T,1⟩"@, "⟨1,T,8⟩"@, "a"@], 3) == 1);
        assert(run_from(d, 1, seq!["a"@, "⟨1,T,1⟩"@, "⟨1,T,8⟩"@, "a"@], 2) == 1);
        assert(run_from(d, 1, seq!["a"@, "⟨1,T,1⟩"@, "⟨1,T,8⟩"@, "a"@], 1) == 1);
        assert(run_from(d, 8, seq!["a"@, "⟨1,T,1⟩"@, "⟨1,T,8⟩"@, "a"@], 0) == 1);
    }
    assert(t[49] == ("⟨8,S,1⟩"@, seq!["a"@, "⟨1,T,8⟩"@, "⟨8,T,1⟩"@, "a"@]));
    assert(follows_automaton(t[49], d, set![1, 10])) by {
        assert(d(8, 'a') == 1);
        assert(d(1, 'a') == 1);
        assert(run_from(d, 1, seq!["a"@, "⟨1,T,8⟩"@, "⟨8,T,1⟩"@, "a"@], 4) == 1);
        assert(run_from(d, 1, seq!["a"@, "⟨1,T,8⟩"@, "⟨8,T,1⟩"@, "a"@], 3) == 1);
        assert(run_from(d, 8, seq!["a"@, "⟨1,T,8⟩"@, "⟨8,T,1⟩"@, "a"@], 2) == 1);
        assert(run_from(d, 1, seq!["a"@, "⟨1,T,8⟩"@, "⟨8,T,1⟩"@, "a"@], 1) == 1);
        assert(run_from(d, 8, seq!["a"@, "⟨1,T,8⟩"@, "⟨8,T,1⟩"@, "a"@], 0) == 1);
    }
    assert(t[50] == ("⟨8,S,1⟩"@, seq!["a"@, "⟨1,T,8⟩"@, "⟨8,T,8⟩"@, "a"@]));
    assert(follows_automaton(t[50], d, set![1, 10])) by {
        assert(d(8, 'a') == 1);
        assert(d(8, 'a') == 1);
        assert(run_from(d, 1, seq!["a"@, "⟨1,T,8⟩"@, "⟨8,T,8⟩"@, "a"@], 4) == 1);
        assert(run_from(d, 8, seq!["a"@, "⟨1,T,8⟩"@, "⟨8,T,8⟩"@, "a"@], 3) == 1);
        assert(run_from(d, 8, seq!["a"@, "⟨1,T,8⟩"@, "⟨8,T,8⟩"@, "a"@], 2) == 1);
        assert(run_from(d, 1, seq!["a"@, "⟨1,T,8⟩"@, "⟨8,T,8⟩"@, "a"@], 1) == 1);
        assert(run_from(d, 8, seq!["a"@, "⟨1,T,8⟩"@, "⟨8,T,8⟩"@, "a"@], 0) == 1);
    }
    assert(t[51] == ("⟨10,S,1⟩"@, seq!["a"@, "⟨1,T,1⟩"@, "⟨1,T,1⟩"@, "a"@]));
    assert(follows_automaton(t[51], d, set![1, 10])) by {
        assert(d(10, 'a') == 1);
        assert(d(1, 'a') == 1);
        assert(run_from(d, 1, seq!["a"@, "⟨1,T,1⟩"@, "⟨1,T,1⟩"@, "a"@], 4) == 1);
        assert(run_from(d, 1, seq!["a"@, "⟨1,T,1⟩"@, "⟨1,T,1⟩"@, "a"@], 3) == 1);
        assert(run_from(d, 1, seq!["a"@, "⟨1,T,1⟩"@, "⟨1,T,1⟩"@, "a"@], 2) == 1);
        assert(run_from(d, 1, seq!["a"@, "⟨1,T,1⟩"@, "⟨1,T,1⟩"@, "a"@], 1) == 1);
        assert(run_from(d, 10, seq!["a"@, "⟨1,T,1⟩"@, "⟨1,T,1⟩"@, "a"@], 0) == 1);
    }
    assert(t[52] == ("⟨10,S,1⟩"@, seq!["a"@, "⟨1,T,1⟩"@, "⟨1,T,8⟩"@, "a"@]));
    assert(follows_automaton(t[52], d, set![1, 10])) by {
        assert(d(10, 'a') == 1);
        assert(d(8, 'a') == 1);
        assert(run_from(d, 1, seq!["a"@, "⟨1,T,1⟩"@, "⟨1,T,8⟩"@, "a"@], 4) == 1);
        assert(run_from(d, 8, seq!["a"@, "⟨1,T,1⟩"@, "⟨1,T,8⟩"@, "a"@], 3) == 1);
        assert(run_from(d, 1, seq!["a"@, "⟨1,T,1⟩"@, "⟨1,T,8⟩"@, "a"@], 2) == 1);
        assert(run_from(d, 1, seq!["a"@, "⟨1,T,1⟩"@, "⟨1,T,8⟩"@, "a"@], 1) == 1);
        assert(run_from(d, 10, seq!["a"@, "⟨1,T,1⟩"@, "⟨1,T,8⟩"@, "a"@], 0) == 1);
    }
    assert(t[53] == ("⟨10,S,1⟩"@, seq!["a"@, "⟨1,T,8⟩"@, "⟨8,T,1⟩"@, "a"@]));
    assert(follows_automaton(t[53], d, set![1, 10])) by {
        assert(d(10, 'a') == 1);
        assert(d(1, 'a') == 1);
        assert(run_from(d, 1, seq!["a"@, "⟨1,T,8⟩"@, "⟨8,T,1⟩"@, "a"@], 4) == 1);
        assert(run_from(d, 1, seq!["a"@, "⟨1,T,8⟩"@, "⟨8,T,1⟩"@, "a"@], 3) == 1);
        assert(run_from(d, 8, seq!["a"@, "⟨1,T,8⟩"@, "⟨8,T,1⟩"@, "a"@], 2) == 1);
        assert(run_from(d, 1, seq!["a"@, "⟨1,T,8⟩"@, "⟨8,T,1⟩"@, "a"@], 1) == 1);
        assert(run_from(d, 10, seq!["a"@, "⟨1,T,8⟩"@, "⟨8,T,1⟩"@, "a"@], 0) == 1);
    }
    assert(t[54] == ("⟨10,S,1⟩"@, seq!["a"@, "⟨1,T,8⟩"@, "⟨8,T,8⟩"@, "a"@]));
    assert(follows_automaton(t[54], d, set![1, 10])) by {
        assert(d(10, 'a') == 1);
        assert(d(8, 'a') == 1);
        assert(run_from(d, 1, seq!["a"@, "⟨1,T,8⟩"@, "⟨8,T,8⟩"@, "a"@], 4) == 1);
        assert(run_from(d, 8, seq!["a"@, "⟨1,T,8⟩"@, "⟨8,T,8⟩"@, "a"@], 3) == 1);
        assert(run_from(d, 8, seq!["a"@, "⟨1,T,8⟩"@, "⟨8,T,8⟩"@, "a"@], 2) == 1);
        assert(run_from(d, 1, seq!["a"@, "⟨1,T,8⟩"@, "⟨8,T,8⟩"@, "a"@], 1) == 1);
        assert(run_from(d, 10, seq!["a"@, "⟨1,T,8⟩"@, "⟨8,T,8⟩"@, "a"@], 0) == 1);
    }
    assert forall|r: int| 48 <= r < 55 implies follows_automaton(#[trigger] t[r], d, set![1, 10]) by {
        if r == 48 { assert(follows_automaton(t[48], d, set![1, 10])); }
        if r == 49 { assert(follows_automaton(t[49], d, set![1, 10])); }
        if r == 50 { assert(follows_automaton(t[50], d, set![1, 10])); }
        if r == 51 { assert(follows_automaton(t[51], d, set![1, 10])); }
        if r == 52 { assert(follows_automaton(t[52], d, set![1, 10])); }
        if r == 53 { assert(follows_automaton(t[53], d, set![1, 10])); }
        if r == 54 { assert(follows_automaton(t[54], d, set![1, 10])); }
    }
}

/// The rules of the LL(1) intersection grammar follow the runs of one
/// automaton with start state `0` and final states `1` and `10`: in each rule
/// `⟨p,X,q⟩ -> Y1 ... Yk` the automaton goes from `p` through the symbols to
/// `q`, each name `⟨u,Y,v⟩` starting where the run stands, and the new start
/// `S'` leads to names `⟨0,S,q⟩` with `q` final.
pub proof fn lemma_ll1_rules_follow_automaton()
    ensures
        rules_follow_one_automaton(ll1_rule_table(), set![1, 10]),
{
    lemma_ll1_follows_0_8();
    lemma_ll1_follows_8_16();
    lemma_ll1_follows_16_24();
    lemma_ll1_follows_24_32();
    lemma_ll1_follows_32_40();
    lemma_ll1_follows_40_48();
    lemma_ll1_follows_48_55();
    let d = |p: int, c: char| ll1_transitions(p, c);
    assert(ll1_rule_table().len() == 55);
    assert forall|r: int| 0 <= r < ll1_rule_table().len() implies #[trigger] follows_automaton(ll1_rule_table()[r], d, set![1, 10]) by {
        if 0 <= r < 8 { assert(follows_automaton(ll1_rule_table()[r], d, set![1, 10])); }
        if 8 <= r < 16 { assert(follows_automaton(ll1_rule_table()[r], d, set![1, 10])); }
        if 16 <= r < 24 { assert(follows_automaton(ll1_rule_table()[r], d, set![1, 10])); }
        if 24 <= r < 32 { assert(follows_automaton(ll1_rule_table()[r], d, set![1, 10])); }
        if 32 <= r < 40 { assert(follows_automaton(ll1_rule_table()[r], d, set![1, 10])); }
        if 40 <= r < 48 { assert(follows_automaton(ll1_rule_table()[r], d, set![1, 10])); }
        if 48 <= r < 55 { assert(follows_automaton(ll1_rule_table()[r], d, set![1, 10])); }
    }
    assert(all_follow(ll1_rule_table(), d, set![1, 10]));
}

/// The states of each name of `lr0_rule_table`.
proof fn lemma_lr0_name_states()
    ensures
        from_state("⟨0,S,1⟩"@) == 0 && to_state("⟨0,S,1⟩"@) == 1 && "⟨0,S,1⟩"@ != "a"@ && "⟨0,S,1⟩"@ != "b"@ && "⟨0,S,1⟩"@ != "S'"@,
        from_state("⟨0,S,8⟩"@) == 0 && to_state("⟨0,S,8⟩"@) == 8 && "⟨0,S,8⟩"@ != "a"@ && "⟨0,S,8⟩"@ != "b"@ && "⟨0,S,8⟩"@ != "S'"@,
        from_state("⟨1,S,1⟩"@) == 1 && to_state("⟨1,S,1⟩"@) == 1 && "⟨1,S,1⟩"@ != "a"@ && "⟨1,S,1⟩"@ != "b"@ && "⟨1,S,1⟩"@ != "S'"@,
        from_state("⟨1,T,1⟩"@) == 1 && to_state("⟨1,T,1⟩"@) == 1 && "⟨1,T,1⟩"@ != "a"@ && "⟨1,T,1⟩"@ != "b"@ && "⟨1,T,1⟩"@ != "S'"@,
        from_state("⟨1,T,7⟩"@) == 1 && to_state("⟨1,T,7⟩"@) == 7 && "⟨1,T,7⟩"@ != "a"@ && "⟨1,T,7⟩"@ != "b"@ && "⟨1,T,7⟩"@ != "S'"@,
        from_state("⟨10,S,1⟩"@) == 10 && to_state("⟨10,S,1⟩"@) == 1 && "⟨10,S,1⟩"@ != "a"@ && "⟨10,S,1⟩"@ != "b"@ && "⟨10,S,1⟩"@ != "S'"@,
        from_state("⟨10,S,8⟩"@) == 10 && to_state("⟨10,S,8⟩"@) == 8 && "⟨10,S,8⟩"@ != "a"@ && "⟨10,S,8⟩"@ != "b"@ && "⟨10,S,8⟩"@ != "S'"@,
        from_state("⟨10,T,1⟩"@) == 10 && to_state("⟨10,T,1⟩"@) == 1 && "⟨10,T,1⟩"@ != "a"@ && "⟨10,T,1⟩"@ != "b"@ && "⟨10,T,1⟩"@ != "S'"@,
        from_state("⟨10,T,7⟩"@) == 10 && to_state("⟨10,T,7⟩"@) == 7 && "⟨10,T,7⟩"@ != "a"@ && "⟨10,T,7⟩"@ != "b"@ && "⟨10,T,7⟩"@ != "S'"@,
        from_state("⟨10,T,8⟩"@) == 10 && to_state("⟨10,T,8⟩"@) == 8 && "⟨10,T,8⟩"@ != "a"@ && "⟨10,T,8⟩"@ != "b"@ && "⟨10,T,8⟩"@ != "S'"@,
        from_state("⟨6,S,1⟩"@) == 6 && to_state("⟨6,S,1⟩"@) == 1 && "⟨6,S,1⟩"@ != "a"@ && "⟨6,S,1⟩"@ != "b"@ && "⟨6,S,1⟩"@ != "S'"@,
        from_state("⟨7,S,1⟩"@) == 7 && to_state("⟨7,S,1⟩"@) == 1 && "⟨7,S,1⟩"@ != "a"@ && "⟨7,S,1⟩"@ != "b"@ && "⟨7,S,1⟩"@ != "S'"@,
        from_state("⟨7,T,1⟩"@) == 7 && to_state("⟨7,T,1⟩"@) == 1 && "⟨7,T,1⟩"@ != "a"@ && "⟨7,T,1⟩"@ != "b"@ && "⟨7,T,1⟩"@ != "S'"@,
        from_state("⟨7,T,7⟩"@) == 7 && to_state("⟨7,T,7⟩"@) == 7 && "⟨7,T,7⟩"@ != "a"@ && "⟨7,T,7⟩"@ != "b"@ && "⟨7,T,7⟩"@ != "S'"@,
        from_state("⟨8,S,1⟩"@) == 8 && to_state("⟨8,S,1⟩"@) == 1 && "⟨8,S,1⟩"@ != "a"@ && "⟨8,S,1⟩"@ != "b"@ && "⟨8,S,1⟩"@ != "S'"@,
        from_state("⟨8,T,1⟩"@) == 8 && to_state("⟨8,T,1⟩"@) == 1 && "⟨8,T,1⟩"@ != "a"@ && "⟨8,T,1⟩"@ != "b"@ && "⟨8,T,1⟩"@ != "S'"@,
        from_state("⟨8,T,7⟩"@) == 8 && to_state("⟨8,T,7⟩"@) == 7 && "⟨8,T,7⟩"@ != "a"@ && "⟨8,T,7⟩"@ != "b"@ && "⟨8,T,7⟩"@ != "S'"@,
{
    reveal_strlit("a");
    reveal_strlit("b");
    reveal_strlit("S'");
    reveal_with_fuel(first_from, 4);
    reveal_with_fuel(number, 3);
    reveal_strlit("⟨0,S,1⟩");
    assert(first_from("⟨0,S,1⟩"@, ',', 0) == 2);
    assert("⟨0,S,1⟩"@.subrange(1, 2) =~= seq!['0']);
    assert("⟨0,S,1⟩"@.subrange(5, 6) =~= seq!['1']);
    assert(number(seq!['0']) == 0);
    assert(number(seq!['1']) == 1);
    assert("⟨0,S,1⟩"@.len() != 1 && "⟨0,S,1⟩"@.len() != 2);
    reveal_strlit("⟨0,S,8⟩");
    assert(first_from("⟨0,S,8⟩"@, ',', 0) == 2);
    assert("⟨0,S,8⟩"@.subrange(1, 2) =~= seq!['0']);
    assert("⟨0,S,8⟩"@.subrange(5, 6) =~= seq!['8']);
    assert(number(seq!['0']) == 0);
    assert(number(seq!['8']) == 8);
    assert("⟨0,S,8⟩"@.len() != 1 && "⟨0,S,8⟩"@.len() != 2);
    reveal_strlit("⟨1,S,1⟩");
    assert(first_from("⟨1,S,1⟩"@, ',', 0) == 2);
    assert("⟨1,S,1⟩"@.subrange(1, 2) =~= seq!['1']);
    assert("⟨1,S,1⟩"@.subrange(5, 6) =~= seq!['1']);
    assert(number(seq!['1']) == 1);
    assert(number(seq!['1']) == 1);
    assert("⟨1,S,1⟩"@.len() != 1 && "⟨1,S,1⟩"@.len() != 2);
    reveal_strlit("⟨1,T,1⟩");
    assert(first_from("⟨1,T,1⟩"@, ',', 0) == 2);
    assert("⟨1,T,1⟩"@.subrange(1, 2) =~= seq!['1']);
    assert("⟨1,T,1⟩"@.subrange(5, 6) =~= seq!['1']);
    assert(number(seq!['1']) == 1);
    assert(number(seq!['1']) == 1);
    assert("⟨1,T,1⟩"@.len() != 1 && "⟨1,T,1⟩"@.len() != 2);
    reveal_strlit("⟨1,T,7⟩");
    assert(first_from("⟨1,T,7⟩"@, ',', 0) == 2);
    assert("⟨1,T,7⟩"@.subrange(1, 2) =~= seq!['1']);
    assert("⟨1,T,7⟩"@.subrange(5, 6) =~= seq!['7']);
    assert(number(seq!['1']) == 1);
    assert(number(seq!['7']) == 7);
    assert("⟨1,T,7⟩"@.len() != 1 && "⟨1,T,7⟩"@.len() != 2);
    reveal_strlit("⟨10,S,1⟩");
    assert(first_from("⟨10,S,1⟩"@, ',', 0) == 3);
    assert("⟨10,S,1⟩"@.subrange(1, 3) =~= seq!['1', '0']);
    assert("⟨10,S,1⟩"@.subrange(6, 7) =~= seq!['1']);
    assert(number(seq!['1', '0']) == 10);
    assert(number(seq!['1']) == 1);
    assert("⟨10,S,1⟩"@.len() != 1 && "⟨10,S,1⟩"@.len() != 2);
    reveal_strlit("⟨10,S,8⟩");
    assert(first_from("⟨10,S,8⟩"@, ',', 0) == 3);
    assert("⟨10,S,8⟩"@.subrange(1, 3) =~= seq!['1', '0']);
    assert("⟨10,S,8⟩"@.subrange(6, 7) =~= seq!['8']);
    assert(number(seq!['1', '0']) == 10);
    assert(number(seq!['8']) == 8);
    assert("⟨10,S,8⟩"@.len() != 1 && "⟨10,S,8⟩"@.len() != 2);
    reveal_strlit("⟨10,T,1⟩");
    assert(first_from("⟨10,T,1⟩"@, ',', 0) == 3);
    assert("⟨10,T,1⟩"@.subrange(1, 3) =~= seq!['1', '0']);
    assert("⟨10,T,1⟩"@.subrange(6, 7) =~= seq!['1']);
    assert(number(seq!['1', '0']) == 10);
    assert(number(seq!['1']) == 1);
    assert("⟨10,T,1⟩"@.len() != 1 && "⟨10,T,1⟩"@.len() != 2);
    reveal_strlit("⟨10,T,7⟩");
    assert(first_from("⟨10,T,7⟩"@, ',', 0) == 3);
    assert("⟨10,T,7⟩"@.subrange(1, 3) =~= seq!['1', '0']);
    assert("⟨10,T,7⟩"@.subrange(6, 7) =~= seq!['7']);
    assert(number(seq!['1', '0']) == 10);
    assert(number(seq!['7']) == 7);
    assert("⟨10,T,7⟩"@.len() != 1 && "⟨10,T,7⟩"@.len() != 2);
    reveal_strlit("⟨10,T,8⟩");
    assert(first_from("⟨10,T,8⟩"@, ',', 0) == 3);
    assert("⟨10,T,8⟩"@.subrange(1, 3) =~= seq!['1', '0']);
    assert("⟨10,T,8⟩"@.subrange(6, 7) =~= seq!['8']);
    assert(number(seq!['1', '0']) == 10);
    assert(number(seq!['8']) == 8);
    assert("⟨10,T,8⟩"@.len() != 1 && "⟨10,T,8⟩"@.len() != 2);
    reveal_strlit("⟨6,S,1⟩");
    assert(first_from("⟨6,S,1⟩"@, ',', 0) == 2);
    assert("⟨6,S,1⟩"@.subrange(1, 2) =~= seq!['6']);
    assert("⟨6,S,1⟩"@.subrange(5, 6) =~= seq!['1']);
    assert(number(seq!['6']) == 6);
    assert(number(seq!['1']) == 1);
    assert("⟨6,S,1⟩"@.len() != 1 && "⟨6,S,1⟩"@.len() != 2);
    reveal_strlit("⟨7,S,1⟩");
    assert(first_from("⟨7,S,1⟩"@, ',', 0) == 2);
    assert("⟨7,S,1⟩"@.subrange(1, 2) =~= seq!['7']);
    assert("⟨7,S,1⟩"@.subrange(5, 6) =~= seq!['1']);
    assert(number(seq!['7']) == 7);
    assert(number(seq!['1']) == 1);
    assert("⟨7,S,1⟩"@.len() != 1 && "⟨7,S,1⟩"@.len() != 2);
    reveal_strlit("⟨7,T,1⟩");
    assert(first_from("⟨7,T,1⟩"@, ',', 0) == 2);
    assert("⟨7,T,1⟩"@.subrange(1, 2) =~= seq!['7']);
    assert("⟨7,T,1⟩"@.subrange(5, 6) =~= seq!['1']);
    assert(number(seq!['7']) == 7);
    assert(number(seq!['1']) == 1);
    assert("⟨7,T,1⟩"@.len() != 1 && "⟨7,T,1⟩"@.len() != 2);
    reveal_strlit("⟨7,T,7⟩");
    assert(first_from("⟨7,T,7⟩"@, ',', 0) == 2);
    assert("⟨7,T,7⟩"@.subrange(1, 2) =~= seq!['7']);
    assert("⟨7,T,7⟩"@.subrange(5, 6) =~= seq!['7']);
    assert(number(seq!['7']) == 7);
    assert(number(seq!['7']) == 7);
    assert("⟨7,T,7⟩"@.len() != 1 && "⟨7,T,7⟩"@.len() != 2);
    reveal_strlit("⟨8,S,1⟩");
    assert(first_from("⟨8,S,1⟩"@, ',', 0) == 2);
    assert("⟨8,S,1⟩"@.subrange(1, 2) =~= seq!['8']);
    assert("⟨8,S,1⟩"@.subrange(5, 6) =~= seq!['1']);
    assert(number(seq!['8']) == 8);
    assert(number(seq!['1']) == 1);
    assert("⟨8,S,1⟩"@.len() != 1 && "⟨8,S,1⟩"@.len() != 2);
    reveal_strlit("⟨8,T,1⟩");
    assert(first_from("⟨8,T,1⟩"@, ',', 0) == 2);
    assert("⟨8,T,1⟩"@.subrange(1, 2) =~= seq!['8']);
    assert("⟨8,T,1⟩"@.subrange(5, 6) =~= seq!['1']);
    assert(number(seq!['8']) == 8);
    assert(number(seq!['1']) == 1);
    assert("⟨8,T,1⟩"@.len() != 1 && "⟨8,T,1⟩"@.len() != 2);
    reveal_strlit("⟨8,T,7⟩");
    assert(first_from("⟨8,T,7⟩"@, ',', 0) == 2);
    assert("⟨8,T,7⟩"@.subrange(1, 2) =~= seq!['8']);
    assert("⟨8,T,7⟩"@.subrange(5, 6) =~= seq!['7']);
    assert(number(seq!['8']) == 8);
    assert(number(seq!['7']) == 7);
    assert("⟨8,T,7⟩"@.len() != 1 && "⟨8,T,7⟩"@.len() != 2);
}

/// Transitions of an automaton along whose runs the rules of `lr0_rule_table` are built.
spec fn lr0_transitions(p: int, c: char) -> int {
    if p == 0 && c == 'a' {
        10
    } else if p == 0 && c == 'b' {
        7
    } else if p == 1 && c == 'a' {
        1
    } else if p == 1 && c == 'b' {
        4
    } else if p == 2 && c == 'a' {
        0
    } else if p == 2 && c == 'b' {
        3
    } else if p == 3 && c == 'a' {
        8
    } else if p == 4 && c == 'a' {
        0
    } else if p == 4 && c == 'b' {
        6
    } else if p == 5 && c == 'a' {
        0
    } else if p == 5 && c == 'b' {
        0
    } else if p == 6 && c == 'a' {
        1
    } else if p == 7 && c == 'a' {
        1
    } else if p == 7 && c == 'b' {
        2
    } else if p == 8 && c == 'a' {
        1
    } else if p == 8 && c == 'b' {
        5
    } else if p == 10 && c == 'a' {
        10
    } else if p == 10 && c == 'b' {
        2
    } else {
        -1
    }
}

proof fn lemma_lr0_follows_0_8()
    ensures
        forall|r: int| 0 <= r < 8 ==> follows_automaton(#[trigger] lr0_rule_table()[r], |p: int, c: char| lr0_transitions(p, c), set![1, 8]),
{
    lemma_lr0_name_states();
    reveal_strlit("a");
    reveal_strlit("b");
    reveal_strlit("S'");
    reveal_with_fuel(run_from, 5);
    assert("b"@ != "a"@) by {
        assert("b"@[0] != "a"@[0]);
    }
    let d = |p: int, c: char| lr0_transitions(p, c);
    let t = lr0_rule_table();
    assert(t[0] == ("S'"@, seq!["⟨0,S,1⟩"@]));
    assert(follows_automaton(t[0], d, set![1, 8]));
    assert(t[1] == ("S'"@, seq!["⟨0,S,8⟩"@]));
    assert(follows_automaton(t[1], d, set![1, 8]));
    assert(t[2] == ("⟨0,S,8⟩"@, seq!["a"@, "b"@, "b"@, "a"@]));
    assert(follows_automaton(t[2], d, set![1, 8])) by {
        assert(d(0, 'a') == 10);
        assert(d(10, 'b') == 2);
        assert(d(2, 'b') == 3);
        assert(d(3, 'a') == 8);
        assert(run_from(d, 8, seq!["a"@, "b"@, "b"@, "a"@], 4) == 8);
        assert(run_from(d, 3, seq!["a"@, "b"@, "b"@, "a"@], 3) == 8);
        assert(run_from(d, 2, seq!["a"@, "b"@, "b"@, "a"@], 2) == 8);
        assert(run_from(d, 10, seq!["a"@, "b"@, "b"@, "a"@], 1) == 8);
        assert(run_from(d, 0, seq!["a"@, "b"@, "b"@, "a"@], 0) == 8);
    }
    assert(t[3] == ("⟨1,S,1⟩"@, seq!["a"@, "b"@, "b"@, "a"@]));
    assert(follows_automaton(t[3], d, set![1, 8])) by {
        assert(d(1, 'a') == 1);
        assert(d(1, 'b') == 4);
        assert(d(4, 'b') == 6);
        assert(d(6, 'a') == 1);
        assert(run_from(d, 1, seq!["a"@, "b"@, "b"@, "a"@], 4) == 1);
        assert(run_from(d, 6, seq!["a"@, "b"@, "b"@, "a"@], 3) == 1);
        assert(run_from(d, 4, seq!["a"@, "b"@, "b"@, "a"@], 2) == 1);
        assert(run_from(d, 1, seq!["a"@, "b"@, "b"@, "a"@], 1) == 1);
        assert(run_from(d, 1, seq!["a"@, "b"@, "b"@, "a"@], 0) == 1);
    }
    assert(t[4] == ("⟨6,S,1⟩"@, seq!["a"@, "b"@, "b"@, "a"@]));
    assert(follows_automaton(t[4], d, set![1, 8])) by {
        assert(d(6, 'a') == 1);
        assert(d(1, 'b') == 4);
        assert(d(4, 'b') == 6);
        assert(d(6, 'a') == 1);
        assert(run_from(d, 1, seq!["a"@, "b"@, "b"@, "a"@], 4) == 1);
        assert(run_from(d, 6, seq!["a"@, "b"@, "b"@, "a"@], 3) == 1);
        assert(run_from(d, 4, seq!["a"@, "b"@, "b"@, "a"@], 2) == 1);
        assert(run_from(d, 1, seq!["a"@, "b"@, "b"@, "a"@], 1) == 1);
        assert(run_from(d, 6, seq!["a"@, "b"@, "b"@, "a"@], 0) == 1);
    }
    assert(t[5] == ("⟨7,S,1⟩"@, seq!["a"@, "b"@, "b"@, "a"@]));
    assert(follows_automaton(t[5], d, set![1, 8])) by {
        assert(d(7, 'a') == 1);
        assert(d(1, 'b') == 4);
        assert(d(4, 'b') == 6);
        assert(d(6, 'a') == 1);
        assert(run_from(d, 1, seq!["a"@, "b"@, "b"@, "a"@], 4) == 1);
        assert(run_from(d, 6, seq!["a"@, "b"@, "b"@, "a"@], 3) == 1);
        assert(run_from(d, 4, seq!["a"@, "b"@, "b"@, "a"@], 2) == 1);
        assert(run_from(d, 1, seq!["a"@, "b"@, "b"@, "a"@], 1) == 1);
        assert(run_from(d, 7, seq!["a"@, "b"@, "b"@, "a"@], 0) == 1);
    }
    assert(t[6] == ("⟨8,S,1⟩"@, seq!["a"@, "b"@, "b"@, "a"@]));
    assert(follows_automaton(t[6], d, set![1, 8])) by {
        assert(d(8, 'a') == 1);
        assert(d(1, 'b') == 4);
        assert(d(4, 'b') == 6);
        assert(d(6, 'a') == 1);
        assert(run_from(d, 1, seq!["a"@, "b"@, "b"@, "a"@], 4) == 1);
        assert(run_from(d, 6, seq!["a"@, "b"@, "b"@, "a"@], 3) == 1);
        assert(run_from(d, 4, seq!["a"@, "b"@, "b"@, "a"@], 2) == 1);
        assert(run_from(d, 1, seq!["a"@, "b"@, "b"@, "a"@], 1) == 1);
        assert(run_from(d, 8, seq!["a"@, "b"@, "b"@, "a"@], 0) == 1);
    }
    assert(t[7] == ("⟨10,S,8⟩"@, seq!["a"@, "b"@, "b"@, "a"@]));
    assert(follows_automaton(t[7], d, set![1, 8])) by {
        assert(d(10, 'a') == 10);
        assert(d(10, 'b') == 2);
        assert(d(2, 'b') == 3);
        assert(d(3, 'a') == 8);
        assert(run_from(d, 8, seq!["a"@, "b"@, "b"@, "a"@], 4) == 8);
        assert(run_from(d, 3, seq!["a"@, "b"@, "b"@, "a"@], 3) == 8);
        assert(run_from(d, 2, seq!["a"@, "b"@, "b"@, "a"@], 2) == 8);
        assert(run_from(d, 10, seq!["a"@, "b"@, "b"@, "a"@], 1) == 8);
        assert(run_from(d, 10, seq!["a"@, "b"@, "b"@, "a"@], 0) == 8);
    }
    assert forall|r: int| 0 <= r < 8 implies follows_automaton(#[trigger] t[r], d, set![1, 8]) by {
        if r == 0 { assert(follows_automaton(t[0], d, set![1, 8])); }
        if r == 1 { assert(follows_automaton(t[1], d, set![1, 8])); }
        if r == 2 { assert(follows_automaton(t[2], d, set![1, 8])); }
        if r == 3 { assert(follows_automaton(t[3], d, set![1, 8])); }
        if r == 4 { assert(follows_automaton(t[4], d, set![1, 8])); }
        if r == 5 { assert(follows_automaton(t[5], d, set![1, 8])); }
        if r == 6 { assert(follows_automaton(t[6], d, set![1, 8])); }
        if r == 7 { assert(follows_automaton(t[7], d, set![1, 8])); }
    }
}

proof fn lemma_lr0_follows_8_16()
    ensures
        forall|r: int| 8 <= r < 16 ==> follows_automaton(#[trigger] lr0_rule_table()[r], |p: int, c: char| lr0_transitions(p, c), set![1, 8]),
{
    lemma_lr0_name_states();
    reveal_strlit("a");
    reveal_strlit("b");
    reveal_strlit("S'");
    reveal_with_fuel(run_from, 5);
    assert("b"@ != "a"@) by {
        assert("b"@[0] != "a"@[0]);
    }
    let d = |p: int, c: char| lr0_transitions(p, c);
    let t = lr0_rule_table();
    assert(t[8] == ("⟨1,T,7⟩"@, seq!["b"@, "a"@, "b"@]));
    assert(follows_automaton(t[8], d, set![1, 8])) by {
        assert(d(1, 'b') == 4);
        assert(d(4, 'a') == 0);
        assert(d(0, 'b') == 7);
        assert(run_from(d, 7, seq!["b"@, "a"@, "b"@], 3) == 7);
        assert(run_from(d, 0, seq!["b"@, "a"@, "b"@], 2) == 7);
        assert(run_from(d, 4, seq!["b"@, "a"@, "b"@], 1) == 7);
        assert(run_from(d, 1, seq!["b"@, "a"@, "b"@], 0) == 7);
    }
    assert(t[9] == ("⟨7,T,7⟩"@, seq!["b"@, "a"@, "b"@]));
    assert(follows_automaton(t[9], d, set![1, 8])) by {
        assert(d(7, 'b') == 2);
        assert(d(2, 'a') == 0);
        assert(d(0, 'b') == 7);
        assert(run_from(d, 7, seq!["b"@, "a"@, "b"@], 3) == 7);
        assert(run_from(d, 0, seq!["b"@, "a"@, "b"@], 2) == 7);
        assert(run_from(d, 2, seq!["b"@, "a"@, "b"@], 1) == 7);
        assert(run_from(d, 7, seq!["b"@, "a"@, "b"@], 0) == 7);
    }
    assert(t[10] == ("⟨8,T,7⟩"@, seq!["b"@, "a"@, "b"@]));
    assert(follows_automaton(t[10], d, set![1, 8])) by {
        assert(d(8, 'b') == 5);
        assert(d(5, 'a') == 0);
        assert(d(0, 'b') == 7);
        assert(run_from(d, 7, seq!["b"@, "a"@, "b"@], 3) == 7);
        assert(run_from(d, 0, seq!["b"@, "a"@, "b"@], 2) == 7);
        assert(run_from(d, 5, seq!["b"@, "a"@, "b"@], 1) == 7);
        assert(run_from(d, 8, seq!["b"@, "a"@, "b"@], 0) == 7);
    }
    assert(t[11] == ("⟨10,T,7⟩"@, seq!["b"@, "a"@, "b"@]));
    assert(follows_automaton(t[11], d, set![1, 8])) by {
        assert(d(10, 'b') == 2);
        assert(d(2, 'a') == 0);
        assert(d(0, 'b') == 7);
        assert(run_from(d, 7, seq!["b"@, "a"@, "b"@], 3) == 7);
        assert(run_from(d, 0, seq!["b"@, "a"@, "b"@], 2) == 7);
        assert(run_from(d, 2, seq!["b"@, "a"@, "b"@], 1) == 7);
        assert(run_from(d, 10, seq!["b"@, "a"@, "b"@], 0) == 7);
    }
    assert(t[12] == ("⟨1,T,1⟩"@, seq!["a"@, "⟨1,T,1⟩"@, "a"@]));
    assert(follows_automaton(t[12], d, set![1, 8])) by {
        assert(d(1, 'a') == 1);
        assert(d(1, 'a') == 1);
        assert(run_from(d, 1, seq!["a"@, "⟨1,T,1⟩"@, "a"@], 3) == 1);
        assert(run_from(d, 1, seq!["a"@, "⟨1,T,1⟩"@, "a"@], 2) == 1);
        assert(run_from(d, 1, seq!["a"@, "⟨1,T,1⟩"@, "a"@], 1) == 1);
        assert(run_from(d, 1, seq!["a"@, "⟨1,T,1⟩"@, "a"@], 0) == 1);
    }
    assert(t[13] == ("⟨1,T,1⟩"@, seq!["a"@, "⟨1,T,7⟩"@, "a"@]));
    assert(follows_automaton(t[13], d, set![1, 8])) by {
        assert(d(1, 'a') == 1);
        assert(d(7, 'a') == 1);
        assert(run_from(d, 1, seq!["a"@, "⟨1,T,7⟩"@, "a"@], 3) == 1);
        assert(run_from(d, 7, seq!["a"@, "⟨1,T,7⟩"@, "a"@], 2) == 1);
        assert(run_from(d, 1, seq!["a"@, "⟨1,T,7⟩"@, "a"@], 1) == 1);
        assert(run_from(d, 1, seq!["a"@, "⟨1,T,7⟩"@, "a"@], 0) == 1);
    }
    assert(t[14] == ("⟨7,T,1⟩"@, seq!["a"@, "⟨1,T,1⟩"@, "a"@]));
    assert(follows_automaton(t[14], d, set![1, 8])) by {
        assert(d(7, 'a') == 1);
        assert(d(1, 'a') == 1);
        assert(run_from(d, 1, seq!["a"@, "⟨1,T,1⟩"@, "a"@], 3) == 1);
        assert(run_from(d, 1, seq!["a"@, "⟨1,T,1⟩"@, "a"@], 2) == 1);
        assert(run_from(d, 1, seq!["a"@, "⟨1,T,1⟩"@, "a"@], 1) == 1);
        assert(run_from(d, 7, seq!["a"@, "⟨1,T,1⟩"@, "a"@], 0) == 1);
    }
    assert(t[15] == ("⟨7,T,1⟩"@, seq!["a"@, "⟨1,T,7⟩"@, "a"@]));
    assert(follows_automaton(t[15], d, set![1, 8])) by {
        assert(d(7, 'a') == 1);
        assert(d(7, 'a') == 1);
        assert(run_from(d, 1, seq!["a"@, "⟨1,T,7⟩"@, "a"@], 3) == 1);
        assert(run_from(d, 7, seq!["a"@, "⟨1,T,7⟩"@, "a"@], 2) == 1);
        assert(run_from(d, 1, seq!["a"@, "⟨1,T,7⟩"@, "a"@], 1) == 1);
        assert(run_from(d, 7, seq!["a"@, "⟨1,T,7⟩"@, "a"@], 0) == 1);
    }
    assert forall|r: int| 8 <= r < 16 implies follows_automaton(#[trigger] t[r], d, set![1, 8]) by {
        if r == 8 { assert(follows_automaton(t[8], d, set![1, 8])); }
        if r == 9 { assert(follows_automaton(t[9], d, set![1, 8])); }
        if r == 10 { assert(follows_automaton(t[10], d, set![1, 8])); }
        if r == 11 { assert(follows_automaton(t[11], d, set![1, 8])); }
        if r == 12 { assert(follows_automaton(t[12], d, set![1, 8])); }
        if r == 13 { assert(follows_automaton(t[13], d, set![1, 8])); }
        if r == 14 { assert(follows_automaton(t[14], d, set![1, 8])); }
        if r == 15 { assert(follows_automaton(t[15], d, set![1, 8])); }
    }
}

proof fn lemma_lr0_follows_16_24()
    ensures
        forall|r: int| 16 <= r < 24 ==> follows_automaton(#[trigger] lr0_rule_table()[r], |p: int, c: char| lr0_transitions(p, c), set![1, 8]),
{
    lemma_lr0_name_states();
    reveal_strlit("a");
    reveal_strlit("b");
    reveal_strlit("S'");
    reveal_with_fuel(run_from, 5);
    assert("b"@ != "a"@) by {
        assert("b"@[0] != "a"@[0]);
    }
    let d = |p: int, c: char| lr0_transitions(p, c);
    let t = lr0_rule_table();
    assert(t[16] == ("⟨8,T,1⟩"@, seq!["a"@, "⟨1,T,1⟩"@, "a"@]));
    assert(follows_automaton(t[16], d, set![1, 8])) by {
        assert(d(8, 'a') == 1);
        assert(d(1, 'a') == 1);
        assert(run_from(d, 1, seq!["a"@, "⟨1,T,1⟩"@, "a"@], 3) == 1);
        assert(run_from(d, 1, seq!["a"@, "⟨1,T,1⟩"@, "a"@], 2) == 1);
        assert(run_from(d, 1, seq!["a"@, "⟨1,T,1⟩"@, "a"@], 1) == 1);
        assert(run_from(d, 8, seq!["a"@, "⟨1,T,1⟩"@, "a"@], 0) == 1);
    }
    assert(t[17] == ("⟨8,T,1⟩"@, seq!["a"@, "⟨1,T,7⟩"@, "a"@]));
    assert(follows_automaton(t[17], d, set![1, 8])) by {
        assert(d(8, 'a') == 1);
        assert(d(7, 'a') == 1);
        assert(run_from(d, 1, seq!["a"@, "⟨1,T,7⟩"@, "a"@], 3) == 1);
        assert(run_from(d, 7, seq!["a"@, "⟨1,T,7⟩"@, "a"@], 2) == 1);
        assert(run_from(d, 1, seq!["a"@, "⟨1,T,7⟩"@, "a"@], 1) == 1);
        assert(run_from(d, 8, seq!["a"@, "⟨1,T,7⟩"@, "a"@], 0) == 1);
    }
    assert(t[18] == ("⟨10,T,1⟩"@, seq!["a"@, "⟨10,T,1⟩"@, "a"@]));
    assert(follows_automaton(t[18], d, set![1, 8])) by {
        assert(d(10, 'a') == 10);
        assert(d(1, 'a') == 1);
        assert(run_from(d, 1, seq!["a"@, "⟨10,T,1⟩"@, "a"@], 3) == 1);
        assert(run_from(d, 1, seq!["a"@, "⟨10,T,1⟩"@, "a"@], 2) == 1);
        assert(run_from(d, 10, seq!["a"@, "⟨10,T,1⟩"@, "a"@], 1) == 1);
        assert(run_from(d, 10, seq!["a"@, "⟨10,T,1⟩"@, "a"@], 0) == 1);
    }
    assert(t[19] == ("⟨10,T,1⟩"@, seq!["a"@, "⟨10,T,7⟩"@, "a"@]));
    assert(follows_automaton(t[19], d, set![1, 8])) by {
        assert(d(10, 'a') == 10);
        assert(d(7, 'a') == 1);
        assert(run_from(d, 1, seq!["a"@, "⟨10,T,7⟩"@, "a"@], 3) == 1);
        assert(run_from(d, 7, seq!["a"@, "⟨10,T,7⟩"@, "a"@], 2) == 1);
        assert(run_from(d, 10, seq!["a"@, "⟨10,T,7⟩"@, "a"@], 1) == 1);
        assert(run_from(d, 10, seq!["a"@, "⟨10,T,7⟩"@, "a"@], 0) == 1);
    }
    assert(t[20] == ("⟨10,T,1⟩"@, seq!["a"@, "⟨10,T,8⟩"@, "a"@]));
    assert(follows_automaton(t[20], d, set![1, 8])) by {
        assert(d(10, 'a') == 10);
        assert(d(8, 'a') == 1);
        assert(run_from(d, 1, seq!["a"@, "⟨10,T,8⟩"@, "a"@], 3) == 1);
        assert(run_from(d, 8, seq!["a"@, "⟨10,T,8⟩"@, "a"@], 2) == 1);
        assert(run_from(d, 10, seq!["a"@, "⟨10,T,8⟩"@, "a"@], 1) == 1);
        assert(run_from(d, 10, seq!["a"@, "⟨10,T,8⟩"@, "a"@], 0) == 1);
    }
    assert(t[21] == ("⟨1,T,1⟩"@, seq!["⟨1,S,1⟩"@, "b"@, "b"@, "⟨6,S,1⟩"@]));
    assert(follows_automaton(t[21], d, set![1, 8])) by {
        assert(d(1, 'b') == 4);
        assert(d(4, 'b') == 6);
        assert(run_from(d, 1, seq!["⟨1,S,1⟩"@, "b"@, "b"@, "⟨6,S,1⟩"@], 4) == 1);
        assert(run_from(d, 6, seq!["⟨1,S,1⟩"@, "b"@, "b"@, "⟨6,S,1⟩"@], 3) == 1);
        assert(run_from(d, 4, seq!["⟨1,S,1⟩"@, "b"@, "b"@, "⟨6,S,1⟩"@], 2) == 1);
        assert(run_from(d, 1, seq!["⟨1,S,1⟩"@, "b"@, "b"@, "⟨6,S,1⟩"@], 1) == 1);
        assert(run_from(d, 1, seq!["⟨1,S,1⟩"@, "b"@, "b"@, "⟨6,S,1⟩"@], 0) == 1);
    }
    assert(t[22] == ("⟨7,T,1⟩"@, seq!["⟨7,S,1⟩"@, "b"@, "b"@, "⟨6,S,1⟩"@]));
    assert(follows_automaton(t[22], d, set![1, 8])) by {
        assert(d(1, 'b') == 4);
        assert(d(4, 'b') == 6);
        assert(run_from(d, 1, seq!["⟨7,S,1⟩"@, "b"@, "b"@, "⟨6,S,1⟩"@], 4) == 1);
        assert(run_from(d, 6, seq!["⟨7,S,1⟩"@, "b"@, "b"@, "⟨6,S,1⟩"@], 3) == 1);
        assert(run_from(d, 4, seq!["⟨7,S,1⟩"@, "b"@, "b"@, "⟨6,S,1⟩"@], 2) == 1);
        assert(run_from(d, 1, seq!["⟨7,S,1⟩"@, "b"@, "b"@, "⟨6,S,1⟩"@], 1) == 1);
        assert(run_from(d, 7, seq!["⟨7,S,1⟩"@, "b"@, "b"@, "⟨6,S,1⟩"@], 0) == 1);
    }
    assert(t[23] == ("⟨8,T,1⟩"@, seq!["⟨8,S,1⟩"@, "b"@, "b"@, "⟨6,S,1⟩"@]));
    assert(follows_automaton(t[23], d, set![1, 8])) by {
        assert(d(1, 'b') == 4);
        assert(d(4, 'b') == 6);
        assert(run_from(d, 1, seq!["⟨8,S,1⟩"@, "b"@, "b"@, "⟨6,S,1⟩"@], 4) == 1);
        assert(run_from(d, 6, seq!["⟨8,S,1⟩"@, "b"@, "b"@, "⟨6,S,1⟩"@], 3) == 1);
        assert(run_from(d, 4, seq!["⟨8,S,1⟩"@, "b"@, "b"@, "⟨6,S,1⟩"@], 2) == 1);
        assert(run_from(d, 1, seq!["⟨8,S,1⟩"@, "b"@, "b"@, "⟨6,S,1⟩"@], 1) == 1);
        assert(run_from(d, 8, seq!["⟨8,S,1⟩"@, "b"@, "b"@, "⟨6,S,1⟩"@], 0) == 1);
    }
    assert forall|r: int| 16 <= r < 24 implies follows_automaton(#[trigger] t[r], d, set![1, 8]) by {
        if r == 16 { assert(follows_automaton(t[16], d, set![1, 8])); }
        if r == 17 { assert(follows_automaton(t[17], d, set![1, 8])); }
        if r == 18 { assert(follows_automaton(t[18], d, set![1, 8])); }
        if r == 19 { assert(follows_automaton(t[19], d, set![1, 8])); }
        if r == 20 { assert(follows_automaton(t[20], d, set![1, 8])); }
        if r == 21 { assert(follows_automaton(t[21], d, set![1, 8])); }
        if r == 22 { assert(follows_automaton(t[22], d, set![1, 8])); }
        if r == 23 { assert(follows_automaton(t[23], d, set![1, 8])); }
    }
}

proof fn lemma_lr0_follows_24_32()
    ensures
        forall|r: int| 24 <= r < 32 ==> follows_automaton(#[trigger] lr0_rule_table()[r], |p: int, c: char| lr0_transitions(p, c), set![1, 8]),
{
    lemma_lr0_name_states();
    reveal_strlit("a");
    reveal_strlit("b");
    reveal_strlit("S'");
    reveal_with_fuel(run_from, 5);
    assert("b"@ != "a"@) by {
        assert("b"@[0] != "a"@[0]);
    }
    let d = |p: int, c: char| lr0_transitions(p, c);
    let t = lr0_rule_table();
    assert(t[24] == ("⟨10,T,1⟩"@, seq!["⟨10,S,1⟩"@, "b"@, "b"@, "⟨6,S,1⟩"@]));
    assert(follows_automaton(t[24], d, set![1, 8])) by {
        assert(d(1, 'b') == 4);
        assert(d(4, 'b') == 6);
        assert(run_from(d, 1, seq!["⟨10,S,1⟩"@, "b"@, "b"@, "⟨6,S,1⟩"@], 4) == 1);
        assert(run_from(d, 6, seq!["⟨10,S,1⟩"@, "b"@, "b"@, "⟨6,S,1⟩"@], 3) == 1);
        assert(run_from(d, 4, seq!["⟨10,S,1⟩"@, "b"@, "b"@, "⟨6,S,1⟩"@], 2) == 1);
        assert(run_from(d, 1, seq!["⟨10,S,1⟩"@, "b"@, "b"@, "⟨6,S,1⟩"@], 1) == 1);
        assert(run_from(d, 10, seq!["⟨10,S,1⟩"@, "b"@, "b"@, "⟨6,S,1⟩"@], 0) == 1);
    }
    assert(t[25] == ("⟨10,T,1⟩"@, seq!["⟨10,S,8⟩"@, "b"@, "b"@, "⟨0,S,1⟩"@]));
    assert(follows_automaton(t[25], d, set![1, 8])) by {
        assert(d(8, 'b') == 5);
        assert(d(5, 'b') == 0);
        assert(run_from(d, 1, seq!["⟨10,S,8⟩"@, "b"@, "b"@, "⟨0,S,1⟩"@], 4) == 1);
        assert(run_from(d, 0, seq!["⟨10,S,8⟩"@, "b"@, "b"@, "⟨0,S,1⟩"@], 3) == 1);
        assert(run_from(d, 5, seq!["⟨10,S,8⟩"@, "b"@, "b"@, "⟨0,S,1⟩"@], 2) == 1);
        assert(run_from(d, 8, seq!["⟨10,S,8⟩"@, "b"@, "b"@, "⟨0,S,1⟩"@], 1) == 1);
        assert(run_from(d, 10, seq!["⟨10,S,8⟩"@, "b"@, "b"@, "⟨0,S,1⟩"@], 0) == 1);
    }
    assert(t[26] == ("⟨10,T,8⟩"@, seq!["⟨10,S,8⟩"@, "b"@, "b"@, "⟨0,S,8⟩"@]));
    assert(follows_automaton(t[26], d, set![1, 8])) by {
        assert(d(8, 'b') == 5);
        assert(d(5, 'b') == 0);
        assert(run_from(d, 8, seq!["⟨10,S,8⟩"@, "b"@, "b"@, "⟨0,S,8⟩"@], 4) == 8);
        assert(run_from(d, 0, seq!["⟨10,S,8⟩"@, "b"@, "b"@, "⟨0,S,8⟩"@], 3) == 8);
        assert(run_from(d, 5, seq!["⟨10,S,8⟩"@, "b"@, "b"@, "⟨0,S,8⟩"@], 2) == 8);
        assert(run_from(d, 8, seq!["⟨10,S,8⟩"@, "b"@, "b"@, "⟨0,S,8⟩"@], 1) == 8);
        assert(run_from(d, 10, seq!["⟨10,S,8⟩"@, "b"@, "b"@, "⟨0,S,8⟩"@], 0) == 8);
    }
    assert(t[27] == ("⟨0,S,1⟩"@, seq!["a"@, "⟨10,T,1⟩"@, "⟨1,T,1⟩"@, "a"@]));
    assert(follows_automaton(t[27], d, set![1, 8])) by {
        assert(d(0, 'a') == 10);
        assert(d(1, 'a') == 1);
        assert(run_from(d, 1, seq!["a"@, "⟨10,T,1⟩"@, "⟨1,T,1⟩"@, "a"@], 4) == 1);
        assert(run_from(d, 1, seq!["a"@, "⟨10,T,1⟩"@, "⟨1,T,1⟩"@, "a"@], 3) == 1);
        assert(run_from(d, 1, seq!["a"@, "⟨10,T,1⟩"@, "⟨1,T,1⟩"@, "a"@], 2) == 1);
        assert(run_from(d, 10, seq!["a"@, "⟨10,T,1⟩"@, "⟨1,T,1⟩"@, "a"@], 1) == 1);
        assert(run_from(d, 0, seq!["a"@, "⟨10,T,1⟩"@, "⟨1,T,1⟩"@, "a"@], 0) == 1);
    }
    assert(t[28] == ("⟨0,S,1⟩"@, seq!["a"@, "⟨10,T,1⟩"@, "⟨1,T,7⟩"@, "a"@]));
    assert(follows_automaton(t[28], d, set![1, 8])) by {
        assert(d(0, 'a') == 10);
        assert(d(7, 'a') == 1);
        assert(run_from(d, 1, seq!["a"@, "⟨10,T,1⟩"@, "⟨1,T,7⟩"@, "a"@], 4) == 1);
        assert(run_from(d, 7, seq!["a"@, "⟨10,T,1⟩"@, "⟨1,T,7⟩"@, "a"@], 3) == 1);
        assert(run_from(d, 1, seq!["a"@, "⟨10,T,1⟩"@, "⟨1,T,7⟩"@, "a"@], 2) == 1);
        assert(run_from(d, 10, seq!["a"@, "⟨10,T,1⟩"@, "⟨1,T,7⟩"@, "a"@], 1) == 1);
        assert(run_from(d, 0, seq!["a"@, "⟨10,T,1⟩"@, "⟨1,T,7⟩"@, "a"@], 0) == 1);
    }
    assert(t[29] == ("⟨0,S,1⟩"@, seq!["a"@, "⟨10,T,7⟩"@, "⟨7,T,1⟩"@, "a"@]));
    assert(follows_automaton(t[29], d, set![1, 8])) by {
        assert(d(0, 'a') == 10);
        assert(d(1, 'a') == 1);
        assert(run_from(d, 1, seq!["a"@, "⟨10,T,7⟩"@, "⟨7,T,1⟩"@, "a"@], 4) == 1);
        assert(run_from(d, 1, seq!["a"@, "⟨10,T,7⟩"@, "⟨7,T,1⟩"@, "a"@], 3) == 1);
        assert(run_from(d, 7, seq!["a"@, "⟨10,T,7⟩"@, "⟨7,T,1⟩"@, "a"@], 2) == 1);
        assert(run_from(d, 10, seq!["a"@, "⟨10,T,7⟩"@, "⟨7,T,1⟩"@, "a"@], 1) == 1);
        assert(run_from(d, 0, seq!["a"@, "⟨10,T,7⟩"@, "⟨7,T,1⟩"@, "a"@], 0) == 1);
    }
    assert(t[30] == ("⟨0,S,1⟩"@, seq!["a"@, "⟨10,T,7⟩"@, "⟨7,T,7⟩"@, "a"@]));
    assert(follows_automaton(t[30], d, set![1, 8])) by {
        assert(d(0, 'a') == 10);
        assert(d(7, 'a') == 1);
        assert(run_from(d, 1, seq!["a"@, "⟨10,T,7⟩"@, "⟨7,T,7⟩"@, "a"@], 4) == 1);
        assert(run_from(d, 7, seq!["a"@, "⟨10,T,7⟩"@, "⟨7,T,7⟩"@, "a"@], 3) == 1);
        assert(run_from(d, 7, seq!["a"@, "⟨10,T,7⟩"@, "⟨7,T,7⟩"@, "a"@], 2) == 1);
        assert(run_from(d, 10, seq!["a"@, "⟨10,T,7⟩"@, "⟨7,T,7⟩"@, "a"@], 1) == 1);
        assert(run_from(d, 0, seq!["a"@, "⟨10,T,7⟩"@, "⟨7,T,7⟩"@, "a"@], 0) == 1);
    }
    assert(t[31] == ("⟨0,S,1⟩"@, seq!["a"@, "⟨10,T,8⟩"@, "⟨8,T,1⟩"@, "a"@]));
    assert(follows_automaton(t[31], d, set![1, 8])) by {
        assert(d(0, 'a') == 10);
        assert(d(1, 'a') == 1);
        assert(run_from(d, 1, seq!["a"@, "⟨10,T,8⟩"@, "⟨8,T,1⟩"@, "a"@], 4) == 1);
        assert(run_from(d, 1, seq!["a"@, "⟨10,T,8⟩"@, "⟨8,T,1⟩"@, "a"@], 3) == 1);
        assert(run_from(d, 8, seq!["a"@, "⟨10,T,8⟩"@, "⟨8,T,1⟩"@, "a"@], 2) == 1);
        assert(run_from(d, 10, seq!["a"@, "⟨10,T,8⟩"@, "⟨8,T,1⟩"@, "a"@], 1) == 1);
        assert(run_from(d, 0, seq!["a"@, "⟨10,T,8⟩"@, "⟨8,T,1⟩"@, "a"@], 0) == 1);
    }
    assert forall|r: int| 24 <= r < 32 implies follows_automaton(#[trigger] t[r], d, set![1, 8]) by {
        if r == 24 { assert(follows_automaton(t[24], d, set![1, 8])); }
        if r == 25 { assert(follows_automaton(t[25], d, set![1, 8])); }
        if r == 26 { assert(follows_automaton(t[26], d, set![1, 8])); }
        if r == 27 { assert(follows_automaton(t[27], d, set![1, 8])); }
        if r == 28 { assert(follows_automaton(t[28], d, set![1, 8])); }
        if r == 29 { assert(follows_automaton(t[29], d, set![1, 8])); }
        if r == 30 { assert(follows_automaton(t[30], d, set![1, 8])); }
        if r == 31 { assert(follows_automaton(t[31], d, set![1, 8])); }
    }
}

proof fn lemma_lr0_follows_32_40()
    ensures
        forall|r: int| 32 <= r < 40 ==> follows_automaton(#[trigger] lr0_rule_table()[r], |p: int, c: char| lr0_transitions(p, c), set![1, 8]),
{
    lemma_lr0_name_states();
    reveal_strlit("a");
    reveal_strlit("b");
    reveal_strlit("S'");
    reveal_with_fuel(run_from, 5);
    assert("b"@ != "a"@) by {
        assert("b"@[0] != "a"@[0]);
    }
    let d = |p: int, c: char| lr0_transitions(p, c);
    let t = lr0_rule_table();
    assert(t[32] == ("⟨0,S,1⟩"@, seq!["a"@, "⟨10,T,8⟩"@, "⟨8,T,7⟩"@, "a"@]));
    assert(follows_automaton(t[32], d, set![1, 8])) by {
        assert(d(0, 'a') == 10);
        assert(d(7, 'a') == 1);
        assert(run_from(d, 1, seq!["a"@, "⟨10,T,8⟩"@, "⟨8,T,7⟩"@, "a"@], 4) == 1);
        assert(run_from(d, 7, seq!["a"@, "⟨10,T,8⟩"@, "⟨8,T,7⟩"@, "a"@], 3) == 1);
        assert(run_from(d, 8, seq!["a"@, "⟨10,T,8⟩"@, "⟨8,T,7⟩"@, "a"@], 2) == 1);
        assert(run_from(d, 10, seq!["a"@, "⟨10,T,8⟩"@, "⟨8,T,7⟩"@, "a"@], 1) == 1);
        assert(run_from(d, 0, seq!["a"@, "⟨10,T,8⟩"@, "⟨8,T,7⟩"@, "a"@], 0) == 1);
    }
    assert(t[33] == ("⟨1,S,1⟩"@, seq!["a"@, "⟨1,T,1⟩"@, "⟨1,T,1⟩"@, "a"@]));
    assert(follows_automaton(t[33], d, set![1, 8])) by {
        assert(d(1, 'a') == 1);
        assert(d(1, 'a') == 1);
        assert(run_from(d, 1, seq!["a"@, "⟨1,T,1⟩"@, "⟨1,T,1⟩"@, "a"@], 4) == 1);
        assert(run_from(d, 1, seq!["a"@, "⟨1,T,1⟩"@, "⟨1,T,1⟩"@, "a"@], 3) == 1);
        assert(run_from(d, 1, seq!["a"@, "⟨1,T,1⟩"@, "⟨1,T,1⟩"@, "a"@], 2) == 1);
        assert(run_from(d, 1, seq!["a"@, "⟨1,T,1⟩"@, "⟨1,T,1⟩"@, "a"@], 1) == 1);
        assert(run_from(d, 1, seq!["a"@, "⟨1,T,1⟩"@, "⟨1,T,1⟩"@, "a"@], 0) == 1);
    }
    assert(t[34] == ("⟨1,S,1⟩"@, seq!["a"@, "⟨1,T,1⟩"@, "⟨1,T,7⟩"@, "a"@]));
    assert(follows_automaton(t[34], d, set![1, 8])) by {
        assert(d(1, 'a') == 1);
        assert(d(7, 'a') == 1);
        assert(run_from(d, 1, seq!["a"@, "⟨1,T,1⟩"@, "⟨1,T,7⟩"@, "a"@], 4) == 1);
        assert(run_from(d, 7, seq!["a"@, "⟨1,T,1⟩"@, "⟨1,T,7⟩"@, "a"@], 3) == 1);
        assert(run_from(d, 1, seq!["a"@, "⟨1,T,1⟩"@, "⟨1,T,7⟩"@, "a"@], 2) == 1);
        assert(run_from(d, 1, seq!["a"@, "⟨1,T,1⟩"@, "⟨1,T,7⟩"@, "a"@], 1) == 1);
        assert(run_from(d, 1, seq!["a"@, "⟨1,T,1⟩"@, "⟨1,T,7⟩"@, "a"@], 0) == 1);
    }
    assert(t[35] == ("⟨1,S,1⟩"@, seq!["a"@, "⟨1,T,7⟩"@, "⟨7,T,1⟩"@, "a"@]));
    assert(follows_automaton(t[35], d, set![1, 8])) by {
        assert(d(1, 'a') == 1);
        assert(d(1, 'a') == 1);
        assert(run_from(d, 1, seq!["a"@, "⟨1,T,7⟩"@, "⟨7,T,1⟩"@, "a"@], 4) == 1);
        assert(run_from(d, 1, seq!["a"@, "⟨1,T,7⟩"@, "⟨7,T,1⟩"@, "a"@], 3) == 1);
        assert(run_from(d, 7, seq!["a"@, "⟨1,T,7⟩"@, "⟨7,T,1⟩"@, "a"@], 2) == 1);
        assert(run_from(d, 1, seq!["a"@, "⟨1,T,7⟩"@, "⟨7,T,1⟩"@, "a"@], 1) == 1);
        assert(run_from(d, 1, seq!["a"@, "⟨1,T,7⟩"@, "⟨7,T,1⟩"@, "a"@], 0) == 1);
    }
    assert(t[36] == ("⟨1,S,1⟩"@, seq!["a"@, "⟨1,T,7⟩"@, "⟨7,T,7⟩"@, "a"@]));
    assert(follows_automaton(t[36], d, set![1, 8])) by {
        assert(d(1, 'a') == 1);
        assert(d(7, 'a') == 1);
        assert(run_from(d, 1, seq!["a"@, "⟨1,T,7⟩"@, "⟨7,T,7⟩"@, "a"@], 4) == 1);
        assert(run_from(d, 7, seq!["a"@, "⟨1,T,7⟩"@, "⟨7,T,7⟩"@, "a"@], 3) == 1);
        assert(run_from(d, 7, seq!["a"@, "⟨1,T,7⟩"@, "⟨7,T,7⟩"@, "a"@], 2) == 1);
        assert(run_from(d, 1, seq!["a"@, "⟨1,T,7⟩"@, "⟨7,T,7⟩"@, "a"@], 1) == 1);
        assert(run_from(d, 1, seq!["a"@, "⟨1,T,7⟩"@, "⟨7,T,7⟩"@, "a"@], 0) == 1);
    }
    assert(t[37] == ("⟨6,S,1⟩"@, seq!["a"@, "⟨1,T,1⟩"@, "⟨1,T,1⟩"@, "a"@]));
    assert(follows_automaton(t[37], d, set![1, 8])) by {
        assert(d(6, 'a') == 1);
        assert(d(1, 'a') == 1);
        assert(run_from(d, 1, seq!["a"@, "⟨1,T,1⟩"@, "⟨1,T,1⟩"@, "a"@], 4) == 1);
        assert(run_from(d, 1, seq!["a"@, "⟨1,T,1⟩"@, "⟨1,T,1⟩"@, "a"@], 3) == 1);
        assert(run_from(d, 1, seq!["a"@, "⟨1,T,1⟩"@, "⟨1,T,1⟩"@, "a"@], 2) == 1);
        assert(run_from(d, 1, seq!["a"@, "⟨1,T,1⟩"@, "⟨1,T,1⟩"@, "a"@], 1) == 1);
        assert(run_from(d, 6, seq!["a"@, "⟨1,T,1⟩"@, "⟨1,T,1⟩"@, "a"@], 0) == 1);
    }
    assert(t[38] == ("⟨6,S,1⟩"@, seq!["a"@, "⟨1,T,1⟩"@, "⟨1,T,7⟩"@, "a"@]));
    assert(follows_automaton(t[38], d, set![1, 8])) by {
        assert(d(6, 'a') == 1);
        assert(d(7, 'a') == 1);
        assert(run_from(d, 1, seq!["a"@, "⟨1,T,1⟩"@, "⟨1,T,7⟩"@, "a"@], 4) == 1);
        assert(run_from(d, 7, seq!["a"@, "⟨1,T,1⟩"@, "⟨1,T,7⟩"@, "a"@], 3) == 1);
        assert(run_from(d, 1, seq!["a"@, "⟨1,T,1⟩"@, "⟨1,T,7⟩"@, "a"@], 2) == 1);
        assert(run_from(d, 1, seq!["a"@, "⟨1,T,1⟩"@, "⟨1,T,7⟩"@, "a"@], 1) == 1);
        assert(run_from(d, 6, seq!["a"@, "⟨1,T,1⟩"@, "⟨1,T,7⟩"@, "a"@], 0) == 1);
    }
    assert(t[39] == ("⟨6,S,1⟩"@, seq!["a"@, "⟨1,T,7⟩"@, "⟨7,T,1⟩"@, "a"@]));
    assert(follows_automaton(t[39], d, set![1, 8])) by {
        assert(d(6, 'a') == 1);
        assert(d(1, 'a') == 1);
        assert(run_from(d, 1, seq!["a"@, "⟨1,T,7⟩"@, "⟨7,T,1⟩"@, "a"@], 4) == 1);
        assert(run_from(d, 1, seq!["a"@, "⟨1,T,7⟩"@, "⟨7,T,1⟩"@, "a"@], 3) == 1);
        assert(run_from(d, 7, seq!["a"@, "⟨1,T,7⟩"@, "⟨7,T,1⟩"@, "a"@], 2) == 1);
        assert(run_from(d, 1, seq!["a"@, "⟨1,T,7⟩"@, "⟨7,T,1⟩"@, "a"@], 1) == 1);
        assert(run_from(d, 6, seq!["a"@, "⟨1,T,7⟩"@, "⟨7,T,1⟩"@, "a"@], 0) == 1);
    }
    assert forall|r: int| 32 <= r < 40 implies follows_automaton(#[trigger] t[r], d, set![1, 8]) by {
        if r == 32 { assert(follows_automaton(t[32], d, set![1, 8])); }
        if r == 33 { assert(follows_automaton(t[33], d, set![1, 8])); }
        if r == 34 { assert(follows_automaton(t[34], d, set![1, 8])); }
        if r == 35 { assert(follows_automaton(t[35], d, set![1, 8])); }
        if r == 36 { assert(follows_automaton(t[36], d, set![1, 8])); }
        if r == 37 { assert(follows_automaton(t[37], d, set![1, 8])); }
        if r == 38 { assert(follows_automaton(t[38], d, set![1, 8])); }
        if r == 39 { assert(follows_automaton(t[39], d, set![1, 8])); }
    }
}

proof fn lemma_lr0_follows_40_48()
    ensures
        forall|r: int| 40 <= r < 48 ==> follows_automaton(#[trigger] lr0_rule_table()[r], |p: int, c: char| lr0_transitions(p, c), set![1, 8]),
{
    lemma_lr0_name_states();
    reveal_strlit("a");
    reveal_strlit("b");
    reveal_strlit("S'");
    reveal_with_fuel(run_from, 5);
    assert("b"@ != "a"@) by {
        assert("b"@[0] != "a"@[0]);
    }
    let d = |p: int, c: char| lr0_transitions(p, c);
    let t = lr0_rule_table();
    assert(t[40] == ("⟨6,S,1⟩"@, seq!["a"@, "⟨1,T,7⟩"@, "⟨7,T,7⟩"@, "a"@]));
    assert(follows_automaton(t[40], d, set![1, 8])) by {
        assert(d(6, 'a') == 1);
        assert(d(7, 'a') == 1);
        assert(run_from(d, 1, seq!["a"@, "⟨1,T,7⟩"@, "⟨7,T,7⟩"@, "a"@], 4) == 1);
        assert(run_from(d, 7, seq!["a"@, "⟨1,T,7⟩"@, "⟨7,T,7⟩"@, "a"@], 3) == 1);
        assert(run_from(d, 7, seq!["a"@, "⟨1,T,7⟩"@, "⟨7,T,7⟩"@, "a"@], 2) == 1);
        assert(run_from(d, 1, seq!["a"@, "⟨1,T,7⟩"@, "⟨7,T,7⟩"@, "a"@], 1) == 1);
        assert(run_from(d, 6, seq!["a"@, "⟨1,T,7⟩"@, "⟨7,T,7⟩"@, "a"@], 0) == 1);
    }
    assert(t[41] == ("⟨7,S,1⟩"@, seq!["a"@, "⟨1,T,1⟩"@, "⟨1,T,1⟩"@, "a"@]));
    assert(follows_automaton(t[41], d, set![1, 8])) by {
        assert(d(7, 'a') == 1);
        assert(d(1, 'a') == 1);
        assert(run_from(d, 1, seq!["a"@, "⟨1,T,1⟩"@, "⟨1,T,1⟩"@, "a"@], 4) == 1);
        assert(run_from(d, 1, seq!["a"@, "⟨1,T,1⟩"@, "⟨1,T,1⟩"@, "a"@], 3) == 1);
        assert(run_from(d, 1, seq!["a"@, "⟨1,T,1⟩"@, "⟨1,T,1⟩"@, "a"@], 2) == 1);
        assert(run_from(d, 1, seq!["a"@, "⟨1,T,1⟩"@, "⟨1,T,1⟩"@, "a"@], 1) == 1);
        assert(run_from(d, 7, seq!["a"@, "⟨1,T,1⟩"@, "⟨1,T,1⟩"@, "a"@], 0) == 1);
    }
    assert(t[42] == ("⟨7,S,1⟩"@, seq!["a"@, "⟨1,T,1⟩"@, "⟨1,T,7⟩"@, "a"@]));
    assert(follows_automaton(t[42], d, set![1, 8])) by {
        assert(d(7, 'a') == 1);
        assert(d(7, 'a') == 1);
        assert(run_from(d, 1, seq!["a"@, "⟨1,T,1⟩"@, "⟨1,T,7⟩"@, "a"@], 4) == 1);
        assert(run_from(d, 7, seq!["a"@, "⟨1,T,1⟩"@, "⟨1,T,7⟩"@, "a"@], 3) == 1);
        assert(run_from(d, 1, seq!["a"@, "⟨1,T,1⟩"@, "⟨1,T,7⟩"@, "a"@], 2) == 1);
        assert(run_from(d, 1, seq!["a"@, "⟨1,T,1⟩"@, "⟨1,T,7⟩"@, "a"@], 1) == 1);
        assert(run_from(d, 7, seq!["a"@, "⟨1,T,1⟩"@, "⟨1,T,7⟩"@, "a"@], 0) == 1);
    }
    assert(t[43] == ("⟨7,S,1⟩"@, seq!["a"@, "⟨1,T,7⟩"@, "⟨7,T,1⟩"@, "a"@]));
    assert(follows_automaton(t[43], d, set![1, 8])) by {
        assert(d(7, 'a') == 1);
        assert(d(1, 'a') == 1);
        assert(run_from(d, 1, seq!["a"@, "⟨1,T,7⟩"@, "⟨7,T,1⟩"@, "a"@], 4) == 1);
        assert(run_from(d, 1, seq!["a"@, "⟨1,T,7⟩"@, "⟨7,T,1⟩"@, "a"@], 3) == 1);
        assert(run_from(d, 7, seq!["a"@, "⟨1,T,7⟩"@, "⟨7,T,1⟩"@, "a"@], 2) == 1);
        assert(run_from(d, 1, seq!["a"@, "⟨1,T,7⟩"@, "⟨7,T,1⟩"@, "a"@], 1) == 1);
        assert(run_from(d, 7, seq!["a"@, "⟨1,T,7⟩"@, "⟨7,T,1⟩"@, "a"@], 0) == 1);
    }
    assert(t[44] == ("⟨7,S,1⟩"@, seq!["a"@, "⟨1,T,7⟩"@, "⟨7,T,7⟩"@, "a"@]));
    assert(follows_automaton(t[44], d, set![1, 8])) by {
        assert(d(7, 'a') == 1);
        assert(d(7, 'a') == 1);
        assert(run_from(d, 1, seq!["a"@, "⟨1,T,7⟩"@, "⟨7,T,7⟩"@, "a"@], 4) == 1);
        assert(run_from(d, 7, seq!["a"@, "⟨1,T,7⟩"@, "⟨7,T,7⟩"@, "a"@], 3) == 1);
        assert(run_from(d, 7, seq!["a"@, "⟨1,T,7⟩"@, "⟨7,T,7⟩"@, "a"@], 2) == 1);
        assert(run_from(d, 1, seq!["a"@, "⟨1,T,7⟩"@, "⟨7,T,7⟩"@, "a"@], 1) == 1);
        assert(run_from(d, 7, seq!["a"@, "⟨1,T,7⟩"@, "⟨7,T,7⟩"@, "a"@], 0) == 1);
    }
    assert(t[45] == ("⟨8,S,1⟩"@, seq!["a"@, "⟨1,T,1⟩"@, "⟨1,T,1⟩"@, "a"@]));
    assert(follows_automaton(t[45], d, set![1, 8])) by {
        assert(d(8, 'a') == 1);
        assert(d(1, 'a') == 1);
        assert(run_from(d, 1, seq!["a"@, "⟨1,T,1⟩"@, "⟨1,T,1⟩"@, "a"@], 4) == 1);
        assert(run_from(d, 1, seq!["a"@, "⟨1,T,1⟩"@, "⟨1,T,1⟩"@, "a"@], 3) == 1);
        assert(run_from(d, 1, seq!["a"@, "⟨1,T,1⟩"@, "⟨1,T,1⟩"@, "a"@], 2) == 1);
        assert(run_from(d, 1, seq!["a"@, "⟨1,T,1⟩"@, "⟨1,T,1⟩"@, "a"@], 1) == 1);
        assert(run_from(d, 8, seq!["a"@, "⟨1,T,1⟩"@, "⟨1,T,1⟩"@, "a"@], 0) == 1);
    }
    assert(t[46] == ("⟨8,S,1⟩"@, seq!["a"@, "⟨1,T,1⟩"@, "⟨1,T,7⟩"@, "a"@]));
    assert(follows_automaton(t[46], d, set![1, 8])) by {
        assert(d(8, 'a') == 1);
        assert(d(7, 'a') == 1);
        assert(run_from(d, 1, seq!["a"@, "⟨1,T,1⟩"@, "⟨1,T,7⟩"@, "a"@], 4) == 1);
        assert(run_from(d, 7, seq!["a"@, "⟨1,T,1⟩"@, "⟨1,T,7⟩"@, "a"@], 3) == 1);
        assert(run_from(d, 1, seq!["a"@, "⟨1,T,1⟩"@, "⟨1,T,7⟩"@, "a"@], 2) == 1);
        assert(run_from(d, 1, seq!["a"@, "⟨1,T,1⟩"@, "⟨1,T,7⟩"@, "a"@], 1) == 1);
        assert(run_from(d, 8, seq!["a"@, "⟨1,T,1⟩"@, "⟨1,T,7⟩"@, "a"@], 0) == 1);
    }
    assert(t[47] == ("⟨8,S,1⟩"@, seq!["a"@, "⟨1,T,7⟩"@, "⟨7,T,1⟩"@, "a"@]));
    assert(follows_automaton(t[47], d, set![1, 8])) by {
        assert(d(8, 'a') == 1);
        assert(d(1, 'a') == 1);
        assert(run_from(d, 1, seq!["a"@, "⟨1,T,7⟩"@, "⟨7,T,1⟩"@, "a"@], 4) == 1);
        assert(run_from(d, 1, seq!["a"@, "⟨1,T,7⟩"@, "⟨7,T,1⟩"@, "a"@], 3) == 1);
        assert(run_from(d, 7, seq!["a"@, "⟨1,T,7⟩"@, "⟨7,T,1⟩"@, "a"@], 2) == 1);
        assert(run_from(d, 1, seq!["a"@, "⟨1,T,7⟩"@, "⟨7,T,1⟩"@, "a"@], 1) == 1);
        assert(run_from(d, 8, seq!["a"@, "⟨1,T,7⟩"@, "⟨7,T,1⟩"@, "a"@], 0) == 1);
    }
    assert forall|r: int| 40 <= r < 48 implies follows_automaton(#[trigger] t[r], d, set![1, 8]) by {
        if r == 40 { assert(follows_automaton(t[40], d, set![1, 8])); }
        if r == 41 { assert(follows_automaton(t[41], d, set![1, 8])); }
        if r == 42 { assert(follows_automaton(t[42], d, set![1, 8])); }
        if r == 43 { assert(follows_automaton(t[43], d, set![1, 8])); }
        if r == 44 { assert(follows_automaton(t[44], d, set![1, 8])); }
        if r == 45 { assert(follows_automaton(t[45], d, set![1, 8])); }
        if r == 46 { assert(follows_automaton(t[46], d, set![1, 8])); }
        if r == 47 { assert(follows_automaton(t[47], d, set![1, 8])); }
    }
}

proof fn lemma_lr0_follows_48_55()
    ensures
        forall|r: int| 48 <= r < 55 ==> follows_automaton(#[trigger] lr0_rule_table()[r], |p: int, c: char| lr0_transitions(p, c), set![1, 8]),
{
    lemma_lr0_name_states();
    reveal_strlit("a");
    reveal_strlit("b");
    reveal_strlit("S'");
    reveal_with_fuel(run_from, 5);
    assert("b"@ != "a"@) by {
        assert("b"@[0] != "a"@[0]);
    }
    let d = |p: int, c: char| lr0_transitions(p, c);
    let t = lr0_rule_table();
    assert(t[48] == ("⟨8,S,1⟩"@, seq!["a"@, "⟨1,T,7⟩"@, "⟨7,T,7⟩"@, "a"@]));
    assert(follows_automaton(t[48], d, set![1, 8])) by {
        assert(d(8, 'a') == 1);
        assert(d(7, 'a') == 1);
        assert(run_from(d, 1, seq!["a"@, "⟨1,T,7⟩"@, "⟨7,T,7⟩"@, "a"@], 4) == 1);
        assert(run_from(d, 7, seq!["a"@, "⟨1,T,7⟩"@, "⟨7,T,7⟩"@, "a"@], 3) == 1);
        assert(run_from(d, 7, seq!["a"@, "⟨1,T,7⟩"@, "⟨7,T,7⟩"@, "a"@], 2) == 1);
        assert(run_from(d, 1, seq!["a"@, "⟨1,T,7⟩"@, "⟨7,T,7⟩"@, "a"@], 1) == 1);
        assert(run_from(d, 8, seq!["a"@, "⟨1,T,7⟩"@, "⟨7,T,7⟩"@, "a"@], 0) == 1);
    }
    assert(t[49] == ("⟨10,S,1⟩"@, seq!["a"@, "⟨10,T,1⟩"@, "⟨1,T,1⟩"@, "a"@]));
    assert(follows_automaton(t[49], d, set![1, 8])) by {
        assert(d(10, 'a') == 10);
        assert(d(1, 'a') == 1);
        assert(run_from(d, 1, seq!["a"@, "⟨10,T,1⟩"@, "⟨1,T,1⟩"@, "a"@], 4) == 1);
        assert(run_from(d, 1, seq!["a"@, "⟨10,T,1⟩"@, "⟨1,T,1⟩"@, "a"@], 3) == 1);
        assert(run_from(d, 1, seq!["a"@, "⟨10,T,1⟩"@, "⟨1,T,1⟩"@, "a"@], 2) == 1);
        assert(run_from(d, 10, seq!["a"@, "⟨10,T,1⟩"@, "⟨1,T,1⟩"@, "a"@], 1) == 1);
        assert(run_from(d, 10, seq!["a"@, "⟨10,T,1⟩"@, "⟨1,T,1⟩"@, "a"@], 0) == 1);
    }
    assert(t[50] == ("⟨10,S,1⟩"@, seq!["a"@, "⟨10,T,1⟩"@, "⟨1,T,7⟩"@, "a"@]));
    assert(follows_automaton(t[50], d, set![1, 8])) by {
        assert(d(10, 'a') == 10);
        assert(d(7, 'a') == 1);
        assert(run_from(d, 1, seq!["a"@, "⟨10,T,1⟩"@, "⟨1,T,7⟩"@, "a"@], 4) == 1);
        assert(run_from(d, 7, seq!["a"@, "⟨10,T,1⟩"@, "⟨1,T,7⟩"@, "a"@], 3) == 1);
        assert(run_from(d, 1, seq!["a"@, "⟨10,T,1⟩"@, "⟨1,T,7⟩"@, "a"@], 2) == 1);
        assert(run_from(d, 10, seq!["a"@, "⟨10,T,1⟩"@, "⟨1,T,7⟩"@, "a"@], 1) == 1);
        assert(run_from(d, 10, seq!["a"@, "⟨10,T,1⟩"@, "⟨1,T,7⟩"@, "a"@], 0) == 1);
    }
    assert(t[51] == ("⟨10,S,1⟩"@, seq!["a"@, "⟨10,T,7⟩"@, "⟨7,T,1⟩"@, "a"@]));
    assert(follows_automaton(t[51], d, set![1, 8])) by {
        assert(d(10, 'a') == 10);
        assert(d(1, 'a') == 1);
        assert(run_from(d, 1, seq!["a"@, "⟨10,T,7⟩"@, "⟨7,T,1⟩"@, "a"@], 4) == 1);
        assert(run_from(d, 1, seq!["a"@, "⟨10,T,7⟩"@, "⟨7,T,1⟩"@, "a"@], 3) == 1);
        assert(run_from(d, 7, seq!["a"@, "⟨10,T,7⟩"@, "⟨7,T,1⟩"@, "a"@], 2) == 1);
        assert(run_from(d, 10, seq!["a"@, "⟨10,T,7⟩"@, "⟨7,T,1⟩"@, "a"@], 1) == 1);
        assert(run_from(d, 10, seq!["a"@, "⟨10,T,7⟩"@, "⟨7,T,1⟩"@, "a"@], 0) == 1);
    }
    assert(t[52] == ("⟨10,S,1⟩"@, seq!["a"@, "⟨10,T,7⟩"@, "⟨7,T,7⟩"@, "a"@]));
    assert(follows_automaton(t[52], d, set![1, 8])) by {
        assert(d(10, 'a') == 10);
        assert(d(7, 'a') == 1);
        assert(run_from(d, 1, seq!["a"@, "⟨10,T,7⟩"@, "⟨7,T,7⟩"@, "a"@], 4) == 1);
        assert(run_from(d, 7, seq!["a"@, "⟨10,T,7⟩"@, "⟨7,T,7⟩"@, "a"@], 3) == 1);
        assert(run_from(d, 7, seq!["a"@, "⟨10,T,7⟩"@, "⟨7,T,7⟩"@, "a"@], 2) == 1);
        assert(run_from(d, 10, seq!["a"@, "⟨10,T,7⟩"@, "⟨7,T,7⟩"@, "a"@], 1) == 1);
        assert(run_from(d, 10, seq!["a"@, "⟨10,T,7⟩"@, "⟨7,T,7⟩"@, "a"@], 0) == 1);
    }
    assert(t[53] == ("⟨10,S,1⟩"@, seq!["a"@, "⟨10,T,8⟩"@, "⟨8,T,1⟩"@, "a"@]));
    assert(follows_automaton(t[53], d, set![1, 8])) by {
        assert(d(10, 'a') == 10);
        assert(d(1, 'a') == 1);
        assert(run_from(d, 1, seq!["a"@, "⟨10,T,8⟩"@, "⟨8,T,1⟩"@, "a"@], 4) == 1);
        assert(run_from(d, 1, seq!["a"@, "⟨10,T,8⟩"@, "⟨8,T,1⟩"@, "a"@], 3) == 1);
        assert(run_from(d, 8, seq!["a"@, "⟨10,T,8⟩"@, "⟨8,T,1⟩"@, "a"@], 2) == 1);
        assert(run_from(d, 10, seq!["a"@, "⟨10,T,8⟩"@, "⟨8,T,1⟩"@, "a"@], 1) == 1);
        assert(run_from(d, 10, seq!["a"@, "⟨10,T,8⟩"@, "⟨8,T,1⟩"@, "a"@], 0) == 1);
    }
    assert(t[54] == ("⟨10,S,1⟩"@, seq!["a"@, "⟨10,T,8⟩"@, "⟨8,T,7⟩"@, "a"@]));
    assert(follows_automaton(t[54], d, set![1, 8])) by {
        assert(d(10, 'a') == 10);
        assert(d(7, 'a') == 1);
        assert(run_from(d, 1, seq!["a"@, "⟨10,T,8⟩"@, "⟨8,T,7⟩"@, "a"@], 4) == 1);
        assert(run_from(d, 7, seq!["a"@, "⟨10,T,8⟩"@, "⟨8,T,7⟩"@, "a"@], 3) == 1);
        assert(run_from(d, 8, seq!["a"@, "⟨10,T,8⟩"@, "⟨8,T,7⟩"@, "a"@], 2) == 1);
        assert(run_from(d, 10, seq!["a"@, "⟨10,T,8⟩"@, "⟨8,T,7⟩"@, "a"@], 1) == 1);
        assert(run_from(d, 10, seq!["a"@, "⟨10,T,8⟩"@, "⟨8,T,7⟩"@, "a"@], 0) == 1);
    }
    assert forall|r: int| 48 <= r < 55 implies follows_automaton(#[trigger] t[r], d, set![1, 8]) by {
        if r == 48 { assert(follows_automaton(t[48], d, set![1, 8])); }
        if r == 49 { assert(follows_automaton(t[49], d, set![1, 8])); }
        if r == 50 { assert(follows_automaton(t[50], d, set![1, 8])); }
        if r == 51 { assert(follows_automaton(t[51], d, set![1, 8])); }
        if r == 52 { assert(follows_automaton(t[52], d, set![1, 8])); }
        if r == 53 { assert(follows_automaton(t[53], d, set![1, 8])); }
        if r == 54 { assert(follows_automaton(t[54], d, set![1, 8])); }
    }
}

/// The rules of the LR(0) intersection grammar follow the runs of one
/// automaton with start state `0` and final states `1` and `8`: in each rule
/// `⟨p,X,q⟩ -> Y1 ... Yk` the automaton goes from `p` through the symbols to
/// `q`, each name `⟨u,Y,v⟩` starting where the run stands, and the new start
/// `S'` leads to names `⟨0,S,q⟩` with `q` final.
pub proof fn lemma_lr0_rules_follow_automaton()
    ensures
        rules_follow_one_automaton(lr0_rule_table(), set![1, 8]),
{
    lemma_lr0_follows_0_8();
    lemma_lr0_follows_8_16();
    lemma_lr0_follows_16_24();
    lemma_lr0_follows_24_32();
    lemma_lr0_follows_32_40();
    lemma_lr0_follows_40_48();
    lemma_lr0_follows_48_55();
    let d = |p: int, c: char| lr0_transitions(p, c);
    assert(lr0_rule_table().len() == 55);
    assert forall|r: int| 0 <= r < lr0_rule_table().len() implies #[trigger] follows_automaton(lr0_rule_table()[r], d, set![1, 8]) by {
        if 0 <= r < 8 { assert(follows_automaton(lr0_rule_table()[r], d, set![1, 8])); }
        if 8 <= r < 16 { assert(follows_automaton(lr0_rule_table()[r], d, set![1, 8])); }
        if 16 <= r < 24 { assert(follows_automaton(lr0_rule_table()[r], d, set![1, 8])); }
        if 24 <= r < 32 { assert(follows_automaton(lr0_rule_table()[r], d, set![1, 8])); }
        if 32 <= r < 40 { assert(follows_automaton(lr0_rule_table()[r], d, set![1, 8])); }
        if 40 <= r < 48 { assert(follows_automaton(lr0_rule_table()[r], d, set![1, 8])); }
        if 48 <= r < 55 { assert(follows_automaton(lr0_rule_table()[r], d, set![1, 8])); }
    }
    assert(all_follow(lr0_rule_table(), d, set![1, 8]));
}

} // verus!
