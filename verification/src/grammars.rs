//! The three grammars that the recognizer compares: the original grammar and
//! its intersections with an LL(1) and an LR(0) automaton.
use vstd::prelude::*;
use crate::grammar::{self as gr, Grammar, Symbol};

verus! {

/// The rules of the original grammar.
pub open spec fn original_rule_table() -> Seq<(Seq<char>, Seq<Seq<char>>)> {
    seq![
        ("S"@, seq!["a"@, "T"@, "T"@, "a"@]),
        ("S"@, seq!["a"@, "b"@, "b"@, "a"@]),
        ("T"@, seq!["a"@, "T"@, "a"@]),
        ("T"@, seq!["S"@, "b"@, "b"@, "S"@]),
        ("T"@, seq!["b"@, "a"@, "b"@]),
    ]
}

/// The grammar `S -> a T T a | a b b a`, `T -> a T a | S b b S | b a b`.
pub fn build_original_grammar() -> (g: Grammar)
    ensures
        gr::built_from(g, original_rule_table(), "S"@),
{
    let mut map: gr::NameMap = vstd::hash_map::StringHashMap::new();
    let mut names: Vec<String> = Vec::new();
    let mut rules_lhs: Vec<usize> = Vec::new();
    let mut rules_rhs: Vec<Vec<Symbol>> = Vec::new();
    proof {
        assert(gr::texts(names@) =~= Seq::<Seq<char>>::empty());
        assert(gr::indexes(map@, gr::texts(names@)));
        assert(gr::rule_texts(gr::texts(names@), rules_lhs@, rules_rhs@) =~= Seq::empty());
        assert(gr::names_in_rule_order(names@, rules_lhs@, rules_rhs@));
        gr::lemma_refs_empty(names@.len() as int, rules_lhs@, rules_rhs@);
    }
    proof {
        assert(gr::term_of("S"@) is None) by {
            reveal_strlit("a");
            reveal_strlit("b");
            reveal_strlit("S");
            assert("S"@[0] != "a"@[0] && "S"@[0] != "b"@[0]);
        }
        assert(gr::term_of("T"@) is None) by {
            reveal_strlit("a");
            reveal_strlit("b");
            reveal_strlit("T");
            assert("T"@[0] != "a"@[0] && "T"@[0] != "b"@[0]);
        }
    }
    gr::add_rule_tokens(&mut map, &mut names, &mut rules_lhs, &mut rules_rhs, "S", &["a", "T", "T", "a"]);
    gr::add_rule_tokens(&mut map, &mut names, &mut rules_lhs, &mut rules_rhs, "S", &["a", "b", "b", "a"]);
    gr::add_rule_tokens(&mut map, &mut names, &mut rules_lhs, &mut rules_rhs, "T", &["a", "T", "a"]);
    gr::add_rule_tokens(&mut map, &mut names, &mut rules_lhs, &mut rules_rhs, "T", &["S", "b", "b", "S"]);
    gr::add_rule_tokens(&mut map, &mut names, &mut rules_lhs, &mut rules_rhs, "T", &["b", "a", "b"]);
    proof {
        assert(gr::rule_texts(gr::texts(names@), rules_lhs@, rules_rhs@) =~~= original_rule_table());
    }
    proof {
        gr::lemma_refs_lhs(names@.len() as int, rules_lhs@, rules_rhs@);
    }
    let g = gr::finalize_grammar("S", map, names, rules_lhs, rules_rhs);
    proof {
        gr::lemma_table_grammar(&g, original_rule_table(), "S"@);
    }
    g
}

} // verus!

verus! {

/// The rules of the intersection of the original grammar with the LL(1) automaton (start `0`, finals `1` and `10`).
pub open spec fn ll1_rule_table() -> Seq<(Seq<char>, Seq<Seq<char>>)> {
    seq![
        ("S'"@, seq!["⟨0,S,1⟩"@]),
        ("S'"@, seq!["⟨0,S,10⟩"@]),
        ("⟨1,T,8⟩"@, seq!["b"@, "a"@, "b"@]),
        ("⟨3,T,8⟩"@, seq!["b"@, "a"@, "b"@]),
        ("⟨8,T,8⟩"@, seq!["b"@, "a"@, "b"@]),
        ("⟨10,T,8⟩"@, seq!["b"@, "a"@, "b"@]),
        ("⟨0,S,10⟩"@, seq!["a"@, "b"@, "b"@, "a"@]),
        ("⟨1,S,1⟩"@, seq!["a"@, "b"@, "b"@, "a"@]),
        ("⟨3,S,10⟩"@, seq!["a"@, "b"@, "b"@, "a"@]),
        ("⟨7,S,1⟩"@, seq!["a"@, "b"@, "b"@, "a"@]),
        ("⟨8,S,1⟩"@, seq!["a"@, "b"@, "b"@, "a"@]),
        ("⟨10,S,1⟩"@, seq!["a"@, "b"@, "b"@, "a"@]),
        ("⟨1,T,1⟩"@, seq!["a"@, "⟨1,T,1⟩"@, "a"@]),
        ("⟨1,T,1⟩"@, seq!["a"@, "⟨1,T,8⟩"@, "a"@]),
        ("⟨3,T,1⟩"@, seq!["a"@, "⟨3,T,1⟩"@, "a"@]),
        ("⟨3,T,1⟩"@, seq!["a"@, "⟨3,T,8⟩"@, "a"@]),
        ("⟨3,T,1⟩"@, seq!["a"@, "⟨3,T,10⟩"@, "a"@]),
        ("⟨8,T,1⟩"@, seq!["a"@, "⟨1,T,1⟩"@, "a"@]),
        ("⟨8,T,1⟩"@, seq!["a"@, "⟨1,T,8⟩"@, "a"@]),
        ("⟨10,T,1⟩"@, seq!["a"@, "⟨1,T,1⟩"@, "a"@]),
        ("⟨10,T,1⟩"@, seq!["a"@, "⟨1,T,8⟩"@, "a"@]),
        ("⟨1,T,1⟩"@, seq!["⟨1,S,1⟩"@, "b"@, "b"@, "⟨7,S,1⟩"@]),
        ("⟨3,T,1⟩"@, seq!["⟨3,S,1⟩"@, "b"@, "b"@, "⟨7,S,1⟩"@]),
        ("⟨3,T,1⟩"@, seq!["⟨3,S,10⟩"@, "b"@, "b"@, "⟨0,S,1⟩"@]),
        ("⟨3,T,10⟩"@, seq!["⟨3,S,10⟩"@, "b"@, "b"@, "⟨0,S,10⟩"@]),
        ("⟨8,T,1⟩"@, seq!["⟨8,S,1⟩"@, "b"@, "b"@, "⟨7,S,1⟩"@]),
        ("⟨10,T,1⟩"@, seq!["⟨10,S,1⟩"@, "b"@, "b"@, "⟨7,S,1⟩"@]),
        ("⟨0,S,1⟩"@, seq!["a"@, "⟨3,T,1⟩"@, "⟨1,T,1⟩"@, "a"@]),
        ("⟨0,S,1⟩"@, seq!["a"@, "⟨3,T,1⟩"@, "⟨1,T,8⟩"@, "a"@]),
        ("⟨0,S,1⟩"@, seq!["a"@, "⟨3,T,8⟩"@, "⟨8,T,1⟩"@, "a"@]),
        ("⟨0,S,1⟩"@, seq!["a"@, "⟨3,T,8⟩"@, "⟨8,T,8⟩"@, "a"@]),
        ("⟨0,S,1⟩"@, seq!["a"@, "⟨3,T,10⟩"@, "⟨10,T,1⟩"@, "a"@]),
        ("⟨0,S,1⟩"@, seq!["a"@, "⟨3,T,10⟩"@, "⟨10,T,8⟩"@, "a"@]),
        ("⟨1,S,1⟩"@, seq!["a"@, "⟨1,T,1⟩"@, "⟨1,T,1⟩"@, "a"@]),
        ("⟨1,S,1⟩"@, seq!["a"@, "⟨1,T,1⟩"@, "⟨1,T,8⟩"@, "a"@]),
        ("⟨1,S,1⟩"@, seq!["a"@, "⟨1,T,8⟩"@, "⟨8,T,1⟩"@, "a"@]),
        ("⟨1,S,1⟩"@, seq!["a"@, "⟨1,T,8⟩"@, "⟨8,T,8⟩"@, "a"@]),
        ("⟨3,S,1⟩"@, seq!["a"@, "⟨3,T,1⟩"@, "⟨1,T,1⟩"@, "a"@]),
        ("⟨3,S,1⟩"@, seq!["a"@, "⟨3,T,1⟩"@, "⟨1,T,8⟩"@, "a"@]),
        ("⟨3,S,1⟩"@, seq!["a"@, "⟨3,T,8⟩"@, "⟨8,T,1⟩"@, "a"@]),
        ("⟨3,S,1⟩"@, seq!["a"@, "⟨3,T,8⟩"@, "⟨8,T,8⟩"@, "a"@]),
        ("⟨3,S,1⟩"@, seq!["a"@, "⟨3,T,10⟩"@, "⟨10,T,1⟩"@, "a"@]),
        ("⟨3,S,1⟩"@, seq!["a"@, "⟨3,T,10⟩"@, "⟨10,T,8⟩"@, "a"@]),
        ("⟨7,S,1⟩"@, seq!["a"@, "⟨1,T,1⟩"@, "⟨1,T,1⟩"@, "a"@]),
        ("⟨7,S,1⟩"@, seq!["a"@, "⟨1,T,1⟩"@, "⟨1,T,8⟩"@, "a"@]),
        ("⟨7,S,1⟩"@, seq!["a"@, "⟨1,T,8⟩"@, "⟨8,T,1⟩"@, "a"@]),
        ("⟨7,S,1⟩"@, seq!["a"@, "⟨1,T,8⟩"@, "⟨8,T,8⟩"@, "a"@]),
        ("⟨8,S,1⟩"@, seq!["a"@, "⟨1,T,1⟩"@, "⟨1,T,1⟩"@, "a"@]),
        ("⟨8,S,1⟩"@, seq!["a"@, "⟨1,T,1⟩"@, "⟨1,T,8⟩"@, "a"@]),
        ("⟨8,S,1⟩"@, seq!["a"@, "⟨1,T,8⟩"@, "⟨8,T,1⟩"@, "a"@]),
        ("⟨8,S,1⟩"@, seq!["a"@, "⟨1,T,8⟩"@, "⟨8,T,8⟩"@, "a"@]),
        ("⟨10,S,1⟩"@, seq!["a"@, "⟨1,T,1⟩"@, "⟨1,T,1⟩"@, "a"@]),
        ("⟨10,S,1⟩"@, seq!["a"@, "⟨1,T,1⟩"@, "⟨1,T,8⟩"@, "a"@]),
        ("⟨10,S,1⟩"@, seq!["a"@, "⟨1,T,8⟩"@, "⟨8,T,1⟩"@, "a"@]),
        ("⟨10,S,1⟩"@, seq!["a"@, "⟨1,T,8⟩"@, "⟨8,T,8⟩"@, "a"@]),
    ]
}

/// Appends the rules `0..8` of `ll1_rule_table`.
fn add_ll1_rules_0_8(map: &mut gr::NameMap, names: &mut Vec<String>, rules_lhs: &mut Vec<usize>, rules_rhs: &mut Vec<Vec<Symbol>>)
    requires
        gr::texts(old(names)@).no_duplicates(),
        gr::names_in_rule_order(old(names)@, old(rules_lhs)@, old(rules_rhs)@),
        gr::indexes(old(map)@, gr::texts(old(names)@)),
        gr::nonterminal_names(gr::texts(old(names)@)),
        gr::refs_in_range(old(names)@.len() as int, old(rules_lhs)@, old(rules_rhs)@),
    ensures
        gr::texts(final(names)@).no_duplicates(),
        gr::names_in_rule_order(final(names)@, final(rules_lhs)@, final(rules_rhs)@),
        gr::indexes(final(map)@, gr::texts(final(names)@)),
        gr::nonterminal_names(gr::texts(final(names)@)),
        gr::refs_in_range(final(names)@.len() as int, final(rules_lhs)@, final(rules_rhs)@),
        gr::rule_texts(gr::texts(final(names)@), final(rules_lhs)@, final(rules_rhs)@) == gr::rule_texts(
            gr::texts(old(names)@),
            old(rules_lhs)@,
            old(rules_rhs)@,
        ) + ll1_rule_table().subrange(0, 8),
{
    let ghost t0 = gr::rule_texts(gr::texts(names@), rules_lhs@, rules_rhs@);
    proof {
        assert(gr::term_of("S'"@) is None) by {
            reveal_strlit("a");
            reveal_strlit("b");
            reveal_strlit("S'");
            assert("S'"@.len() != 1);
        }
        assert(gr::term_of("⟨0,S,10⟩"@) is None) by {
            reveal_strlit("a");
            reveal_strlit("b");
            reveal_strlit("⟨0,S,10⟩");
            assert("⟨0,S,10⟩"@.len() != 1);
        }
        assert(gr::term_of("⟨1,S,1⟩"@) is None) by {
            reveal_strlit("a");
            reveal_strlit("b");
            reveal_strlit("⟨1,S,1⟩");
            assert("⟨1,S,1⟩"@.len() != 1);
        }
        assert(gr::term_of("⟨1,T,8⟩"@) is None) by {
            reveal_strlit("a");
            reveal_strlit("b");
            reveal_strlit("⟨1,T,8⟩");
            assert("⟨1,T,8⟩"@.len() != 1);
        }
        assert(gr::term_of("⟨10,T,8⟩"@) is None) by {
            reveal_strlit("a");
            reveal_strlit("b");
            reveal_strlit("⟨10,T,8⟩");
            assert("⟨10,T,8⟩"@.len() != 1);
        }
        assert(gr::term_of("⟨3,T,8⟩"@) is None) by {
            reveal_strlit("a");
            reveal_strlit("b");
            reveal_strlit("⟨3,T,8⟩");
            assert("⟨3,T,8⟩"@.len() != 1);
        }
        assert(gr::term_of("⟨8,T,8⟩"@) is None) by {
            reveal_strlit("a");
            reveal_strlit("b");
            reveal_strlit("⟨8,T,8⟩");
            assert("⟨8,T,8⟩"@.len() != 1);
        }
    }
    gr::add_rule_tokens(map, names, rules_lhs, rules_rhs, "S'", &["⟨0,S,1⟩"]);
    gr::add_rule_tokens(map, names, rules_lhs, rules_rhs, "S'", &["⟨0,S,10⟩"]);
    gr::add_rule_tokens(map, names, rules_lhs, rules_rhs, "⟨1,T,8⟩", &["b", "a", "b"]);
    gr::add_rule_tokens(map, names, rules_lhs, rules_rhs, "⟨3,T,8⟩", &["b", "a", "b"]);
    gr::add_rule_tokens(map, names, rules_lhs, rules_rhs, "⟨8,T,8⟩", &["b", "a", "b"]);
    gr::add_rule_tokens(map, names, rules_lhs, rules_rhs, "⟨10,T,8⟩", &["b", "a", "b"]);
    gr::add_rule_tokens(map, names, rules_lhs, rules_rhs, "⟨0,S,10⟩", &["a", "b", "b", "a"]);
    gr::add_rule_tokens(map, names, rules_lhs, rules_rhs, "⟨1,S,1⟩", &["a", "b", "b", "a"]);
    proof {
        assert(gr::rule_texts(gr::texts(names@), rules_lhs@, rules_rhs@) =~~= t0 + ll1_rule_table().subrange(0, 8));
    }
}

/// Appends the rules `8..16` of `ll1_rule_table`.
fn add_ll1_rules_8_16(map: &mut gr::NameMap, names: &mut Vec<String>, rules_lhs: &mut Vec<usize>, rules_rhs: &mut Vec<Vec<Symbol>>)
    requires
        gr::texts(old(names)@).no_duplicates(),
        gr::names_in_rule_order(old(names)@, old(rules_lhs)@, old(rules_rhs)@),
        gr::indexes(old(map)@, gr::texts(old(names)@)),
        gr::nonterminal_names(gr::texts(old(names)@)),
        gr::refs_in_range(old(names)@.len() as int, old(rules_lhs)@, old(rules_rhs)@),
    ensures
        gr::texts(final(names)@).no_duplicates(),
        gr::names_in_rule_order(final(names)@, final(rules_lhs)@, final(rules_rhs)@),
        gr::indexes(final(map)@, gr::texts(final(names)@)),
        gr::nonterminal_names(gr::texts(final(names)@)),
        gr::refs_in_range(final(names)@.len() as int, final(rules_lhs)@, final(rules_rhs)@),
        gr::rule_texts(gr::texts(final(names)@), final(rules_lhs)@, final(rules_rhs)@) == gr::rule_texts(
            gr::texts(old(names)@),
            old(rules_lhs)@,
            old(rules_rhs)@,
        ) + ll1_rule_table().subrange(8, 16),
{
    let ghost t0 = gr::rule_texts(gr::texts(names@), rules_lhs@, rules_rhs@);
    proof {
        assert(gr::term_of("⟨1,T,1⟩"@) is None) by {
            reveal_strlit("a");
            reveal_strlit("b");
            reveal_strlit("⟨1,T,1⟩");
            assert("⟨1,T,1⟩"@.len() != 1);
        }
        assert(gr::term_of("⟨10,S,1⟩"@) is None) by {
            reveal_strlit("a");
            reveal_strlit("b");
            reveal_strlit("⟨10,S,1⟩");
            assert("⟨10,S,1⟩"@.len() != 1);
        }
        assert(gr::term_of("⟨3,S,10⟩"@) is None) by {
            reveal_strlit("a");
            reveal_strlit("b");
            reveal_strlit("⟨3,S,10⟩");
            assert("⟨3,S,10⟩"@.len() != 1);
        }
        assert(gr::term_of("⟨3,T,1⟩"@) is None) by {
            reveal_strlit("a");
            reveal_strlit("b");
            reveal_strlit("⟨3,T,1⟩");
            assert("⟨3,T,1⟩"@.len() != 1);
        }
        assert(gr::term_of("⟨7,S,1⟩"@) is None) by {
            reveal_strlit("a");
            reveal_strlit("b");
            reveal_strlit("⟨7,S,1⟩");
            assert("⟨7,S,1⟩"@.len() != 1);
        }
        assert(gr::term_of("⟨8,S,1⟩"@) is None) by {
            reveal_strlit("a");
            reveal_strlit("b");
            reveal_strlit("⟨8,S,1⟩");
            assert("⟨8,S,1⟩"@.len() != 1);
        }
    }
    gr::add_rule_tokens(map, names, rules_lhs, rules_rhs, "⟨3,S,10⟩", &["a", "b", "b", "a"]);
    gr::add_rule_tokens(map, names, rules_lhs, rules_rhs, "⟨7,S,1⟩", &["a", "b", "b", "a"]);
    gr::add_rule_tokens(map, names, rules_lhs, rules_rhs, "⟨8,S,1⟩", &["a", "b", "b", "a"]);
    gr::add_rule_tokens(map, names, rules_lhs, rules_rhs, "⟨10,S,1⟩", &["a", "b", "b", "a"]);
    gr::add_rule_tokens(map, names, rules_lhs, rules_rhs, "⟨1,T,1⟩", &["a", "⟨1,T,1⟩", "a"]);
    gr::add_rule_tokens(map, names, rules_lhs, rules_rhs, "⟨1,T,1⟩", &["a", "⟨1,T,8⟩", "a"]);
    gr::add_rule_tokens(map, names, rules_lhs, rules_rhs, "⟨3,T,1⟩", &["a", "⟨3,T,1⟩", "a"]);
    gr::add_rule_tokens(map, names, rules_lhs, rules_rhs, "⟨3,T,1⟩", &["a", "⟨3,T,8⟩", "a"]);
    proof {
        assert(gr::rule_texts(gr::texts(names@), rules_lhs@, rules_rhs@) =~~= t0 + ll1_rule_table().subrange(8, 16));
    }
}

/// Appends the rules `16..24` of `ll1_rule_table`.
fn add_ll1_rules_16_24(map: &mut gr::NameMap, names: &mut Vec<String>, rules_lhs: &mut Vec<usize>, rules_rhs: &mut Vec<Vec<Symbol>>)
    requires
        gr::texts(old(names)@).no_duplicates(),
        gr::names_in_rule_order(old(names)@, old(rules_lhs)@, old(rules_rhs)@),
        gr::indexes(old(map)@, gr::texts(old(names)@)),
        gr::nonterminal_names(gr::texts(old(names)@)),
        gr::refs_in_range(old(names)@.len() as int, old(rules_lhs)@, old(rules_rhs)@),
    ensures
        gr::texts(final(names)@).no_duplicates(),
        gr::names_in_rule_order(final(names)@, final(rules_lhs)@, final(rules_rhs)@),
        gr::indexes(final(map)@, gr::texts(final(names)@)),
        gr::nonterminal_names(gr::texts(final(names)@)),
        gr::refs_in_range(final(names)@.len() as int, final(rules_lhs)@, final(rules_rhs)@),
        gr::rule_texts(gr::texts(final(names)@), final(rules_lhs)@, final(rules_rhs)@) == gr::rule_texts(
            gr::texts(old(names)@),
            old(rules_lhs)@,
            old(rules_rhs)@,
        ) + ll1_rule_table().subrange(16, 24),
{
    let ghost t0 = gr::rule_texts(gr::texts(names@), rules_lhs@, rules_rhs@);
    proof {
        assert(gr::term_of("⟨1,T,1⟩"@) is None) by {
            reveal_strlit("a");
            reveal_strlit("b");
            reveal_strlit("⟨1,T,1⟩");
            assert("⟨1,T,1⟩"@.len() != 1);
        }
        assert(gr::term_of("⟨10,T,1⟩"@) is None) by {
            reveal_strlit("a");
            reveal_strlit("b");
            reveal_strlit("⟨10,T,1⟩");
            assert("⟨10,T,1⟩"@.len() != 1);
        }
        assert(gr::term_of("⟨3,T,1⟩"@) is None) by {
            reveal_strlit("a");
            reveal_strlit("b");
            reveal_strlit("⟨3,T,1⟩");
            assert("⟨3,T,1⟩"@.len() != 1);
        }
        assert(gr::term_of("⟨8,T,1⟩"@) is None) by {
            reveal_strlit("a");
            reveal_strlit("b");
            reveal_strlit("⟨8,T,1⟩");
            assert("⟨8,T,1⟩"@.len() != 1);
        }
    }
    gr::add_rule_tokens(map, names, rules_lhs, rules_rhs, "⟨3,T,1⟩", &["a", "⟨3,T,10⟩", "a"]);
    gr::add_rule_tokens(map, names, rules_lhs, rules_rhs, "⟨8,T,1⟩", &["a", "⟨1,T,1⟩", "a"]);
    gr::add_rule_tokens(map, names, rules_lhs, rules_rhs, "⟨8,T,1⟩", &["a", "⟨1,T,8⟩", "a"]);
    gr::add_rule_tokens(map, names, rules_lhs, rules_rhs, "⟨10,T,1⟩", &["a", "⟨1,T,1⟩", "a"]);
    gr::add_rule_tokens(map, names, rules_lhs, rules_rhs, "⟨10,T,1⟩", &["a", "⟨1,T,8⟩", "a"]);
    gr::add_rule_tokens(map, names, rules_lhs, rules_rhs, "⟨1,T,1⟩", &["⟨1,S,1⟩", "b", "b", "⟨7,S,1⟩"]);
    gr::add_rule_tokens(map, names, rules_lhs, rules_rhs, "⟨3,T,1⟩", &["⟨3,S,1⟩", "b", "b", "⟨7,S,1⟩"]);
    gr::add_rule_tokens(map, names, rules_lhs, rules_rhs, "⟨3,T,1⟩", &["⟨3,S,10⟩", "b", "b", "⟨0,S,1⟩"]);
    proof {
        assert(gr::rule_texts(gr::texts(names@), rules_lhs@, rules_rhs@) =~~= t0 + ll1_rule_table().subrange(16, 24));
    }
}

/// Appends the rules `24..32` of `ll1_rule_table`.
fn add_ll1_rules_24_32(map: &mut gr::NameMap, names: &mut Vec<String>, rules_lhs: &mut Vec<usize>, rules_rhs: &mut Vec<Vec<Symbol>>)
    requires
        gr::texts(old(names)@).no_duplicates(),
        gr::names_in_rule_order(old(names)@, old(rules_lhs)@, old(rules_rhs)@),
        gr::indexes(old(map)@, gr::texts(old(names)@)),
        gr::nonterminal_names(gr::texts(old(names)@)),
        gr::refs_in_range(old(names)@.len() as int, old(rules_lhs)@, old(rules_rhs)@),
    ensures
        gr::texts(final(names)@).no_duplicates(),
        gr::names_in_rule_order(final(names)@, final(rules_lhs)@, final(rules_rhs)@),
        gr::indexes(final(map)@, gr::texts(final(names)@)),
        gr::nonterminal_names(gr::texts(final(names)@)),
        gr::refs_in_range(final(names)@.len() as int, final(rules_lhs)@, final(rules_rhs)@),
        gr::rule_texts(gr::texts(final(names)@), final(rules_lhs)@, final(rules_rhs)@) == gr::rule_texts(
            gr::texts(old(names)@),
            old(rules_lhs)@,
            old(rules_rhs)@,
        ) + ll1_rule_table().subrange(24, 32),
{
    let ghost t0 = gr::rule_texts(gr::texts(names@), rules_lhs@, rules_rhs@);
    proof {
        assert(gr::term_of("⟨0,S,1⟩"@) is None) by {
            reveal_strlit("a");
            reveal_strlit("b");
            reveal_strlit("⟨0,S,1⟩");
            assert("⟨0,S,1⟩"@.len() != 1);
        }
        assert(gr::term_of("⟨10,T,1⟩"@) is None) by {
            reveal_strlit("a");
            reveal_strlit("b");
            reveal_strlit("⟨10,T,1⟩");
            assert("⟨10,T,1⟩"@.len() != 1);
        }
        assert(gr::term_of("⟨3,T,10⟩"@) is None) by {
            reveal_strlit("a");
            reveal_strlit("b");
            reveal_strlit("⟨3,T,10⟩");
            assert("⟨3,T,10⟩"@.len() != 1);
        }
        assert(gr::term_of("⟨8,T,1⟩"@) is None) by {
            reveal_strlit("a");
            reveal_strlit("b");
            reveal_strlit("⟨8,T,1⟩");
            assert("⟨8,T,1⟩"@.len() != 1);
        }
    }
    gr::add_rule_tokens(map, names, rules_lhs, rules_rhs, "⟨3,T,10⟩", &["⟨3,S,10⟩", "b", "b", "⟨0,S,10⟩"]);
    gr::add_rule_tokens(map, names, rules_lhs, rules_rhs, "⟨8,T,1⟩", &["⟨8,S,1⟩", "b", "b", "⟨7,S,1⟩"]);
    gr::add_rule_tokens(map, names, rules_lhs, rules_rhs, "⟨10,T,1⟩", &["⟨10,S,1⟩", "b", "b", "⟨7,S,1⟩"]);
    gr::add_rule_tokens(map, names, rules_lhs, rules_rhs, "⟨0,S,1⟩", &["a", "⟨3,T,1⟩", "⟨1,T,1⟩", "a"]);
    gr::add_rule_tokens(map, names, rules_lhs, rules_rhs, "⟨0,S,1⟩", &["a", "⟨3,T,1⟩", "⟨1,T,8⟩", "a"]);
    gr::add_rule_tokens(map, names, rules_lhs, rules_rhs, "⟨0,S,1⟩", &["a", "⟨3,T,8⟩", "⟨8,T,1⟩", "a"]);
    gr::add_rule_tokens(map, names, rules_lhs, rules_rhs, "⟨0,S,1⟩", &["a", "⟨3,T,8⟩", "⟨8,T,8⟩", "a"]);
    gr::add_rule_tokens(map, names, rules_lhs, rules_rhs, "⟨0,S,1⟩", &["a", "⟨3,T,10⟩", "⟨10,T,1⟩", "a"]);
    proof {
        assert(gr::rule_texts(gr::texts(names@), rules_lhs@, rules_rhs@) =~~= t0 + ll1_rule_table().subrange(24, 32));
    }
}

/// Appends the rules `32..40` of `ll1_rule_table`.
fn add_ll1_rules_32_40(map: &mut gr::NameMap, names: &mut Vec<String>, rules_lhs: &mut Vec<usize>, rules_rhs: &mut Vec<Vec<Symbol>>)
    requires
        gr::texts(old(names)@).no_duplicates(),
        gr::names_in_rule_order(old(names)@, old(rules_lhs)@, old(rules_rhs)@),
        gr::indexes(old(map)@, gr::texts(old(names)@)),
        gr::nonterminal_names(gr::texts(old(names)@)),
        gr::refs_in_range(old(names)@.len() as int, old(rules_lhs)@, old(rules_rhs)@),
    ensures
        gr::texts(final(names)@).no_duplicates(),
        gr::names_in_rule_order(final(names)@, final(rules_lhs)@, final(rules_rhs)@),
        gr::indexes(final(map)@, gr::texts(final(names)@)),
        gr::nonterminal_names(gr::texts(final(names)@)),
        gr::refs_in_range(final(names)@.len() as int, final(rules_lhs)@, final(rules_rhs)@),
        gr::rule_texts(gr::texts(final(names)@), final(rules_lhs)@, final(rules_rhs)@) == gr::rule_texts(
            gr::texts(old(names)@),
            old(rules_lhs)@,
            old(rules_rhs)@,
        ) + ll1_rule_table().subrange(32, 40),
{
    let ghost t0 = gr::rule_texts(gr::texts(names@), rules_lhs@, rules_rhs@);
    proof {
        assert(gr::term_of("⟨0,S,1⟩"@) is None) by {
            reveal_strlit("a");
            reveal_strlit("b");
            reveal_strlit("⟨0,S,1⟩");
            assert("⟨0,S,1⟩"@.len() != 1);
        }
        assert(gr::term_of("⟨1,S,1⟩"@) is None) by {
            reveal_strlit("a");
            reveal_strlit("b");
            reveal_strlit("⟨1,S,1⟩");
            assert("⟨1,S,1⟩"@.len() != 1);
        }
        assert(gr::term_of("⟨3,S,1⟩"@) is None) by {
            reveal_strlit("a");
            reveal_strlit("b");
            reveal_strlit("⟨3,S,1⟩");
            assert("⟨3,S,1⟩"@.len() != 1);
        }
    }
    gr::add_rule_tokens(map, names, rules_lhs, rules_rhs, "⟨0,S,1⟩", &["a", "⟨3,T,10⟩", "⟨10,T,8⟩", "a"]);
    gr::add_rule_tokens(map, names, rules_lhs, rules_rhs, "⟨1,S,1⟩", &["a", "⟨1,T,1⟩", "⟨1,T,1⟩", "a"]);
    gr::add_rule_tokens(map, names, rules_lhs, rules_rhs, "⟨1,S,1⟩", &["a", "⟨1,T,1⟩", "⟨1,T,8⟩", "a"]);
    gr::add_rule_tokens(map, names, rules_lhs, rules_rhs, "⟨1,S,1⟩", &["a", "⟨1,T,8⟩", "⟨8,T,1⟩", "a"]);
    gr::add_rule_tokens(map, names, rules_lhs, rules_rhs, "⟨1,S,1⟩", &["a", "⟨1,T,8⟩", "⟨8,T,8⟩", "a"]);
    gr::add_rule_tokens(map, names, rules_lhs, rules_rhs, "⟨3,S,1⟩", &["a", "⟨3,T,1⟩", "⟨1,T,1⟩", "a"]);
    gr::add_rule_tokens(map, names, rules_lhs, rules_rhs, "⟨3,S,1⟩", &["a", "⟨3,T,1⟩", "⟨1,T,8⟩", "a"]);
    gr::add_rule_tokens(map, names, rules_lhs, rules_rhs, "⟨3,S,1⟩", &["a", "⟨3,T,8⟩", "⟨8,T,1⟩", "a"]);
    proof {
        assert(gr::rule_texts(gr::texts(names@), rules_lhs@, rules_rhs@) =~~= t0 + ll1_rule_table().subrange(32, 40));
    }
}

/// Appends the rules `40..48` of `ll1_rule_table`.
fn add_ll1_rules_40_48(map: &mut gr::NameMap, names: &mut Vec<String>, rules_lhs: &mut Vec<usize>, rules_rhs: &mut Vec<Vec<Symbol>>)
    requires
        gr::texts(old(names)@).no_duplicates(),
        gr::names_in_rule_order(old(names)@, old(rules_lhs)@, old(rules_rhs)@),
        gr::indexes(old(map)@, gr::texts(old(names)@)),
        gr::nonterminal_names(gr::texts(old(names)@)),
        gr::refs_in_range(old(names)@.len() as int, old(rules_lhs)@, old(rules_rhs)@),
    ensures
        gr::texts(final(names)@).no_duplicates(),
        gr::names_in_rule_order(final(names)@, final(rules_lhs)@, final(rules_rhs)@),
        gr::indexes(final(map)@, gr::texts(final(names)@)),
        gr::nonterminal_names(gr::texts(final(names)@)),
        gr::refs_in_range(final(names)@.len() as int, final(rules_lhs)@, final(rules_rhs)@),
        gr::rule_texts(gr::texts(final(names)@), final(rules_lhs)@, final(rules_rhs)@) == gr::rule_texts(
            gr::texts(old(names)@),
            old(rules_lhs)@,
            old(rules_rhs)@,
        ) + ll1_rule_table().subrange(40, 48),
{
    let ghost t0 = gr::rule_texts(gr::texts(names@), rules_lhs@, rules_rhs@);
    proof {
        assert(gr::term_of("⟨3,S,1⟩"@) is None) by {
            reveal_strlit("a");
            reveal_strlit("b");
            reveal_strlit("⟨3,S,1⟩");
            assert("⟨3,S,1⟩"@.len() != 1);
        }
        assert(gr::term_of("⟨7,S,1⟩"@) is None) by {
            reveal_strlit("a");
            reveal_strlit("b");
            reveal_strlit("⟨7,S,1⟩");
            assert("⟨7,S,1⟩"@.len() != 1);
        }
        assert(gr::term_of("⟨8,S,1⟩"@) is None) by {
            reveal_strlit("a");
            reveal_strlit("b");
            reveal_strlit("⟨8,S,1⟩");
            assert("⟨8,S,1⟩"@.len() != 1);
        }
    }
    gr::add_rule_tokens(map, names, rules_lhs, rules_rhs, "⟨3,S,1⟩", &["a", "⟨3,T,8⟩", "⟨8,T,8⟩", "a"]);
    gr::add_rule_tokens(map, names, rules_lhs, rules_rhs, "⟨3,S,1⟩", &["a", "⟨3,T,10⟩", "⟨10,T,1⟩", "a"]);
    gr::add_rule_tokens(map, names, rules_lhs, rules_rhs, "⟨3,S,1⟩", &["a", "⟨3,T,10⟩", "⟨10,T,8⟩", "a"]);
    gr::add_rule_tokens(map, names, rules_lhs, rules_rhs, "⟨7,S,1⟩", &["a", "⟨1,T,1⟩", "⟨1,T,1⟩", "a"]);
    gr::add_rule_tokens(map, names, rules_lhs, rules_rhs, "⟨7,S,1⟩", &["a", "⟨1,T,1⟩", "⟨1,T,8⟩", "a"]);
    gr::add_rule_tokens(map, names, rules_lhs, rules_rhs, "⟨7,S,1⟩", &["a", "⟨1,T,8⟩", "⟨8,T,1⟩", "a"]);
    gr::add_rule_tokens(map, names, rules_lhs, rules_rhs, "⟨7,S,1⟩", &["a", "⟨1,T,8⟩", "⟨8,T,8⟩", "a"]);
    gr::add_rule_tokens(map, names, rules_lhs, rules_rhs, "⟨8,S,1⟩", &["a", "⟨1,T,1⟩", "⟨1,T,1⟩", "a"]);
    proof {
        assert(gr::rule_texts(gr::texts(names@), rules_lhs@, rules_rhs@) =~~= t0 + ll1_rule_table().subrange(40, 48));
    }
}

/// Appends the rules `48..55` of `ll1_rule_table`.
fn add_ll1_rules_48_55(map: &mut gr::NameMap, names: &mut Vec<String>, rules_lhs: &mut Vec<usize>, rules_rhs: &mut Vec<Vec<Symbol>>)
    requires
        gr::texts(old(names)@).no_duplicates(),
        gr::names_in_rule_order(old(names)@, old(rules_lhs)@, old(rules_rhs)@),
        gr::indexes(old(map)@, gr::texts(old(names)@)),
        gr::nonterminal_names(gr::texts(old(names)@)),
        gr::refs_in_range(old(names)@.len() as int, old(rules_lhs)@, old(rules_rhs)@),
    ensures
        gr::texts(final(names)@).no_duplicates(),
        gr::names_in_rule_order(final(names)@, final(rules_lhs)@, final(rules_rhs)@),
        gr::indexes(final(map)@, gr::texts(final(names)@)),
        gr::nonterminal_names(gr::texts(final(names)@)),
        gr::refs_in_range(final(names)@.len() as int, final(rules_lhs)@, final(rules_rhs)@),
        gr::rule_texts(gr::texts(final(names)@), final(rules_lhs)@, final(rules_rhs)@) == gr::rule_texts(
            gr::texts(old(names)@),
            old(rules_lhs)@,
            old(rules_rhs)@,
        ) + ll1_rule_table().subrange(48, 55),
{
    let ghost t0 = gr::rule_texts(gr::texts(names@), rules_lhs@, rules_rhs@);
    proof {
        assert(gr::term_of("⟨10,S,1⟩"@) is None) by {
            reveal_strlit("a");
            reveal_strlit("b");
            reveal_strlit("⟨10,S,1⟩");
            assert("⟨10,S,1⟩"@.len() != 1);
        }
        assert(gr::term_of("⟨8,S,1⟩"@) is None) by {
            reveal_strlit("a");
            reveal_strlit("b");
            reveal_strlit("⟨8,S,1⟩");
            assert("⟨8,S,1⟩"@.len() != 1);
        }
    }
    gr::add_rule_tokens(map, names, rules_lhs, rules_rhs, "⟨8,S,1⟩", &["a", "⟨1,T,1⟩", "⟨1,T,8⟩", "a"]);
    gr::add_rule_tokens(map, names, rules_lhs, rules_rhs, "⟨8,S,1⟩", &["a", "⟨1,T,8⟩", "⟨8,T,1⟩", "a"]);
    gr::add_rule_tokens(map, names, rules_lhs, rules_rhs, "⟨8,S,1⟩", &["a", "⟨1,T,8⟩", "⟨8,T,8⟩", "a"]);
    gr::add_rule_tokens(map, names, rules_lhs, rules_rhs, "⟨10,S,1⟩", &["a", "⟨1,T,1⟩", "⟨1,T,1⟩", "a"]);
    gr::add_rule_tokens(map, names, rules_lhs, rules_rhs, "⟨10,S,1⟩", &["a", "⟨1,T,1⟩", "⟨1,T,8⟩", "a"]);
    gr::add_rule_tokens(map, names, rules_lhs, rules_rhs, "⟨10,S,1⟩", &["a", "⟨1,T,8⟩", "⟨8,T,1⟩", "a"]);
    gr::add_rule_tokens(map, names, rules_lhs, rules_rhs, "⟨10,S,1⟩", &["a", "⟨1,T,8⟩", "⟨8,T,8⟩", "a"]);
    proof {
        assert(gr::rule_texts(gr::texts(names@), rules_lhs@, rules_rhs@) =~~= t0 + ll1_rule_table().subrange(48, 55));
    }
}

/// The grammar of the intersection of the original grammar with the LL(1) automaton (start `0`, finals `1` and `10`).
#[verifier::rlimit(60)]
pub fn build_ll1_intersection_grammar() -> (g: Grammar)
    ensures
        gr::built_from(g, ll1_rule_table(), "S'"@),
{
    let mut map: gr::NameMap = vstd::hash_map::StringHashMap::new();
    let mut names: Vec<String> = Vec::new();
    let mut rules_lhs: Vec<usize> = Vec::new();
    let mut rules_rhs: Vec<Vec<Symbol>> = Vec::new();
    proof {
        assert(gr::texts(names@) =~= Seq::<Seq<char>>::empty());
        assert(gr::indexes(map@, gr::texts(names@)));
        assert(gr::rule_texts(gr::texts(names@), rules_lhs@, rules_rhs@) =~= Seq::empty());
        assert(gr::names_in_rule_order(names@, rules_lhs@, rules_rhs@));
        gr::lemma_refs_empty(names@.len() as int, rules_lhs@, rules_rhs@);
    }
    add_ll1_rules_0_8(&mut map, &mut names, &mut rules_lhs, &mut rules_rhs);
    add_ll1_rules_8_16(&mut map, &mut names, &mut rules_lhs, &mut rules_rhs);
    add_ll1_rules_16_24(&mut map, &mut names, &mut rules_lhs, &mut rules_rhs);
    add_ll1_rules_24_32(&mut map, &mut names, &mut rules_lhs, &mut rules_rhs);
    add_ll1_rules_32_40(&mut map, &mut names, &mut rules_lhs, &mut rules_rhs);
    add_ll1_rules_40_48(&mut map, &mut names, &mut rules_lhs, &mut rules_rhs);
    add_ll1_rules_48_55(&mut map, &mut names, &mut rules_lhs, &mut rules_rhs);
    proof {
        assert(gr::rule_texts(gr::texts(names@), rules_lhs@, rules_rhs@) =~~= ll1_rule_table());
    }
    proof {
        gr::lemma_refs_lhs(names@.len() as int, rules_lhs@, rules_rhs@);
    }
    let g = gr::finalize_grammar("S'", map, names, rules_lhs, rules_rhs);
    proof {
        gr::lemma_table_grammar(&g, ll1_rule_table(), "S'"@);
    }
    g
}

} // verus!

verus! {

/// The rules of the intersection of the original grammar with the LR(0) automaton (start `0`, finals `1` and `8`).
pub open spec fn lr0_rule_table() -> Seq<(Seq<char>, Seq<Seq<char>>)> {
    seq![
        ("S'"@, seq!["⟨0,S,1⟩"@]),
        ("S'"@, seq!["⟨0,S,8⟩"@]),
        ("⟨0,S,8⟩"@, seq!["a"@, "b"@, "b"@, "a"@]),
        ("⟨1,S,1⟩"@, seq!["a"@, "b"@, "b"@, "a"@]),
        ("⟨6,S,1⟩"@, seq!["a"@, "b"@, "b"@, "a"@]),
        ("⟨7,S,1⟩"@, seq!["a"@, "b"@, "b"@, "a"@]),
        ("⟨8,S,1⟩"@, seq!["a"@, "b"@, "b"@, "a"@]),
        ("⟨10,S,8⟩"@, seq!["a"@, "b"@, "b"@, "a"@]),
        ("⟨1,T,7⟩"@, seq!["b"@, "a"@, "b"@]),
        ("⟨7,T,7⟩"@, seq!["b"@, "a"@, "b"@]),
        ("⟨8,T,7⟩"@, seq!["b"@, "a"@, "b"@]),
        ("⟨10,T,7⟩"@, seq!["b"@, "a"@, "b"@]),
        ("⟨1,T,1⟩"@, seq!["a"@, "⟨1,T,1⟩"@, "a"@]),
        ("⟨1,T,1⟩"@, seq!["a"@, "⟨1,T,7⟩"@, "a"@]),
        ("⟨7,T,1⟩"@, seq!["a"@, "⟨1,T,1⟩"@, "a"@]),
        ("⟨7,T,1⟩"@, seq!["a"@, "⟨1,T,7⟩"@, "a"@]),
        ("⟨8,T,1⟩"@, seq!["a"@, "⟨1,T,1⟩"@, "a"@]),
        ("⟨8,T,1⟩"@, seq!["a"@, "⟨1,T,7⟩"@, "a"@]),
        ("⟨10,T,1⟩"@, seq!["a"@, "⟨10,T,1⟩"@, "a"@]),
        ("⟨10,T,1⟩"@, seq!["a"@, "⟨10,T,7⟩"@, "a"@]),
        ("⟨10,T,1⟩"@, seq!["a"@, "⟨10,T,8⟩"@, "a"@]),
        ("⟨1,T,1⟩"@, seq!["⟨1,S,1⟩"@, "b"@, "b"@, "⟨6,S,1⟩"@]),
        ("⟨7,T,1⟩"@, seq!["⟨7,S,1⟩"@, "b"@, "b"@, "⟨6,S,1⟩"@]),
        ("⟨8,T,1⟩"@, seq!["⟨8,S,1⟩"@, "b"@, "b"@, "⟨6,S,1⟩"@]),
        ("⟨10,T,1⟩"@, seq!["⟨10,S,1⟩"@, "b"@, "b"@, "⟨6,S,1⟩"@]),
        ("⟨10,T,1⟩"@, seq!["⟨10,S,8⟩"@, "b"@, "b"@, "⟨0,S,1⟩"@]),
        ("⟨10,T,8⟩"@, seq!["⟨10,S,8⟩"@, "b"@, "b"@, "⟨0,S,8⟩"@]),
        ("⟨0,S,1⟩"@, seq!["a"@, "⟨10,T,1⟩"@, "⟨1,T,1⟩"@, "a"@]),
        ("⟨0,S,1⟩"@, seq!["a"@, "⟨10,T,1⟩"@, "⟨1,T,7⟩"@, "a"@]),
        ("⟨0,S,1⟩"@, seq!["a"@, "⟨10,T,7⟩"@, "⟨7,T,1⟩"@, "a"@]),
        ("⟨0,S,1⟩"@, seq!["a"@, "⟨10,T,7⟩"@, "⟨7,T,7⟩"@, "a"@]),
        ("⟨0,S,1⟩"@, seq!["a"@, "⟨10,T,8⟩"@, "⟨8,T,1⟩"@, "a"@]),
        ("⟨0,S,1⟩"@, seq!["a"@, "⟨10,T,8⟩"@, "⟨8,T,7⟩"@, "a"@]),
        ("⟨1,S,1⟩"@, seq!["a"@, "⟨1,T,1⟩"@, "⟨1,T,1⟩"@, "a"@]),
        ("⟨1,S,1⟩"@, seq!["a"@, "⟨1,T,1⟩"@, "⟨1,T,7⟩"@, "a"@]),
        ("⟨1,S,1⟩"@, seq!["a"@, "⟨1,T,7⟩"@, "⟨7,T,1⟩"@, "a"@]),
        ("⟨1,S,1⟩"@, seq!["a"@, "⟨1,T,7⟩"@, "⟨7,T,7⟩"@, "a"@]),
        ("⟨6,S,1⟩"@, seq!["a"@, "⟨1,T,1⟩"@, "⟨1,T,1⟩"@, "a"@]),
        ("⟨6,S,1⟩"@, seq!["a"@, "⟨1,T,1⟩"@, "⟨1,T,7⟩"@, "a"@]),
        ("⟨6,S,1⟩"@, seq!["a"@, "⟨1,T,7⟩"@, "⟨7,T,1⟩"@, "a"@]),
        ("⟨6,S,1⟩"@, seq!["a"@, "⟨1,T,7⟩"@, "⟨7,T,7⟩"@, "a"@]),
        ("⟨7,S,1⟩"@, seq!["a"@, "⟨1,T,1⟩"@, "⟨1,T,1⟩"@, "a"@]),
        ("⟨7,S,1⟩"@, seq!["a"@, "⟨1,T,1⟩"@, "⟨1,T,7⟩"@, "a"@]),
        ("⟨7,S,1⟩"@, seq!["a"@, "⟨1,T,7⟩"@, "⟨7,T,1⟩"@, "a"@]),
        ("⟨7,S,1⟩"@, seq!["a"@, "⟨1,T,7⟩"@, "⟨7,T,7⟩"@, "a"@]),
        ("⟨8,S,1⟩"@, seq!["a"@, "⟨1,T,1⟩"@, "⟨1,T,1⟩"@, "a"@]),
        ("⟨8,S,1⟩"@, seq!["a"@, "⟨1,T,1⟩"@, "⟨1,T,7⟩"@, "a"@]),
        ("⟨8,S,1⟩"@, seq!["a"@, "⟨1,T,7⟩"@, "⟨7,T,1⟩"@, "a"@]),
        ("⟨8,S,1⟩"@, seq!["a"@, "⟨1,T,7⟩"@, "⟨7,T,7⟩"@, "a"@]),
        ("⟨10,S,1⟩"@, seq!["a"@, "⟨10,T,1⟩"@, "⟨1,T,1⟩"@, "a"@]),
        ("⟨10,S,1⟩"@, seq!["a"@, "⟨10,T,1⟩"@, "⟨1,T,7⟩"@, "a"@]),
        ("⟨10,S,1⟩"@, seq!["a"@, "⟨10,T,7⟩"@, "⟨7,T,1⟩"@, "a"@]),
        ("⟨10,S,1⟩"@, seq!["a"@, "⟨10,T,7⟩"@, "⟨7,T,7⟩"@, "a"@]),
        ("⟨10,S,1⟩"@, seq!["a"@, "⟨10,T,8⟩"@, "⟨8,T,1⟩"@, "a"@]),
        ("⟨10,S,1⟩"@, seq!["a"@, "⟨10,T,8⟩"@, "⟨8,T,7⟩"@, "a"@]),
    ]
}

/// Appends the rules `0..8` of `lr0_rule_table`.
fn add_lr0_rules_0_8(map: &mut gr::NameMap, names: &mut Vec<String>, rules_lhs: &mut Vec<usize>, rules_rhs: &mut Vec<Vec<Symbol>>)
    requires
        gr::texts(old(names)@).no_duplicates(),
        gr::names_in_rule_order(old(names)@, old(rules_lhs)@, old(rules_rhs)@),
        gr::indexes(old(map)@, gr::texts(old(names)@)),
        gr::nonterminal_names(gr::texts(old(names)@)),
        gr::refs_in_range(old(names)@.len() as int, old(rules_lhs)@, old(rules_rhs)@),
    ensures
        gr::texts(final(names)@).no_duplicates(),
        gr::names_in_rule_order(final(names)@, final(rules_lhs)@, final(rules_rhs)@),
        gr::indexes(final(map)@, gr::texts(final(names)@)),
        gr::nonterminal_names(gr::texts(final(names)@)),
        gr::refs_in_range(final(names)@.len() as int, final(rules_lhs)@, final(rules_rhs)@),
        gr::rule_texts(gr::texts(final(names)@), final(rules_lhs)@, final(rules_rhs)@) == gr::rule_texts(
            gr::texts(old(names)@),
            old(rules_lhs)@,
            old(rules_rhs)@,
        ) + lr0_rule_table().subrange(0, 8),
{
    let ghost t0 = gr::rule_texts(gr::texts(names@), rules_lhs@, rules_rhs@);
    proof {
        assert(gr::term_of("S'"@) is None) by {
            reveal_strlit("a");
            reveal_strlit("b");
            reveal_strlit("S'");
            assert("S'"@.len() != 1);
        }
        assert(gr::term_of("⟨0,S,8⟩"@) is None) by {
            reveal_strlit("a");
            reveal_strlit("b");
            reveal_strlit("⟨0,S,8⟩");
            assert("⟨0,S,8⟩"@.len() != 1);
        }
        assert(gr::term_of("⟨1,S,1⟩"@) is None) by {
            reveal_strlit("a");
            reveal_strlit("b");
            reveal_strlit("⟨1,S,1⟩");
            assert("⟨1,S,1⟩"@.len() != 1);
        }
        assert(gr::term_of("⟨10,S,8⟩"@) is None) by {
            reveal_strlit("a");
            reveal_strlit("b");
            reveal_strlit("⟨10,S,8⟩");
            assert("⟨10,S,8⟩"@.len() != 1);
        }
        assert(gr::term_of("⟨6,S,1⟩"@) is None) by {
            reveal_strlit("a");
            reveal_strlit("b");
            reveal_strlit("⟨6,S,1⟩");
            assert("⟨6,S,1⟩"@.len() != 1);
        }
        assert(gr::term_of("⟨7,S,1⟩"@) is None) by {
            reveal_strlit("a");
            reveal_strlit("b");
            reveal_strlit("⟨7,S,1⟩");
            assert("⟨7,S,1⟩"@.len() != 1);
        }
        assert(gr::term_of("⟨8,S,1⟩"@) is None) by {
            reveal_strlit("a");
            reveal_strlit("b");
            reveal_strlit("⟨8,S,1⟩");
            assert("⟨8,S,1⟩"@.len() != 1);
        }
    }
    gr::add_rule_tokens(map, names, rules_lhs, rules_rhs, "S'", &["⟨0,S,1⟩"]);
    gr::add_rule_tokens(map, names, rules_lhs, rules_rhs, "S'", &["⟨0,S,8⟩"]);
    gr::add_rule_tokens(map, names, rules_lhs, rules_rhs, "⟨0,S,8⟩", &["a", "b", "b", "a"]);
    gr::add_rule_tokens(map, names, rules_lhs, rules_rhs, "⟨1,S,1⟩", &["a", "b", "b", "a"]);
    gr::add_rule_tokens(map, names, rules_lhs, rules_rhs, "⟨6,S,1⟩", &["a", "b", "b", "a"]);
    gr::add_rule_tokens(map, names, rules_lhs, rules_rhs, "⟨7,S,1⟩", &["a", "b", "b", "a"]);
    gr::add_rule_tokens(map, names, rules_lhs, rules_rhs, "⟨8,S,1⟩", &["a", "b", "b", "a"]);
    gr::add_rule_tokens(map, names, rules_lhs, rules_rhs, "⟨10,S,8⟩", &["a", "b", "b", "a"]);
    proof {
        assert(gr::rule_texts(gr::texts(names@), rules_lhs@, rules_rhs@) =~~= t0 + lr0_rule_table().subrange(0, 8));
    }
}

/// Appends the rules `8..16` of `lr0_rule_table`.
fn add_lr0_rules_8_16(map: &mut gr::NameMap, names: &mut Vec<String>, rules_lhs: &mut Vec<usize>, rules_rhs: &mut Vec<Vec<Symbol>>)
    requires
        gr::texts(old(names)@).no_duplicates(),
        gr::names_in_rule_order(old(names)@, old(rules_lhs)@, old(rules_rhs)@),
        gr::indexes(old(map)@, gr::texts(old(names)@)),
        gr::nonterminal_names(gr::texts(old(names)@)),
        gr::refs_in_range(old(names)@.len() as int, old(rules_lhs)@, old(rules_rhs)@),
    ensures
        gr::texts(final(names)@).no_duplicates(),
        gr::names_in_rule_order(final(names)@, final(rules_lhs)@, final(rules_rhs)@),
        gr::indexes(final(map)@, gr::texts(final(names)@)),
        gr::nonterminal_names(gr::texts(final(names)@)),
        gr::refs_in_range(final(names)@.len() as int, final(rules_lhs)@, final(rules_rhs)@),
        gr::rule_texts(gr::texts(final(names)@), final(rules_lhs)@, final(rules_rhs)@) == gr::rule_texts(
            gr::texts(old(names)@),
            old(rules_lhs)@,
            old(rules_rhs)@,
        ) + lr0_rule_table().subrange(8, 16),
{
    let ghost t0 = gr::rule_texts(gr::texts(names@), rules_lhs@, rules_rhs@);
    proof {
        assert(gr::term_of("⟨1,T,1⟩"@) is None) by {
            reveal_strlit("a");
            reveal_strlit("b");
            reveal_strlit("⟨1,T,1⟩");
            assert("⟨1,T,1⟩"@.len() != 1);
        }
        assert(gr::term_of("⟨1,T,7⟩"@) is None) by {
            reveal_strlit("a");
            reveal_strlit("b");
            reveal_strlit("⟨1,T,7⟩");
            assert("⟨1,T,7⟩"@.len() != 1);
        }
        assert(gr::term_of("⟨10,T,7⟩"@) is None) by {
            reveal_strlit("a");
            reveal_strlit("b");
            reveal_strlit("⟨10,T,7⟩");
            assert("⟨10,T,7⟩"@.len() != 1);
        }
        assert(gr::term_of("⟨7,T,1⟩"@) is None) by {
            reveal_strlit("a");
            reveal_strlit("b");
            reveal_strlit("⟨7,T,1⟩");
            assert("⟨7,T,1⟩"@.len() != 1);
        }
        assert(gr::term_of("⟨7,T,7⟩"@) is None) by {
            reveal_strlit("a");
            reveal_strlit("b");
            reveal_strlit("⟨7,T,7⟩");
            assert("⟨7,T,7⟩"@.len() != 1);
        }
        assert(gr::term_of("⟨8,T,7⟩"@) is None) by {
            reveal_strlit("a");
            reveal_strlit("b");
            reveal_strlit("⟨8,T,7⟩");
            assert("⟨8,T,7⟩"@.len() != 1);
        }
    }
    gr::add_rule_tokens(map, names, rules_lhs, rules_rhs, "⟨1,T,7⟩", &["b", "a", "b"]);
    gr::add_rule_tokens(map, names, rules_lhs, rules_rhs, "⟨7,T,7⟩", &["b", "a", "b"]);
    gr::add_rule_tokens(map, names, rules_lhs, rules_rhs, "⟨8,T,7⟩", &["b", "a", "b"]);
    gr::add_rule_tokens(map, names, rules_lhs, rules_rhs, "⟨10,T,7⟩", &["b", "a", "b"]);
    gr::add_rule_tokens(map, names, rules_lhs, rules_rhs, "⟨1,T,1⟩", &["a", "⟨1,T,1⟩", "a"]);
    gr::add_rule_tokens(map, names, rules_lhs, rules_rhs, "⟨1,T,1⟩", &["a", "⟨1,T,7⟩", "a"]);
    gr::add_rule_tokens(map, names, rules_lhs, rules_rhs, "⟨7,T,1⟩", &["a", "⟨1,T,1⟩", "a"]);
    gr::add_rule_tokens(map, names, rules_lhs, rules_rhs, "⟨7,T,1⟩", &["a", "⟨1,T,7⟩", "a"]);
    proof {
        assert(gr::rule_texts(gr::texts(names@), rules_lhs@, rules_rhs@) =~~= t0 + lr0_rule_table().subrange(8, 16));
    }
}

/// Appends the rules `16..24` of `lr0_rule_table`.
fn add_lr0_rules_16_24(map: &mut gr::NameMap, names: &mut Vec<String>, rules_lhs: &mut Vec<usize>, rules_rhs: &mut Vec<Vec<Symbol>>)
    requires
        gr::texts(old(names)@).no_duplicates(),
        gr::names_in_rule_order(old(names)@, old(rules_lhs)@, old(rules_rhs)@),
        gr::indexes(old(map)@, gr::texts(old(names)@)),
        gr::nonterminal_names(gr::texts(old(names)@)),
        gr::refs_in_range(old(names)@.len() as int, old(rules_lhs)@, old(rules_rhs)@),
    ensures
        gr::texts(final(names)@).no_duplicates(),
        gr::names_in_rule_order(final(names)@, final(rules_lhs)@, final(rules_rhs)@),
        gr::indexes(final(map)@, gr::texts(final(names)@)),
        gr::nonterminal_names(gr::texts(final(names)@)),
        gr::refs_in_range(final(names)@.len() as int, final(rules_lhs)@, final(rules_rhs)@),
        gr::rule_texts(gr::texts(final(names)@), final(rules_lhs)@, final(rules_rhs)@) == gr::rule_texts(
            gr::texts(old(names)@),
            old(rules_lhs)@,
            old(rules_rhs)@,
        ) + lr0_rule_table().subrange(16, 24),
{
    let ghost t0 = gr::rule_texts(gr::texts(names@), rules_lhs@, rules_rhs@);
    proof {
        assert(gr::term_of("⟨1,T,1⟩"@) is None) by {
            reveal_strlit("a");
            reveal_strlit("b");
            reveal_strlit("⟨1,T,1⟩");
            assert("⟨1,T,1⟩"@.len() != 1);
        }
        assert(gr::term_of("⟨10,T,1⟩"@) is None) by {
            reveal_strlit("a");
            reveal_strlit("b");
            reveal_strlit("⟨10,T,1⟩");
            assert("⟨10,T,1⟩"@.len() != 1);
        }
        assert(gr::term_of("⟨7,T,1⟩"@) is None) by {
            reveal_strlit("a");
            reveal_strlit("b");
            reveal_strlit("⟨7,T,1⟩");
            assert("⟨7,T,1⟩"@.len() != 1);
        }
        assert(gr::term_of("⟨8,T,1⟩"@) is None) by {
            reveal_strlit("a");
            reveal_strlit("b");
            reveal_strlit("⟨8,T,1⟩");
            assert("⟨8,T,1⟩"@.len() != 1);
        }
    }
    gr::add_rule_tokens(map, names, rules_lhs, rules_rhs, "⟨8,T,1⟩", &["a", "⟨1,T,1⟩", "a"]);
    gr::add_rule_tokens(map, names, rules_lhs, rules_rhs, "⟨8,T,1⟩", &["a", "⟨1,T,7⟩", "a"]);
    gr::add_rule_tokens(map, names, rules_lhs, rules_rhs, "⟨10,T,1⟩", &["a", "⟨10,T,1⟩", "a"]);
    gr::add_rule_tokens(map, names, rules_lhs, rules_rhs, "⟨10,T,1⟩", &["a", "⟨10,T,7⟩", "a"]);
    gr::add_rule_tokens(map, names, rules_lhs, rules_rhs, "⟨10,T,1⟩", &["a", "⟨10,T,8⟩", "a"]);
    gr::add_rule_tokens(map, names, rules_lhs, rules_rhs, "⟨1,T,1⟩", &["⟨1,S,1⟩", "b", "b", "⟨6,S,1⟩"]);
    gr::add_rule_tokens(map, names, rules_lhs, rules_rhs, "⟨7,T,1⟩", &["⟨7,S,1⟩", "b", "b", "⟨6,S,1⟩"]);
    gr::add_rule_tokens(map, names, rules_lhs, rules_rhs, "⟨8,T,1⟩", &["⟨8,S,1⟩", "b", "b", "⟨6,S,1⟩"]);
    proof {
        assert(gr::rule_texts(gr::texts(names@), rules_lhs@, rules_rhs@) =~~= t0 + lr0_rule_table().subrange(16, 24));
    }
}

/// Appends the rules `24..32` of `lr0_rule_table`.
fn add_lr0_rules_24_32(map: &mut gr::NameMap, names: &mut Vec<String>, rules_lhs: &mut Vec<usize>, rules_rhs: &mut Vec<Vec<Symbol>>)
    requires
        gr::texts(old(names)@).no_duplicates(),
        gr::names_in_rule_order(old(names)@, old(rules_lhs)@, old(rules_rhs)@),
        gr::indexes(old(map)@, gr::texts(old(names)@)),
        gr::nonterminal_names(gr::texts(old(names)@)),
        gr::refs_in_range(old(names)@.len() as int, old(rules_lhs)@, old(rules_rhs)@),
    ensures
        gr::texts(final(names)@).no_duplicates(),
        gr::names_in_rule_order(final(names)@, final(rules_lhs)@, final(rules_rhs)@),
        gr::indexes(final(map)@, gr::texts(final(names)@)),
        gr::nonterminal_names(gr::texts(final(names)@)),
        gr::refs_in_range(final(names)@.len() as int, final(rules_lhs)@, final(rules_rhs)@),
        gr::rule_texts(gr::texts(final(names)@), final(rules_lhs)@, final(rules_rhs)@) == gr::rule_texts(
            gr::texts(old(names)@),
            old(rules_lhs)@,
            old(rules_rhs)@,
        ) + lr0_rule_table().subrange(24, 32),
{
    let ghost t0 = gr::rule_texts(gr::texts(names@), rules_lhs@, rules_rhs@);
    proof {
        assert(gr::term_of("⟨0,S,1⟩"@) is None) by {
            reveal_strlit("a");
            reveal_strlit("b");
            reveal_strlit("⟨0,S,1⟩");
            assert("⟨0,S,1⟩"@.len() != 1);
        }
        assert(gr::term_of("⟨10,T,1⟩"@) is None) by {
            reveal_strlit("a");
            reveal_strlit("b");
            reveal_strlit("⟨10,T,1⟩");
            assert("⟨10,T,1⟩"@.len() != 1);
        }
        assert(gr::term_of("⟨10,T,8⟩"@) is None) by {
            reveal_strlit("a");
            reveal_strlit("b");
            reveal_strlit("⟨10,T,8⟩");
            assert("⟨10,T,8⟩"@.len() != 1);
        }
    }
    gr::add_rule_tokens(map, names, rules_lhs, rules_rhs, "⟨10,T,1⟩", &["⟨10,S,1⟩", "b", "b", "⟨6,S,1⟩"]);
    gr::add_rule_tokens(map, names, rules_lhs, rules_rhs, "⟨10,T,1⟩", &["⟨10,S,8⟩", "b", "b", "⟨0,S,1⟩"]);
    gr::add_rule_tokens(map, names, rules_lhs, rules_rhs, "⟨10,T,8⟩", &["⟨10,S,8⟩", "b", "b", "⟨0,S,8⟩"]);
    gr::add_rule_tokens(map, names, rules_lhs, rules_rhs, "⟨0,S,1⟩", &["a", "⟨10,T,1⟩", "⟨1,T,1⟩", "a"]);
    gr::add_rule_tokens(map, names, rules_lhs, rules_rhs, "⟨0,S,1⟩", &["a", "⟨10,T,1⟩", "⟨1,T,7⟩", "a"]);
    gr::add_rule_tokens(map, names, rules_lhs, rules_rhs, "⟨0,S,1⟩", &["a", "⟨10,T,7⟩", "⟨7,T,1⟩", "a"]);
    gr::add_rule_tokens(map, names, rules_lhs, rules_rhs, "⟨0,S,1⟩", &["a", "⟨10,T,7⟩", "⟨7,T,7⟩", "a"]);
    gr::add_rule_tokens(map, names, rules_lhs, rules_rhs, "⟨0,S,1⟩", &["a", "⟨10,T,8⟩", "⟨8,T,1⟩", "a"]);
    proof {
        assert(gr::rule_texts(gr::texts(names@), rules_lhs@, rules_rhs@) =~~= t0 + lr0_rule_table().subrange(24, 32));
    }
}

/// Appends the rules `32..40` of `lr0_rule_table`.
fn add_lr0_rules_32_40(map: &mut gr::NameMap, names: &mut Vec<String>, rules_lhs: &mut Vec<usize>, rules_rhs: &mut Vec<Vec<Symbol>>)
    requires
        gr::texts(old(names)@).no_duplicates(),
        gr::names_in_rule_order(old(names)@, old(rules_lhs)@, old(rules_rhs)@),
        gr::indexes(old(map)@, gr::texts(old(names)@)),
        gr::nonterminal_names(gr::texts(old(names)@)),
        gr::refs_in_range(old(names)@.len() as int, old(rules_lhs)@, old(rules_rhs)@),
    ensures
        gr::texts(final(names)@).no_duplicates(),
        gr::names_in_rule_order(final(names)@, final(rules_lhs)@, final(rules_rhs)@),
        gr::indexes(final(map)@, gr::texts(final(names)@)),
        gr::nonterminal_names(gr::texts(final(names)@)),
        gr::refs_in_range(final(names)@.len() as int, final(rules_lhs)@, final(rules_rhs)@),
        gr::rule_texts(gr::texts(final(names)@), final(rules_lhs)@, final(rules_rhs)@) == gr::rule_texts(
            gr::texts(old(names)@),
            old(rules_lhs)@,
            old(rules_rhs)@,
        ) + lr0_rule_table().subrange(32, 40),
{
    let ghost t0 = gr::rule_texts(gr::texts(names@), rules_lhs@, rules_rhs@);
    proof {
        assert(gr::term_of("⟨0,S,1⟩"@) is None) by {
            reveal_strlit("a");
            reveal_strlit("b");
            reveal_strlit("⟨0,S,1⟩");
            assert("⟨0,S,1⟩"@.len() != 1);
        }
        assert(gr::term_of("⟨1,S,1⟩"@) is None) by {
            reveal_strlit("a");
            reveal_strlit("b");
            reveal_strlit("⟨1,S,1⟩");
            assert("⟨1,S,1⟩"@.len() != 1);
        }
        assert(gr::term_of("⟨6,S,1⟩"@) is None) by {
            reveal_strlit("a");
            reveal_strlit("b");
            reveal_strlit("⟨6,S,1⟩");
            assert("⟨6,S,1⟩"@.len() != 1);
        }
    }
    gr::add_rule_tokens(map, names, rules_lhs, rules_rhs, "⟨0,S,1⟩", &["a", "⟨10,T,8⟩", "⟨8,T,7⟩", "a"]);
    gr::add_rule_tokens(map, names, rules_lhs, rules_rhs, "⟨1,S,1⟩", &["a", "⟨1,T,1⟩", "⟨1,T,1⟩", "a"]);
    gr::add_rule_tokens(map, names, rules_lhs, rules_rhs, "⟨1,S,1⟩", &["a", "⟨1,T,1⟩", "⟨1,T,7⟩", "a"]);
    gr::add_rule_tokens(map, names, rules_lhs, rules_rhs, "⟨1,S,1⟩", &["a", "⟨1,T,7⟩", "⟨7,T,1⟩", "a"]);
    gr::add_rule_tokens(map, names, rules_lhs, rules_rhs, "⟨1,S,1⟩", &["a", "⟨1,T,7⟩", "⟨7,T,7⟩", "a"]);
    gr::add_rule_tokens(map, names, rules_lhs, rules_rhs, "⟨6,S,1⟩", &["a", "⟨1,T,1⟩", "⟨1,T,1⟩", "a"]);
    gr::add_rule_tokens(map, names, rules_lhs, rules_rhs, "⟨6,S,1⟩", &["a", "⟨1,T,1⟩", "⟨1,T,7⟩", "a"]);
    gr::add_rule_tokens(map, names, rules_lhs, rules_rhs, "⟨6,S,1⟩", &["a", "⟨1,T,7⟩", "⟨7,T,1⟩", "a"]);
    proof {
        assert(gr::rule_texts(gr::texts(names@), rules_lhs@, rules_rhs@) =~~= t0 + lr0_rule_table().subrange(32, 40));
    }
}

/// Appends the rules `40..48` of `lr0_rule_table`.
fn add_lr0_rules_40_48(map: &mut gr::NameMap, names: &mut Vec<String>, rules_lhs: &mut Vec<usize>, rules_rhs: &mut Vec<Vec<Symbol>>)
    requires
        gr::texts(old(names)@).no_duplicates(),
        gr::names_in_rule_order(old(names)@, old(rules_lhs)@, old(rules_rhs)@),
        gr::indexes(old(map)@, gr::texts(old(names)@)),
        gr::nonterminal_names(gr::texts(old(names)@)),
        gr::refs_in_range(old(names)@.len() as int, old(rules_lhs)@, old(rules_rhs)@),
    ensures
        gr::texts(final(names)@).no_duplicates(),
        gr::names_in_rule_order(final(names)@, final(rules_lhs)@, final(rules_rhs)@),
        gr::indexes(final(map)@, gr::texts(final(names)@)),
        gr::nonterminal_names(gr::texts(final(names)@)),
        gr::refs_in_range(final(names)@.len() as int, final(rules_lhs)@, final(rules_rhs)@),
        gr::rule_texts(gr::texts(final(names)@), final(rules_lhs)@, final(rules_rhs)@) == gr::rule_texts(
            gr::texts(old(names)@),
            old(rules_lhs)@,
            old(rules_rhs)@,
        ) + lr0_rule_table().subrange(40, 48),
{
    let ghost t0 = gr::rule_texts(gr::texts(names@), rules_lhs@, rules_rhs@);
    proof {
        assert(gr::term_of("⟨6,S,1⟩"@) is None) by {
            reveal_strlit("a");
            reveal_strlit("b");
            reveal_strlit("⟨6,S,1⟩");
            assert("⟨6,S,1⟩"@.len() != 1);
        }
        assert(gr::term_of("⟨7,S,1⟩"@) is None) by {
            reveal_strlit("a");
            reveal_strlit("b");
            reveal_strlit("⟨7,S,1⟩");
            assert("⟨7,S,1⟩"@.len() != 1);
        }
        assert(gr::term_of("⟨8,S,1⟩"@) is None) by {
            reveal_strlit("a");
            reveal_strlit("b");
            reveal_strlit("⟨8,S,1⟩");
            assert("⟨8,S,1⟩"@.len() != 1);
        }
    }
    gr::add_rule_tokens(map, names, rules_lhs, rules_rhs, "⟨6,S,1⟩", &["a", "⟨1,T,7⟩", "⟨7,T,7⟩", "a"]);
    gr::add_rule_tokens(map, names, rules_lhs, rules_rhs, "⟨7,S,1⟩", &["a", "⟨1,T,1⟩", "⟨1,T,1⟩", "a"]);
    gr::add_rule_tokens(map, names, rules_lhs, rules_rhs, "⟨7,S,1⟩", &["a", "⟨1,T,1⟩", "⟨1,T,7⟩", "a"]);
    gr::add_rule_tokens(map, names, rules_lhs, rules_rhs, "⟨7,S,1⟩", &["a", "⟨1,T,7⟩", "⟨7,T,1⟩", "a"]);
    gr::add_rule_tokens(map, names, rules_lhs, rules_rhs, "⟨7,S,1⟩", &["a", "⟨1,T,7⟩", "⟨7,T,7⟩", "a"]);
    gr::add_rule_tokens(map, names, rules_lhs, rules_rhs, "⟨8,S,1⟩", &["a", "⟨1,T,1⟩", "⟨1,T,1⟩", "a"]);
    gr::add_rule_tokens(map, names, rules_lhs, rules_rhs, "⟨8,S,1⟩", &["a", "⟨1,T,1⟩", "⟨1,T,7⟩", "a"]);
    gr::add_rule_tokens(map, names, rules_lhs, rules_rhs, "⟨8,S,1⟩", &["a", "⟨1,T,7⟩", "⟨7,T,1⟩", "a"]);
    proof {
        assert(gr::rule_texts(gr::texts(names@), rules_lhs@, rules_rhs@) =~~= t0 + lr0_rule_table().subrange(40, 48));
    }
}

/// Appends the rules `48..55` of `lr0_rule_table`.
fn add_lr0_rules_48_55(map: &mut gr::NameMap, names: &mut Vec<String>, rules_lhs: &mut Vec<usize>, rules_rhs: &mut Vec<Vec<Symbol>>)
    requires
        gr::texts(old(names)@).no_duplicates(),
        gr::names_in_rule_order(old(names)@, old(rules_lhs)@, old(rules_rhs)@),
        gr::indexes(old(map)@, gr::texts(old(names)@)),
        gr::nonterminal_names(gr::texts(old(names)@)),
        gr::refs_in_range(old(names)@.len() as int, old(rules_lhs)@, old(rules_rhs)@),
    ensures
        gr::texts(final(names)@).no_duplicates(),
        gr::names_in_rule_order(final(names)@, final(rules_lhs)@, final(rules_rhs)@),
        gr::indexes(final(map)@, gr::texts(final(names)@)),
        gr::nonterminal_names(gr::texts(final(names)@)),
        gr::refs_in_range(final(names)@.len() as int, final(rules_lhs)@, final(rules_rhs)@),
        gr::rule_texts(gr::texts(final(names)@), final(rules_lhs)@, final(rules_rhs)@) == gr::rule_texts(
            gr::texts(old(names)@),
            old(rules_lhs)@,
            old(rules_rhs)@,
        ) + lr0_rule_table().subrange(48, 55),
{
    let ghost t0 = gr::rule_texts(gr::texts(names@), rules_lhs@, rules_rhs@);
    proof {
        assert(gr::term_of("⟨10,S,1⟩"@) is None) by {
            reveal_strlit("a");
            reveal_strlit("b");
            reveal_strlit("⟨10,S,1⟩");
            assert("⟨10,S,1⟩"@.len() != 1);
        }
        assert(gr::term_of("⟨8,S,1⟩"@) is None) by {
            reveal_strlit("a");
            reveal_strlit("b");
            reveal_strlit("⟨8,S,1⟩");
            assert("⟨8,S,1⟩"@.len() != 1);
        }
    }
    gr::add_rule_tokens(map, names, rules_lhs, rules_rhs, "⟨8,S,1⟩", &["a", "⟨1,T,7⟩", "⟨7,T,7⟩", "a"]);
    gr::add_rule_tokens(map, names, rules_lhs, rules_rhs, "⟨10,S,1⟩", &["a", "⟨10,T,1⟩", "⟨1,T,1⟩", "a"]);
    gr::add_rule_tokens(map, names, rules_lhs, rules_rhs, "⟨10,S,1⟩", &["a", "⟨10,T,1⟩", "⟨1,T,7⟩", "a"]);
    gr::add_rule_tokens(map, names, rules_lhs, rules_rhs, "⟨10,S,1⟩", &["a", "⟨10,T,7⟩", "⟨7,T,1⟩", "a"]);
    gr::add_rule_tokens(map, names, rules_lhs, rules_rhs, "⟨10,S,1⟩", &["a", "⟨10,T,7⟩", "⟨7,T,7⟩", "a"]);
    gr::add_rule_tokens(map, names, rules_lhs, rules_rhs, "⟨10,S,1⟩", &["a", "⟨10,T,8⟩", "⟨8,T,1⟩", "a"]);
    gr::add_rule_tokens(map, names, rules_lhs, rules_rhs, "⟨10,S,1⟩", &["a", "⟨10,T,8⟩", "⟨8,T,7⟩", "a"]);
    proof {
        assert(gr::rule_texts(gr::texts(names@), rules_lhs@, rules_rhs@) =~~= t0 + lr0_rule_table().subrange(48, 55));
    }
}

/// The grammar of the intersection of the original grammar with the LR(0) automaton (start `0`, finals `1` and `8`).
#[verifier::rlimit(60)]
pub fn build_lr0_intersection_grammar() -> (g: Grammar)
    ensures
        gr::built_from(g, lr0_rule_table(), "S'"@),
{
    let mut map: gr::NameMap = vstd::hash_map::StringHashMap::new();
    let mut names: Vec<String> = Vec::new();
    let mut rules_lhs: Vec<usize> = Vec::new();
    let mut rules_rhs: Vec<Vec<Symbol>> = Vec::new();
    proof {
        assert(gr::texts(names@) =~= Seq::<Seq<char>>::empty());
        assert(gr::indexes(map@, gr::texts(names@)));
        assert(gr::rule_texts(gr::texts(names@), rules_lhs@, rules_rhs@) =~= Seq::empty());
        assert(gr::names_in_rule_order(names@, rules_lhs@, rules_rhs@));
        gr::lemma_refs_empty(names@.len() as int, rules_lhs@, rules_rhs@);
    }
    add_lr0_rules_0_8(&mut map, &mut names, &mut rules_lhs, &mut rules_rhs);
    add_lr0_rules_8_16(&mut map, &mut names, &mut rules_lhs, &mut rules_rhs);
    add_lr0_rules_16_24(&mut map, &mut names, &mut rules_lhs, &mut rules_rhs);
    add_lr0_rules_24_32(&mut map, &mut names, &mut rules_lhs, &mut rules_rhs);
    add_lr0_rules_32_40(&mut map, &mut names, &mut rules_lhs, &mut rules_rhs);
    add_lr0_rules_40_48(&mut map, &mut names, &mut rules_lhs, &mut rules_rhs);
    add_lr0_rules_48_55(&mut map, &mut names, &mut rules_lhs, &mut rules_rhs);
    proof {
        assert(gr::rule_texts(gr::texts(names@), rules_lhs@, rules_rhs@) =~~= lr0_rule_table());
    }
    proof {
        gr::lemma_refs_lhs(names@.len() as int, rules_lhs@, rules_rhs@);
    }
    let g = gr::finalize_grammar("S'", map, names, rules_lhs, rules_rhs);
    proof {
        gr::lemma_table_grammar(&g, lr0_rule_table(), "S'"@);
    }
    g
}

} // verus!
