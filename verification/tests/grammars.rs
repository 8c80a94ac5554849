use langlab::earley::{add_item, item_dot, item_origin, item_rule, make_item, parse_recognize, rng_next, ws_clear, ws_new};
use langlab::equivalence::{bytes_to_string, compare_grammars, run_tests, EquivalenceOutcome};
use langlab::grammar::{add_rule_tokens, finalize_grammar, get_nt_index, grammar_to_string, sym_term_from_token, NameMap, Symbol};
use langlab::grammars::{build_ll1_intersection_grammar, build_lr0_intersection_grammar, build_original_grammar};

fn bytes(s: &str) -> Vec<u8> {
    s.as_bytes().to_vec()
}

#[test]
fn xorshift_steps_from_the_fixed_seed() {
    let mut seed: u64 = 88172645463393265;
    assert_eq!(rng_next(&mut seed), 5340462067322157004);
    assert_eq!(seed, 5340462067322157004);
    assert_eq!(rng_next(&mut seed), 16947821210065002372);
}

#[test]
fn xorshift_keeps_states_apart() {
    let mut zero: u64 = 0;
    assert_eq!(rng_next(&mut zero), 0);
    let mut seen: Vec<u64> = Vec::new();
    for start in 1u64..=512 {
        let mut x = start;
        let next = rng_next(&mut x);
        assert_ne!(next, 0);
        assert!(!seen.contains(&next));
        seen.push(next);
    }
}

#[test]
fn items_pack_and_unpack() {
    let x = make_item(5, 3, 7);
    assert_eq!(x, 30115102725);
    assert_eq!(item_rule(x), 5);
    assert_eq!(item_dot(x), 3);
    assert_eq!(item_origin(x), 7);
    let y = make_item(0xFFFFFF, 255, 255);
    assert_eq!((item_rule(y), item_dot(y), item_origin(y)), (0xFFFFFF, 255, 255));
}

#[test]
fn parse_state_columns_fill_and_clear() {
    let mut ws = ws_new(4);
    assert_eq!(ws.chart.len(), 5);
    add_item(&mut ws, 2, 9);
    add_item(&mut ws, 2, 9);
    assert_eq!(ws.agenda[2], vec![9]);
    assert!(ws.chart[2].contains(&9));
    ws_clear(&mut ws, 3);
    assert!(ws.chart[2].is_empty());
    assert!(ws.agenda[2].is_empty());
}

#[test]
fn tokens_name_terminals() {
    assert_eq!(sym_term_from_token("a"), Some(0));
    assert_eq!(sym_term_from_token("b"), Some(1));
    assert_eq!(sym_term_from_token("S"), None);
    assert_eq!(sym_term_from_token("ab"), None);
}

#[test]
fn names_are_interned_once() {
    let mut map = NameMap::new();
    let mut names: Vec<String> = Vec::new();
    assert_eq!(get_nt_index(&mut map, &mut names, "S"), 0);
    assert_eq!(get_nt_index(&mut map, &mut names, "T"), 1);
    assert_eq!(get_nt_index(&mut map, &mut names, "S"), 0);
    assert_eq!(names, vec!["S".to_string(), "T".to_string()]);
    assert_eq!(map.len(), names.len());
    assert_eq!(map.get("T"), Some(&1));
}

#[test]
fn a_fresh_workspace_has_both_lengths() {
    let ws = ws_new(7);
    assert_eq!(ws.chart.len(), 8);
    assert_eq!(ws.agenda.len(), 8);
    assert!(ws.chart.iter().all(|c| c.is_empty()));
    assert!(ws.agenda.iter().all(|a| a.is_empty()));
}

#[test]
fn rules_may_refer_to_names_added_later() {
    let mut map = NameMap::new();
    let mut names: Vec<String> = Vec::new();
    let mut lhs: Vec<usize> = vec![3];
    let mut rhs: Vec<Vec<Symbol>> = vec![vec![Symbol { terminal: false, value: 3 }]];
    add_rule_tokens(&mut map, &mut names, &mut lhs, &mut rhs, "S", &["a", "b", "S"]);
    assert_eq!(lhs, vec![3, 0]);
    assert_eq!(rhs.len(), 2);
    assert!(rhs[1][0].terminal && rhs[1][0].value == 0);
    assert!(rhs[1][1].terminal && rhs[1][1].value == 1);
    assert!(!rhs[1][2].terminal && rhs[1][2].value == 0);
}

#[test]
fn original_grammar_prints_its_rules() {
    let g = build_original_grammar();
    assert_eq!(
        grammar_to_string(&g),
        "Start symbol: S\nS -> a T T a\nS -> a b b a\nT -> a T a\nT -> S b b S\nT -> b a b\n"
    );
}

#[test]
fn a_grammar_built_by_hand_prints_and_recognizes() {
    let mut map = NameMap::new();
    let mut names: Vec<String> = Vec::new();
    let mut lhs: Vec<usize> = Vec::new();
    let mut rhs = Vec::new();
    add_rule_tokens(&mut map, &mut names, &mut lhs, &mut rhs, "X", &["a", "Y"]);
    add_rule_tokens(&mut map, &mut names, &mut lhs, &mut rhs, "Y", &["b"]);
    let g = finalize_grammar("X", map, names, lhs, rhs);
    assert_eq!(grammar_to_string(&g), "Start symbol: X\nX -> a Y\nY -> b\n");
    let mut ws = ws_new(30);
    assert!(parse_recognize(&g, &mut ws, &bytes("ab")));
    assert!(!parse_recognize(&g, &mut ws, &bytes("ba")));
    assert!(!parse_recognize(&g, &mut ws, &bytes("")));
    assert_eq!(g.rules_by_lhs, vec![vec![0], vec![1]]);
}

#[test]
fn start_defaults_to_the_first_name() {
    let mut map = NameMap::new();
    let mut names: Vec<String> = Vec::new();
    let mut lhs: Vec<usize> = Vec::new();
    let mut rhs = Vec::new();
    add_rule_tokens(&mut map, &mut names, &mut lhs, &mut rhs, "X", &["a"]);
    let g = finalize_grammar("Z", map, names, lhs, rhs);
    assert_eq!(g.start, 0);
}

#[test]
fn a_map_that_disagrees_with_the_list_is_followed() {
    let mut map = NameMap::new();
    map.insert("T".to_string(), 5);
    let mut names: Vec<String> = vec!["S".to_string()];
    assert_eq!(get_nt_index(&mut map, &mut names, "T"), 5);
    assert_eq!(names, vec!["S".to_string()]);
    assert_eq!(get_nt_index(&mut map, &mut names, "U"), 1);
    assert_eq!(names, vec!["S".to_string(), "U".to_string()]);
    let mut lhs: Vec<usize> = Vec::new();
    let mut rhs: Vec<Vec<Symbol>> = Vec::new();
    add_rule_tokens(&mut map, &mut names, &mut lhs, &mut rhs, "U", &["b", "U"]);
    assert_eq!(lhs, vec![1]);
    assert!(rhs[0][0].terminal && rhs[0][0].value == 1);
    assert!(!rhs[0][1].terminal && rhs[0][1].value == 1);
    let g = finalize_grammar("U", map, names, lhs, rhs);
    assert_eq!(g.start, 1);
    assert_eq!(g.rules_by_lhs, vec![vec![], vec![0]]);
}

#[test]
fn original_grammar_generates_its_words() {
    let g = build_original_grammar();
    let mut ws = ws_new(30);
    assert!(parse_recognize(&g, &mut ws, &bytes("abba")));
    assert!(parse_recognize(&g, &mut ws, &bytes("ababbaba")));
    assert!(parse_recognize(&g, &mut ws, &bytes("aababababa")));
    assert!(!parse_recognize(&g, &mut ws, &bytes("ababaa")));
    assert!(!parse_recognize(&g, &mut ws, &bytes("ab")));
    assert!(!parse_recognize(&g, &mut ws, &bytes("")));
    assert!(!parse_recognize(&g, &mut ws, &bytes("abbb")));
}

#[test]
fn intersection_grammars_have_their_start_symbols() {
    let gll = build_ll1_intersection_grammar();
    let glr = build_lr0_intersection_grammar();
    assert!(grammar_to_string(&gll).starts_with("Start symbol: S'\n"));
    assert!(grammar_to_string(&glr).starts_with("Start symbol: S'\n"));
    assert_eq!(gll.rules_lhs.len(), 55);
    assert_eq!(glr.rules_lhs.len(), 55);
}

#[test]
fn built_grammars_number_names_by_first_use() {
    let g0 = build_original_grammar();
    assert_eq!(g0.start, 0);
    assert_eq!(g0.nt_names, vec!["S".to_string(), "T".to_string()]);
    assert_eq!(g0.rules_by_lhs, vec![vec![0, 1], vec![2, 3, 4]]);
    let gll = build_ll1_intersection_grammar();
    assert_eq!(gll.start, 0);
    assert_eq!(gll.nt_names[0], "S'");
    assert_eq!(gll.nt_names[1], "⟨0,S,1⟩");
    assert_eq!(gll.nt_names[2], "⟨0,S,10⟩");
    assert_eq!(gll.rules_by_lhs[0], vec![0, 1]);
    let glr = build_lr0_intersection_grammar();
    assert_eq!(glr.start, 0);
    assert_eq!(glr.nt_names[0], "S'");
    assert_eq!(glr.nt_names[1], "⟨0,S,1⟩");
    assert_eq!(glr.nt_names[2], "⟨0,S,8⟩");
    assert_eq!(glr.rules_by_lhs[0], vec![0, 1]);
}

#[test]
fn the_three_grammars_agree_on_small_words() {
    let g0 = build_original_grammar();
    let gll = build_ll1_intersection_grammar();
    let glr = build_lr0_intersection_grammar();
    let mut w0 = ws_new(30);
    let mut wll = ws_new(30);
    let mut wlr = ws_new(30);
    for w in ["abba", "ababbaba", "aababababa", "ababaa", "abbb", "ab", "babbab"] {
        let r0 = parse_recognize(&g0, &mut w0, &bytes(w));
        let rll = parse_recognize(&gll, &mut wll, &bytes(w));
        let rlr = parse_recognize(&glr, &mut wlr, &bytes(w));
        assert_eq!((r0, r0), (rll, rlr), "{}", w);
    }
}

#[test]
fn comparison_of_zero_words_passes() {
    let g0 = build_original_grammar();
    match compare_grammars(&g0, &g0, &g0, 0, 1) {
        EquivalenceOutcome::AllPassed { passed } => assert_eq!(passed, 0),
        _ => panic!("no word was drawn"),
    }
}

#[test]
fn a_grammar_compared_with_itself_passes() {
    let g0 = build_original_grammar();
    match compare_grammars(&g0, &g0, &g0, 300, 88172645463393265) {
        EquivalenceOutcome::AllPassed { passed } => assert_eq!(passed, 300),
        _ => panic!("a grammar disagrees with itself"),
    }
}

#[test]
fn run_tests_reports_a_consistent_outcome() {
    match run_tests(500) {
        EquivalenceOutcome::AllPassed { passed } => assert_eq!(passed, 500),
        EquivalenceOutcome::Mismatch { word, original, ll1, lr0 } => {
            assert!(word.len() >= 6 && word.len() <= 30);
            assert!(!(original == ll1 && ll1 == lr0));
        }
    }
}

#[test]
fn bytes_print_as_letters() {
    assert_eq!(bytes_to_string(&bytes("abba")), "abba");
    assert_eq!(bytes_to_string(&vec![97, 120, 98]), "abb");
    assert_eq!(bytes_to_string(&Vec::new()), "");
}

fn xorshift(x: u64) -> u64 {
    let x1 = x ^ (x << 7);
    let x2 = x1 ^ (x1 >> 9);
    x2 ^ (x2 << 8)
}

fn first_word(seed: u64) -> Vec<u8> {
    let mut st = xorshift(seed);
    let len = (st % 25) as usize + 6;
    let mut w = Vec::new();
    for _ in 0..len {
        st = xorshift(st);
        w.push(if st % 2 == 0 { b'a' } else { b'b' });
    }
    w
}

#[test]
fn comparison_stops_at_the_first_disagreement() {
    let mut map = NameMap::new();
    let mut names: Vec<String> = Vec::new();
    let mut lhs: Vec<usize> = Vec::new();
    let mut rhs = Vec::new();
    add_rule_tokens(&mut map, &mut names, &mut lhs, &mut rhs, "U", &["a"]);
    add_rule_tokens(&mut map, &mut names, &mut lhs, &mut rhs, "U", &["b"]);
    add_rule_tokens(&mut map, &mut names, &mut lhs, &mut rhs, "U", &["a", "U"]);
    add_rule_tokens(&mut map, &mut names, &mut lhs, &mut rhs, "U", &["b", "U"]);
    let every_word = finalize_grammar("U", map, names, lhs, rhs);
    let g0 = build_original_grammar();
    let seed: u64 = 88172645463393265;
    match compare_grammars(&g0, &every_word, &every_word, 10, seed) {
        EquivalenceOutcome::Mismatch { word, original, ll1, lr0 } => {
            assert_eq!(word, first_word(seed));
            assert!(!original);
            assert!(ll1 && lr0);
        }
        _ => panic!("the grammars differ on the first word"),
    }
}

#[test]
fn recognition_leaves_later_columns_alone() {
    let g = build_original_grammar();
    let mut ws = ws_new(30);
    add_item(&mut ws, 20, 77);
    assert!(parse_recognize(&g, &mut ws, &bytes("abba")));
    for i in 0..=4 {
        assert!(ws.agenda[i].is_empty());
    }
    assert!(ws.chart[20].contains(&77));
    assert_eq!(ws.agenda[20], vec![77]);
}

#[test]
fn storage_with_more_agendas_than_columns() {
    let g = build_original_grammar();
    let mut ws = ws_new(6);
    ws.agenda.push(Vec::new());
    ws.agenda.push(Vec::new());
    assert!(parse_recognize(&g, &mut ws, &bytes("abba")));
    assert!(!parse_recognize(&g, &mut ws, &bytes("abbb")));
    assert_eq!(ws.agenda.len(), 9);
}
