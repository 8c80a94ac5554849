use langlab::search::bfs_path_tprime;
use langlab::rewriting::{
    accept, apply_option, build_tprime, pick_pair, find_all_positions, gen_rule_n, generate_pair, neighbors_tprime,
    random_chain_t, random_chain_tp, random_word, replace_at, rewrite_chain, rewrite_chain_words, rewrite_options,
    step_t, step_tp, t_rules, tprime_base, word_from_picks,
};

fn s(x: &str) -> String {
    x.to_string()
}

fn one_rewrite(a: &str, b: &str, rules: &[(String, String)]) -> bool {
    rules.iter().any(|(l, r)| {
        (0..a.len()).any(|p| {
            (a[p..].starts_with(l.as_str()) && replace_at(a, p, l.len(), r) == b)
                || (a[p..].starts_with(r.as_str()) && replace_at(a, p, r.len(), l) == b)
        })
    })
}

fn forward_rewrite(a: &str, b: &str, rules: &[(String, String)]) -> bool {
    rules.iter().any(|(l, r)| (0..a.len()).any(|p| a[p..].starts_with(l.as_str()) && replace_at(a, p, l.len(), r) == b))
}

#[test]
fn positions_of_overlapping_occurrences() {
    assert_eq!(find_all_positions("aaa", "aa"), vec![0, 1]);
    assert_eq!(find_all_positions("abcabc", "bc"), vec![1, 4]);
    assert_eq!(find_all_positions("abc", "d"), Vec::<usize>::new());
    assert_eq!(find_all_positions("abc", ""), Vec::<usize>::new());
    assert_eq!(find_all_positions("ab", "abc"), Vec::<usize>::new());
    assert_eq!(find_all_positions("ab", "ab"), vec![0]);
}

#[test]
fn replacing_a_stretch() {
    assert_eq!(replace_at("abcd", 1, 2, "x"), "axd");
    assert_eq!(replace_at("abcd", 0, 0, "x"), "xabcd");
    assert_eq!(replace_at("abcd", 4, 0, "yz"), "abcdyz");
    assert_eq!(replace_at("abcd", 0, 4, ""), "");
}

#[test]
fn positions_and_stretches_count_bytes() {
    assert_eq!(find_all_positions("éa", "a"), vec![2]);
    assert_eq!(find_all_positions("aé€ab", "ab"), vec![6]);
    assert_eq!(find_all_positions("€a€a", "a€"), vec![3]);
    assert_eq!(replace_at("éab", 2, 1, "x"), "éxb");
    assert_eq!(replace_at("a€b", 1, 3, "c"), "acb");
    assert_eq!(replace_at("a€b", 4, 1, ""), "a€");
}

#[test]
fn the_rule_sets() {
    assert_eq!(t_rules(), vec![(s("aa"), s("bb")), (s("ccb"), s("dca")), (s("a"), s("dcc")), (s("cd"), s("bc"))]);
    assert_eq!(tprime_base().len(), 6);
    assert_eq!(tprime_base()[4], (s("cccb"), s("bcca")));
    assert_eq!(gen_rule_n(0), (s("bccaccc"), s("cccca")));
    assert_eq!(gen_rule_n(1), (s("bccaccaccc"), s("ccccccca")));
    let tp = build_tprime(12);
    assert_eq!(tp.len(), 18);
    assert_eq!(tp[6], gen_rule_n(0));
    assert_eq!(tp[17], gen_rule_n(11));
    assert_eq!(build_tprime(0), tprime_base());
}

#[test]
fn options_are_ordered_by_rule_then_position() {
    assert_eq!(rewrite_options("aa", &t_rules()), vec![(0, 0), (0, 2), (1, 2)]);
    assert_eq!(rewrite_options("bbbb", &t_rules()), Vec::<(usize, usize)>::new());
}

#[test]
fn neighbors_go_both_ways_and_appear_once() {
    let tp = build_tprime(12);
    let nb = neighbors_tprime("aa", &tp);
    assert!(nb.contains(&s("bb")));
    assert!(nb.contains(&s("dcca")));
    assert!(nb.contains(&s("adcc")));
    let mut sorted = nb.clone();
    sorted.sort();
    sorted.dedup();
    assert_eq!(sorted.len(), nb.len());
    for t in &nb {
        assert!(one_rewrite("aa", t, &tp));
    }
    assert_eq!(nb.len(), 3);
}

#[test]
fn a_step_rewrites_once_or_reports_none() {
    let mut rng = rand::thread_rng();
    let rules = t_rules();
    let (t, ok) = step_t("bbbb", &mut rng, &rules);
    assert!(!ok);
    assert_eq!(t, "bbbb");
    for _ in 0..50 {
        let (t, ok) = step_t("aacd", &mut rng, &rules);
        assert!(ok);
        assert!(forward_rewrite("aacd", &t, &rules));
    }
    let tp = build_tprime(12);
    let (t, ok) = step_tp("bb", &mut rng, &tp);
    assert!(ok);
    assert_eq!(t, "aa");
}

#[test]
fn random_chains_are_chains() {
    let mut rng = rand::thread_rng();
    let rules = t_rules();
    for _ in 0..20 {
        let (t, did) = random_chain_t("abcdabcd", &mut rng, 2, 5, &rules);
        assert!(did <= 5);
        assert!(did >= 2 || rewrite_options(&t, &rules).is_empty());
    }
    let (t, did) = random_chain_t("bbbb", &mut rng, 1, 3, &rules);
    assert_eq!((t.as_str(), did), ("bbbb", 0));
    let tp = build_tprime(12);
    for _ in 0..20 {
        let chain = random_chain_tp("bbdcaccb", &mut rng, &tp, 3, 6);
        assert_eq!(chain[0], "bbdcaccb");
        assert!(chain.len() >= 1 && chain.len() <= 7);
        for i in 0..chain.len() - 1 {
            assert!(forward_rewrite(&chain[i], &chain[i + 1], &tp));
        }
        if chain.len() < 4 {
            assert!(rewrite_options(chain.last().unwrap(), &tp).is_empty());
        }
    }
}

#[test]
fn random_words_over_four_letters() {
    let mut rng = rand::thread_rng();
    for _ in 0..100 {
        let w = random_word(&mut rng, 10, 20);
        assert!(w.len() >= 10 && w.len() <= 20);
        assert!(w.chars().all(|c| "abcd".contains(c)));
    }
}

#[test]
fn generated_pairs_differ() {
    let mut rng = rand::thread_rng();
    let rules = t_rules();
    for _ in 0..10 {
        let (w, w2) = generate_pair(&mut rng, &rules);
        assert!(w.len() >= 10 && w.len() <= 20);
        assert!(w2.is_empty() || w2 != w);
    }
}

#[test]
fn search_on_equal_words_is_immediate() {
    let tp = build_tprime(12);
    assert_eq!(bfs_path_tprime("abc", "abc", &tp, 10), Some(vec![s("abc")]));
}

#[test]
fn search_finds_a_path_of_one_rewrite() {
    let tp = build_tprime(12);
    assert_eq!(bfs_path_tprime("aa", "bb", &tp, 300000), Some(vec![s("aa"), s("bb")]));
}

#[test]
fn search_finds_longer_paths() {
    let tp = build_tprime(12);
    let p = bfs_path_tprime("aacd", "bbbc", &tp, 300000).expect("a path exists");
    assert_eq!(p[0], "aacd");
    assert_eq!(p.last().unwrap(), "bbbc");
    for i in 0..p.len() - 1 {
        assert!(one_rewrite(&p[i], &p[i + 1], &tp) || one_rewrite(&p[i + 1], &p[i], &tp));
    }
    assert_eq!(p.len(), 3);
}

#[test]
fn search_without_a_path_gives_none() {
    let tp = build_tprime(12);
    assert_eq!(bfs_path_tprime("a", "b", &tp, 300000), None);
}

#[test]
fn search_gives_up_past_its_limit() {
    let tp = build_tprime(12);
    assert_eq!(bfs_path_tprime("aacd", "bbbc", &tp, 1), None);
}

#[test]
fn tprime_rewrites_can_be_undone() {
    let tp = build_tprime(12);
    for w in ["aacd", "bbdcaccb", "bccacccab"] {
        for t in neighbors_tprime(w, &tp) {
            assert!(neighbors_tprime(&t, &tp).contains(&w.to_string()), "{} -> {}", w, t);
        }
    }
}

#[test]
fn tprime_chains_never_lengthen_words() {
    let mut rng = rand::thread_rng();
    let tp = build_tprime(12);
    for _ in 0..30 {
        let w = random_word(&mut rng, 10, 20);
        let chain = random_chain_tp(&w, &mut rng, &tp, 5, 10);
        for i in 0..chain.len() - 1 {
            assert!(chain[i + 1].len() <= chain[i].len());
            assert!(chain[i + 1].chars().all(|c| "abcd".contains(c)));
        }
    }
}

#[test]
fn t_steps_are_tprime_links() {
    let mut rng = rand::thread_rng();
    let rules = t_rules();
    let tp = build_tprime(12);
    for _ in 0..30 {
        let w = random_word(&mut rng, 10, 20);
        let (t, ok) = step_t(&w, &mut rng, &rules);
        if ok {
            assert!(one_rewrite(&w, &t, &tp));
            assert!(neighbors_tprime(&w, &tp).contains(&t));
        }
    }
}

#[test]
fn a_drawn_option_rewrites_its_occurrence() {
    assert_eq!(apply_option("aacd", &t_rules(), (1, 2)), "adcccd");
    assert_eq!(apply_option("aacd", &t_rules(), (2, 3)), "aabc");
}

#[test]
fn neighbours_are_joined_directly() {
    let tp = build_tprime(12);
    assert_eq!(bfs_path_tprime("bb", "aa", &tp, 300000), Some(vec![s("bb"), s("aa")]));
    let p = bfs_path_tprime("aacd", "bbbc", &tp, 300000).unwrap();
    let mut q = p.clone();
    q.sort();
    q.dedup();
    assert_eq!(q.len(), p.len());
}

#[test]
fn picks_spell_a_word() {
    assert_eq!(word_from_picks(&vec![0, 1, 2, 3, 9]), "abcdd");
}

#[test]
fn chains_of_a_given_length() {
    let mut rng = rand::thread_rng();
    let rules = t_rules();
    assert_eq!(rewrite_chain("ab", &mut rng, 0, &rules), ("ab".to_string(), 0));
    let (w, n) = rewrite_chain("ab", &mut rng, 3, &rules);
    assert_eq!((w.as_str(), n), ("ddcdcc", 3));
    assert_eq!(rewrite_chain("b", &mut rng, 4, &rules), ("b".to_string(), 0));
    let tp = build_tprime(12);
    assert_eq!(rewrite_chain_words("cc", &mut rng, &tp, 5), vec!["cc".to_string()]);
    let c = rewrite_chain_words("bb", &mut rng, &tp, 1);
    assert_eq!(c, vec!["bb".to_string(), "aa".to_string()]);
}

#[test]
fn words_with_different_invariants_are_not_joined() {
    let tp = build_tprime(12);
    assert_eq!(bfs_path_tprime("a", "b", &tp, 1000), None);
}

#[test]
fn the_first_kept_attempt_gives_the_pair() {
    assert!(accept("ab", "ba", 5));
    assert!(!accept("ab", "ab", 6));
    assert!(!accept("ab", "ba", 4));
    let tries = vec![
        (s("abab"), s("baba"), 3),
        (s("cccc"), s("cccc"), 6),
        (s("aaaa"), s("bbbb"), 5),
        (s("dddd"), s("cccc"), 8),
    ];
    assert_eq!(pick_pair(&tries), (s("aaaa"), s("bbbb")));
    let rejected = vec![(s("abab"), s("baba"), 3), (s("cccc"), s("cccc"), 6)];
    assert_eq!(pick_pair(&rejected), (s("cccc"), String::new()));
}
