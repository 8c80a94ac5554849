use langlab::invariants::{check_ends, check_rules, count_letters, inv_i, inv_m, inv_p, inv_vec, join_chain, status};
use langlab::rewriting::{build_tprime, random_chain_tp, t_rules};

fn s(x: &str) -> String {
    x.to_string()
}

#[test]
fn letters_are_counted() {
    assert_eq!(count_letters("abcda"), (2, 1, 1, 1));
    assert_eq!(count_letters(""), (0, 0, 0, 0));
    assert_eq!(count_letters("xyz"), (0, 0, 0, 0));
}

#[test]
fn invariant_values() {
    assert_eq!(inv_i("abc"), 1);
    assert_eq!(inv_i("abcd"), 0);
    assert_eq!(inv_i("é"), 0);
    assert_eq!(inv_p("ab"), 0);
    assert_eq!(inv_p("a"), 1);
    assert_eq!(inv_m("bbb"), 1);
    assert_eq!(inv_m("aac"), 3);
    assert_eq!(inv_m("bd"), 2);
    assert_eq!(inv_vec("bbb"), (1, 1, 1));
}

#[test]
fn t_and_tprime_keep_every_invariant() {
    let r = check_rules(&t_rules());
    assert!(r.i && r.p && r.m);
    let r = check_rules(&build_tprime(12));
    assert!(r.i && r.p && r.m);
}

#[test]
fn a_rule_that_breaks_m_only() {
    let r = check_rules(&vec![(s("a"), s("b"))]);
    assert!(r.i);
    assert!(r.p);
    assert!(!r.m);
    let r = check_rules(&vec![(s("a"), s("ab"))]);
    assert!(!r.i);
    assert!(!r.p);
    assert!(!r.m);
    let r = check_rules(&Vec::new());
    assert!(r.i && r.p && r.m);
}

#[test]
fn ends_of_a_chain() {
    assert_eq!(check_ends(&[s("aa"), s("bb")]), (true, true, true));
    assert_eq!(check_ends(&[s("a"), s("b")]), (true, true, false));
    assert_eq!(check_ends(&[s("a"), s("ab")]), (false, false, false));
    assert_eq!(check_ends(&[s("abc")]), (true, true, true));
}

#[test]
fn tprime_chains_keep_the_invariants() {
    let mut rng = rand::thread_rng();
    let tp = build_tprime(12);
    for _ in 0..50 {
        let chain = random_chain_tp("abcdabcdbbaacc", &mut rng, &tp, 5, 10);
        assert_eq!(check_ends(&chain), (true, true, true));
    }
}

#[test]
fn status_words() {
    assert_eq!(status(true), "OK");
    assert_eq!(status(false), "FAIL");
}

#[test]
fn chains_are_joined_with_arrows() {
    assert_eq!(join_chain(&[s("a"), s("b"), s("c")]), "a -> b -> c");
    assert_eq!(join_chain(&[s("ab")]), "ab");
    assert_eq!(join_chain(&[]), "");
}
