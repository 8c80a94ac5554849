use langlab::automata::{
    afa_accepts, dfa_accepts, ext_automaton_accepts, extended_regex_accepts, nfa_accepts, prefix_accepts,
    random_word, suffix_accepts, word_from_coins,
};
use langlab::oracle::{CompiledFancyRegex, CompiledRegex, FuzzOutcome, OracleError, RegexOracles};

fn all_recognizers(word: &str) -> [bool; 5] {
    [
        dfa_accepts(word),
        nfa_accepts(word),
        afa_accepts(word),
        ext_automaton_accepts(word),
        extended_regex_accepts(word),
    ]
}

#[test]
fn words_of_the_language_are_accepted_by_every_recognizer() {
    for w in ["abababaa", "baababba", "aabababab", "bbbaabababbb", "ababbaabababab"] {
        assert_eq!(all_recognizers(w), [true; 5], "{}", w);
    }
}

#[test]
fn words_outside_the_language_are_rejected_by_every_recognizer() {
    for w in ["", "abab", "aaaaabab", "bbbbababab", "ababab", "abababa", "abababac", "cbababaa"] {
        assert_eq!(all_recognizers(w), [false; 5], "{}", w);
    }
}

#[test]
fn prefix_needs_both_letters() {
    assert!(prefix_accepts("ab"));
    assert!(prefix_accepts("bba"));
    assert!(!prefix_accepts("aaaa"));
    assert!(!prefix_accepts("bbb"));
    assert!(!prefix_accepts(""));
    assert!(!prefix_accepts("abc"));
}

#[test]
fn suffix_is_abab_then_two_letters() {
    assert!(suffix_accepts("ababaa"));
    assert!(suffix_accepts("bbababbb"));
    assert!(!suffix_accepts("ababa"));
    assert!(!suffix_accepts("aabab"));
    assert!(!suffix_accepts("ababac"));
}

#[test]
fn recognizers_agree_with_the_regular_expressions() {
    let oracles = RegexOracles::new().expect("the patterns compile");
    for w in ["abababaa", "baababba", "aaaaabab", "ababab", "", "bbbbababab", "abbaababab"] {
        let v = oracles.evaluate_word(w).expect("the matcher decides");
        assert!(v.agree(), "{}", w);
        assert_eq!(v.academic, dfa_accepts(w));
    }
}

#[test]
fn regular_expressions_answer_on_a_member_and_a_non_member() {
    let academic = CompiledRegex::new("^((a|b)*aa*b(a|b)*|bb*a(a|b)*)abab(a|b)(a|b)$").unwrap();
    assert!(academic.is_match("abababaa"));
    assert!(!academic.is_match("aaaaabab"));
    let extended = CompiledFancyRegex::new("^(?=[ab]*$)(a+b|b+a).*abab..$").unwrap();
    assert_eq!(extended.is_match("abababaa"), Ok(true));
    assert_eq!(extended.is_match("abababcc"), Ok(false));
}

#[test]
fn invalid_patterns_are_reported() {
    assert!(matches!(CompiledRegex::new("(ab"), Err(OracleError::InvalidPattern)));
    assert!(matches!(CompiledFancyRegex::new("(ab"), Err(OracleError::InvalidPattern)));
}

#[test]
fn random_words_have_the_asked_length_and_alphabet() {
    let mut rng = rand::thread_rng();
    for _ in 0..200 {
        let w = random_word(&mut rng, 6, 30);
        assert!(w.len() >= 6 && w.len() <= 30);
        assert!(w.chars().all(|c| c == 'a' || c == 'b'));
    }
    let w = random_word(&mut rng, 4, 4);
    assert_eq!(w.len(), 4);
}

#[test]
fn random_words_draw_both_letters() {
    let mut rng = rand::thread_rng();
    let w = random_word(&mut rng, 200, 200);
    assert!(w.contains('a') && w.contains('b'));
}

#[test]
fn differential_fuzz_finds_no_disagreement() {
    let oracles = RegexOracles::new().unwrap();
    let mut rng = rand::thread_rng();
    match oracles.fuzz(&mut rng, 2000) {
        Ok(FuzzOutcome::AllPassed { passed }) => assert_eq!(passed, 2000),
        other => panic!("unexpected outcome {:?}", other),
    }
}

#[test]
fn coins_spell_a_word() {
    assert_eq!(word_from_coins(&vec![0, 1, 1, 0, 7]), "abbab");
    assert_eq!(word_from_coins(&vec![]), "");
}
