use langlab::rewrite_fuzz::{fuzz, fuzz_tp, Reach};
use langlab::rewriting::{build_tprime, replace_at};

fn one_rewrite(a: &str, b: &str, rules: &[(String, String)]) -> bool {
    rules.iter().any(|(l, r)| {
        (0..a.len()).any(|p| {
            (a[p..].starts_with(l.as_str()) && replace_at(a, p, l.len(), r) == b)
                || (a[p..].starts_with(r.as_str()) && replace_at(a, p, r.len(), l) == b)
        })
    })
}

fn check_path(p: &[String], from: &str, to: &str) {
    let tp = build_tprime(12);
    assert!(p.len() >= 2);
    assert_eq!(p[0], from);
    assert_eq!(p[p.len() - 1], to);
    for i in 0..p.len() - 1 {
        assert!(one_rewrite(&p[i], &p[i + 1], &tp) || one_rewrite(&p[i + 1], &p[i], &tp));
    }
}

#[test]
fn reachability_fuzz_reports_valid_paths() {
    let mut rng = rand::thread_rng();
    let report = fuzz(&mut rng, 2);
    assert_eq!(report.cases.len(), 2);
    assert_eq!(report.successful + report.failed, 2);
    let mut found = 0;
    for c in &report.cases {
        match &c.reach {
            Reach::Forward(p) => {
                check_path(p, &c.word, &c.rewritten);
                found += 1;
            }
            Reach::Backward(p) => {
                check_path(p, &c.rewritten, &c.word);
                found += 1;
            }
            Reach::Skipped => assert_eq!(c.attempts.len(), 200),
        }
        assert!(c.attempts.len() <= 200);
        for (w, w2) in &c.attempts {
            assert!((10..=20).contains(&w.len()));
            assert_ne!(w, w2);
        }
    }
    assert_eq!(found, report.successful);
}

#[test]
fn invariant_fuzz_finds_no_violation() {
    let mut rng = rand::thread_rng();
    let report = fuzz_tp(&mut rng, 2, 5, 10);
    assert!(report.rules_t.i && report.rules_t.p && report.rules_t.m);
    assert!(report.rules_tp.i && report.rules_tp.p && report.rules_tp.m);
    assert_eq!(report.cases.len(), 2);
    assert_eq!(report.failed, 0);
    for c in report.cases.iter().flatten() {
        assert!(c.chain.len() >= 2);
        assert_eq!(c.kept, (true, true, true));
    }
    assert_eq!(report.tried.len(), 2);
    for (case, tried) in report.cases.iter().zip(report.tried.iter()) {
        assert_eq!(case.is_none(), tried.len() == 200);
        for w in tried {
            assert!((10..=20).contains(&w.len()));
            assert!(w.chars().all(|ch| "abcd".contains(ch)));
        }
    }
}

#[test]
fn zero_cases_give_an_empty_report() {
    let mut rng = rand::thread_rng();
    let report = fuzz(&mut rng, 0);
    assert!(report.cases.is_empty());
    assert_eq!((report.successful, report.failed), (0, 0));
}
