//! The regular expressions that the recognizers of `automata` are held
//! against, compiled by the `regex` and `fancy_regex` crates, and the
//! differential test that compares all of them on random words.
use vstd::prelude::*;
use crate::automata;
use crate::language::{self as lang};

verus! {

/// `regex::Regex`, a compiled regular expression.
#[verifier::external_type_specification]
#[verifier::external_body]
pub struct ExRegex(regex::Regex);

/// `regex::Error`, the reason a pattern does not compile.
#[verifier::external_type_specification]
#[verifier::external_body]
pub struct ExRegexError(regex::Error);

/// `fancy_regex::Regex`, a compiled regular expression with look-around.
#[verifier::external_type_specification]
#[verifier::external_body]
pub struct ExFancyRegex(fancy_regex::Regex);

/// `fancy_regex::Error`, the reason a pattern does not compile or a match
/// could not be decided.
#[verifier::external_type_specification]
#[verifier::external_body]
pub struct ExFancyError(fancy_regex::Error);

/// Whether the `regex` crate finds a match of `pattern` in `haystack`.
pub uninterp spec fn regex_matches(pattern: Seq<char>, haystack: Seq<char>) -> bool;

/// What the `fancy_regex` crate answers on whether `pattern` matches somewhere
/// in `haystack`: `None` where its backtracking matcher gives up.
pub uninterp spec fn fancy_regex_outcome(pattern: Seq<char>, haystack: Seq<char>) -> Option<bool>;

/// Whether `fancy_regex` finds a match of `pattern` in `haystack`, where it decides.
pub open spec fn fancy_regex_matches(pattern: Seq<char>, haystack: Seq<char>) -> bool {
    fancy_regex_outcome(pattern, haystack) == Some(true)
}

/// Whether the `regex` crate accepts `pattern`.
pub uninterp spec fn regex_compiles(pattern: Seq<char>) -> bool;

/// Whether the `fancy_regex` crate accepts `pattern`.
pub uninterp spec fn fancy_regex_compiles(pattern: Seq<char>) -> bool;

/// Why a pattern could not be used.
#[derive(Debug, Clone, Copy, PartialEq, Eq)]
pub enum OracleError {
    /// The pattern does not compile.
    InvalidPattern,
    /// The backtracking matcher gave up on a haystack.
    MatchFailed,
}

/// A pattern compiled by the `regex` crate; its view is the pattern's text.
/// Only `CompiledRegex::new` builds one, from the text that the view gives.
pub struct CompiledRegex {
    re: regex::Regex,
    pattern: Ghost<Seq<char>>,
}

impl View for CompiledRegex {
    type V = Seq<char>;

    closed spec fn view(&self) -> Seq<char> {
        self.pattern@
    }
}

/// A pattern compiled by the `fancy_regex` crate; its view is the pattern's
/// text. Only `CompiledFancyRegex::new` builds one, from the text that the view gives.
pub struct CompiledFancyRegex {
    re: fancy_regex::Regex,
    pattern: Ghost<Seq<char>>,
}

impl View for CompiledFancyRegex {
    type V = Seq<char>;

    closed spec fn view(&self) -> Seq<char> {
        self.pattern@
    }
}

/// Calls `regex::Regex::new`: the compiled pattern, or the crate's error;
/// which patterns compile is named `regex_compiles`.
#[verifier::external_body]
fn regex_new(pattern: &str) -> (r: Result<regex::Regex, regex::Error>)
    ensures
        r is Ok == regex_compiles(pattern@),
{
    regex::Regex::new(pattern)
}

/// Calls `regex::Regex::is_match` on the regex that `re` holds, which was
/// compiled from the text `re@`; the answer is named `regex_matches`.
#[verifier::external_body]
fn regex_is_match(re: &CompiledRegex, haystack: &str) -> (b: bool)
    ensures
        b == regex_matches(re@, haystack@),
{
    re.re.is_match(haystack)
}

/// Calls `fancy_regex::Regex::new`: the compiled pattern, or the crate's
/// error; which patterns compile is named `fancy_regex_compiles`.
#[verifier::external_body]
fn fancy_regex_new(pattern: &str) -> (r: Result<fancy_regex::Regex, fancy_regex::Error>)
    ensures
        r is Ok == fancy_regex_compiles(pattern@),
{
    fancy_regex::Regex::new(pattern)
}

/// Calls `fancy_regex::Regex::is_match` on the regex that `re` holds, which
/// was compiled from the text `re@`; the answer, or that the matcher gave up,
/// is named `fancy_regex_outcome`.
#[verifier::external_body]
fn fancy_regex_is_match(re: &CompiledFancyRegex, haystack: &str) -> (r: Result<bool, fancy_regex::Error>)
    ensures
        match r {
            Ok(b) => fancy_regex_outcome(re@, haystack@) == Some(b),
            Err(_) => fancy_regex_outcome(re@, haystack@) is None,
        },
{
    re.re.is_match(haystack)
}

impl CompiledRegex {
    /// Compiles `pattern` with the `regex` crate.
    pub fn new(pattern: &str) -> (r: Result<CompiledRegex, OracleError>)
        ensures
            r is Ok == regex_compiles(pattern@),
            r matches Ok(c) ==> c@ == pattern@,
            r matches Err(e) ==> e == OracleError::InvalidPattern,
    {
        match regex_new(pattern) {
            Ok(re) => Ok(CompiledRegex { re, pattern: Ghost(pattern@) }),
            Err(_) => Err(OracleError::InvalidPattern),
        }
    }

    /// Whether the pattern matches somewhere in `haystack`.
    pub fn is_match(&self, haystack: &str) -> (b: bool)
        ensures
            b == regex_matches(self@, haystack@),
    {
        regex_is_match(self, haystack)
    }
}

impl CompiledFancyRegex {
    /// Compiles `pattern` with the `fancy_regex` crate.
    pub fn new(pattern: &str) -> (r: Result<CompiledFancyRegex, OracleError>)
        ensures
            r is Ok == fancy_regex_compiles(pattern@),
            r matches Ok(c) ==> c@ == pattern@,
            r matches Err(e) ==> e == OracleError::InvalidPattern,
    {
        match fancy_regex_new(pattern) {
            Ok(re) => Ok(CompiledFancyRegex { re, pattern: Ghost(pattern@) }),
            Err(_) => Err(OracleError::InvalidPattern),
        }
    }

    /// Whether the pattern matches somewhere in `haystack`; `MatchFailed`
    /// when the backtracking matcher gives up.
    pub fn is_match(&self, haystack: &str) -> (r: Result<bool, OracleError>)
        ensures
            r matches Ok(b) ==> fancy_regex_outcome(self@, haystack@) == Some(b),
            r matches Err(e) ==> e == OracleError::MatchFailed && fancy_regex_outcome(self@, haystack@) is None,
    {
        match fancy_regex_is_match(self, haystack) {
            Ok(b) => Ok(b),
            Err(_) => Err(OracleError::MatchFailed),
        }
    }
}

} // verus!

verus! {

/// The pattern of the language as written in the textbook.
pub open spec fn academic_pattern() -> Seq<char> {
    "^((a|b)*aa*b(a|b)*|bb*a(a|b)*)abab(a|b)(a|b)$"@
}

/// A shorter pattern for the same language.
pub open spec fn equivalent_pattern() -> Seq<char> {
    "^(aa*b|bb*a)(a|b)*abab(a|b)(a|b)$"@
}

/// The same language with a look-ahead that restricts the alphabet.
pub open spec fn extended_pattern() -> Seq<char> {
    "^(?=[ab]*$)(a+b|b+a).*abab..$"@
}

/// The three regular expressions, compiled.
pub struct RegexOracles {
    pub academic: CompiledRegex,
    pub equivalent: CompiledRegex,
    pub extended: CompiledFancyRegex,
}

/// What each recognizer answers on one word.
#[derive(Debug, Clone, Copy, PartialEq, Eq)]
pub struct Verdicts {
    pub academic: bool,
    pub equivalent: bool,
    pub dfa: bool,
    pub nfa: bool,
    pub afa: bool,
    pub extended: bool,
    pub extended_re: bool,
}

/// Every recognizer gives the answer of the academic regular expression.
pub open spec fn verdicts_agree(v: Verdicts) -> bool {
    &&& v.academic == v.equivalent
    &&& v.academic == v.dfa
    &&& v.academic == v.nfa
    &&& v.academic == v.afa
    &&& v.academic == v.extended
    &&& v.academic == v.extended_re
}

/// The outcome of a run of random tests.
#[derive(Debug, Clone, PartialEq, Eq)]
pub enum FuzzOutcome {
    /// The first word on which the recognizers disagree, with their answers.
    Mismatch { word: String, verdicts: Verdicts },
    /// Every word drew the same answer from every recognizer.
    AllPassed { passed: usize },
}

impl Verdicts {
    /// Whether every recognizer gave the answer of the academic regular expression.
    pub fn agree(&self) -> (r: bool)
        ensures
            r == verdicts_agree(*self),
    {
        self.academic == self.equivalent && self.academic == self.dfa && self.academic == self.nfa
            && self.academic == self.afa && self.academic == self.extended && self.academic
            == self.extended_re
    }
}

impl RegexOracles {
    /// `w` has 6 to 30 letters over `{a, b}`, and each regular expression
    /// answers on it whether it is in the language.
    pub open spec fn agrees_on(&self, w: Seq<char>) -> bool {
        &&& 6 <= w.len() <= 30
        &&& lang::all_ab(w)
        &&& regex_matches(self.academic@, w) == lang::in_language(w)
        &&& regex_matches(self.equivalent@, w) == lang::in_language(w)
        &&& fancy_regex_outcome(self.extended@, w) == Some(lang::in_language(w))
    }

    /// Compiles the three patterns.
    pub fn new() -> (r: Result<RegexOracles, OracleError>)
        ensures
            r is Ok == (regex_compiles(academic_pattern()) && regex_compiles(equivalent_pattern())
                && fancy_regex_compiles(extended_pattern())),
            r matches Ok(o) ==> {
                &&& o.academic@ == academic_pattern()
                &&& o.equivalent@ == equivalent_pattern()
                &&& o.extended@ == extended_pattern()
            },
            r matches Err(e) ==> e == OracleError::InvalidPattern,
    {
        let academic = CompiledRegex::new("^((a|b)*aa*b(a|b)*|bb*a(a|b)*)abab(a|b)(a|b)$")?;
        let equivalent = CompiledRegex::new("^(aa*b|bb*a)(a|b)*abab(a|b)(a|b)$")?;
        let extended = CompiledFancyRegex::new("^(?=[ab]*$)(a+b|b+a).*abab..$")?;
        Ok(RegexOracles { academic, equivalent, extended })
    }

    /// Runs every recognizer on `word`.
    pub fn evaluate_word(&self, word: &str) -> (r: Result<Verdicts, OracleError>)
        ensures
            r is Ok == fancy_regex_outcome(self.extended@, word@) is Some,
            r matches Ok(v) ==> {
                &&& v.academic == regex_matches(self.academic@, word@)
                &&& v.equivalent == regex_matches(self.equivalent@, word@)
                &&& v.extended_re == fancy_regex_matches(self.extended@, word@)
                &&& v.dfa == lang::in_language(word@)
                &&& v.nfa == lang::in_language(word@)
                &&& v.afa == lang::in_language(word@)
                &&& v.extended == lang::in_language(word@)
            },
            r matches Err(e) ==> e == OracleError::MatchFailed,
    {
        let academic = self.academic.is_match(word);
        let equivalent = self.equivalent.is_match(word);
        let dfa = automata::dfa_accepts(word);
        let nfa = automata::nfa_accepts(word);
        let afa = automata::afa_accepts(word);
        let extended = automata::extended_regex_accepts(word);
        let extended_re = self.extended.is_match(word)?;
        Ok(Verdicts { academic, equivalent, dfa, nfa, afa, extended, extended_re })
    }

    /// Draws `tests` random words of length `6..=30` over `{a, b}` and stops at
    /// the first one on which the recognizers disagree. The automata always
    /// answer membership in the language, so a disagreement is one of the
    /// regular expressions answering otherwise.
    pub fn fuzz(&self, rng: &mut rand::rngs::ThreadRng, tests: usize) -> (r: Result<FuzzOutcome, OracleError>)
        ensures
            r matches Ok(FuzzOutcome::AllPassed { passed }) ==> passed == tests && exists|ws: Seq<Seq<char>>|
                ws.len() == tests && forall|i: int| 0 <= i < tests ==> #[trigger] self.agrees_on(ws[i]),
            r matches Ok(FuzzOutcome::Mismatch { word, verdicts }) ==> {
                &&& 6 <= word@.len() <= 30
                &&& lang::all_ab(word@)
                &&& !verdicts_agree(verdicts)
                &&& verdicts.academic == regex_matches(self.academic@, word@)
                &&& verdicts.equivalent == regex_matches(self.equivalent@, word@)
                &&& verdicts.extended_re == fancy_regex_matches(self.extended@, word@)
                &&& verdicts.dfa == lang::in_language(word@)
                &&& verdicts.nfa == lang::in_language(word@)
                &&& verdicts.afa == lang::in_language(word@)
                &&& verdicts.extended == lang::in_language(word@)
                &&& (regex_matches(self.academic@, word@) != lang::in_language(word@)
                    || regex_matches(self.equivalent@, word@) != lang::in_language(word@)
                    || fancy_regex_matches(self.extended@, word@) != lang::in_language(word@))
            },
            r matches Err(e) ==> e == OracleError::MatchFailed && exists|w: Seq<char>|
                6 <= w.len() <= 30 && lang::all_ab(w) && #[trigger] fancy_regex_outcome(self.extended@, w) is None,
    {
        let mut t: usize = 0;
        let ghost mut seen: Seq<Seq<char>> = Seq::empty();
        while t < tests
            invariant
                t <= tests,
                seen.len() == t,
                forall|i: int| 0 <= i < t ==> #[trigger] self.agrees_on(seen[i]),
            decreases tests - t,
        {
            let word = automata::random_word(rng, 6, 30);
            let evaluated = self.evaluate_word(word.as_str());
            let verdicts = match evaluated {
                Ok(v) => v,
                Err(e) => {
                    assert(fancy_regex_outcome(self.extended@, word@) is None);
                    return Err(e);
                },
            };
            if !verdicts.agree() {
                return Ok(FuzzOutcome::Mismatch { word, verdicts });
            }
            proof {
                assert(regex_matches(self.academic@, word@) == lang::in_language(word@));
                assert(regex_matches(self.equivalent@, word@) == lang::in_language(word@));
                assert(fancy_regex_outcome(self.extended@, word@) == Some(lang::in_language(word@)));
                assert(self.agrees_on(word@));
                let s2 = seen.push(word@);
                assert forall|i: int| 0 <= i < t + 1 implies #[trigger] self.agrees_on(s2[i]) by {
                    if i < t {
                        assert(s2[i] == seen[i]);
                    } else {
                        assert(s2[i] == word@);
                    }
                }
                seen = s2;
            }
            t = t + 1;
        }
        Ok(FuzzOutcome::AllPassed { passed: tests })
    }
}

} // verus!
