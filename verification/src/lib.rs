//! Recognizers for a regular language over `{a, b}`, an Earley recognizer for
//! context-free grammars over `{a, b}`, and string rewriting over `{a, b, c, d}`.
pub mod automata;
pub mod earley;
pub mod equivalence;
pub mod grammar;
pub mod grammars;
pub mod language;
pub mod oracle;
pub mod random;
pub mod rewrite_fuzz;
pub mod rewriting;
pub mod search;
pub mod text;
pub mod invariants;
pub mod refinement;
