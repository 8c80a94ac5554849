# langlab

A verified library for three small experiments in formal languages, written in
Verus.

- `language`, `automata`, `oracle`: the regular language
  `((a|b)*aa*b(a|b)*|bb*a(a|b)*)abab(a|b)(a|b)`, recognized by a DFA, an NFA,
  an alternating automaton and a hand-written automaton for an extended
  regular expression, each proved to decide the language; and the differential
  test against the `regex` and `fancy_regex` crates.
- `grammar`, `grammars`, `earley`, `equivalence`: context-free grammars over
  `{a, b}`, an Earley recognizer proved sound, and complete for grammars
  without empty right-hand sides, and the comparison of a grammar with its
  intersections with an LL(1) and an LR(0) automaton on pseudo-random words.
- `rewriting`, `search`, `invariants`, `rewrite_fuzz`: string rewriting over
  `{a, b, c, d}` with the rule sets `T` and `T'`, a bidirectional search for a
  `T'`-path between two words (proved sound, and complete up to its depth and
  size limits), and the invariants `I`, `P`, `M` that both rule sets keep.
- `text`, `random`: small helpers on strings and random numbers.

`app/` runs the experiments and prints their reports:
`regex`, `grammars`, `reach`, `invariants`, or all of them.
