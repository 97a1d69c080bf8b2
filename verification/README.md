# dynparser

A dynamic PEG parser: a grammar is a value (a `SetOfRules`), built with
constructor functions or read at run time from a grammar written in PEG, and
the parser walks it over a text, starting at the rule `main`.

The library is verified with Verus: its functions carry contracts that
Verus proves. The few trusted items are wrappers of std's `Debug`
formatting and of `char::to_string`.

## Layout

- `src/lib.rs`: `parse` and `parse_debug`, with `parse_result`, the value a
  parse gives.
- `src/parser/`: positions, errors and the parse status (`mod.rs`); atoms
  (`atom.rs`); expressions, sets of rules and the evaluation of an
  expression (`expression.rs`), with the laws of the parser (ordered choice,
  negation that does not move, progress, repetition).

  A set of rules is a list of named expressions whose value is a map from
  names to expressions, a later entry replacing an earlier one of the same
  name. A list is used rather than a `HashMap` keyed by `String`, because
  Verus can state and prove what a list holds, while for such a map it
  proves nothing about the contents.
- `src/ast.rs`, `src/ast/flat.rs`: the tree a parse gives, pruning,
  compaction and flattening, with their laws.
- `src/peg/`: rules from a PEG text. `rules.rs` holds the grammar of PEG
  grammars, `model.rs` what reading a flattened tree into rules gives,
  `mod.rs` the reader, `gcode.rs` the Rust code of a set of rules,
  `peg2code.rs` the grammar of PEG grammars written in PEG.
- `src/grammar.rs`: the first grammar of PEG grammars, written by hand.
- `src/parsing.rs`, `src/terminal.rs`: terminals parsed on a text and a
  position.
- `src/text.rs`: small helpers on strings and chars.
- `app/main.rs`: prints the code of the rules of the grammar of PEG
  grammars.
- `tests/`: tests of the library.
