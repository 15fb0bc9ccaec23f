# brush_parser

A verified parser for the shell language: words, expansions, redirections,
assignments, pipelines, and/or lists, compound commands (`{ }`, `( )`, `if`,
`while`/`until`, `for`, arithmetic `for`, `case`, `((...))`, `[[ ... ]]`),
function definitions and whole programs.

Every parser reads a slice of characters from a position and answers where it
stopped and what it read. Its contract ties that answer to a specification over
`Seq<char>` (the modules `grammar`, `word_parsers`, `char_parsers`, ...), and
Verus proves each parser against its specification: no panics, no overflow, and
exactly the result the grammar defines, including when it fails.

Layout:

- `src/chars.rs`, `src/char_parsers.rs`, `src/line_parsers.rs`: characters,
  blanks, comments, line breaks and separators.
- `src/word_parsers.rs`: words, quotes, expansions, reserved words.
- `src/command_parsers.rs`: redirections, assignments, command prefixes.
- `src/arith.rs`, `src/extended_test_parsers.rs`: `((...))` and `[[ ... ]]`.
- `src/grammar.rs`: the mutually recursive grammar of commands, as spec
  functions; `src/and_or_parsers.rs`, `src/compound_parsers.rs`,
  `src/control_flow_parsers.rs`, `src/function_parsers.rs`,
  `src/program_parsers.rs` implement it.
- `src/ast.rs`: the syntax tree and its mathematical model.
- `src/laws.rs`: properties that hold for every input.
- `src/users.rs`, `src/context.rs`: user queries and builtin results.
- `app/`: what touches the operating system (home directory, user name) and the
  execution context of builtins.
