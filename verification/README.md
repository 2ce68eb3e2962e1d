# fs-syntax

A lexer, parser, syntax tree, pretty-printer and tree walker for Onshape
FeatureScript, verified with Verus, and a small command-line front end with a
tree-walking interpreter.

## Layout

```
src/            the verified library
  text.rs         character classes, UTF-8 widths and offsets, small string builders
  span.rs         byte spans, line/column lookup
  token.rs        tokens and keywords
  lexer.rs        the tokenizer, and the token sequence it produces as a spec function
  number.rs       which numeric literals parse as numbers; version-header values
  ast.rs          the syntax tree, its views and deep copies
  parser.rs       the grammar as spec functions, and the recursive-descent parser proved against it
  grammar.rs      laws of the expression grammar: soft keywords, operator levels and grouping
  print.rs        the printed form as spec functions, and the printer proved against it
  relex.rs        token spellings, and the proof that the lexer reads them back
  visit.rs        the `Visitor` hooks, the children of each node, and the `walk_*` functions
  stats.rs        item counts, exports and imported paths of modules, and the import ranking
  value.rs        the interpreter's enum and type declarations
  error.rs        diagnostics and their rendering
tests/          tests of the library
app/            the `fscript` command line and the interpreter it runs (its numbers
                are floating point, so it stays outside the verified library)
```

Every public function of `src/` states in its contract exactly what it
returns: `parse_module(src)` returns the view `parse_module_spec(src@)`,
`print_expr(e)` returns `pr_expr("", e@, 0)`, and so on. Among the laws proved:
a string literal the printer writes is lexed back as the same string
(`print::lemma_string_literal_round_trip`), and a keyword's spelling reads
back as the keyword (`token::lemma_keyword_round_trip`), and the spellings of
any sequence of tokens, each followed by a space, lex back to exactly those
tokens (`relex::lemma_spaced_tokens_relex`). Where a name or an expression is
expected, a soft keyword reads as the identifier it spells and a hard one is
refused (`grammar::lemma_soft_keywords_are_names`,
`grammar::lemma_soft_keyword_expressions`); the parser's operator levels are
the printer's precedences (`grammar::lemma_binary_levels_match_printer`); and
a binary expression parsed at a level stops before any looser operator, which
is why operators other than `^` group to the left
(`grammar::lemma_binary_stops_below`). That parsing the printer's output gives
the same tree back is not proved, for expressions or for modules.
With doc comments dropped the lexer emits none
(`lexer::lemma_dropped_docs_stay_out`), and otherwise gives exactly the
tokens, spans and errors it gives with them kept, less the doc-comment tokens
(`lexer::lemma_dropping_docs_filters_them`). Every token stream ends with its
one `Eof` token, spanning the end of input
(`lexer::lemma_token_stream_ends_with_eof`), and its spans are in source order
without overlap (`lexer::lemma_token_spans_ordered`).

The `*_children` functions of `visit` state exactly which child nodes each
node has, in source order. The `walk_*` functions go through those lists and
call the `Visitor` hooks, which are the user's code; what the hooks receive is
not stated in a contract.

## CLI

```
fscript check <path>...          parse files / directories, report failures
fscript dump <file> [--json]     print the syntax tree
fscript tokens <file>            print the token stream
fscript stats <path>...          summarize declarations across files
fscript eval --std <dir> [-m module.fs] <expr>
fscript std-check --std <dir> [--verbose]
```
