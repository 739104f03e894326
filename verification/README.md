# can_pattern

Canonicalization of patterns, verified with [Verus](https://github.com/verus-lang/verus).

A pattern as the parser reads it (`ast::Pattern`) is turned into its canonical form
(`pattern::Pattern`): identifiers are resolved to symbols and checked for shadowing, tags
get type variables, and patterns that are not supported where they stand become runtime
errors, each of which is reported. On the way the headers and constraints are collected
that the type solver needs.

- `src/pattern/canonical.rs`: the canonical form of a pattern
- `src/pattern/constrain.rs`: headers and constraints
- `src/pattern/idents.rs`: the names that patterns introduce
- `src/pattern/laws.rs`: what holds of all of this together
- `src/collections.rs`: the maps and vectors, among them those of the `im-rc` crate
- `app/`: canonical patterns with floating-point numbers
