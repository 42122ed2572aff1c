# jue_world

The front end of Jue, a capability-aware Lisp: a tokenizer and parser for
Jue source, the abstract syntax tree and its printing, macro expansion,
capability analysis and checking by trust tier, escape analysis, lowering to
the stack code of the physics world, sandbox validation of that code,
resource limits, and structured error reporting.

The functions under `src/` are verified with Verus against contracts that
state their results over mathematical models (`Seq`, `Set`, `Map`, and spec
views of the syntax tree and tokens). The exceptions are a few small trusted
wrappers around std, each with a stated contract: Unicode letter and digit
tests on characters (`text.rs`), pushing a character onto a string, the
`Debug` text of a string, a character and a syntax tree, and the std hasher
that numbers variable names and capabilities. `src/laws.rs` gathers the properties
that relate several operations, such as mediation agreeing with the trust
tier, and macro expansion leaving macro-free trees unchanged.

Layout:

- `src/` the verified library, one module per concern (`tokenizer`,
  `parser`, `expression_parser`, `macro_system`, `escape_analysis`,
  `physics_compiler`, `sandbox`, ...).
- `compiler.rs` the whole pipeline from source text by trust tier: parse,
  expand macros, check capabilities against the tier, then build a core
  term with its proof (Formal, Verified) or stack code behind capability
  checks (Empirical, Experimental); `bytecode_generation.rs` lowers a tree
  to stack code and constants. A lambda there captures nothing from its
  surroundings: the closure is built with no captured values.
- `tests/` tests that run the library on concrete values.
- `app/` the parts outside the verifier: error types with `Display` and
  `std::error::Error`, JSON serialisation of structured errors.

Floats are carried as the decimal text they were written with; the core and
physics worlds that run the produced terms and code are separate crates and
are represented here by the data types the compiler builds for them. The
translation to core terms also builds their proofs (`src/core_proofs.rs`);
where a part has no proof, the core world's kernel supplies one, given to the
library as a table.

Maps keyed by strings or by capabilities (the FFI registry, the macro table,
variable scopes, capability sets) are held as vectors with an invariant that
no key occurs twice; registering a key again replaces its entry, as a map
would.
