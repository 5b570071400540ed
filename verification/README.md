# functional

A small type checker for dependent type theory with a cubical interval, written in Verus.
Terms are de Bruijn indexed; building a term with `Term::ctn` brings it to normal form,
and `ContainedTerm::typed` gives its type. On top of the kernel the library builds the
usual principles of equality (reflexivity, symmetry, transitivity, congruence, transport,
Axiom J), the false type, natural numbers and booleans, and a printer that shows terms
with readable binder names.

Layout of `src/`:

- `model.rs`: the name-free model of terms that every contract speaks of.
- `semantics.rs`: the meaning of each kernel operation (shifting, substitution, normal
  forms, types, well-typedness) as spec functions over the model.
- `kernel.rs`, `ctypes.rs`: the executable terms and operations, each proved to compute
  what `semantics` says.
- `equals.rs`, `impossible.rs`, `numbers.rs`, `bool.rs`: theorems built as terms.
- `display.rs`: printing terms as text, with aliases.
- `parse.rs`: the shapes of the surface syntax.
- `laws.rs`: laws of the library, each stated on the inputs its `requires` names: the
  computation rules for all terms, the laws about paths and reflexivity only on terms
  without applications (see `rigid.rs`).
- `rigid.rs`: terms that rebuilding leaves alone, and how shifting, substitution and
  typing act on them; the laws about paths and reflexivity rest on it.
- `unique.rs`: shared handles to terms.

The kernel's recursion is bounded by a fuel of 2^64 - 1 nested steps for building a
term, and one less for typing, substitution and constancy checks, which is the fuel at
which building calls them; so the one-step computation rules in `laws.rs` hold between
the public operations. Past its fuel an operation reports an error.

The theorem terms (Axiom J, contractibility of singletons, the facts about addition, the
function out of the false type, the booleans) are checked, as they are built, to have the
types stated of them; their constructors fail otherwise, and their contracts state those
types.

`app/main.rs` is a small program that builds the boolean and natural-number data.
