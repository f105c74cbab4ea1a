# fatality

Declarative annotations for `fatal` or `jfyi` error variants, with the
decisions behind them proved.

An error enum is annotated per variant (`#[fatal]`, `#[fatal(true)]`,
`#[fatal(false)]`, `#[fatal(forward)]`, or nothing), a struct as a whole.
The expansion implements `Fatality::is_fatal` from these annotations and,
with `#[fatality(splitable)]`, splits the enum into a fatal and an
informational ("just for your information") part that convert back.

Layout:

- `src/lib.rs`: the traits `Fatality`, `Split` and `Nested`, and `Nested`
  for `Result`.
- `src/text.rs`: whitespace, identifiers and comparisons on ranges of text.
- `src/attr.rs`: the attribute grammar (the arguments of `fatality`, of
  `#[fatal(..)]`, and the classification of attributes by their text).
- `src/decl.rs`: the annotated item as plain values, and which field a
  forward asks.
- `src/read.rs`: reading the item from its source text with `syn`, level
  by level, into those plain values; what `syn` hands back is taken as it
  comes, and the items built from it are stated exactly.
- `src/plan.rs`: the verdict of every variant, the kept attributes, the
  two parts of a split, and the rejections.
- `src/expand.rs`: the plan of one item, in the order the attribute and
  the item are read.
- `src/render.rs`: the generated code as text, and what its `split` arms
  and parts cover.
- `src/generate.rs`: the whole expansion of an item's text: the generated
  code, or the item followed by a compile error; and the law that every
  expansion follows its plan.
- `src/value.rs`: values of annotated enums and structs, with `Fatality`,
  `Split` and the conversions back, and the laws that relate them.
- `app/`: the attribute macro around the library: token streams to text
  and back, and `expander`.
