# serde_codegen

The expansion of `#[derive(Deserialize)]`, verified with Verus.

`de::expand_derive_deserialize` takes a struct or an enum and adds an
implementation of `::serde::de::Deserialize` to a list. Its contract says which
implementation that is, down to the last token. `Decl::to_source` writes it as
source text.

- A unit struct is read from the unit value or from an empty sequence.
- A tuple struct is read from a sequence.
- A struct with named fields is read from a map. A field is known by its name,
  or by the literal that an attribute renames it to. A field that is missing
  gets its type's default where an attribute asks for that.
- An enum is read from a variant, by the variant's name.

Nothing can be derived for other items, nor for a struct that has named and
unnamed fields; `Item::rejection` tells.

What derived code does when it runs is proved too. `src/meaning.rs` defines how
generated code is evaluated against a deserializer that describes its data
itself. The deserializer, and the visitors it hands out, may fail at each call,
before or after they call the derived visitor. `src/outcome.rs` defines the value
or error that an input stands for, and `src/requests.rs` the calls that reading it
takes. `law_deserialize` in `src/laws.rs` states that derived code yields just
that value or error, with just these calls in this order. It holds for every
input, and for every item in whose derived code each name stands for what it is
meant to and whose renames are strings (`well_named` in `src/outcome.rs`). It is
about evaluation and supposes code that type-checks.

## Layout

- `src/` is the verified library.
- `app/` connects it to syntax trees of the `syntex_syntax` crate.
- `tests/` compares derived source text with what is expected, and has it read by
  a Rust parser. It also runs copies of derived implementations, written by hand.
