# ctutils

A verified library in three parts:

- **Constant-time utilities**: `Choice` (a constant-time `bool`), `CtOption` (a constant-time
  `Option` whose combinators always run), and the `Ct*` traits for equality, ordering,
  selection, assignment, negation, lookup and search, implemented for integers, arrays,
  slices and `Ordering`. Conditional moves go through the `cmov` crate.
- **Block utilities**: `Dbl`, doubling and inverse doubling of 64-, 128- and 256-bit blocks
  over GF(2^n), and `DigestBuffer`, the block buffer of a hash function.
- **ASN.1 DER** (`der`): tags, lengths, headers, `Any`, the built-in types (`BOOLEAN`,
  `INTEGER`, `BIT STRING`, `OCTET STRING`, `NULL`, `OBJECT IDENTIFIER`, `SEQUENCE`,
  `SET OF`, context-specific fields, big unsigned integers, strings), a `Decoder` and an
  `Encoder` that refuse further work after an error, and slice-based free functions.
  Object identifiers are checked and parsed by the `const-oid` crate.

Every function of `src/` carries a contract proved by Verus: what it returns in terms of
specification functions over sequences of octets, and laws such as "decoding an encoding
gives the value back" and "the only accepted encoding of a value is its DER encoding".

`app/` holds the code generators of the `Choice` and `Message` custom derives, which build
token streams with `syn`, `quote` and `synstructure` and so stay outside the verified part.
