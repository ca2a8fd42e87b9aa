# stylus_storage

Accessors for values kept in contract storage, verified with Verus.

Storage is a map from 256-bit slots to 32-byte words, every word zero until
written. An accessor names where one value sits (a slot and, for values
narrower than a word, the offset of its first byte from the left of the word),
reads and writes it in big-endian form, and remembers the value once read or
written.

- `src/bytes.rs`: big-endian encodings and byte surgery on words.
- `src/primitives.rs`: the values (unsigned and signed integers, byte arrays,
  addresses); conversions of integers to and from bytes go through
  `alloy_primitives`.
- `src/cache.rs`: storage itself.
- `src/accessors.rs`: one accessor per kind of value.
- `src/laws.rs`: read-back, isolation of writes, and coherence of the
  remembered value with storage.
- `app/lib.rs`: conversions between these values and `alloy_primitives` types.
