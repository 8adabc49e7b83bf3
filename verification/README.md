# ax-id

64-bit, time-sortable unique identifiers: a 40-bit millisecond timestamp
(since 2024-01-01T00:00:00Z), a 10-bit node id and a 13-bit sequence.

The library in `src/` is verified with Verus:

- `layout` — the bit layout, as constants and as arithmetic, with the laws
  that tie shifts and masks to it and identifier order to (timestamp,
  sequence) order;
- `text` — whitespace, digits, `from_str_radix`-style parsing and digit
  formatting;
- `id` — the `Id` type: field access, its 16-digit hex text and parsing,
  with the proof that parsing the text gives the identifier back;
- `order` — identifiers, and their texts, sort as their raw values;
- `error` — `IdError` and its messages;
- `clock` — the wall clock as milliseconds since the custom epoch;
- `node` — configured and random node ids;
- `batch` — the decisions on the shared state: which block of sequence
  numbers a caller may reserve. It proves, of the plans, that every state a
  reservation plans to write is larger than the one it read, and that a
  block reserved from a state at or after the one an earlier reservation
  wrote comes wholly after that earlier block. `generate` states what it
  hands to the compare-exchange (the state it read, and the planned state
  after the block), recorded in the caller's cache; the atomic word itself
  has no model here;
- `generator` — `Generator`, whose `generate` and `generate_simple` make one
  attempt each, with the caller's per-thread cache passed in (`generate`
  reads the wall clock; `generate_simple` on a generator made by
  `with_timestamp` uses that fixed timestamp); what follows
  each read of the clock or of the shared state is decided by verified steps
  (`attempt_for`, `simple_step`) that take the values read as arguments.

`app/` is the command line tool, the per-thread caches and waiting loops
around the attempts, the process-wide generator, and the integrations with
serde, bytemuck, zerocopy, rkyv, borsh, arbitrary, sqlx, diesel and sea-orm.
