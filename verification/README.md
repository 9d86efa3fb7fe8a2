# graphlink

A relational in-memory graph store, described by a small schema language:

```text
store: Store;
model Library { has_many Checkout; has_many Patron through Checkout; }
model Patron { index unique email; has_many Checkout; }
model Checkout {
    belongs_to Library (on_delete = cascade);
    belongs_to Patron (on_delete = restrict);
}
```

`src/` is the verified library:

* `tokens`, `parser` — the schema language, its grammar stated over token
  sequences, and a parser proved to follow it (errors and their positions
  included).
* `schema`, `relations` — the parsed schema and what it says about each model.
* `naming`, `codegen` — the names a model gets and the plan of the generated
  store: collections, key types, indexes, and the add/get/update/remove methods
  with the restrict checks, cascades and reverse links they carry (a removal is
  checked through its cascades before anything changes, and an update moves
  the record between parents when it changes a `belongs_to` field).
* `store` — the runtime pieces: `Collection` (backed by `slotmap`), typed keys
  `Id<M>`, `HasMany` and `BelongsTo`.
* `laws` — properties across these: default `restrict`, what removal checks,
  cascades and scrubs, what update relinks, index agreement, and, over the
  views that the `Collection` and `HasMany` contracts use, read-after-write and
  keys that are not handed out again.

`app/` turns macro input into tokens, reports parse errors at their spans, and
fills the code templates from the verified plan. The laws about removal and
indexes are stated over that plan; the code the templates produce is not
itself verified.
