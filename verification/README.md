# orderbook

A price-level order book with verified updates, written in Verus.

- `src/event.rs`, `src/level.rs`, `src/mid.rs`: feed messages and ticks, levels,
  exact mid prices. Prices and sizes are whole counts of a unit that the caller
  picks.
- `src/model.rs`: the mathematical model. `BookView` is what a book holds;
  `processed`, `bids_cleared`, `asks_cleared` and `collected` say what each
  operation makes of it.
- `src/side.rs`: one side of the book, on a `BTreeMap` that is filed so that its
  first key is the best level.
- `src/orderbook.rs`: the book itself. Every operation is proved to do what the
  model says and to keep the book consistent.
- `src/ladder.rs`, `src/laws.rs`: what holds across operations.
- `app/`: the same book for feeds in floating point, which converts and calls
  the library.

A deleted level is no longer shown, but its sequence number is kept to tell late
updates until `fm_gc_zero_size_levels` forgets it.
