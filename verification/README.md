# easy_rs

Market-data core for an Alpaca quote/trade stream, written in Verus.

`src/` is the verified library:

- `symbols` / `lexorder` — the symbol registry: symbols sorted by code point, without
  duplicates, ids are positions; lookups by binary search.
- `ticks` — decimal text → integer ticks (10^8 per dollar), with the exact conversion rules
  as a specification.
- `classify` — Lee–Ready trade classification against the last NBBO.
- `quote_event`, `feed_msg`, `ring`, `sink` — normalized events, the bounded lock-free
  handoff queues and the fan-out of each quote. The sink keeps a ghost record of every push
  it made (with its outcome) and of every drop it counted; the contracts speak of that record,
  since what a shared queue holds depends on the other thread. The record is written by the
  sink's own code beside each call and is not checked against the queue.
- `feed`, `config` — normalization of stream quotes/trades, timestamps, feed source, the
  feed loop's per-frame decision, symbol-list and queue-capacity configuration.
- `pipeline` — per-symbol NBBO/last-trade rows of the aggregator.
- `store` — per-symbol plot series (samples, cumulative signed volume) with a fixed cap.
- `book`, `applier` — mirroring quotes into per-symbol `orderbook-rs` books; each symbol's
  state keeps a ghost record, written beside each call, of the requests handed to its book and
  the book's answers.
- `palette` — integer color rules of the dashboards.

`app/` is the program around it: the WebSocket feed (`apca`, Tokio), clocks, the aggregator
and consumer threads, floating-point display values, indicators, and the terminal UI
(`--tui`).
