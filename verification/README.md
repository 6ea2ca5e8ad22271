# netra

The browser core of Netra: tab lifecycle and sequencing, URL normalization,
per-tab navigation state, the intake of native WebView2 events and the
control plans that drive the native host. The core is written in Verus and
its behaviour is proved against the contracts in `src/`.

## Layout

- `src/browser/`: the tab manager (creation, closing, activation, idle and
  least-recently-used suspension), URL normalization, the browser state that
  applies native events, and the controller that turns each operation into a
  state update plus a control plan (native commands, then events).
- `src/domain/`: the shared entities (tabs, browser events, internal events,
  snapshots, bookmarks, downloads, history entries, filter lists).
- `src/ffi/`: the decoding of native event records, the wire codes sent back
  to Flutter, and the checks made at the C boundary.
- `src/text.rs`: character-level helpers (trimming, searching, decimals).
- `src/clock.rs`, `src/ids.rs`: the clocks (the wall clock, and the
  monotonic millisecond clock each tab manager ages its tabs by) and random
  tab identifiers, the places where the core calls code whose result it
  cannot predict.
- `app/`: the C ABI and the Dart bridge entry points, the process-wide
  controller behind a mutex, the event bus, the native callbacks, and
  serializable copies of the data types.
- `tests/`: behavioural tests run against the compiled library.
