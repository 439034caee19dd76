# hotel_cleaning

The rules of a hotel cleaning service, verified with Verus: cleaners, rooms
and cleaning tasks kept in one store, and the requests that read and change it.

- `src/` is the verified library. `model.rs` states what every request does
  to the store and answers; `handlers.rs` carries the requests out and is
  proved to do exactly that; `laws.rs` proves what holds across requests
  (the store's rules are kept, a lookup sees the last write, refusals change
  nothing, task progress follows its allowed steps).
- `app/` is the HTTP server (axum and tokio) around the library: it takes the
  lock, converts between JSON and the library's values, and answers.
- `tests/` runs the library on concrete stores.
