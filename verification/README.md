# registry_search

A search through the Windows registry, with a menu on the terminal.

- `src/` is the library. It is verified with Verus: matching and reporting, the queue of keys and
  the workers that share it, the run control, the menu, and what the screens show.
- `app/` is the program around it: the registry, the terminal, the threads and the log.
- `tests/` runs the library on examples.

The laws that hold of the library as a whole are the public proof functions whose names begin
with `law_`; `src/coverage.rs` holds those that say what a search comes to, and `src/ending.rs`
those that say that it ends. What is trusted and not proved stands in `src/text.rs` (lower case,
substrings), `src/clock.rs` (the clock), `src/layout.rs` (splitting the terminal) and
`src/worker_runtime.rs` (the number of processors).
