# OmniInfer

The decisions of a local inference gateway, verified with Verus: which runtime serves a
request, whether a model fits into memory, how a runtime process is started, watched and
ended, how a managed runtime is installed inside WSL2, and what a benchmark may submit.

- `src/` is the library. Everything in it is verified.
  - `text`, `json`, `paths`, `failure`: texts, values and failures
  - `resources`: memories, budgets, estimates and the ledger of what is held
  - `runtime`: launch arguments, plans, and the life of a runtime process
  - `manager`: the runtimes that a gateway has loaded, and the course of a load
  - `benchmark`: what is measured, checked, redacted and submitted
  - `wsl`: managed runtimes inside the Windows Subsystem for Linux
  - `tui`: the interactive console
  - `outside`: the calls into other crates, and what is relied on of each
- `tests/` runs the library on concrete values.
- `app/` is ordinary Rust around the library: processes, files, the network, the clock,
  and floating-point metrics.

Work that alternates with the outside world is written as machines: a value says what to
look at or to do next, and is told how that went. The contract of its step says what
follows, and the public proof functions beside it state what holds of every course.
