# wlz

A small Wayland compositor on wlroots, with its logic verified by Verus.

- `src/wrapper/wl.rs` — the `wl_list` / `wl_signal` / `wl_listener` layer:
  a pool of list nodes whose raw links are proved to form disjoint rings,
  with `List`, `Listener`, `Signal` and the step-by-step emission of
  `wl_signal_emit_mutable`.
- `src/wrapper/{ptr,wlr,error,log}.rs` — the wlroots objects as non-null
  handles, how each C constructor's result becomes an object or an error,
  the log levels.
- `src/wlz.rs` — the compositor: its setup, the handling of new outputs,
  toplevels and popups, each as a state machine whose actions the program
  performs.
- `src/wlz_macros/` — the project's derives and attributes (`WlListeners`,
  `initialization`, `PtrWrapper`, `FromPtr`, `c_ptr`): which fields and
  items they accept, the errors they give, and the source text of what
  `WlListeners`, `initialization` and `PtrWrapper` generate, over a small
  model of the syntax they read.
- `app/` — the program: the C calls into libwayland and wlroots, the
  listeners that C signals reach, `main`.
- `extras/event_shim.c` — accessors for fields of wlroots objects, to be
  compiled against the wlroots 0.19 headers and linked with the program.
