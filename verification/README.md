# remy_core

The core of remy, a reactive framework for terminal interfaces, with its
behaviour stated in contracts and proved by Verus.

`src/` holds the logic:

- keys, chords and binding sets (`key`, `mods`, `chord`, `bind`, `keys`), the
  chord state machine (`dispatch`) and the walk of a key through the binding
  layers (`walk`);
- mouse regions: hit testing, hover, press and click (`mouse`);
- effects and the slots they read (`effects`), the commit queue (`queue`);
- the status machines of queries and resources, their retry and refresh
  policies (`query`, `resource`, `policy`, `opts`, `load`);
- state handles over a slot store (`proxy`), memos (`memo`), the render
  caches of components and their replay (`cache`);
- the decisions of the event loop (`frame`), focus groups (`focus`), and
  small value types (`period`, `id`, `flow`, `cx`).

Each module ends with its laws: public proof functions that state what holds
across calls, such as a press and release on one region being a click, a
bound chord running once its keys are pressed, or a disposed effect never
running again.

`app/` is the shell around it: conversions from crossterm's events, the tokio
task executor, terminal setup, the event loop that performs what the
library's key, mouse and frame decisions ask, and the loops that run effects
and reuse cached renders. `tests/` exercises the library on concrete
values.

Two containers are plain owned values here. The render caches are a
`HashMap` keyed by component id, and a resource keeps the value to roll back
to in an `Option`. Both are owned by the single event loop that uses them,
so the concurrent map and the atomic swap cell that shared ownership would
call for are not needed, and the standard map with integer keys is one whose
behaviour the verifier knows.
