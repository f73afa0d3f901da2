# Finny - finite state machines, verified

Finite state machines with a declarative builder API, whose dispatch semantics, event
queues, timers and declaration checks are specified and proved with Verus.

## Layout

- `src/fsm` - the runtime. A machine is described by a transition table (`table`) and by
  its hooks (`dispatch::FsmBackend`: guards, actions, entry and exit actions, timers,
  sub-machines), each given by a spec function. `spec_dispatch` states what dispatching an
  event does; `FsmBackendImpl::dispatch_event` and the `FsmFrontend` methods are proved to
  do exactly that. `laws` holds the properties of dispatching that hold of every machine.
  `readme_fsm` is a small machine whose hooks do work, and `start_sub_machine` /
  `dispatch_to_submachine` run a machine that is a state of another.
- `src/derive` - the declaration side: the builder method calls of a definition function
  are parsed (`parse_fsm`), validated, split into regions (`validation`, with a `petgraph`
  graph), described (`meta`, `plantuml`) and turned into a transition table (`codegen`);
  `definition::build_fsm` runs all of it. `syntax` reads a definition function from its
  tokens (with `syn`), checks its signature and statements, and builds the machine.
- `src/decl` - the builder API itself.
- `src/timers.rs` - a timer service on the standard clock.
- `src/classic` - the first generation API: trait-described machines, a Vec queue, timers,
  declaration builders, and the inspection record with its console output and JSON diffs.
  `definition` and `derived` read a machine's description from the builder calls of a
  definition function or from the fields of a definition struct, `definition` also
  describes its regions, and `viz` writes the script that draws the machine.
- `app/` - what stays outside the verified library: error messages of the procedural
  macros, slog logging, queues shared between handles, printing.
- `tests/` - scenarios on concrete machines and values.
