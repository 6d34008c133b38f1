# des_sim

A tick-driven discrete event simulator whose core is proved correct with Verus.

A simulation is a model that handles events, sources that fire at ticks of their choosing and
schedule events, and hooks that observe each tick. The engine runs ticks one after another; each
tick runs micro-steps, and each micro-step fires the sources that are due and then hands the
events that are due to the model. A continuation strategy decides whether a tick that still has
work due after a micro-step may go on, and runners decide which tick comes next and when a run
ends.

Layout:

- `src/` is the verified library. `queue.rs` and `staged_queue.rs` hold the time-ordered
  queues; `event_scheduler.rs` and `source_handler.rs` hold events and sources by the tick they
  are due; `context/` holds what models and sources see; `execution/` holds the engine, the
  phases of a micro-step, the strategies and the runners. The contracts state what the library
  itself does: what is queued and handed out, which hooks it calls, in which order and with what
  (the calls that user code makes through a context are not among them), which events each
  micro-step hands the model, and which tick a run processes next. Of the user's code (models,
  sources, hooks) they state what is handed to it and what holds whatever it does; what it does
  is not stated. The public
  `law_*` proof functions state the properties that relate several calls.
- `app/` holds what waits on the wall clock or on threads: running with a pause between ticks,
  running at the pace of real time, running many simulations at once, and `Display` for the
  error of the limit-abort strategy.
- `tests/` runs the library on concrete scenarios.
