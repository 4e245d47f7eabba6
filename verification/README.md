# winderust

The policy core of a Windows process-steering utility, written in Verus and
proved against its contracts. It decides which processes get a GPU, I/O or
memory priority, when Memory Trim empties a working set, which background
processes Background Efficiency and the CPU Scheduler restrain, which power plan
Running App Detection asks for, and how the Workload Engine chooses cores. It
also covers the small binary and text formats the utility exchanges with
Windows: power-plan GUIDs and strings, CPU-set records, and status codes.

## Layout

- `src/` — the verified library. Each feature keeps its state in a manager
  type whose methods state how that state changes. A feature pass is written
  as steps with their own contracts:
  - a hold decision (automation off, feature off, foreground or session unknown);
  - target selection over the process list;
  - an apply plan per process, followed by recording the result;
  - the report.

  Work that alternates calls into Windows with decisions (ending a process
  tree, creating the adaptive power plan, applying processor values) is a step
  function: from the results so far to the next call, or the outcome.

  Readings from Windows (the process list, the session, priorities, CPU samples)
  are arguments. Laws that span several calls are public proof functions named
  `law_*`.
- `tests/` — tests run against the compiled library.
- `app/` — a small Windows program around the library. It makes the Windows
  calls (process snapshots, priorities, working sets, the single-instance mutex,
  ending process trees) and runs the feature passes in a loop, taking every
  decision from the library.
