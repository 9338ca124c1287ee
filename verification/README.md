# helper

Test helper for the Aurora DSQL workshop, with its decision logic verified.

- `src/` is the library, verified:
  - `setup`: the batches in which accounts are seeded (schema setup and chapter 4's top-up);
  - `accounts`: random transfer pairs between distinct accounts;
  - `transfer`: the request and answer of the transfer function;
  - `text`, `tally`: character-level text search and per-text counts;
  - `stress`: scheduling and accounting of a closed-loop stress run;
  - `latency`, `sustained`: the sustained load's latency histogram, its
    additive-increase / back-off concurrency controller, its rate pacer and
    how each invocation's outcome is counted;
  - `chapters`, `cli`: which chapter is tested and how each check is judged.
- `app/` is the program around it: command line, database statements,
  function invocations, tasks, progress bars and the printed reports.
- `tests/` runs the library on concrete values.
