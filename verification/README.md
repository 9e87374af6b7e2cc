# launch-pad

Supervises child processes: it restarts those that fail, with exponential backoffs, passes file
descriptors on to them, and calls back for what they write and for their exits.

`src/` is the verified library. It decides and never waits:

- `manager` holds the settings and the managed processes, and answers requests;
- `supervisor` is the state machine that sees one process through, from event to action;
- `backoff` says how long to wait before a restart;
- `liveness` recognises a dead process that `waitpid` cannot report;
- `process`, `table`, `time`, `text`, `util`, `message` and `error` are what these rest on;
- `laws` states what holds of any run of a supervisor, and `history` of any sequence of calls on a
  manager.

`app/` is the asynchronous interface. It spawns, waits, signals and calls back as the library says,
and tells it what came of that.

`tests/` runs the library on concrete values.
