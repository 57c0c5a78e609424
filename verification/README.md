# tokio-interactive

Start external processes, talk to them line by line, and stop them.

- `src/` is the verified library: the description of a process to launch
  (`config`), the pool of running processes with their input and output
  channels (`pool`, `channel`), the errors (`error`), the handle to a running
  process with the decisions taken while waiting for output or for a process
  to exit (`handle`), and the framing of lines (`text`).
- `app/` runs the processes: the global pool behind a mutex, the spawned
  child, the tasks that pump its streams, the clock and the system calls that
  stop a process. It asks the library for every decision.
- `tests/` exercises the library, with real channels.
