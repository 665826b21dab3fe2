# schedulers

A pool of worker schedulers, each running up to eight worker threads whose
busy state is one byte, with a single token passed round a ring that holds one
slot for every scheduler of the process, whatever pool it belongs to. A job for a data type is offered to the schedulers registered for that
type; the token holder gives it to its lowest free worker as a packed command
word, or passes the token on when all its workers are busy.

- `src/` is the verified library (Verus): busy masks (`bits`), command words
  (`commands`), the worker's reading of a command word (`worker`), one
  scheduler and what it does with a job (`scheduler`), the registry of
  schedulers by type (`registry`), pools, their start on the process-wide
  token ring and the offering of jobs (`pool`), and reading result bytes
  back into values (`from_bytes`).
- `app/` is the demonstration program: worker threads, channels, closures and
  the query of the machine's parallelism.
- `tests/` runs the library on concrete values.
