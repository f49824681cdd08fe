# rust-parallel

Runs commands in parallel, built from lines of stdin or input files, from
`:::` argument groups on the command line (their cartesian product), or
from blocks of stdin in pipe mode; optionally interpolates regex capture
groups into the arguments, wraps commands in a shell, and keeps the output
in input order.

Layout:

- `src/` is the verified library (Verus): the settings, the parsers that
  turn input into commands, regex interpolation, the path cache, command
  metrics, the keep-order output buffer and the progress style choice.
  Each public function has a contract over spec functions on `Seq`, `Map`
  and views; the laws of the library (cartesian product of argument groups,
  conservation of pipe data, output order, stability of the path cache)
  are public proof functions.
- `tests/` exercises the library on concrete values.
- `app/` is the program around it: command line parsing with clap, the
  tokio tasks that read input, run child processes and write output, and
  the progress bar.
