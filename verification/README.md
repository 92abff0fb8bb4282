# scaler

`scaler` runs a command under normalized CPU and memory limits
(`systemd-run --user --scope` on Linux, `taskpolicy` on macOS), watches it,
and prints a summary card when it ends. Runs can also be detached and
queried later with `scaler status`.

Layout:

- `src/` — the library, verified with Verus: limit parsing, launch plans and
  the argv of each backend, capability detection from probe results, the
  run-loop decisions (sampling schedule, Ctrl-C escalation, peak tracking),
  process-tree aggregation of `ps` output, the summary card, the doctor
  report, the status list and detail, and the records of detached runs.
- `app/` — the `scaler` program around it: command-line parsing with clap,
  host probes, spawning and signalling processes, the terminal dashboard,
  and reading and writing the state directory.
- `tests/` — tests of the library.
