# zipmt_rust

Parallel gzip, bzip2 and xz compression with an interactive dashboard.

The library under `src/` is verified with Verus:

- `pipeline` – the runtime controls of a job (pause, abort, throttle,
  compression level, chunk size, active workers), every update validated,
  with the laws that keep them valid; progress events and job routes.
- `compressor` – the three formats: one-shot encoding, chunk-by-chunk
  streams for inputs too large to hold, and integrity checks through
  flate2, bzip2 and xz2; and the control steps taken before each chunk.
- `split_mode` – cutting a file into equal ranges that tile it.
- `stream_mode` – numbering chunks, the reader and worker decisions, and the
  reorder buffer that writes compressed chunks back in sequence whatever
  order they finish in.
- `tui` – the dashboard state and the reducer that folds progress events
  into it; `tui::controls` maps keys, clicks and slider rows to control
  updates; `tui::metrics` parses process statistics and formats chunk lists.
- `cli` – the command-line decisions: compressor choice, output path, run
  plan, exit codes and the message log.
- `text` – decimal numbers, words and lines.

`app/` is the program around it: argument parsing, threads, files and
pipes, the terminal and its drawing, and signal handling.
