# pdftool

The verified core of a desktop tool that merges PDF files and recompresses the
result with qpdf and Ghostscript.

- `src/` is the library, checked by Verus:
  - `pipeline.rs`, `machine.rs`: a job as a state machine. Each step takes the
    answer to the last request and yields effects (progress reports, scratch
    directories, leaving the job table) and the next request (a tool run, a copy,
    a batch of splits or compressions). `pipeline_laws.rs` proves what every step
    keeps (progress, one final report, cleanup, no overwritten input, inputs and
    chunks joined in order, for any number of chunks); `run_laws.rs` proves it of
    whole runs (the start report first and exactly one final report, in one of its
    three forms; whole-percent progress reports that never go back and stay between
    5% and 90%; no output or output folder written by a cancelled job). The
    per-chunk reports, published by the workers while chunks are compressed, are
    not part of a run: of them it is proved that they rise with the count of
    compressed chunks and stay between 40% and 85%.
  - `jobs.rs`: the table of active jobs and their cancellation flags, and how the
    table follows from the history of starts, cancellations and finishes.
  - `chunking.rs`: page ranges of the chunks that are compressed in parallel
    (every chunk of a document of ten pages or more has at least ten pages).
  - `commands.rs`, `presets.rs`: the tools' argument lists and how their exits
    are read; a stronger preset never selects a higher resolution.
  - `tools.rs`, `launcher.rs`, `launch.rs`: where the tools and the local PDF
    service are looked for, and the service's start-up sequence.
  - `lookup.rs`, `walk.rs`: carrying out a lookup (the first probe that answers
    wins; a required resource directory that cannot be located is an error) and
    the depth-first search of a directory tree, one listing at a time.
  - `text.rs`, `paths.rs`: text utilities (decimal formatting, trimming,
    parsing, lines, path joining).
  - `health.rs`, `inspect.rs`, `ids.rs`: health report, file list, job ids.
- `tests/` runs the library on concrete inputs.
- `app/` is the Tauri program around it: it runs the processes, touches the
  file system and the network, and carries the serde encodings.
