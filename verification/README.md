# bbt

`bbt` is a structured media transcoder. A caller names the exact artifact it
wants; `bbt` says whether it can be produced, picks the adapter, runs it and
reports every phase. It decides no device policy of its own.

## Layout

- `src/` is the library, verified with Verus: requests, planning, the execution
  graph, the command lines of the encoders, the walk over MP4 boxes and ADTS
  frames, verification and resumption of runs, progress events, and what the
  commands print.
- `app/` is the program around it: the command line, files, external programs,
  probing with Symphonia and `ffprobe`, JSON and TOML, and the Windows helper
  `bbt-wmv9` that drives the WMV9 encoder of the system.
- `tests/` runs the library on concrete values.

## What is trusted

The contracts of a few outside functions are stated, not proved: random
identifiers (`uuid`), the clock (`chrono`), SHA-256 (`sha2`), hexadecimal text
(`hex`), and two functions on strings of the standard library. Each stands with a
comment that says what is claimed of it.

Durations are doubles. The library carries their bit patterns and leaves the
arithmetic on them to `app/`.
