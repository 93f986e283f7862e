# EndlessOpt

A Windows system optimizer: memory cleaning, process priorities, game mode,
temporary file cleaning and a configuration of game and blacklisted processes.

The decisions and texts of the optimizer live in a library verified with Verus
(`src/`); the program around it (`app/`) reads the system through `sysinfo`,
calls the Windows API, touches the file system and draws the `eframe` interface.

## Library (`src/`)

- `text`: white space, trimming, ASCII case folding, decimal numbers, suffix and
  list membership on strings, each with its specification.
- `common`: priority classes and their Windows constants; the error type and its
  messages.
- `validation`: process names, file paths, process ids and configurations.
- `config`: the configuration, its defaults, the proof that they are valid, and the
  components of its file's path.
- `memory::monitor`: memory status and byte counts in human-readable units, with the
  `{:.2}` rounding of an `f64` quotient stated over integers.
- `memory::optimizer`: which processes a cleaning pass leaves alone, the statistics of
  a pass and their totals over a whole pass, optimization results.
- `process::manager`: protected processes, kill decisions and outcomes, priority
  planning, the by-name order of the process list.
- `process::gamemode`: game mode plans, the memory-cleaning decision, results and
  summaries, and the facts about the common game list.
- `utils::cleaner`: temporary file and DNS-flush statistics, their error lines and
  summaries.
- `gui`: tabs, the monitoring schedule, the kill confirmation, the process filter and
  the comma-separated process lists of the settings page.

## Program (`app/`)

`main.rs` starts the interface; `memory.rs`, `process.rs` and `cleaner.rs` perform
the operating system work and hand each outcome to the library; `config_file.rs`
stores the configuration as JSON.
