# micromeasure

A benchmark harness whose logic is verified with Verus: calibration, sampling,
statistics, reports, and the comparison of reports under regression policies.

## Layout

- `src/` is the library. Its functions carry contracts, and Verus proves them,
  but for those of the trusted functions (see below). The methods `begin`, `end`
  and `prepare`, which are for the users of the library to write, have none.
  - `bench` runs and summarises: `calibration`, `engine` and `run` decide what
    is measured next and keep what was measured; `stats`, `metrics`, `results`
    and `diagnosis` summarise it; `perf`, `perf_memory`, `gpu_counters` and
    `cuda` interpret hardware counters; `report` lays tables out.
  - `session` holds the results of one run, and compares them with an earlier
    run of the same suite.
  - `comparison`, `policy` and `series` compare two reports and decide whether a
    regression blocks.
  - `suite` loads and compares directories of reports.
  - `threading` and `bench::affinity` choose the processors to measure on.
  - `text`, `text_map`, `table`, `parse`, `paths`, `order`, `numbers`, `double`,
    `time` and `render` are the ground the rest stands on.
- `app/` is the ordinary Rust around it: clocks, threads, files, the terminal,
  hardware counters, JSON, and arithmetic on floating-point numbers.
- `tests/` runs the library.

## Floating-point numbers

The library holds a floating-point number as its bits (`DoubleBits`) and orders
and classifies it exactly. What has to be computed or written out in decimals is
handed in: ratios as `Changes`, averages as `ComputedStats` and
`SampleStatistics`, decimals as `NumberTexts`. A contract says which number is used where, whatever its value.

## Trusted functions

The contracts of a few outside functions are taken as they are documented: the
SHA-256 digest of `sha2`, the member look-up of `serde_json`, the display widths
of `unicode-width`, and three functions of the standard library on text.
Each is declared beside the code that calls it.
