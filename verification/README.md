# sgtop

A terminal monitor for an SGLang inference server: braille and block area graphs,
gradient meters and live per-rank tables, all fed by the server's Prometheus
`/metrics`.

The library (`src/`) is written and proved in Verus. Every screen is a pure function of
a snapshot, and every snapshot is a pure function of the scrapes before it; the
contracts say which.

| Module | What it holds |
|---|---|
| `num` | the numbers that readings are made of: an abstract type with its orders |
| `text` | texts: building, padding, searching, decimal numerals |
| `binary` | rounding as double precision does it, on whole numbers |
| `model` | sample histories and the snapshot that the screen reads |
| `poll` | the exposition format, rates, histogram windows, liveness, the snapshot builder, server metadata |
| `ui` | cells, frames, layout, themes, graphs, meters, the rank table, panels, overlays |
| `app` | keys and the composed screen |
| `config` | command line, settings, theme choice |

`app/` is the program around it: argument parsing, the config file, HTTP, the event
loop and the terminal. It runs the library with double precision numbers.

A reading that may be missing is an `Option` in the snapshot: where the server does not
expose it, or exposes it as `NaN`, it is shown as `N/A` or not at all. The readings that
are always shown (requests and tokens in use, pool usage, hit rate, generation rate) are
nought while their gauge is absent. `tests/` runs that and the rest on real numbers.
