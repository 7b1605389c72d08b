# hybrid_gauge

The rules of a hardware gauge, verified with Verus: when fans go to full speed and when
they come back, when an override ends, which sensor stands for which GPU, and how the
blocks, listings, rows and trees that the sensors come in are read.

- `src/` is the library. It computes on plain values only.
  - `fan_bank`, `monitor`: fan state, what it orders tick by tick and on request.
  - `fan_laws`, `monitor_laws`: what holds over several ticks, requests and restarts.
  - `metrics`, `sensors`, `components`, `wmi`, `adl`: readings, and how they are picked.
  - `layout`, `web`, `nt_scan`, `bytes`, `text`: the formats that readings come in.
  - `search`: what is said and searched when a source of sensors fails.
  - `single`: single-precision numbers as bit patterns.
  - `settings`: what outlives a run.
- `tests/` runs the library on concrete values.
- `app/` is the program around it: drivers, operating system, HTTP, disk and window.

What the library takes on trust of the standard library stands in `text`, and of
`serde_json` in `web`.
