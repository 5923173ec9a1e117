# plato_filter

Signal filters for sensor streams: moving average, exponential, median,
Savitzky-Golay, Kalman, Butterworth, notch, derivative, integration and DC
removal.

- `src/` is the verified library. It holds the integer logic of the filters:
  the windows of the moving-average and median filters and the median ranks
  (`window.rs`), the Savitzky-Golay request, its edge-replicated taps and the
  finite-difference stencils (`stencil.rs`), the section plan of a cascaded
  Butterworth design with its pole angles and the proof that its orders add
  up to the requested order (`sections.rs`), and the `FilterType` enum
  (`types.rs`).
- `app/` holds the filters themselves, whose sample arithmetic is `f64`, and
  the serde-enabled configuration types. The windowed, Savitzky-Golay,
  derivative and Butterworth filters take their windows, taps, stencils and
  sections from the library; the recurrences (exponential, Kalman, notch,
  integration) and the least-squares weights index their samples directly.
- `tests/` exercises the library on concrete values.
