# qe_monitor

A terminal monitor for running Quantum ESPRESSO (`pw.x`, `ph.x`) and Wannier90
calculations, with its parsing and state logic verified by Verus.

- `src/` is the verified library:
  - `text.rs`: the string model (`str` as a sequence of characters): lines, words,
    trimming, searching, and the grammar of the numbers `f64::from_str` accepts.
  - `pattern.rs`: the line patterns, matched with the `regex` crate behind trusted
    wrappers, and the verified reading of the numbers they capture.
  - `pw/`, `ph/`, `wannier90/`: the parsers of each program's output, each stated as a
    fold of a per-line step over the lines of the text, with the laws they keep.
  - `app.rs`: the monitor's state for one file (refresh plan, key handling, layout).
  - `ui.rs`, `plots.rs`: the tab selection of the two plot panels, and which plots a
    run offers.
- `app/` is the program: argument handling, file I/O, the terminal loop, and the
  drawing of the panels (all floating-point figures are computed there).

Numbers are reported by the library as the text of the number, exactly as
`f64::from_str` accepts it; the program converts them for display.
