# move_scanner

A scanner for compiled Move packages. The library (`src/`) is written in
Verus and verified; `app/` is the command-line program around it.

Library modules:

- `bytecode` – a model of stackless bytecode, basic blocks and control-flow graphs.
- `detect` – detectors: unchecked return values (`detect1`), precision loss
  (`detect3`), infinite loops (`detect4`).
- `pipeline` – the processors that each named transformation pipeline runs.
- `locate` – the source line that declares each module.
- `packages`, `result`, `detectors` – the per-module summaries of a scan
  (`GraphGenerator`).
- `compile` – the build command of a Move project, by its manifest.
- `text` – string helpers.

The program reads the compiled modules and the sources, runs the scan and
writes `<output stem>_graph.json`: for each module its constants, its
functions (how many, how many native), its structs with their abilities, the
source line that declares it and its status, and the time the scan took. Reading compiled modules and building the
Move model needs the Move toolchain crates (`move-binary-format`,
`move-model`, `move-stackless-bytecode`, `move-package`,
`move-bytecode-utils`), which are not published on crates.io.
