# tri-mon

A terminal monitor for AMD APUs, with panels for the CPU, the GPU and the NPU, gauges of memory and
swap, and the five processes that use the most CPU time and the most memory (a screen of 26 rows has
room for all five). It refreshes every 200 ms and reads procfs and sysfs directly. `q` or `Esc`
quits.

- `src/` is the library, written in Rust with its contracts proved by Verus: reading the files of
  procfs and sysfs (`text`, `number`, `cpu`, `gpu`, `npu`, `mem`, `procs`, `discover`), ranking
  (`order`), the pace of the loop (`control`) and the panels (`screen`, `cells`, `paint`, `*_panel`,
  `dashboard`).
- `app/` is the program around it: file access, floating-point figures and the terminal.
- `tests/` runs the library.

ratatui paints the screen. What the proofs take for granted of it stands in `src/screen.rs`, in the
contracts of the functions marked `external_body`.
