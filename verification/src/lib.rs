//! The verified core of a terminal monitor for machines with a CPU, a GPU and an NPU.

pub mod cells;
pub mod control;
pub mod cpu;
pub mod cpu_panel;
pub mod dashboard;
pub mod discover;
pub mod fault;
pub mod gpu;
pub mod gpu_panel;
pub mod mem;
pub mod mem_panel;
pub mod npu;
pub mod npu_panel;
pub mod number;
pub mod order;
pub mod paint;
pub mod procs;
pub mod procs_panel;
pub mod screen;
pub mod share;
pub mod text;
