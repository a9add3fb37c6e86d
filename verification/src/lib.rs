//! Driver core for a memory-mapped text display: a cursor/scroll state
//! machine over a grid of volatile character cells, plus the exit signal a
//! test harness uses to learn the outcome of a run.

pub mod harness;
pub mod vga_buffers;
