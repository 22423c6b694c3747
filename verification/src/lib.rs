//! A verified interpreter for an 8-bit virtual machine with a 35-instruction
//! ISA, 4096 bytes of memory, 16 general registers, a 16-level call stack, a
//! 64x32 monochrome framebuffer, two saturating timers, and a 16-key input
//! latch.
//!
//! The machine is a single value, [`machine::Chip8`], mutated only by
//! `emulate_cycle`, `decrease_timers`, `keypress` and `keyrelease`. Its
//! behaviour is specified against a mathematical model, [`vm::Vm`], and a
//! spec-level transition function, [`vm::vm_step`].

pub mod entropy;
pub mod isa;
pub mod laws;
pub mod machine;
pub mod vm;
