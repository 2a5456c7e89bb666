//! A verified CHIP-8 execution core.
//!
//! The library models the machine — 4096 bytes of memory, sixteen 8-bit
//! registers, a 16-bit index register, a bounded call stack, two timers, a
//! 16-key keypad and a 64x32 monochrome display — and executes one
//! instruction per call of `System::step` / `System::run_op_at`. Every
//! instruction's effect is stated once, in the specification-level machine
//! `model::spec_step`, and the executable engine is proved to match it.
//!
//! Program loading from disk, rendering, input polling and the outer
//! scheduling loop are host concerns and live outside this crate; the host
//! hands the core plain bytes and reads the framebuffer back.

pub mod chip8_cpu;
pub mod debug;
pub mod decode;
pub mod laws;
pub mod model;
