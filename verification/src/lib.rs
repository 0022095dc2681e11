//! A line-oriented interpreter for a small register-based assembly-like
//! language: a fixed register file, an operand stack, comparison and zero
//! flags, named instruction blocks, and a minimal instruction set covering
//! data movement, arithmetic, comparison, and control transfer.
//!
//! The machine is a small-step engine: `Machine::step` executes one
//! instruction at a time and returns an [`machine::Act`] describing what the
//! caller must do next. Floating-point arithmetic, console I/O and process
//! termination are never performed inside the library; they are handed to
//! the caller as effects, and the caller feeds results back through the
//! `resume_*` methods. Every state transition is specified exactly as a
//! function of the previous state and the caller's response.

pub mod chars;
pub mod loader;
pub mod machine;
pub mod numparse;
pub mod regs;
pub mod token;
pub mod value;
