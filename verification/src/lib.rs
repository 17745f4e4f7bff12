//! A static disassembler for 8-bit machine code images, together with a
//! small register-level model of the processor it targets.
//!
//! The disassembler walks a byte image in a single forward pass, telling
//! inline data apart from code with a heuristic over pending call targets
//! and pending forward conditional-jump targets, and renders one text line
//! per decoded unit.

pub mod cpu;
pub mod dasm;
pub mod opcode;
pub mod render;
