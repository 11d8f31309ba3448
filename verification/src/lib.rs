//! A verified CHIP-8 interpreter core.
//!
//! The machine state, the instruction decoder and the opcode handlers live
//! here; every handler carries a contract that pins down the state transition
//! it performs. Windowing, keyboard polling and ROM file access are left to
//! the hosting program.

pub mod cycle;
pub mod decode;
pub mod draw;
pub mod laws;
pub mod machine;
pub mod ops;
pub mod rng;
