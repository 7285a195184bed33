//! A CHIP-8 virtual machine: instruction decoding, the opcode semantics over
//! a fixed memory and register model, and the multi-rate scheduler that
//! drives it. Every function carries a contract that Verus proves.

pub mod instruction;
pub mod fault;
pub mod machine;
pub mod sprite;
pub mod semantics;
mod bytes;
pub mod entropy;
pub mod cpu;
pub mod clock;
pub mod timing;
pub mod host;
pub mod laws;
