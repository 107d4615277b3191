//! A CHIP-8 virtual machine: instruction decoding, the machine state and its
//! single-step semantics, with every operation specified and verified.

pub mod display;
pub mod engine;
pub mod error;
pub mod machine;
pub mod opcode;
pub mod quirks;
