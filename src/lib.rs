//! A minimal instruction-set computer: an assembler from mnemonic text to
//! 16-bit instruction words, and a register machine that executes them.

pub mod assembler;
pub mod codec;
pub mod machine;
pub mod text;
