//! A single-pass assembler for a stack-machine instruction set that resolves
//! label references to absolute byte offsets while instructions stream in.
pub mod ops;

pub mod assembler;
pub mod lemmas;

pub use assembler::{AsmState, Assembler, Error};
pub use ops::Op;
