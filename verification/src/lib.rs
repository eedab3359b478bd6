//! A verified virtual machine for a minimal eight-instruction language
//! operating on a fixed-size byte tape.
//!
//! The machine's observable behaviour is pinned down by a ghost small-step
//! interpreter in [`semantics`]; `VirtualMachine::run` is proved to return
//! exactly what that interpreter computes.

pub mod error;
pub mod machine;
pub mod semantics;

pub use error::BrainfuckError;
pub use machine::VirtualMachine;
