//! The bytecode machine: program container, effects and interpreter.

pub mod types;
pub mod wire;
pub mod dactor_base;
pub mod floats;
pub mod interpreter;

pub use interpreter::VMState;
pub use types::{IOState, VMError, IO};
