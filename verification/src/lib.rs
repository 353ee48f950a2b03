//! A small actor runtime whose actors are programmed in a register-machine
//! bytecode.
//!
//! * [`messages`]: the values, atoms, addresses and messages that flow
//!   through the system.
//! * [`vm`]: the program container, the effect vocabulary and the
//!   interpreter.
//! * [`actors`]: actors whose behaviour is a table of bytecode handlers, and
//!   the text rule of the console actor.
//! * [`acting`]: the message queue, the dispatch context and the worker.

pub mod messages;
pub mod vm;
pub mod actors;
pub mod acting;
