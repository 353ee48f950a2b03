//! The effects and errors of one interpreter step.

use vstd::prelude::*;
use crate::messages::{ActorAddr, Atom, Value};

verus! {

/// What one interpreter step asks of the runtime.
#[derive(Debug, PartialEq)]
pub enum IO {
    /// Send `atom` with `values` to the actor at `to`.
    SendMessage { to: ActorAddr, atom: Atom, values: Vec<Value> },
    /// Bind `atom` to program number `program`, with the given register presets.
    AddHandler { atom: Atom, program: u64, presets: Vec<(u8, Value)> },
    /// Unbind `atom`.
    RemoveHandler { atom: Atom },
    /// The program has reached its end.
    Done,
}

/// An effect as a mathematical value.
pub enum IOView {
    SendMessage { to: ActorAddr, atom: Atom, values: Seq<Value> },
    AddHandler { atom: Atom, program: u64, presets: Seq<(u8, Value)> },
    RemoveHandler { atom: Atom },
    Done,
}

impl View for IO {
    type V = IOView;

    open spec fn view(&self) -> IOView {
        match *self {
            IO::SendMessage { to, atom, values } => IOView::SendMessage { to, atom, values: values@ },
            IO::AddHandler { atom, program, presets } => IOView::AddHandler {
                atom,
                program,
                presets: presets@,
            },
            IO::RemoveHandler { atom } => IOView::RemoveHandler { atom },
            IO::Done => IOView::Done,
        }
    }
}

/// What a step that succeeds yields, as a mathematical value.
pub open spec fn effect_view(effect: Option<IO>) -> Option<IOView> {
    match effect {
        Some(io) => Some(io@),
        None => None,
    }
}

/// Why an interpreter step failed.
#[derive(Debug, PartialEq)]
pub enum VMError {
    /// The program ended in the middle of an instruction.
    OutOfBounds,
    /// No instruction has this opcode.
    NoSuchInstruction(u8),
    /// A register held this value where another kind was needed.
    WrongValueType(Value),
}

/// What the runtime tells a program about the dispatch it runs in.
#[derive(Debug, Eq, PartialEq)]
pub struct IOState {
    pub self_addr: ActorAddr,
}

} // verus!
