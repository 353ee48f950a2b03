//! The console actor: which line of text a message asks it to print.

use vstd::prelude::*;
use vstd::string::*;
use crate::acting::DebugInfo;
use crate::messages::{Atom, MessageContent, MessageContentView, Value};

verus! {

/// The actor that turns messages into lines of text.
pub struct IOActor;

impl IOActor {
    /// The number of the atom that asks for the line `Hello`. It takes no
    /// argument.
    pub const PRINT_HELLO: u64 = 0;

    /// The number of the atom that asks for the line that its one argument, a
    /// string, holds.
    pub const PRINT_MSG: u64 = 1;

    /// The line that `msg` asks for, if it asks for one: `Hello` for
    /// `PRINT_HELLO` without arguments, the argument for `PRINT_MSG` with one
    /// string, and none for any other message.
    pub open spec fn line_for(msg: MessageContentView) -> Option<Seq<char>> {
        if msg.atom.0 == Self::PRINT_HELLO && msg.data.len() == 0 {
            Some("Hello"@)
        } else if msg.atom.0 == Self::PRINT_MSG && msg.data.len() == 1 && msg.data[0] is String {
            Some(msg.data[0]->String_0@)
        } else {
            None
        }
    }

    /// The line that `msg` asks for, if it asks for one.
    pub fn line(msg: &MessageContent) -> (line: Option<String>)
        ensures
            match line {
                Some(text) => Self::line_for(msg@) == Some(text@),
                None => Self::line_for(msg@).is_none(),
            },
    {
        if msg.atom.0 == Self::PRINT_HELLO && msg.data.len() == 0 {
            Some("Hello".to_string())
        } else if msg.atom.0 == Self::PRINT_MSG && msg.data.len() == 1 {
            match &msg.data[0] {
                Value::String(text) => Some(text.clone()),
                _ => None,
            }
        } else {
            None
        }
    }
}

/// What the console actor tells of itself.
pub struct IODebugInfo;

impl DebugInfo for IODebugInfo {
    fn get_actor_name(&self) -> (name: String)
        ensures
            name@ == "IOActor"@,
    {
        "IOActor".to_string()
    }

    fn get_atom_name(&self, atom: Atom) -> (name: Option<String>)
        ensures
            atom.0 == IOActor::PRINT_HELLO ==> name.is_some() && name.unwrap()@ == "PRINT_HELLO"@,
            atom.0 == IOActor::PRINT_MSG ==> name.is_some() && name.unwrap()@ == "PRINT_MSG"@,
            atom.0 != IOActor::PRINT_HELLO && atom.0 != IOActor::PRINT_MSG ==> name.is_none(),
    {
        if atom.0 == IOActor::PRINT_HELLO {
            Some("PRINT_HELLO".to_string())
        } else if atom.0 == IOActor::PRINT_MSG {
            Some("PRINT_MSG".to_string())
        } else {
            None
        }
    }
}

} // verus!
