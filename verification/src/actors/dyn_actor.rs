//! What an actor made of host closures tells of itself.

use vstd::prelude::*;
use std::collections::HashMap;
use crate::acting::DebugInfo;
use crate::messages::Atom;

verus! {

/// The name of an actor and the names of the message kinds it handles, each
/// under the number of its atom.
pub struct DynActorDebugInfo {
    pub actor_name: String,
    pub fn_names: HashMap<u64, String>,
}

impl DebugInfo for DynActorDebugInfo {
    fn get_actor_name(&self) -> (name: String)
        ensures
            name == self.actor_name,
    {
        self.actor_name.clone()
    }

    fn get_atom_name(&self, atom: Atom) -> (name: Option<String>)
        ensures
            match name {
                Some(name) => self.fn_names@.contains_key(atom.0) && name
                    == self.fn_names@[atom.0],
                None => !self.fn_names@.contains_key(atom.0),
            },
    {
        match self.fn_names.get(&atom.0) {
            Some(name) => Some(name.clone()),
            None => None,
        }
    }
}

} // verus!
