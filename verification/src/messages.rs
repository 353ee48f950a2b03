//! Values, atoms, addresses and messages.

use vstd::prelude::*;

verus! {

/// Handle of an actor, unique within one worker.
#[derive(PartialEq, Eq, Hash, Clone, Copy, Debug, Structural)]
pub struct ActorAddr {
    pub addr: u32,
}

/// Tag that names a message kind or a handler key.
#[derive(PartialEq, Eq, Hash, Clone, Copy, Debug, Structural)]
pub struct Atom(pub u64);

/// Draws 32 bits from `rand::random`. Nothing is claimed of the bits drawn.
/// The call panics where the operating system fails it: where the generator
/// of the thread cannot be seeded, where it cannot be seeded anew after its
/// share of output, and where the handler that watches for forks cannot be
/// registered. No argument decides any of these.
#[verifier::external_body]
fn random_u32() -> (bits: u32) {
    rand::random()
}

/// Draws 64 bits from `rand::random`. Nothing is claimed of the bits drawn.
/// The call panics where the operating system fails it: where the generator
/// of the thread cannot be seeded, where it cannot be seeded anew after its
/// share of output, and where the handler that watches for forks cannot be
/// registered. No argument decides any of these.
#[verifier::external_body]
fn random_u64() -> (bits: u64) {
    rand::random()
}

impl ActorAddr {
    /// A randomly drawn address.
    pub fn random() -> (addr: ActorAddr) {
        ActorAddr { addr: random_u32() }
    }
}

impl Atom {
    /// A randomly drawn atom.
    pub fn random() -> (atom: Atom) {
        Atom(random_u64())
    }
}

/// What a register or a message argument holds.
///
/// A `Float` carries the IEEE 754 binary64 bit pattern of its number, so two
/// floats are the same value exactly when their bits agree.
#[derive(PartialEq, Debug)]
pub enum Value {
    ActorAddr(ActorAddr),
    Number(u64),
    Float(u64),
    String(String),
    Atom(Atom),
}

impl Clone for Value {
    fn clone(&self) -> (copy: Self)
        ensures
            copy == *self,
    {
        match self {
            Value::ActorAddr(addr) => Value::ActorAddr(*addr),
            Value::Number(n) => Value::Number(*n),
            Value::Float(bits) => Value::Float(*bits),
            Value::String(text) => Value::String(text.clone()),
            Value::Atom(atom) => Value::Atom(*atom),
        }
    }
}

/// Copies a list of values.
pub fn clone_values(values: &Vec<Value>) -> (copy: Vec<Value>)
    ensures
        copy@ == values@,
{
    let mut copy: Vec<Value> = Vec::new();
    let mut i: usize = 0;
    while i < values.len()
        invariant
            i <= values.len(),
            copy@ == values@.take(i as int),
        decreases values.len() - i,
    {
        copy.push(values[i].clone());
        assert(values@.take(i + 1) =~= values@.take(i as int).push(values@[i as int]));
        i += 1;
    }
    assert(values@.take(values.len() as int) =~= values@);
    copy
}

/// The selector of a message and its arguments.
#[derive(PartialEq, Debug)]
pub struct MessageContent {
    pub atom: Atom,
    pub data: Vec<Value>,
}

/// A message content as a mathematical value.
pub struct MessageContentView {
    pub atom: Atom,
    pub data: Seq<Value>,
}

impl View for MessageContent {
    type V = MessageContentView;

    open spec fn view(&self) -> MessageContentView {
        MessageContentView { atom: self.atom, data: self.data@ }
    }
}

impl Clone for MessageContent {
    fn clone(&self) -> (copy: Self)
        ensures
            copy@ == self@,
    {
        MessageContent { atom: self.atom, data: clone_values(&self.data) }
    }
}

/// A message on its way to an actor.
///
/// `arrive_after`, when present, is the earliest time of delivery, in
/// nanoseconds on the clock of the worker that carries the message.
#[derive(PartialEq, Debug)]
pub struct Message {
    pub to: ActorAddr,
    pub cont: MessageContent,
    pub arrive_after: Option<u64>,
}

/// A message as a mathematical value.
pub struct MessageView {
    pub to: ActorAddr,
    pub cont: MessageContentView,
    pub arrive_after: Option<u64>,
}

impl View for Message {
    type V = MessageView;

    open spec fn view(&self) -> MessageView {
        MessageView { to: self.to, cont: self.cont@, arrive_after: self.arrive_after }
    }
}

impl Clone for Message {
    fn clone(&self) -> (copy: Self)
        ensures
            copy@ == self@,
    {
        Message { to: self.to, cont: self.cont.clone(), arrive_after: self.arrive_after }
    }
}

} // verus!
