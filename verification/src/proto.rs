//! The description of the protocol, as its XML file gives it: interfaces
//! with their requests, events and enumerations.
use vstd::prelude::*;

verus! {

/// The version a message, enumeration or entry has when the description
/// gives none.
pub fn default_since() -> (r: u32)
    ensures
        r == 1,
{
    1
}

/// The kind of context a message is for.
#[derive(Clone, Hash, Eq, PartialEq, Debug)]
pub enum ContextType {
    Sender,
    Receiver,
}

/// The type of an argument.
#[derive(Clone, Hash, Eq, PartialEq, Debug)]
pub enum ProtocolType {
    String,
    Int32,
    Uint32,
    Int64,
    Uint64,
    Object,
    NewId,
    Float,
    Fd,
}

/// A whole protocol.
#[derive(Clone, Hash, Eq, PartialEq, Debug)]
pub struct Protocol {
    pub name: String,
    pub copyright: String,
    pub interfaces: Vec<Interface>,
}

/// An interface, with its messages and enumerations.
#[derive(Clone, Hash, Eq, PartialEq, Debug)]
pub struct Interface {
    pub name: String,
    pub requests: Vec<EventOrRequest>,
    pub events: Vec<EventOrRequest>,
    pub enums: Vec<Enum>,
}

/// A request or an event.
#[derive(Clone, Hash, Eq, PartialEq, Debug)]
pub struct EventOrRequest {
    pub name: String,
    pub description: Description,
    pub context_type: Option<ContextType>,
    pub since: u32,
    pub args: Vec<Arg>,
}

/// An enumeration.
#[derive(Clone, Hash, Eq, PartialEq, Debug)]
pub struct Enum {
    pub name: String,
    pub since: u32,
    pub bitfield: bool,
    pub entries: Vec<Entry>,
}

/// An entry of an enumeration.
#[derive(Clone, Hash, Eq, PartialEq, Debug)]
pub struct Entry {
    pub name: String,
    pub value: u32,
    pub since: u32,
    pub summary: String,
}

/// An argument of a message.
#[derive(Clone, Hash, Eq, PartialEq, Debug)]
pub struct Arg {
    pub name: String,
    pub type_: ProtocolType,
    pub summary: Option<String>,
    pub interface: Option<String>,
    pub interface_arg: Option<String>,
    pub allows_null: Option<String>,
    pub enum_: Option<String>,
}

/// The description of a message.
#[derive(Clone, Hash, Eq, PartialEq, Debug)]
pub struct Description {
    pub summary: String,
    pub text: String,
}

} // verus!
