//! Reis implements EI and EIS, the protocol of emulated input on Wayland:
//! the wire encoding, the object bookkeeping of a connection, the protocol
//! messages, the handshake and the high-level event and request converters.
#![allow(unused_imports)]

pub mod codec;
pub mod arg;
pub mod backend;
pub mod message;
pub mod enums;
pub mod protocol;
pub mod ei;
pub mod eis;
pub mod roundtrip;
pub mod readback;
pub mod handshake;
pub mod capability;
pub mod search;
pub mod error;
pub mod request;
pub mod event;
pub mod proto;
pub mod text;
