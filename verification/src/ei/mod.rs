//! The client side of the protocol: the proxies of its interfaces, the
//! events they receive, and the state of a connection.
pub mod handshake;
pub mod connection;
pub mod callback;
pub mod pingpong;
pub mod seat;
pub mod device;
pub mod pointer;
pub mod pointer_absolute;
pub mod scroll;
pub mod button;
pub mod keyboard;
pub mod touchscreen;

pub use handshake::Handshake;
pub use connection::Connection;
pub use callback::Callback;
pub use pingpong::Pingpong;
pub use seat::Seat;
pub use device::Device;
pub use pointer::Pointer;
pub use pointer_absolute::PointerAbsolute;
pub use scroll::Scroll;
pub use button::Button;
pub use keyboard::Keyboard;
pub use touchscreen::Touchscreen;

use crate::arg::{args_model, new_id_only_at, Arg, ArgModel, ErrKind, ParseError, Reader};
use crate::backend::{Backend, Object, Received};
use crate::codec::{host_byte_order, ByteOrder};
use crate::message::{parse_model, parse_post, Incoming, PendingRequestResult, WireMessage};
use crate::protocol::{event_kinds, event_slot, pending_model, receive_post, Iface, Side};
use vstd::prelude::*;

verus! {

/// A event, with the proxy of the object it is for.
#[derive(Debug)]
pub enum Event<F> {
    Handshake(Handshake, handshake::Event),
    Connection(Connection, connection::Event),
    Callback(Callback, callback::Event),
    Seat(Seat, seat::Event),
    Device(Device, device::Event),
    Pointer(Pointer, pointer::Event),
    PointerAbsolute(PointerAbsolute, pointer_absolute::Event),
    Scroll(Scroll, scroll::Event),
    Button(Button, button::Event),
    Keyboard(Keyboard, keyboard::Event<F>),
    Touchscreen(Touchscreen, touchscreen::Event),
}

impl<F> WireMessage for Event<F> {
    open spec fn wire_opcode(&self) -> u32 {
        match self {
            Event::Handshake(_, e) => e.wire_opcode(),
            Event::Connection(_, e) => e.wire_opcode(),
            Event::Callback(_, e) => e.wire_opcode(),
            Event::Seat(_, e) => e.wire_opcode(),
            Event::Device(_, e) => e.wire_opcode(),
            Event::Pointer(_, e) => e.wire_opcode(),
            Event::PointerAbsolute(_, e) => e.wire_opcode(),
            Event::Scroll(_, e) => e.wire_opcode(),
            Event::Button(_, e) => e.wire_opcode(),
            Event::Keyboard(_, e) => e.wire_opcode(),
            Event::Touchscreen(_, e) => e.wire_opcode(),
        }
    }

    open spec fn wire_args(&self) -> Seq<ArgModel> {
        match self {
            Event::Handshake(_, e) => e.wire_args(),
            Event::Connection(_, e) => e.wire_args(),
            Event::Callback(_, e) => e.wire_args(),
            Event::Seat(_, e) => e.wire_args(),
            Event::Device(_, e) => e.wire_args(),
            Event::Pointer(_, e) => e.wire_args(),
            Event::PointerAbsolute(_, e) => e.wire_args(),
            Event::Scroll(_, e) => e.wire_args(),
            Event::Button(_, e) => e.wire_args(),
            Event::Keyboard(_, e) => e.wire_args(),
            Event::Touchscreen(_, e) => e.wire_args(),
        }
    }

    open spec fn wire_created(&self) -> Option<Object> {
        match self {
            Event::Handshake(_, e) => e.wire_created(),
            Event::Connection(_, e) => e.wire_created(),
            Event::Callback(_, e) => e.wire_created(),
            Event::Seat(_, e) => e.wire_created(),
            Event::Device(_, e) => e.wire_created(),
            Event::Pointer(_, e) => e.wire_created(),
            Event::PointerAbsolute(_, e) => e.wire_created(),
            Event::Scroll(_, e) => e.wire_created(),
            Event::Button(_, e) => e.wire_created(),
            Event::Keyboard(_, e) => e.wire_created(),
            Event::Touchscreen(_, e) => e.wire_created(),
        }
    }

    open spec fn wire_new_id_at(&self) -> Option<int> {
        match self {
            Event::Handshake(_, e) => e.wire_new_id_at(),
            Event::Connection(_, e) => e.wire_new_id_at(),
            Event::Callback(_, e) => e.wire_new_id_at(),
            Event::Seat(_, e) => e.wire_new_id_at(),
            Event::Device(_, e) => e.wire_new_id_at(),
            Event::Pointer(_, e) => e.wire_new_id_at(),
            Event::PointerAbsolute(_, e) => e.wire_new_id_at(),
            Event::Scroll(_, e) => e.wire_new_id_at(),
            Event::Button(_, e) => e.wire_new_id_at(),
            Event::Keyboard(_, e) => e.wire_new_id_at(),
            Event::Touchscreen(_, e) => e.wire_new_id_at(),
        }
    }

}

impl<F> Incoming for Event<F> {
    open spec fn target(&self) -> Object {
        match self {
            Event::Handshake(p, _) => p.0,
            Event::Connection(p, _) => p.0,
            Event::Callback(p, _) => p.0,
            Event::Seat(p, _) => p.0,
            Event::Device(p, _) => p.0,
            Event::Pointer(p, _) => p.0,
            Event::PointerAbsolute(p, _) => p.0,
            Event::Scroll(p, _) => p.0,
            Event::Button(p, _) => p.0,
            Event::Keyboard(p, _) => p.0,
            Event::Touchscreen(p, _) => p.0,
        }
    }
}

impl<F> Event<F> {
    /// The name of event `opcode` of the interface named `interface`.
    pub open spec fn spec_op_name(interface: Seq<char>, opcode: u32) -> Option<&'static str> {
        match Iface::spec_from_name(interface) {
            Some(Iface::Handshake) => handshake::Event::spec_op_name(opcode),
            Some(Iface::Connection) => connection::Event::spec_op_name(opcode),
            Some(Iface::Callback) => callback::Event::spec_op_name(opcode),
            Some(Iface::Seat) => seat::Event::spec_op_name(opcode),
            Some(Iface::Device) => device::Event::spec_op_name(opcode),
            Some(Iface::Pointer) => pointer::Event::spec_op_name(opcode),
            Some(Iface::PointerAbsolute) => pointer_absolute::Event::spec_op_name(opcode),
            Some(Iface::Scroll) => scroll::Event::spec_op_name(opcode),
            Some(Iface::Button) => button::Event::spec_op_name(opcode),
            Some(Iface::Keyboard) => keyboard::Event::<F>::spec_op_name(opcode),
            Some(Iface::Touchscreen) => touchscreen::Event::spec_op_name(opcode),
            _ => None,
        }
    }

    /// Returns the name of event `opcode` of the interface named `interface`.
    pub fn op_name(interface: &str, opcode: u32) -> (r: Option<&'static str>)
        ensures
            r == Self::spec_op_name(interface@, opcode),
    {
        match Iface::from_name(interface) {
            Some(Iface::Handshake) => handshake::Event::op_name(opcode),
            Some(Iface::Connection) => connection::Event::op_name(opcode),
            Some(Iface::Callback) => callback::Event::op_name(opcode),
            Some(Iface::Seat) => seat::Event::op_name(opcode),
            Some(Iface::Device) => device::Event::op_name(opcode),
            Some(Iface::Pointer) => pointer::Event::op_name(opcode),
            Some(Iface::PointerAbsolute) => pointer_absolute::Event::op_name(opcode),
            Some(Iface::Scroll) => scroll::Event::op_name(opcode),
            Some(Iface::Button) => button::Event::op_name(opcode),
            Some(Iface::Keyboard) => keyboard::Event::<F>::op_name(opcode),
            Some(Iface::Touchscreen) => touchscreen::Event::op_name(opcode),
            _ => None,
        }
    }

    /// Returns the arguments of the event, as they go on the wire.
    pub fn args(&self) -> (r: Vec<Arg<'_, &F>>)
        ensures
            args_model(r@) == self.wire_args(),
            new_id_only_at(r@, self.wire_new_id_at()),
    {
        match self {
            Event::Handshake(_, e) => e.args::<&F>(),
            Event::Connection(_, e) => e.args::<&F>(),
            Event::Callback(_, e) => e.args::<&F>(),
            Event::Seat(_, e) => e.args::<&F>(),
            Event::Device(_, e) => e.args::<&F>(),
            Event::Pointer(_, e) => e.args::<&F>(),
            Event::PointerAbsolute(_, e) => e.args::<&F>(),
            Event::Scroll(_, e) => e.args::<&F>(),
            Event::Button(_, e) => e.args::<&F>(),
            Event::Keyboard(_, e) => e.args(),
            Event::Touchscreen(_, e) => e.args::<&F>(),
        }
    }

    /// Parses the body of event `opcode` for `object`, whose interface
    /// decides how; an object the event creates is recorded in `backend`.
    pub fn parse(object: Object, opcode: u32, rd: &mut Reader, backend: &mut Backend<F>) -> (r: Result<Self, ParseError>)
        requires
            old(rd).wf(),
        ensures
            r matches Ok(e) ==> e.target() == object,
            match Iface::spec_from_name(object.interface@) {
                None => r matches Err(e) && e.kind() == ErrKind::InvalidInterface(object.interface@)
                    && *final(rd) == *old(rd) && *final(backend) == *old(backend),
                Some(i) => parse_post(
                    i.spec_short_name(),
                    event_kinds(i, opcode),
                    event_slot(i, opcode),
                    opcode,
                    *old(rd),
                    *final(rd),
                    *old(backend),
                    *final(backend),
                    parse_model(r),
                ),
            },
    {
        let i = Iface::from_name(object.interface.as_str());
        match i {
            Some(Iface::Handshake) => match handshake::Event::parse(opcode, rd, backend) {
                Ok(e) => Ok(Event::Handshake(Handshake(object), e)),
                Err(err) => Err(err),
            },
            Some(Iface::Connection) => match connection::Event::parse(opcode, rd, backend) {
                Ok(e) => Ok(Event::Connection(Connection(object), e)),
                Err(err) => Err(err),
            },
            Some(Iface::Callback) => match callback::Event::parse(opcode, rd, backend) {
                Ok(e) => Ok(Event::Callback(Callback(object), e)),
                Err(err) => Err(err),
            },
            Some(Iface::Pingpong) => Err(ParseError::InvalidOpcode("pingpong", opcode)),
            Some(Iface::Seat) => match seat::Event::parse(opcode, rd, backend) {
                Ok(e) => Ok(Event::Seat(Seat(object), e)),
                Err(err) => Err(err),
            },
            Some(Iface::Device) => match device::Event::parse(opcode, rd, backend) {
                Ok(e) => Ok(Event::Device(Device(object), e)),
                Err(err) => Err(err),
            },
            Some(Iface::Pointer) => match pointer::Event::parse(opcode, rd, backend) {
                Ok(e) => Ok(Event::Pointer(Pointer(object), e)),
                Err(err) => Err(err),
            },
            Some(Iface::PointerAbsolute) => match pointer_absolute::Event::parse(opcode, rd, backend) {
                Ok(e) => Ok(Event::PointerAbsolute(PointerAbsolute(object), e)),
                Err(err) => Err(err),
            },
            Some(Iface::Scroll) => match scroll::Event::parse(opcode, rd, backend) {
                Ok(e) => Ok(Event::Scroll(Scroll(object), e)),
                Err(err) => Err(err),
            },
            Some(Iface::Button) => match button::Event::parse(opcode, rd, backend) {
                Ok(e) => Ok(Event::Button(Button(object), e)),
                Err(err) => Err(err),
            },
            Some(Iface::Keyboard) => match keyboard::Event::<F>::parse(opcode, rd, backend) {
                Ok(e) => Ok(Event::Keyboard(Keyboard(object), e)),
                Err(err) => Err(err),
            },
            Some(Iface::Touchscreen) => match touchscreen::Event::parse(opcode, rd, backend) {
                Ok(e) => Ok(Event::Touchscreen(Touchscreen(object), e)),
                Err(err) => Err(err),
            },
            None => Err(ParseError::InvalidInterface(object.interface.clone())),
        }
    }
}

/// A connection, seen from the client side.
pub struct Context<F>(pub Backend<F>);

impl<F> Context<F> {
    /// Creates the state of a new connection on the client side, with integers
    /// in the host's byte order.
    pub fn new() -> (c: Self)
        ensures
            c.0.is_fresh(true),
    {
        Context(Backend::new(true, host_byte_order()))
    }

    /// Takes the event at the front of the received bytes, if a whole one is
    /// there.
    pub fn pending_event(&mut self) -> (r: Option<PendingRequestResult<Event<F>>>)
        ensures
            receive_post(Side::Client, old(self).0, final(self).0, pending_model(r)),
    {
        match self.0.take_frame() {
            None => None,
            Some(Received::HeaderLength(l)) => Some(PendingRequestResult::ParseError(ParseError::HeaderLength(l))),
            Some(Received::InvalidObject(id)) => Some(PendingRequestResult::InvalidObject(id)),
            Some(Received::Message { header, info, body }) => {
                let object = Object {
                    id: header.object_id,
                    interface: info.interface,
                    version: info.version,
                    client_side: self.0.client,
                };
                let mut rd = Reader::new(body);
                match Event::parse(object, header.opcode, &mut rd, &mut self.0) {
                    Err(e) => Some(PendingRequestResult::ParseError(e)),
                    Ok(m) => {
                        let rem = rd.remaining();
                        if rem != 0 {
                            Some(
                                PendingRequestResult::ParseError(
                                    ParseError::MessageLength(header.length.wrapping_add(rem as u32), header.length),
                                ),
                            )
                        } else {
                            Some(PendingRequestResult::Request(m))
                        }
                    },
                }
            },
        }
    }

    /// Returns the proxy for the `ei_handshake` object.
    pub fn handshake(&self) -> (r: Handshake)
        requires
            self.0.objects@.contains_key(0),
        ensures
            r.0.id == 0,
            r.0.interface@ == self.0.objects@[0].interface@,
            r.0.version == self.0.objects@[0].version,
            r.0.client_side == self.0.client,
    {
        match self.0.object_for_id(0) {
            Some(obj) => Handshake(obj),
            None => vstd::pervasive::unreached(),
        }
    }
}

} // verus!
