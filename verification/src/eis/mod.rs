//! The server side of the protocol: the proxies of its interfaces, the
//! requests they receive, and the state of a connection.
pub mod handshake;
pub mod connection;
pub mod callback;
pub mod pingpong;
pub mod seat;
pub mod device;
pub mod pointer;
pub mod pointer_absolute;
pub mod scroll;
pub mod button;
pub mod keyboard;
pub mod touchscreen;

pub use handshake::Handshake;
pub use connection::Connection;
pub use callback::Callback;
pub use pingpong::Pingpong;
pub use seat::Seat;
pub use device::Device;
pub use pointer::Pointer;
pub use pointer_absolute::PointerAbsolute;
pub use scroll::Scroll;
pub use button::Button;
pub use keyboard::Keyboard;
pub use touchscreen::Touchscreen;

use crate::arg::{args_model, new_id_only_at, Arg, ArgModel, ErrKind, ParseError, Reader};
use crate::backend::{Backend, Object, Received};
use crate::codec::{host_byte_order, ByteOrder};
use crate::message::{parse_model, parse_post, Incoming, PendingRequestResult, WireMessage};
use crate::protocol::{request_kinds, request_slot, pending_model, receive_post, Iface, Side};
use vstd::prelude::*;

verus! {

/// A request, with the proxy of the object it is for.
#[derive(Debug)]
pub enum Request {
    Handshake(Handshake, handshake::Request),
    Connection(Connection, connection::Request),
    Pingpong(Pingpong, pingpong::Request),
    Seat(Seat, seat::Request),
    Device(Device, device::Request),
    Pointer(Pointer, pointer::Request),
    PointerAbsolute(PointerAbsolute, pointer_absolute::Request),
    Scroll(Scroll, scroll::Request),
    Button(Button, button::Request),
    Keyboard(Keyboard, keyboard::Request),
    Touchscreen(Touchscreen, touchscreen::Request),
}

impl WireMessage for Request {
    open spec fn wire_opcode(&self) -> u32 {
        match self {
            Request::Handshake(_, e) => e.wire_opcode(),
            Request::Connection(_, e) => e.wire_opcode(),
            Request::Pingpong(_, e) => e.wire_opcode(),
            Request::Seat(_, e) => e.wire_opcode(),
            Request::Device(_, e) => e.wire_opcode(),
            Request::Pointer(_, e) => e.wire_opcode(),
            Request::PointerAbsolute(_, e) => e.wire_opcode(),
            Request::Scroll(_, e) => e.wire_opcode(),
            Request::Button(_, e) => e.wire_opcode(),
            Request::Keyboard(_, e) => e.wire_opcode(),
            Request::Touchscreen(_, e) => e.wire_opcode(),
        }
    }

    open spec fn wire_args(&self) -> Seq<ArgModel> {
        match self {
            Request::Handshake(_, e) => e.wire_args(),
            Request::Connection(_, e) => e.wire_args(),
            Request::Pingpong(_, e) => e.wire_args(),
            Request::Seat(_, e) => e.wire_args(),
            Request::Device(_, e) => e.wire_args(),
            Request::Pointer(_, e) => e.wire_args(),
            Request::PointerAbsolute(_, e) => e.wire_args(),
            Request::Scroll(_, e) => e.wire_args(),
            Request::Button(_, e) => e.wire_args(),
            Request::Keyboard(_, e) => e.wire_args(),
            Request::Touchscreen(_, e) => e.wire_args(),
        }
    }

    open spec fn wire_created(&self) -> Option<Object> {
        match self {
            Request::Handshake(_, e) => e.wire_created(),
            Request::Connection(_, e) => e.wire_created(),
            Request::Pingpong(_, e) => e.wire_created(),
            Request::Seat(_, e) => e.wire_created(),
            Request::Device(_, e) => e.wire_created(),
            Request::Pointer(_, e) => e.wire_created(),
            Request::PointerAbsolute(_, e) => e.wire_created(),
            Request::Scroll(_, e) => e.wire_created(),
            Request::Button(_, e) => e.wire_created(),
            Request::Keyboard(_, e) => e.wire_created(),
            Request::Touchscreen(_, e) => e.wire_created(),
        }
    }

    open spec fn wire_new_id_at(&self) -> Option<int> {
        match self {
            Request::Handshake(_, e) => e.wire_new_id_at(),
            Request::Connection(_, e) => e.wire_new_id_at(),
            Request::Pingpong(_, e) => e.wire_new_id_at(),
            Request::Seat(_, e) => e.wire_new_id_at(),
            Request::Device(_, e) => e.wire_new_id_at(),
            Request::Pointer(_, e) => e.wire_new_id_at(),
            Request::PointerAbsolute(_, e) => e.wire_new_id_at(),
            Request::Scroll(_, e) => e.wire_new_id_at(),
            Request::Button(_, e) => e.wire_new_id_at(),
            Request::Keyboard(_, e) => e.wire_new_id_at(),
            Request::Touchscreen(_, e) => e.wire_new_id_at(),
        }
    }

}

impl Incoming for Request {
    open spec fn target(&self) -> Object {
        match self {
            Request::Handshake(p, _) => p.0,
            Request::Connection(p, _) => p.0,
            Request::Pingpong(p, _) => p.0,
            Request::Seat(p, _) => p.0,
            Request::Device(p, _) => p.0,
            Request::Pointer(p, _) => p.0,
            Request::PointerAbsolute(p, _) => p.0,
            Request::Scroll(p, _) => p.0,
            Request::Button(p, _) => p.0,
            Request::Keyboard(p, _) => p.0,
            Request::Touchscreen(p, _) => p.0,
        }
    }
}

impl Request {
    /// The name of request `opcode` of the interface named `interface`.
    pub open spec fn spec_op_name(interface: Seq<char>, opcode: u32) -> Option<&'static str> {
        match Iface::spec_from_name(interface) {
            Some(Iface::Handshake) => handshake::Request::spec_op_name(opcode),
            Some(Iface::Connection) => connection::Request::spec_op_name(opcode),
            Some(Iface::Pingpong) => pingpong::Request::spec_op_name(opcode),
            Some(Iface::Seat) => seat::Request::spec_op_name(opcode),
            Some(Iface::Device) => device::Request::spec_op_name(opcode),
            Some(Iface::Pointer) => pointer::Request::spec_op_name(opcode),
            Some(Iface::PointerAbsolute) => pointer_absolute::Request::spec_op_name(opcode),
            Some(Iface::Scroll) => scroll::Request::spec_op_name(opcode),
            Some(Iface::Button) => button::Request::spec_op_name(opcode),
            Some(Iface::Keyboard) => keyboard::Request::spec_op_name(opcode),
            Some(Iface::Touchscreen) => touchscreen::Request::spec_op_name(opcode),
            _ => None,
        }
    }

    /// Returns the name of request `opcode` of the interface named `interface`.
    pub fn op_name(interface: &str, opcode: u32) -> (r: Option<&'static str>)
        ensures
            r == Self::spec_op_name(interface@, opcode),
    {
        match Iface::from_name(interface) {
            Some(Iface::Handshake) => handshake::Request::op_name(opcode),
            Some(Iface::Connection) => connection::Request::op_name(opcode),
            Some(Iface::Pingpong) => pingpong::Request::op_name(opcode),
            Some(Iface::Seat) => seat::Request::op_name(opcode),
            Some(Iface::Device) => device::Request::op_name(opcode),
            Some(Iface::Pointer) => pointer::Request::op_name(opcode),
            Some(Iface::PointerAbsolute) => pointer_absolute::Request::op_name(opcode),
            Some(Iface::Scroll) => scroll::Request::op_name(opcode),
            Some(Iface::Button) => button::Request::op_name(opcode),
            Some(Iface::Keyboard) => keyboard::Request::op_name(opcode),
            Some(Iface::Touchscreen) => touchscreen::Request::op_name(opcode),
            _ => None,
        }
    }

    /// Returns the arguments of the request, as they go on the wire.
    pub fn args<G>(&self) -> (r: Vec<Arg<'_, G>>)
        ensures
            args_model(r@) == self.wire_args(),
            new_id_only_at(r@, self.wire_new_id_at()),
    {
        match self {
            Request::Handshake(_, e) => e.args(),
            Request::Connection(_, e) => e.args(),
            Request::Pingpong(_, e) => e.args(),
            Request::Seat(_, e) => e.args(),
            Request::Device(_, e) => e.args(),
            Request::Pointer(_, e) => e.args(),
            Request::PointerAbsolute(_, e) => e.args(),
            Request::Scroll(_, e) => e.args(),
            Request::Button(_, e) => e.args(),
            Request::Keyboard(_, e) => e.args(),
            Request::Touchscreen(_, e) => e.args(),
        }
    }

    /// Parses the body of request `opcode` for `object`, whose interface
    /// decides how; an object the request creates is recorded in `backend`.
    pub fn parse<F>(object: Object, opcode: u32, rd: &mut Reader, backend: &mut Backend<F>) -> (r: Result<Self, ParseError>)
        requires
            old(rd).wf(),
        ensures
            r matches Ok(e) ==> e.target() == object,
            match Iface::spec_from_name(object.interface@) {
                None => r matches Err(e) && e.kind() == ErrKind::InvalidInterface(object.interface@)
                    && *final(rd) == *old(rd) && *final(backend) == *old(backend),
                Some(i) => parse_post(
                    i.spec_short_name(),
                    request_kinds(i, opcode),
                    request_slot(i, opcode),
                    opcode,
                    *old(rd),
                    *final(rd),
                    *old(backend),
                    *final(backend),
                    parse_model(r),
                ),
            },
    {
        let i = Iface::from_name(object.interface.as_str());
        match i {
            Some(Iface::Handshake) => match handshake::Request::parse(opcode, rd, backend) {
                Ok(e) => Ok(Request::Handshake(Handshake(object), e)),
                Err(err) => Err(err),
            },
            Some(Iface::Connection) => match connection::Request::parse(opcode, rd, backend) {
                Ok(e) => Ok(Request::Connection(Connection(object), e)),
                Err(err) => Err(err),
            },
            Some(Iface::Callback) => Err(ParseError::InvalidOpcode("callback", opcode)),
            Some(Iface::Pingpong) => match pingpong::Request::parse(opcode, rd, backend) {
                Ok(e) => Ok(Request::Pingpong(Pingpong(object), e)),
                Err(err) => Err(err),
            },
            Some(Iface::Seat) => match seat::Request::parse(opcode, rd, backend) {
                Ok(e) => Ok(Request::Seat(Seat(object), e)),
                Err(err) => Err(err),
            },
            Some(Iface::Device) => match device::Request::parse(opcode, rd, backend) {
                Ok(e) => Ok(Request::Device(Device(object), e)),
                Err(err) => Err(err),
            },
            Some(Iface::Pointer) => match pointer::Request::parse(opcode, rd, backend) {
                Ok(e) => Ok(Request::Pointer(Pointer(object), e)),
                Err(err) => Err(err),
            },
            Some(Iface::PointerAbsolute) => match pointer_absolute::Request::parse(opcode, rd, backend) {
                Ok(e) => Ok(Request::PointerAbsolute(PointerAbsolute(object), e)),
                Err(err) => Err(err),
            },
            Some(Iface::Scroll) => match scroll::Request::parse(opcode, rd, backend) {
                Ok(e) => Ok(Request::Scroll(Scroll(object), e)),
                Err(err) => Err(err),
            },
            Some(Iface::Button) => match button::Request::parse(opcode, rd, backend) {
                Ok(e) => Ok(Request::Button(Button(object), e)),
                Err(err) => Err(err),
            },
            Some(Iface::Keyboard) => match keyboard::Request::parse(opcode, rd, backend) {
                Ok(e) => Ok(Request::Keyboard(Keyboard(object), e)),
                Err(err) => Err(err),
            },
            Some(Iface::Touchscreen) => match touchscreen::Request::parse(opcode, rd, backend) {
                Ok(e) => Ok(Request::Touchscreen(Touchscreen(object), e)),
                Err(err) => Err(err),
            },
            None => Err(ParseError::InvalidInterface(object.interface.clone())),
        }
    }
}

/// A connection, seen from the server side.
pub struct Context<F>(pub Backend<F>);

impl<F> Context<F> {
    /// Creates the state of a new connection on the server side, with integers
    /// in the host's byte order.
    pub fn new() -> (c: Self)
        ensures
            c.0.is_fresh(false),
    {
        Context(Backend::new(false, host_byte_order()))
    }

    /// Takes the request at the front of the received bytes, if a whole one is
    /// there.
    pub fn pending_request(&mut self) -> (r: Option<PendingRequestResult<Request>>)
        ensures
            receive_post(Side::Server, old(self).0, final(self).0, pending_model(r)),
    {
        match self.0.take_frame() {
            None => None,
            Some(Received::HeaderLength(l)) => Some(PendingRequestResult::ParseError(ParseError::HeaderLength(l))),
            Some(Received::InvalidObject(id)) => Some(PendingRequestResult::InvalidObject(id)),
            Some(Received::Message { header, info, body }) => {
                let object = Object {
                    id: header.object_id,
                    interface: info.interface,
                    version: info.version,
                    client_side: self.0.client,
                };
                let mut rd = Reader::new(body);
                match Request::parse(object, header.opcode, &mut rd, &mut self.0) {
                    Err(e) => Some(PendingRequestResult::ParseError(e)),
                    Ok(m) => {
                        let rem = rd.remaining();
                        if rem != 0 {
                            Some(
                                PendingRequestResult::ParseError(
                                    ParseError::MessageLength(header.length.wrapping_add(rem as u32), header.length),
                                ),
                            )
                        } else {
                            Some(PendingRequestResult::Request(m))
                        }
                    },
                }
            },
        }
    }

    /// Returns the proxy for the `ei_handshake` object.
    pub fn handshake(&self) -> (r: Handshake)
        requires
            self.0.objects@.contains_key(0),
        ensures
            r.0.id == 0,
            r.0.interface@ == self.0.objects@[0].interface@,
            r.0.version == self.0.objects@[0].version,
            r.0.client_side == self.0.client,
    {
        match self.0.object_for_id(0) {
            Some(obj) => Handshake(obj),
            None => vstd::pervasive::unreached(),
        }
    }
}

} // verus!
