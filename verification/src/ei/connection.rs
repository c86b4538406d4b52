//! The `ei_connection` interface on the client side.
use crate::arg::{
    args_model, new_id_only_at, take_float, take_fd, take_i32, take_i64, take_opt_string, take_string, take_u32, take_u64,
    values_model, Arg, ArgModel, EnumKind, ParseError, Reader, WireKind,
};
use crate::backend::{args_fd_values, Backend, Object};
use crate::enums::{ButtonState, ContextType, DeviceType, DisconnectReason, KeyState, KeymapType};
use crate::message::{
    args_size_bound, lemma_message_writable, opt_str_fits, opt_str_view, parse_model, parse_post, sent,
    sent_creating, sent_destroying, str_fits, WireMessage,
};
use crate::protocol::{event_kinds, event_slot, lemma_encode_len, lemma_name_len, request_kinds, request_slot, Iface, Interface};
use vstd::prelude::*;

verus! {

/// Proxy for an `ei_connection` object on the client side.
#[derive(Debug)]
pub struct Connection(pub Object);

impl Clone for Connection {
    fn clone(&self) -> (r: Self)
        ensures
            r == *self,
    {
        Connection(self.0.clone())
    }
}

impl Interface for Connection {
    open spec fn spec_iface() -> Iface {
        Iface::Connection
    }

    open spec fn spec_max_version() -> u32 {
        1
    }

    open spec fn spec_client_side() -> bool {
        true
    }

    open spec fn spec_object(&self) -> Object {
        self.0
    }

    fn iface() -> (r: Iface) {
        Iface::Connection
    }

    fn interface_name() -> (r: &'static str) {
        "ei_connection"
    }

    fn max_version() -> (r: u32) {
        1
    }

    fn client_side() -> (r: bool) {
        true
    }

    fn new_unchecked(object: Object) -> (r: Self) {
        Connection(object)
    }

    fn as_object(&self) -> (r: &Object) {
        &self.0
    }
}

impl Connection {
    /// Returns the version of the object's interface.
    pub fn version(&self) -> (r: u32)
        ensures
            r == self.0.version,
    {
        self.0.version
    }

    /// Returns `true` if the connection still has this object.
    pub fn is_alive<F>(&self, backend: &Backend<F>) -> (r: bool)
        ensures
            r == backend.objects@.contains_key(self.0.id),
    {
        self.0.is_alive(backend)
    }

    /// Creates an `ei_callback` object with the given version and sends the `ei_connection.sync` request.
    pub fn sync<F>(&self, backend: &mut Backend<F>, version: u32) -> (r: super::callback::Callback)
        requires
            old(backend).next_id < u64::MAX,
        ensures
            sent_creating(*old(backend), *final(backend), self.0.id, 0, seq![ArgModel::Uint64(old(backend).next_id), ArgModel::Uint32(version)], Seq::<F>::empty(), "ei_callback"@, version, false),
            r.0.id == old(backend).next_id,
            r.0.interface@ == "ei_callback"@,
            r.0.version == version,
            r.0.client_side == old(backend).client,
    {
        let obj = backend.new_object("ei_callback".to_owned(), version);
        let args = vec![Arg::NewId(obj.id), Arg::Uint32(version)];
        let ghost a = args@;
        proof {
            assert(args_model(a) =~= seq![ArgModel::Uint64(obj.id), ArgModel::Uint32(version)]);
            reveal_with_fuel(args_size_bound, 3);
            lemma_message_writable(backend.order, args_model(a));
        }
        backend.request(self.0.id, 0, args);
        proof {
            reveal_with_fuel(args_fd_values, 3);
            assert(args_fd_values(a) =~= Seq::<F>::empty());
            assert(backend.objects@.remove(obj.id) =~= old(backend).objects@.remove(obj.id));
        }
        super::callback::Callback(obj)
    }

    /// Sends the `ei_connection.disconnect` request, then forgets the object.
    pub fn disconnect<F>(&self, backend: &mut Backend<F>)
        ensures
            sent_destroying(*old(backend), *final(backend), self.0.id, 1, Seq::<ArgModel>::empty(), Seq::<F>::empty()),
    {
        let args = vec![];
        let ghost a = args@;
        proof {
            assert(args_model(a) =~= Seq::<ArgModel>::empty());
            reveal_with_fuel(args_size_bound, 1);
            lemma_message_writable(backend.order, args_model(a));
        }
        backend.request(self.0.id, 1, args);
        backend.remove_id(self.0.id);
        proof {
            reveal_with_fuel(args_fd_values, 1);
            assert(args_fd_values(a) =~= Seq::<F>::empty());
        }
    }
}

/// The events of `ei_connection`.
#[derive(Debug)]
pub enum Event {
    /// The `ei_connection.disconnected` event.
    Disconnected { last_serial: u32, reason: DisconnectReason, explanation: String },
    /// The `ei_connection.seat` event.
    Seat { seat: super::seat::Seat },
    /// The `ei_connection.invalid_object` event.
    InvalidObject { last_serial: u32, invalid_id: u64 },
    /// The `ei_connection.ping` event.
    Ping { ping: super::pingpong::Pingpong },
}

impl WireMessage for Event {
    open spec fn wire_opcode(&self) -> u32 {
        match self {
            Event::Disconnected { .. } => 0,
            Event::Seat { .. } => 1,
            Event::InvalidObject { .. } => 2,
            Event::Ping { .. } => 3,
        }
    }

    open spec fn wire_args(&self) -> Seq<ArgModel> {
        match self {
            Event::Disconnected { last_serial, reason, explanation } => seq![ArgModel::Uint32(*last_serial), ArgModel::Uint32(reason.spec_to_u32()), ArgModel::String(Some(explanation@))],
            Event::Seat { seat } => seq![ArgModel::Uint64(seat.0.id), ArgModel::Uint32(seat.0.version)],
            Event::InvalidObject { last_serial, invalid_id } => seq![ArgModel::Uint32(*last_serial), ArgModel::Uint64(*invalid_id)],
            Event::Ping { ping } => seq![ArgModel::Uint64(ping.0.id), ArgModel::Uint32(ping.0.version)],
        }
    }

    open spec fn wire_created(&self) -> Option<Object> {
        match self {
            Event::Seat { seat, .. } => Some(seat.0),
            Event::Ping { ping, .. } => Some(ping.0),
            _ => None,
        }
    }

    open spec fn wire_new_id_at(&self) -> Option<int> {
        match self {
            Event::Seat { .. } => Some(0),
            Event::Ping { .. } => Some(0),
            _ => None,
        }
    }
}

impl Event {
    /// The name of the event with this opcode.
    pub open spec fn spec_op_name(opcode: u32) -> Option<&'static str> {
        match opcode {
            0 => Some("disconnected"),
            1 => Some("seat"),
            2 => Some("invalid_object"),
            3 => Some("ping"),
            _ => None,
        }
    }

    /// Returns the name of the event with this opcode.
    #[verifier::when_used_as_spec(spec_op_name)]
    pub fn op_name(opcode: u32) -> (r: Option<&'static str>)
        ensures
            r == Self::spec_op_name(opcode),
    {
        match opcode {
            0 => Some("disconnected"),
            1 => Some("seat"),
            2 => Some("invalid_object"),
            3 => Some("ping"),
            _ => None,
        }
    }

    /// Returns the arguments of the event, as they go on the wire.
    pub fn args<G>(&self) -> (r: Vec<Arg<'_, G>>)
        ensures
            args_model(r@) == self.wire_args(),
            new_id_only_at(r@, self.wire_new_id_at()),
    {
        match self {
            Event::Disconnected { last_serial, reason, explanation } => {
                let r: Vec<Arg<'_, G>> = vec![Arg::Uint32(*last_serial), Arg::Uint32(reason.to_u32()), Arg::String(Some(explanation.as_str()))];
                proof {
                    assert(args_model(r@) =~= seq![ArgModel::Uint32(*last_serial), ArgModel::Uint32(reason.spec_to_u32()), ArgModel::String(Some(explanation@))]);
                }
                r
            },
            Event::Seat { seat } => {
                let r: Vec<Arg<'_, G>> = vec![Arg::NewId(seat.0.id), Arg::Uint32(seat.0.version)];
                proof {
                    assert(args_model(r@) =~= seq![ArgModel::Uint64(seat.0.id), ArgModel::Uint32(seat.0.version)]);
                }
                r
            },
            Event::InvalidObject { last_serial, invalid_id } => {
                let r: Vec<Arg<'_, G>> = vec![Arg::Uint32(*last_serial), Arg::Uint64(*invalid_id)];
                proof {
                    assert(args_model(r@) =~= seq![ArgModel::Uint32(*last_serial), ArgModel::Uint64(*invalid_id)]);
                }
                r
            },
            Event::Ping { ping } => {
                let r: Vec<Arg<'_, G>> = vec![Arg::NewId(ping.0.id), Arg::Uint32(ping.0.version)];
                proof {
                    assert(args_model(r@) =~= seq![ArgModel::Uint64(ping.0.id), ArgModel::Uint32(ping.0.version)]);
                }
                r
            },
        }
    }

    /// Parses the body of the event with `opcode`; an object it creates is
    /// recorded in `backend`.
    pub fn parse<F>(opcode: u32, rd: &mut Reader, backend: &mut Backend<F>) -> (r: Result<Self, ParseError>)
        requires
            old(rd).wf(),
        ensures
            parse_post(
                "connection",
                event_kinds(Iface::Connection, opcode),
                event_slot(Iface::Connection, opcode),
                opcode,
                *old(rd),
                *final(rd),
                *old(backend),
                *final(backend),
                parse_model(r),
            ),
    {
        match opcode {
            0 => Self::parse_disconnected(rd, backend),
            1 => Self::parse_seat(rd, backend),
            2 => Self::parse_invalid_object(rd, backend),
            3 => Self::parse_ping(rd, backend),
            _ => Err(ParseError::InvalidOpcode("connection", opcode)),
        }
    }

    /// Parses the body of the `ei_connection.disconnected` event.
    fn parse_disconnected<F>(rd: &mut Reader, backend: &mut Backend<F>) -> (r: Result<Self, ParseError>)
        requires
            old(rd).wf(),
        ensures
            parse_post(
                "connection",
                event_kinds(Iface::Connection, 0),
                event_slot(Iface::Connection, 0),
                0,
                *old(rd),
                *final(rd),
                *old(backend),
                *final(backend),
                parse_model(r),
            ),
    {
        let ks = vec![WireKind::Uint32, WireKind::Enum(EnumKind::DisconnectReason), WireKind::String];
        proof {
            assert(ks@ =~= seq![WireKind::Uint32, WireKind::Enum(EnumKind::DisconnectReason), WireKind::String]);
        }
        let mut vals = backend.read_args(ks.as_slice(), rd)?;
        let ghost m0 = values_model(vals@);
        let ghost r0 = seq![WireKind::Enum(EnumKind::DisconnectReason), WireKind::String];
        proof {
            assert(seq![WireKind::Uint32] + r0 =~= seq![WireKind::Uint32, WireKind::Enum(EnumKind::DisconnectReason), WireKind::String]);
        }
        let last_serial = take_u32(&mut vals, Ghost(WireKind::Uint32), Ghost(r0));
        let ghost m1 = values_model(vals@);
        let ghost r1 = seq![WireKind::String];
        proof {
            assert(seq![WireKind::Enum(EnumKind::DisconnectReason)] + r1 =~= seq![WireKind::Enum(EnumKind::DisconnectReason), WireKind::String]);
        }
        let reason_raw = take_u32(&mut vals, Ghost(WireKind::Enum(EnumKind::DisconnectReason)), Ghost(r1));
        let reason = match DisconnectReason::from_u32(reason_raw) {
            Some(v) => v,
            None => vstd::pervasive::unreached(),
        };
        let ghost m2 = values_model(vals@);
        let ghost r2 = Seq::<WireKind>::empty();
        proof {
            assert(seq![WireKind::String] + r2 =~= seq![WireKind::String]);
        }
        let explanation = take_string(&mut vals, Ghost(r2));
        let ghost m3 = values_model(vals@);
        proof {
            assert(m3 =~= Seq::<ArgModel>::empty());
            assert(m0 =~= seq![ArgModel::Uint32(last_serial), ArgModel::Uint32(reason.spec_to_u32()), ArgModel::String(Some(explanation@))]);
        }
        Ok(Event::Disconnected { last_serial, reason, explanation })
    }

    /// Parses the body of the `ei_connection.seat` event.
    fn parse_seat<F>(rd: &mut Reader, backend: &mut Backend<F>) -> (r: Result<Self, ParseError>)
        requires
            old(rd).wf(),
        ensures
            parse_post(
                "connection",
                event_kinds(Iface::Connection, 1),
                event_slot(Iface::Connection, 1),
                1,
                *old(rd),
                *final(rd),
                *old(backend),
                *final(backend),
                parse_model(r),
            ),
    {
        let ks = vec![WireKind::Uint64, WireKind::Uint32];
        proof {
            assert(ks@ =~= seq![WireKind::Uint64, WireKind::Uint32]);
        }
        let mut vals = backend.read_args(ks.as_slice(), rd)?;
        let ghost m0 = values_model(vals@);
        let ghost r0 = seq![WireKind::Uint32];
        proof {
            assert(seq![WireKind::Uint64] + r0 =~= seq![WireKind::Uint64, WireKind::Uint32]);
        }
        let seat_id = take_u64(&mut vals, Ghost(r0));
        let ghost m1 = values_model(vals@);
        let ghost r1 = Seq::<WireKind>::empty();
        proof {
            assert(seq![WireKind::Uint32] + r1 =~= seq![WireKind::Uint32]);
        }
        let seat_version = take_u32(&mut vals, Ghost(WireKind::Uint32), Ghost(r1));
        let ghost m2 = values_model(vals@);
        proof {
            assert(m2 =~= Seq::<ArgModel>::empty());
            assert(m0 =~= seq![ArgModel::Uint64(seat_id), ArgModel::Uint32(seat_version)]);
        }
        let obj = backend.new_peer_object(seat_id, "ei_seat".to_owned(), seat_version)?;
        proof {
            assert(backend.objects@.remove(seat_id) =~= old(backend).objects@.remove(seat_id));
        }
        Ok(Event::Seat { seat: super::seat::Seat(obj) })
    }

    /// Parses the body of the `ei_connection.invalid_object` event.
    fn parse_invalid_object<F>(rd: &mut Reader, backend: &mut Backend<F>) -> (r: Result<Self, ParseError>)
        requires
            old(rd).wf(),
        ensures
            parse_post(
                "connection",
                event_kinds(Iface::Connection, 2),
                event_slot(Iface::Connection, 2),
                2,
                *old(rd),
                *final(rd),
                *old(backend),
                *final(backend),
                parse_model(r),
            ),
    {
        let ks = vec![WireKind::Uint32, WireKind::Uint64];
        proof {
            assert(ks@ =~= seq![WireKind::Uint32, WireKind::Uint64]);
        }
        let mut vals = backend.read_args(ks.as_slice(), rd)?;
        let ghost m0 = values_model(vals@);
        let ghost r0 = seq![WireKind::Uint64];
        proof {
            assert(seq![WireKind::Uint32] + r0 =~= seq![WireKind::Uint32, WireKind::Uint64]);
        }
        let last_serial = take_u32(&mut vals, Ghost(WireKind::Uint32), Ghost(r0));
        let ghost m1 = values_model(vals@);
        let ghost r1 = Seq::<WireKind>::empty();
        proof {
            assert(seq![WireKind::Uint64] + r1 =~= seq![WireKind::Uint64]);
        }
        let invalid_id = take_u64(&mut vals, Ghost(r1));
        let ghost m2 = values_model(vals@);
        proof {
            assert(m2 =~= Seq::<ArgModel>::empty());
            assert(m0 =~= seq![ArgModel::Uint32(last_serial), ArgModel::Uint64(invalid_id)]);
        }
        Ok(Event::InvalidObject { last_serial, invalid_id })
    }

    /// Parses the body of the `ei_connection.ping` event.
    fn parse_ping<F>(rd: &mut Reader, backend: &mut Backend<F>) -> (r: Result<Self, ParseError>)
        requires
            old(rd).wf(),
        ensures
            parse_post(
                "connection",
                event_kinds(Iface::Connection, 3),
                event_slot(Iface::Connection, 3),
                3,
                *old(rd),
                *final(rd),
                *old(backend),
                *final(backend),
                parse_model(r),
            ),
    {
        let ks = vec![WireKind::Uint64, WireKind::Uint32];
        proof {
            assert(ks@ =~= seq![WireKind::Uint64, WireKind::Uint32]);
        }
        let mut vals = backend.read_args(ks.as_slice(), rd)?;
        let ghost m0 = values_model(vals@);
        let ghost r0 = seq![WireKind::Uint32];
        proof {
            assert(seq![WireKind::Uint64] + r0 =~= seq![WireKind::Uint64, WireKind::Uint32]);
        }
        let ping_id = take_u64(&mut vals, Ghost(r0));
        let ghost m1 = values_model(vals@);
        let ghost r1 = Seq::<WireKind>::empty();
        proof {
            assert(seq![WireKind::Uint32] + r1 =~= seq![WireKind::Uint32]);
        }
        let ping_version = take_u32(&mut vals, Ghost(WireKind::Uint32), Ghost(r1));
        let ghost m2 = values_model(vals@);
        proof {
            assert(m2 =~= Seq::<ArgModel>::empty());
            assert(m0 =~= seq![ArgModel::Uint64(ping_id), ArgModel::Uint32(ping_version)]);
        }
        let obj = backend.new_peer_object(ping_id, "ei_pingpong".to_owned(), ping_version)?;
        proof {
            assert(backend.objects@.remove(ping_id) =~= old(backend).objects@.remove(ping_id));
        }
        Ok(Event::Ping { ping: super::pingpong::Pingpong(obj) })
    }

}

} // verus!
