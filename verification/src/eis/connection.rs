//! The `ei_connection` interface on the server side.
use crate::arg::{
    args_model, new_id_only_at, take_float, take_fd, take_i32, take_i64, take_opt_string, take_string, take_u32, take_u64,
    values_model, Arg, ArgModel, EnumKind, ParseError, Reader, WireKind,
};
use crate::backend::{args_fd_values, Backend, Object};
use crate::enums::{ButtonState, ContextType, DeviceType, DisconnectReason, KeyState, KeymapType};
use crate::message::{
    args_size_bound, lemma_message_writable, opt_str_fits, opt_str_view, parse_model, parse_post, sent,
    sent_creating, sent_destroying, str_fits, WireMessage,
};
use crate::protocol::{event_kinds, event_slot, lemma_encode_len, lemma_name_len, request_kinds, request_slot, Iface, Interface};
use vstd::prelude::*;

verus! {

/// Proxy for an `ei_connection` object on the server side.
#[derive(Debug)]
pub struct Connection(pub Object);

impl Clone for Connection {
    fn clone(&self) -> (r: Self)
        ensures
            r == *self,
    {
        Connection(self.0.clone())
    }
}

impl Interface for Connection {
    open spec fn spec_iface() -> Iface {
        Iface::Connection
    }

    open spec fn spec_max_version() -> u32 {
        1
    }

    open spec fn spec_client_side() -> bool {
        false
    }

    open spec fn spec_object(&self) -> Object {
        self.0
    }

    fn iface() -> (r: Iface) {
        Iface::Connection
    }

    fn interface_name() -> (r: &'static str) {
        "ei_connection"
    }

    fn max_version() -> (r: u32) {
        1
    }

    fn client_side() -> (r: bool) {
        false
    }

    fn new_unchecked(object: Object) -> (r: Self) {
        Connection(object)
    }

    fn as_object(&self) -> (r: &Object) {
        &self.0
    }
}

impl Connection {
    /// Returns the version of the object's interface.
    pub fn version(&self) -> (r: u32)
        ensures
            r == self.0.version,
    {
        self.0.version
    }

    /// Returns `true` if the connection still has this object.
    pub fn is_alive<F>(&self, backend: &Backend<F>) -> (r: bool)
        ensures
            r == backend.objects@.contains_key(self.0.id),
    {
        self.0.is_alive(backend)
    }

    /// Sends the `ei_connection.disconnected` event, then forgets the object.
    pub fn disconnected<F>(&self, backend: &mut Backend<F>, last_serial: u32, reason: DisconnectReason, explanation: Option<&str>)
        requires
            opt_str_fits(explanation),
        ensures
            sent_destroying(*old(backend), *final(backend), self.0.id, 0, seq![ArgModel::Uint32(last_serial), ArgModel::Uint32(reason.spec_to_u32()), ArgModel::String(opt_str_view(explanation))], Seq::<F>::empty()),
    {
        let args = vec![Arg::Uint32(last_serial), Arg::Uint32(reason.to_u32()), Arg::String(explanation)];
        let ghost a = args@;
        proof {
            assert(args_model(a) =~= seq![ArgModel::Uint32(last_serial), ArgModel::Uint32(reason.spec_to_u32()), ArgModel::String(opt_str_view(explanation))]);
            reveal_with_fuel(args_size_bound, 4);
            lemma_message_writable(backend.order, args_model(a));
        }
        backend.request(self.0.id, 0, args);
        backend.remove_id(self.0.id);
        proof {
            reveal_with_fuel(args_fd_values, 4);
            assert(args_fd_values(a) =~= Seq::<F>::empty());
        }
    }

    /// Creates an `ei_seat` object with the given version and sends the `ei_connection.seat` event.
    pub fn seat<F>(&self, backend: &mut Backend<F>, version: u32) -> (r: super::seat::Seat)
        requires
            old(backend).next_id < u64::MAX,
        ensures
            sent_creating(*old(backend), *final(backend), self.0.id, 1, seq![ArgModel::Uint64(old(backend).next_id), ArgModel::Uint32(version)], Seq::<F>::empty(), "ei_seat"@, version, false),
            r.0.id == old(backend).next_id,
            r.0.interface@ == "ei_seat"@,
            r.0.version == version,
            r.0.client_side == old(backend).client,
    {
        let obj = backend.new_object("ei_seat".to_owned(), version);
        let args = vec![Arg::NewId(obj.id), Arg::Uint32(version)];
        let ghost a = args@;
        proof {
            assert(args_model(a) =~= seq![ArgModel::Uint64(obj.id), ArgModel::Uint32(version)]);
            reveal_with_fuel(args_size_bound, 3);
            lemma_message_writable(backend.order, args_model(a));
        }
        backend.request(self.0.id, 1, args);
        proof {
            reveal_with_fuel(args_fd_values, 3);
            assert(args_fd_values(a) =~= Seq::<F>::empty());
            assert(backend.objects@.remove(obj.id) =~= old(backend).objects@.remove(obj.id));
        }
        super::seat::Seat(obj)
    }

    /// Sends the `ei_connection.invalid_object` event.
    pub fn invalid_object<F>(&self, backend: &mut Backend<F>, last_serial: u32, invalid_id: u64)
        ensures
            sent(*old(backend), *final(backend), self.0.id, 2, seq![ArgModel::Uint32(last_serial), ArgModel::Uint64(invalid_id)], Seq::<F>::empty()),
    {
        let args = vec![Arg::Uint32(last_serial), Arg::Uint64(invalid_id)];
        let ghost a = args@;
        proof {
            assert(args_model(a) =~= seq![ArgModel::Uint32(last_serial), ArgModel::Uint64(invalid_id)]);
            reveal_with_fuel(args_size_bound, 3);
            lemma_message_writable(backend.order, args_model(a));
        }
        backend.request(self.0.id, 2, args);
        proof {
            reveal_with_fuel(args_fd_values, 3);
            assert(args_fd_values(a) =~= Seq::<F>::empty());
        }
    }

    /// Creates an `ei_pingpong` object with the given version and sends the `ei_connection.ping` event.
    pub fn ping<F>(&self, backend: &mut Backend<F>, version: u32) -> (r: super::pingpong::Pingpong)
        requires
            old(backend).next_id < u64::MAX,
        ensures
            sent_creating(*old(backend), *final(backend), self.0.id, 3, seq![ArgModel::Uint64(old(backend).next_id), ArgModel::Uint32(version)], Seq::<F>::empty(), "ei_pingpong"@, version, false),
            r.0.id == old(backend).next_id,
            r.0.interface@ == "ei_pingpong"@,
            r.0.version == version,
            r.0.client_side == old(backend).client,
    {
        let obj = backend.new_object("ei_pingpong".to_owned(), version);
        let args = vec![Arg::NewId(obj.id), Arg::Uint32(version)];
        let ghost a = args@;
        proof {
            assert(args_model(a) =~= seq![ArgModel::Uint64(obj.id), ArgModel::Uint32(version)]);
            reveal_with_fuel(args_size_bound, 3);
            lemma_message_writable(backend.order, args_model(a));
        }
        backend.request(self.0.id, 3, args);
        proof {
            reveal_with_fuel(args_fd_values, 3);
            assert(args_fd_values(a) =~= Seq::<F>::empty());
            assert(backend.objects@.remove(obj.id) =~= old(backend).objects@.remove(obj.id));
        }
        super::pingpong::Pingpong(obj)
    }
}

/// The requests of `ei_connection`.
#[derive(Debug)]
pub enum Request {
    /// The `ei_connection.sync` request.
    Sync { callback: super::callback::Callback },
    /// The `ei_connection.disconnect` request.
    Disconnect,
}

impl WireMessage for Request {
    open spec fn wire_opcode(&self) -> u32 {
        match self {
            Request::Sync { .. } => 0,
            Request::Disconnect => 1,
        }
    }

    open spec fn wire_args(&self) -> Seq<ArgModel> {
        match self {
            Request::Sync { callback } => seq![ArgModel::Uint64(callback.0.id), ArgModel::Uint32(callback.0.version)],
            Request::Disconnect => Seq::empty(),
        }
    }

    open spec fn wire_created(&self) -> Option<Object> {
        match self {
            Request::Sync { callback, .. } => Some(callback.0),
            _ => None,
        }
    }

    open spec fn wire_new_id_at(&self) -> Option<int> {
        match self {
            Request::Sync { .. } => Some(0),
            _ => None,
        }
    }
}

impl Request {
    /// The name of the request with this opcode.
    pub open spec fn spec_op_name(opcode: u32) -> Option<&'static str> {
        match opcode {
            0 => Some("sync"),
            1 => Some("disconnect"),
            _ => None,
        }
    }

    /// Returns the name of the request with this opcode.
    #[verifier::when_used_as_spec(spec_op_name)]
    pub fn op_name(opcode: u32) -> (r: Option<&'static str>)
        ensures
            r == Self::spec_op_name(opcode),
    {
        match opcode {
            0 => Some("sync"),
            1 => Some("disconnect"),
            _ => None,
        }
    }

    /// Returns the arguments of the request, as they go on the wire.
    pub fn args<G>(&self) -> (r: Vec<Arg<'_, G>>)
        ensures
            args_model(r@) == self.wire_args(),
            new_id_only_at(r@, self.wire_new_id_at()),
    {
        match self {
            Request::Sync { callback } => {
                let r: Vec<Arg<'_, G>> = vec![Arg::NewId(callback.0.id), Arg::Uint32(callback.0.version)];
                proof {
                    assert(args_model(r@) =~= seq![ArgModel::Uint64(callback.0.id), ArgModel::Uint32(callback.0.version)]);
                }
                r
            },
            Request::Disconnect => {
                let r: Vec<Arg<'_, G>> = Vec::new();
                proof {
                    assert(args_model(r@) =~= Seq::<ArgModel>::empty());
                }
                r
            },
        }
    }

    /// Parses the body of the request with `opcode`; an object it creates is
    /// recorded in `backend`.
    pub fn parse<F>(opcode: u32, rd: &mut Reader, backend: &mut Backend<F>) -> (r: Result<Self, ParseError>)
        requires
            old(rd).wf(),
        ensures
            parse_post(
                "connection",
                request_kinds(Iface::Connection, opcode),
                request_slot(Iface::Connection, opcode),
                opcode,
                *old(rd),
                *final(rd),
                *old(backend),
                *final(backend),
                parse_model(r),
            ),
    {
        match opcode {
            0 => Self::parse_sync(rd, backend),
            1 => Self::parse_disconnect(rd, backend),
            _ => Err(ParseError::InvalidOpcode("connection", opcode)),
        }
    }

    /// Parses the body of the `ei_connection.sync` request.
    fn parse_sync<F>(rd: &mut Reader, backend: &mut Backend<F>) -> (r: Result<Self, ParseError>)
        requires
            old(rd).wf(),
        ensures
            parse_post(
                "connection",
                request_kinds(Iface::Connection, 0),
                request_slot(Iface::Connection, 0),
                0,
                *old(rd),
                *final(rd),
                *old(backend),
                *final(backend),
                parse_model(r),
            ),
    {
        let ks = vec![WireKind::Uint64, WireKind::Uint32];
        proof {
            assert(ks@ =~= seq![WireKind::Uint64, WireKind::Uint32]);
        }
        let mut vals = backend.read_args(ks.as_slice(), rd)?;
        let ghost m0 = values_model(vals@);
        let ghost r0 = seq![WireKind::Uint32];
        proof {
            assert(seq![WireKind::Uint64] + r0 =~= seq![WireKind::Uint64, WireKind::Uint32]);
        }
        let callback_id = take_u64(&mut vals, Ghost(r0));
        let ghost m1 = values_model(vals@);
        let ghost r1 = Seq::<WireKind>::empty();
        proof {
            assert(seq![WireKind::Uint32] + r1 =~= seq![WireKind::Uint32]);
        }
        let callback_version = take_u32(&mut vals, Ghost(WireKind::Uint32), Ghost(r1));
        let ghost m2 = values_model(vals@);
        proof {
            assert(m2 =~= Seq::<ArgModel>::empty());
            assert(m0 =~= seq![ArgModel::Uint64(callback_id), ArgModel::Uint32(callback_version)]);
        }
        let obj = backend.new_peer_object(callback_id, "ei_callback".to_owned(), callback_version)?;
        proof {
            assert(backend.objects@.remove(callback_id) =~= old(backend).objects@.remove(callback_id));
        }
        Ok(Request::Sync { callback: super::callback::Callback(obj) })
    }

    /// Parses the body of the `ei_connection.disconnect` request.
    fn parse_disconnect<F>(rd: &mut Reader, backend: &mut Backend<F>) -> (r: Result<Self, ParseError>)
        requires
            old(rd).wf(),
        ensures
            parse_post(
                "connection",
                request_kinds(Iface::Connection, 1),
                request_slot(Iface::Connection, 1),
                1,
                *old(rd),
                *final(rd),
                *old(backend),
                *final(backend),
                parse_model(r),
            ),
    {
        let ks = vec![];
        proof {
            assert(ks@ =~= Seq::<WireKind>::empty());
        }
        let mut vals = backend.read_args(ks.as_slice(), rd)?;
        let ghost m0 = values_model(vals@);
        proof {
            assert(m0 =~= Seq::<ArgModel>::empty());
            assert(m0 =~= Seq::<ArgModel>::empty());
        }
        Ok(Request::Disconnect)
    }

}

} // verus!
