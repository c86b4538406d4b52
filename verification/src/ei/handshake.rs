//! The `ei_handshake` interface on the client side.
use crate::arg::{
    args_model, new_id_only_at, take_float, take_fd, take_i32, take_i64, take_opt_string, take_string, take_u32, take_u64,
    values_model, Arg, ArgModel, EnumKind, ParseError, Reader, WireKind,
};
use crate::backend::{args_fd_values, Backend, Object};
use crate::enums::{ButtonState, ContextType, DeviceType, DisconnectReason, KeyState, KeymapType};
use crate::message::{
    args_size_bound, lemma_message_writable, opt_str_fits, opt_str_view, parse_model, parse_post, sent,
    sent_creating, sent_destroying, str_fits, WireMessage,
};
use crate::protocol::{event_kinds, event_slot, lemma_encode_len, lemma_name_len, request_kinds, request_slot, Iface, Interface};
use vstd::prelude::*;

verus! {

/// Proxy for an `ei_handshake` object on the client side.
#[derive(Debug)]
pub struct Handshake(pub Object);

impl Clone for Handshake {
    fn clone(&self) -> (r: Self)
        ensures
            r == *self,
    {
        Handshake(self.0.clone())
    }
}

impl Interface for Handshake {
    open spec fn spec_iface() -> Iface {
        Iface::Handshake
    }

    open spec fn spec_max_version() -> u32 {
        1
    }

    open spec fn spec_client_side() -> bool {
        true
    }

    open spec fn spec_object(&self) -> Object {
        self.0
    }

    fn iface() -> (r: Iface) {
        Iface::Handshake
    }

    fn interface_name() -> (r: &'static str) {
        "ei_handshake"
    }

    fn max_version() -> (r: u32) {
        1
    }

    fn client_side() -> (r: bool) {
        true
    }

    fn new_unchecked(object: Object) -> (r: Self) {
        Handshake(object)
    }

    fn as_object(&self) -> (r: &Object) {
        &self.0
    }
}

impl Handshake {
    /// Returns the version of the object's interface.
    pub fn version(&self) -> (r: u32)
        ensures
            r == self.0.version,
    {
        self.0.version
    }

    /// Returns `true` if the connection still has this object.
    pub fn is_alive<F>(&self, backend: &Backend<F>) -> (r: bool)
        ensures
            r == backend.objects@.contains_key(self.0.id),
    {
        self.0.is_alive(backend)
    }

    /// Sends the `ei_handshake.handshake_version` request.
    pub fn handshake_version<F>(&self, backend: &mut Backend<F>, version: u32)
        ensures
            sent(*old(backend), *final(backend), self.0.id, 0, seq![ArgModel::Uint32(version)], Seq::<F>::empty()),
    {
        let args = vec![Arg::Uint32(version)];
        let ghost a = args@;
        proof {
            assert(args_model(a) =~= seq![ArgModel::Uint32(version)]);
            reveal_with_fuel(args_size_bound, 2);
            lemma_message_writable(backend.order, args_model(a));
        }
        backend.request(self.0.id, 0, args);
        proof {
            reveal_with_fuel(args_fd_values, 2);
            assert(args_fd_values(a) =~= Seq::<F>::empty());
        }
    }

    /// Sends the `ei_handshake.finish` request.
    pub fn finish<F>(&self, backend: &mut Backend<F>)
        ensures
            sent(*old(backend), *final(backend), self.0.id, 1, Seq::<ArgModel>::empty(), Seq::<F>::empty()),
    {
        let args = vec![];
        let ghost a = args@;
        proof {
            assert(args_model(a) =~= Seq::<ArgModel>::empty());
            reveal_with_fuel(args_size_bound, 1);
            lemma_message_writable(backend.order, args_model(a));
        }
        backend.request(self.0.id, 1, args);
        proof {
            reveal_with_fuel(args_fd_values, 1);
            assert(args_fd_values(a) =~= Seq::<F>::empty());
        }
    }

    /// Sends the `ei_handshake.context_type` request.
    pub fn context_type<F>(&self, backend: &mut Backend<F>, context_type: ContextType)
        ensures
            sent(*old(backend), *final(backend), self.0.id, 2, seq![ArgModel::Uint32(context_type.spec_to_u32())], Seq::<F>::empty()),
    {
        let args = vec![Arg::Uint32(context_type.to_u32())];
        let ghost a = args@;
        proof {
            assert(args_model(a) =~= seq![ArgModel::Uint32(context_type.spec_to_u32())]);
            reveal_with_fuel(args_size_bound, 2);
            lemma_message_writable(backend.order, args_model(a));
        }
        backend.request(self.0.id, 2, args);
        proof {
            reveal_with_fuel(args_fd_values, 2);
            assert(args_fd_values(a) =~= Seq::<F>::empty());
        }
    }

    /// Sends the `ei_handshake.name` request.
    pub fn name<F>(&self, backend: &mut Backend<F>, name: &str)
        requires
            str_fits(name),
        ensures
            sent(*old(backend), *final(backend), self.0.id, 3, seq![ArgModel::String(Some(name@))], Seq::<F>::empty()),
    {
        let args = vec![Arg::String(Some(name))];
        let ghost a = args@;
        proof {
            assert(args_model(a) =~= seq![ArgModel::String(Some(name@))]);
            reveal_with_fuel(args_size_bound, 2);
            lemma_message_writable(backend.order, args_model(a));
        }
        backend.request(self.0.id, 3, args);
        proof {
            reveal_with_fuel(args_fd_values, 2);
            assert(args_fd_values(a) =~= Seq::<F>::empty());
        }
    }

    /// Sends the `ei_handshake.interface_version` request.
    pub fn interface_version<F>(&self, backend: &mut Backend<F>, name: &str, version: u32)
        requires
            str_fits(name),
        ensures
            sent(*old(backend), *final(backend), self.0.id, 4, seq![ArgModel::String(Some(name@)), ArgModel::Uint32(version)], Seq::<F>::empty()),
    {
        let args = vec![Arg::String(Some(name)), Arg::Uint32(version)];
        let ghost a = args@;
        proof {
            assert(args_model(a) =~= seq![ArgModel::String(Some(name@)), ArgModel::Uint32(version)]);
            reveal_with_fuel(args_size_bound, 3);
            lemma_message_writable(backend.order, args_model(a));
        }
        backend.request(self.0.id, 4, args);
        proof {
            reveal_with_fuel(args_fd_values, 3);
            assert(args_fd_values(a) =~= Seq::<F>::empty());
        }
    }
}

/// The events of `ei_handshake`.
#[derive(Debug)]
pub enum Event {
    /// The `ei_handshake.handshake_version` event.
    HandshakeVersion { version: u32 },
    /// The `ei_handshake.interface_version` event.
    InterfaceVersion { name: String, version: u32 },
    /// The `ei_handshake.connection` event.
    Connection { serial: u32, connection: super::connection::Connection },
}

impl WireMessage for Event {
    open spec fn wire_opcode(&self) -> u32 {
        match self {
            Event::HandshakeVersion { .. } => 0,
            Event::InterfaceVersion { .. } => 1,
            Event::Connection { .. } => 2,
        }
    }

    open spec fn wire_args(&self) -> Seq<ArgModel> {
        match self {
            Event::HandshakeVersion { version } => seq![ArgModel::Uint32(*version)],
            Event::InterfaceVersion { name, version } => seq![ArgModel::String(Some(name@)), ArgModel::Uint32(*version)],
            Event::Connection { serial, connection } => seq![ArgModel::Uint32(*serial), ArgModel::Uint64(connection.0.id), ArgModel::Uint32(connection.0.version)],
        }
    }

    open spec fn wire_created(&self) -> Option<Object> {
        match self {
            Event::Connection { connection, .. } => Some(connection.0),
            _ => None,
        }
    }

    open spec fn wire_new_id_at(&self) -> Option<int> {
        match self {
            Event::Connection { .. } => Some(1),
            _ => None,
        }
    }
}

impl Event {
    /// The name of the event with this opcode.
    pub open spec fn spec_op_name(opcode: u32) -> Option<&'static str> {
        match opcode {
            0 => Some("handshake_version"),
            1 => Some("interface_version"),
            2 => Some("connection"),
            _ => None,
        }
    }

    /// Returns the name of the event with this opcode.
    #[verifier::when_used_as_spec(spec_op_name)]
    pub fn op_name(opcode: u32) -> (r: Option<&'static str>)
        ensures
            r == Self::spec_op_name(opcode),
    {
        match opcode {
            0 => Some("handshake_version"),
            1 => Some("interface_version"),
            2 => Some("connection"),
            _ => None,
        }
    }

    /// Returns the arguments of the event, as they go on the wire.
    pub fn args<G>(&self) -> (r: Vec<Arg<'_, G>>)
        ensures
            args_model(r@) == self.wire_args(),
            new_id_only_at(r@, self.wire_new_id_at()),
    {
        match self {
            Event::HandshakeVersion { version } => {
                let r: Vec<Arg<'_, G>> = vec![Arg::Uint32(*version)];
                proof {
                    assert(args_model(r@) =~= seq![ArgModel::Uint32(*version)]);
                }
                r
            },
            Event::InterfaceVersion { name, version } => {
                let r: Vec<Arg<'_, G>> = vec![Arg::String(Some(name.as_str())), Arg::Uint32(*version)];
                proof {
                    assert(args_model(r@) =~= seq![ArgModel::String(Some(name@)), ArgModel::Uint32(*version)]);
                }
                r
            },
            Event::Connection { serial, connection } => {
                let r: Vec<Arg<'_, G>> = vec![Arg::Uint32(*serial), Arg::NewId(connection.0.id), Arg::Uint32(connection.0.version)];
                proof {
                    assert(args_model(r@) =~= seq![ArgModel::Uint32(*serial), ArgModel::Uint64(connection.0.id), ArgModel::Uint32(connection.0.version)]);
                }
                r
            },
        }
    }

    /// Parses the body of the event with `opcode`; an object it creates is
    /// recorded in `backend`.
    pub fn parse<F>(opcode: u32, rd: &mut Reader, backend: &mut Backend<F>) -> (r: Result<Self, ParseError>)
        requires
            old(rd).wf(),
        ensures
            parse_post(
                "handshake",
                event_kinds(Iface::Handshake, opcode),
                event_slot(Iface::Handshake, opcode),
                opcode,
                *old(rd),
                *final(rd),
                *old(backend),
                *final(backend),
                parse_model(r),
            ),
    {
        match opcode {
            0 => Self::parse_handshake_version(rd, backend),
            1 => Self::parse_interface_version(rd, backend),
            2 => Self::parse_connection(rd, backend),
            _ => Err(ParseError::InvalidOpcode("handshake", opcode)),
        }
    }

    /// Parses the body of the `ei_handshake.handshake_version` event.
    fn parse_handshake_version<F>(rd: &mut Reader, backend: &mut Backend<F>) -> (r: Result<Self, ParseError>)
        requires
            old(rd).wf(),
        ensures
            parse_post(
                "handshake",
                event_kinds(Iface::Handshake, 0),
                event_slot(Iface::Handshake, 0),
                0,
                *old(rd),
                *final(rd),
                *old(backend),
                *final(backend),
                parse_model(r),
            ),
    {
        let ks = vec![WireKind::Uint32];
        proof {
            assert(ks@ =~= seq![WireKind::Uint32]);
        }
        let mut vals = backend.read_args(ks.as_slice(), rd)?;
        let ghost m0 = values_model(vals@);
        let ghost r0 = Seq::<WireKind>::empty();
        proof {
            assert(seq![WireKind::Uint32] + r0 =~= seq![WireKind::Uint32]);
        }
        let version = take_u32(&mut vals, Ghost(WireKind::Uint32), Ghost(r0));
        let ghost m1 = values_model(vals@);
        proof {
            assert(m1 =~= Seq::<ArgModel>::empty());
            assert(m0 =~= seq![ArgModel::Uint32(version)]);
        }
        Ok(Event::HandshakeVersion { version })
    }

    /// Parses the body of the `ei_handshake.interface_version` event.
    fn parse_interface_version<F>(rd: &mut Reader, backend: &mut Backend<F>) -> (r: Result<Self, ParseError>)
        requires
            old(rd).wf(),
        ensures
            parse_post(
                "handshake",
                event_kinds(Iface::Handshake, 1),
                event_slot(Iface::Handshake, 1),
                1,
                *old(rd),
                *final(rd),
                *old(backend),
                *final(backend),
                parse_model(r),
            ),
    {
        let ks = vec![WireKind::String, WireKind::Uint32];
        proof {
            assert(ks@ =~= seq![WireKind::String, WireKind::Uint32]);
        }
        let mut vals = backend.read_args(ks.as_slice(), rd)?;
        let ghost m0 = values_model(vals@);
        let ghost r0 = seq![WireKind::Uint32];
        proof {
            assert(seq![WireKind::String] + r0 =~= seq![WireKind::String, WireKind::Uint32]);
        }
        let name = take_string(&mut vals, Ghost(r0));
        let ghost m1 = values_model(vals@);
        let ghost r1 = Seq::<WireKind>::empty();
        proof {
            assert(seq![WireKind::Uint32] + r1 =~= seq![WireKind::Uint32]);
        }
        let version = take_u32(&mut vals, Ghost(WireKind::Uint32), Ghost(r1));
        let ghost m2 = values_model(vals@);
        proof {
            assert(m2 =~= Seq::<ArgModel>::empty());
            assert(m0 =~= seq![ArgModel::String(Some(name@)), ArgModel::Uint32(version)]);
        }
        Ok(Event::InterfaceVersion { name, version })
    }

    /// Parses the body of the `ei_handshake.connection` event.
    fn parse_connection<F>(rd: &mut Reader, backend: &mut Backend<F>) -> (r: Result<Self, ParseError>)
        requires
            old(rd).wf(),
        ensures
            parse_post(
                "handshake",
                event_kinds(Iface::Handshake, 2),
                event_slot(Iface::Handshake, 2),
                2,
                *old(rd),
                *final(rd),
                *old(backend),
                *final(backend),
                parse_model(r),
            ),
    {
        let ks = vec![WireKind::Uint32, WireKind::Uint64, WireKind::Uint32];
        proof {
            assert(ks@ =~= seq![WireKind::Uint32, WireKind::Uint64, WireKind::Uint32]);
        }
        let mut vals = backend.read_args(ks.as_slice(), rd)?;
        let ghost m0 = values_model(vals@);
        let ghost r0 = seq![WireKind::Uint64, WireKind::Uint32];
        proof {
            assert(seq![WireKind::Uint32] + r0 =~= seq![WireKind::Uint32, WireKind::Uint64, WireKind::Uint32]);
        }
        let serial = take_u32(&mut vals, Ghost(WireKind::Uint32), Ghost(r0));
        let ghost m1 = values_model(vals@);
        let ghost r1 = seq![WireKind::Uint32];
        proof {
            assert(seq![WireKind::Uint64] + r1 =~= seq![WireKind::Uint64, WireKind::Uint32]);
        }
        let connection_id = take_u64(&mut vals, Ghost(r1));
        let ghost m2 = values_model(vals@);
        let ghost r2 = Seq::<WireKind>::empty();
        proof {
            assert(seq![WireKind::Uint32] + r2 =~= seq![WireKind::Uint32]);
        }
        let connection_version = take_u32(&mut vals, Ghost(WireKind::Uint32), Ghost(r2));
        let ghost m3 = values_model(vals@);
        proof {
            assert(m3 =~= Seq::<ArgModel>::empty());
            assert(m0 =~= seq![ArgModel::Uint32(serial), ArgModel::Uint64(connection_id), ArgModel::Uint32(connection_version)]);
        }
        let obj = backend.new_peer_object(connection_id, "ei_connection".to_owned(), connection_version)?;
        proof {
            assert(backend.objects@.remove(connection_id) =~= old(backend).objects@.remove(connection_id));
        }
        Ok(Event::Connection { serial, connection: super::connection::Connection(obj) })
    }

}

} // verus!
