//! The `ei_handshake` interface on the server side.
use crate::arg::{
    args_model, new_id_only_at, take_float, take_fd, take_i32, take_i64, take_opt_string, take_string, take_u32, take_u64,
    values_model, Arg, ArgModel, EnumKind, ParseError, Reader, WireKind,
};
use crate::backend::{args_fd_values, Backend, Object};
use crate::enums::{ButtonState, ContextType, DeviceType, DisconnectReason, KeyState, KeymapType};
use crate::message::{
    args_size_bound, lemma_message_writable, opt_str_fits, opt_str_view, parse_model, parse_post, sent,
    sent_creating, sent_destroying, str_fits, WireMessage,
};
use crate::protocol::{event_kinds, event_slot, lemma_encode_len, lemma_name_len, request_kinds, request_slot, Iface, Interface};
use vstd::prelude::*;

verus! {

/// Proxy for an `ei_handshake` object on the server side.
#[derive(Debug)]
pub struct Handshake(pub Object);

impl Clone for Handshake {
    fn clone(&self) -> (r: Self)
        ensures
            r == *self,
    {
        Handshake(self.0.clone())
    }
}

impl Interface for Handshake {
    open spec fn spec_iface() -> Iface {
        Iface::Handshake
    }

    open spec fn spec_max_version() -> u32 {
        1
    }

    open spec fn spec_client_side() -> bool {
        false
    }

    open spec fn spec_object(&self) -> Object {
        self.0
    }

    fn iface() -> (r: Iface) {
        Iface::Handshake
    }

    fn interface_name() -> (r: &'static str) {
        "ei_handshake"
    }

    fn max_version() -> (r: u32) {
        1
    }

    fn client_side() -> (r: bool) {
        false
    }

    fn new_unchecked(object: Object) -> (r: Self) {
        Handshake(object)
    }

    fn as_object(&self) -> (r: &Object) {
        &self.0
    }
}

impl Handshake {
    /// Returns the version of the object's interface.
    pub fn version(&self) -> (r: u32)
        ensures
            r == self.0.version,
    {
        self.0.version
    }

    /// Returns `true` if the connection still has this object.
    pub fn is_alive<F>(&self, backend: &Backend<F>) -> (r: bool)
        ensures
            r == backend.objects@.contains_key(self.0.id),
    {
        self.0.is_alive(backend)
    }

    /// Sends the `ei_handshake.handshake_version` event.
    pub fn handshake_version<F>(&self, backend: &mut Backend<F>, version: u32)
        ensures
            sent(*old(backend), *final(backend), self.0.id, 0, seq![ArgModel::Uint32(version)], Seq::<F>::empty()),
    {
        let args = vec![Arg::Uint32(version)];
        let ghost a = args@;
        proof {
            assert(args_model(a) =~= seq![ArgModel::Uint32(version)]);
            reveal_with_fuel(args_size_bound, 2);
            lemma_message_writable(backend.order, args_model(a));
        }
        backend.request(self.0.id, 0, args);
        proof {
            reveal_with_fuel(args_fd_values, 2);
            assert(args_fd_values(a) =~= Seq::<F>::empty());
        }
    }

    /// Sends the `ei_handshake.interface_version` event.
    pub fn interface_version<F>(&self, backend: &mut Backend<F>, name: &str, version: u32)
        requires
            str_fits(name),
        ensures
            sent(*old(backend), *final(backend), self.0.id, 1, seq![ArgModel::String(Some(name@)), ArgModel::Uint32(version)], Seq::<F>::empty()),
    {
        let args = vec![Arg::String(Some(name)), Arg::Uint32(version)];
        let ghost a = args@;
        proof {
            assert(args_model(a) =~= seq![ArgModel::String(Some(name@)), ArgModel::Uint32(version)]);
            reveal_with_fuel(args_size_bound, 3);
            lemma_message_writable(backend.order, args_model(a));
        }
        backend.request(self.0.id, 1, args);
        proof {
            reveal_with_fuel(args_fd_values, 3);
            assert(args_fd_values(a) =~= Seq::<F>::empty());
        }
    }

    /// Creates an `ei_connection` object with the given version and sends the `ei_handshake.connection` event, then forgets the object.
    pub fn connection<F>(&self, backend: &mut Backend<F>, serial: u32, version: u32) -> (r: super::connection::Connection)
        requires
            old(backend).next_id < u64::MAX,
        ensures
            sent_creating(*old(backend), *final(backend), self.0.id, 2, seq![ArgModel::Uint32(serial), ArgModel::Uint64(old(backend).next_id), ArgModel::Uint32(version)], Seq::<F>::empty(), "ei_connection"@, version, true),
            r.0.id == old(backend).next_id,
            r.0.interface@ == "ei_connection"@,
            r.0.version == version,
            r.0.client_side == old(backend).client,
    {
        let obj = backend.new_object("ei_connection".to_owned(), version);
        let args = vec![Arg::Uint32(serial), Arg::NewId(obj.id), Arg::Uint32(version)];
        let ghost a = args@;
        proof {
            assert(args_model(a) =~= seq![ArgModel::Uint32(serial), ArgModel::Uint64(obj.id), ArgModel::Uint32(version)]);
            reveal_with_fuel(args_size_bound, 4);
            lemma_message_writable(backend.order, args_model(a));
        }
        backend.request(self.0.id, 2, args);
        backend.remove_id(self.0.id);
        proof {
            reveal_with_fuel(args_fd_values, 4);
            assert(args_fd_values(a) =~= Seq::<F>::empty());
            assert(backend.objects@.remove(obj.id).remove(self.0.id) =~= old(backend).objects@.remove(obj.id).remove(self.0.id));
        }
        super::connection::Connection(obj)
    }
}

/// The requests of `ei_handshake`.
#[derive(Debug)]
pub enum Request {
    /// The `ei_handshake.handshake_version` request.
    HandshakeVersion { version: u32 },
    /// The `ei_handshake.finish` request.
    Finish,
    /// The `ei_handshake.context_type` request.
    ContextType { context_type: ContextType },
    /// The `ei_handshake.name` request.
    Name { name: String },
    /// The `ei_handshake.interface_version` request.
    InterfaceVersion { name: String, version: u32 },
}

impl WireMessage for Request {
    open spec fn wire_opcode(&self) -> u32 {
        match self {
            Request::HandshakeVersion { .. } => 0,
            Request::Finish => 1,
            Request::ContextType { .. } => 2,
            Request::Name { .. } => 3,
            Request::InterfaceVersion { .. } => 4,
        }
    }

    open spec fn wire_args(&self) -> Seq<ArgModel> {
        match self {
            Request::HandshakeVersion { version } => seq![ArgModel::Uint32(*version)],
            Request::Finish => Seq::empty(),
            Request::ContextType { context_type } => seq![ArgModel::Uint32(context_type.spec_to_u32())],
            Request::Name { name } => seq![ArgModel::String(Some(name@))],
            Request::InterfaceVersion { name, version } => seq![ArgModel::String(Some(name@)), ArgModel::Uint32(*version)],
        }
    }

    open spec fn wire_created(&self) -> Option<Object> {
        match self {
            _ => None,
        }
    }

    open spec fn wire_new_id_at(&self) -> Option<int> {
        match self {
            _ => None,
        }
    }
}

impl Request {
    /// The name of the request with this opcode.
    pub open spec fn spec_op_name(opcode: u32) -> Option<&'static str> {
        match opcode {
            0 => Some("handshake_version"),
            1 => Some("finish"),
            2 => Some("context_type"),
            3 => Some("name"),
            4 => Some("interface_version"),
            _ => None,
        }
    }

    /// Returns the name of the request with this opcode.
    #[verifier::when_used_as_spec(spec_op_name)]
    pub fn op_name(opcode: u32) -> (r: Option<&'static str>)
        ensures
            r == Self::spec_op_name(opcode),
    {
        match opcode {
            0 => Some("handshake_version"),
            1 => Some("finish"),
            2 => Some("context_type"),
            3 => Some("name"),
            4 => Some("interface_version"),
            _ => None,
        }
    }

    /// Returns the arguments of the request, as they go on the wire.
    pub fn args<G>(&self) -> (r: Vec<Arg<'_, G>>)
        ensures
            args_model(r@) == self.wire_args(),
            new_id_only_at(r@, self.wire_new_id_at()),
    {
        match self {
            Request::HandshakeVersion { version } => {
                let r: Vec<Arg<'_, G>> = vec![Arg::Uint32(*version)];
                proof {
                    assert(args_model(r@) =~= seq![ArgModel::Uint32(*version)]);
                }
                r
            },
            Request::Finish => {
                let r: Vec<Arg<'_, G>> = Vec::new();
                proof {
                    assert(args_model(r@) =~= Seq::<ArgModel>::empty());
                }
                r
            },
            Request::ContextType { context_type } => {
                let r: Vec<Arg<'_, G>> = vec![Arg::Uint32(context_type.to_u32())];
                proof {
                    assert(args_model(r@) =~= seq![ArgModel::Uint32(context_type.spec_to_u32())]);
                }
                r
            },
            Request::Name { name } => {
                let r: Vec<Arg<'_, G>> = vec![Arg::String(Some(name.as_str()))];
                proof {
                    assert(args_model(r@) =~= seq![ArgModel::String(Some(name@))]);
                }
                r
            },
            Request::InterfaceVersion { name, version } => {
                let r: Vec<Arg<'_, G>> = vec![Arg::String(Some(name.as_str())), Arg::Uint32(*version)];
                proof {
                    assert(args_model(r@) =~= seq![ArgModel::String(Some(name@)), ArgModel::Uint32(*version)]);
                }
                r
            },
        }
    }

    /// Parses the body of the request with `opcode`; an object it creates is
    /// recorded in `backend`.
    pub fn parse<F>(opcode: u32, rd: &mut Reader, backend: &mut Backend<F>) -> (r: Result<Self, ParseError>)
        requires
            old(rd).wf(),
        ensures
            parse_post(
                "handshake",
                request_kinds(Iface::Handshake, opcode),
                request_slot(Iface::Handshake, opcode),
                opcode,
                *old(rd),
                *final(rd),
                *old(backend),
                *final(backend),
                parse_model(r),
            ),
    {
        match opcode {
            0 => Self::parse_handshake_version(rd, backend),
            1 => Self::parse_finish(rd, backend),
            2 => Self::parse_context_type(rd, backend),
            3 => Self::parse_name(rd, backend),
            4 => Self::parse_interface_version(rd, backend),
            _ => Err(ParseError::InvalidOpcode("handshake", opcode)),
        }
    }

    /// Parses the body of the `ei_handshake.handshake_version` request.
    fn parse_handshake_version<F>(rd: &mut Reader, backend: &mut Backend<F>) -> (r: Result<Self, ParseError>)
        requires
            old(rd).wf(),
        ensures
            parse_post(
                "handshake",
                request_kinds(Iface::Handshake, 0),
                request_slot(Iface::Handshake, 0),
                0,
                *old(rd),
                *final(rd),
                *old(backend),
                *final(backend),
                parse_model(r),
            ),
    {
        let ks = vec![WireKind::Uint32];
        proof {
            assert(ks@ =~= seq![WireKind::Uint32]);
        }
        let mut vals = backend.read_args(ks.as_slice(), rd)?;
        let ghost m0 = values_model(vals@);
        let ghost r0 = Seq::<WireKind>::empty();
        proof {
            assert(seq![WireKind::Uint32] + r0 =~= seq![WireKind::Uint32]);
        }
        let version = take_u32(&mut vals, Ghost(WireKind::Uint32), Ghost(r0));
        let ghost m1 = values_model(vals@);
        proof {
            assert(m1 =~= Seq::<ArgModel>::empty());
            assert(m0 =~= seq![ArgModel::Uint32(version)]);
        }
        Ok(Request::HandshakeVersion { version })
    }

    /// Parses the body of the `ei_handshake.finish` request.
    fn parse_finish<F>(rd: &mut Reader, backend: &mut Backend<F>) -> (r: Result<Self, ParseError>)
        requires
            old(rd).wf(),
        ensures
            parse_post(
                "handshake",
                request_kinds(Iface::Handshake, 1),
                request_slot(Iface::Handshake, 1),
                1,
                *old(rd),
                *final(rd),
                *old(backend),
                *final(backend),
                parse_model(r),
            ),
    {
        let ks = vec![];
        proof {
            assert(ks@ =~= Seq::<WireKind>::empty());
        }
        let mut vals = backend.read_args(ks.as_slice(), rd)?;
        let ghost m0 = values_model(vals@);
        proof {
            assert(m0 =~= Seq::<ArgModel>::empty());
            assert(m0 =~= Seq::<ArgModel>::empty());
        }
        Ok(Request::Finish)
    }

    /// Parses the body of the `ei_handshake.context_type` request.
    fn parse_context_type<F>(rd: &mut Reader, backend: &mut Backend<F>) -> (r: Result<Self, ParseError>)
        requires
            old(rd).wf(),
        ensures
            parse_post(
                "handshake",
                request_kinds(Iface::Handshake, 2),
                request_slot(Iface::Handshake, 2),
                2,
                *old(rd),
                *final(rd),
                *old(backend),
                *final(backend),
                parse_model(r),
            ),
    {
        let ks = vec![WireKind::Enum(EnumKind::ContextType)];
        proof {
            assert(ks@ =~= seq![WireKind::Enum(EnumKind::ContextType)]);
        }
        let mut vals = backend.read_args(ks.as_slice(), rd)?;
        let ghost m0 = values_model(vals@);
        let ghost r0 = Seq::<WireKind>::empty();
        proof {
            assert(seq![WireKind::Enum(EnumKind::ContextType)] + r0 =~= seq![WireKind::Enum(EnumKind::ContextType)]);
        }
        let context_type_raw = take_u32(&mut vals, Ghost(WireKind::Enum(EnumKind::ContextType)), Ghost(r0));
        let context_type = match ContextType::from_u32(context_type_raw) {
            Some(v) => v,
            None => vstd::pervasive::unreached(),
        };
        let ghost m1 = values_model(vals@);
        proof {
            assert(m1 =~= Seq::<ArgModel>::empty());
            assert(m0 =~= seq![ArgModel::Uint32(context_type.spec_to_u32())]);
        }
        Ok(Request::ContextType { context_type })
    }

    /// Parses the body of the `ei_handshake.name` request.
    fn parse_name<F>(rd: &mut Reader, backend: &mut Backend<F>) -> (r: Result<Self, ParseError>)
        requires
            old(rd).wf(),
        ensures
            parse_post(
                "handshake",
                request_kinds(Iface::Handshake, 3),
                request_slot(Iface::Handshake, 3),
                3,
                *old(rd),
                *final(rd),
                *old(backend),
                *final(backend),
                parse_model(r),
            ),
    {
        let ks = vec![WireKind::String];
        proof {
            assert(ks@ =~= seq![WireKind::String]);
        }
        let mut vals = backend.read_args(ks.as_slice(), rd)?;
        let ghost m0 = values_model(vals@);
        let ghost r0 = Seq::<WireKind>::empty();
        proof {
            assert(seq![WireKind::String] + r0 =~= seq![WireKind::String]);
        }
        let name = take_string(&mut vals, Ghost(r0));
        let ghost m1 = values_model(vals@);
        proof {
            assert(m1 =~= Seq::<ArgModel>::empty());
            assert(m0 =~= seq![ArgModel::String(Some(name@))]);
        }
        Ok(Request::Name { name })
    }

    /// Parses the body of the `ei_handshake.interface_version` request.
    fn parse_interface_version<F>(rd: &mut Reader, backend: &mut Backend<F>) -> (r: Result<Self, ParseError>)
        requires
            old(rd).wf(),
        ensures
            parse_post(
                "handshake",
                request_kinds(Iface::Handshake, 4),
                request_slot(Iface::Handshake, 4),
                4,
                *old(rd),
                *final(rd),
                *old(backend),
                *final(backend),
                parse_model(r),
            ),
    {
        let ks = vec![WireKind::String, WireKind::Uint32];
        proof {
            assert(ks@ =~= seq![WireKind::String, WireKind::Uint32]);
        }
        let mut vals = backend.read_args(ks.as_slice(), rd)?;
        let ghost m0 = values_model(vals@);
        let ghost r0 = seq![WireKind::Uint32];
        proof {
            assert(seq![WireKind::String] + r0 =~= seq![WireKind::String, WireKind::Uint32]);
        }
        let name = take_string(&mut vals, Ghost(r0));
        let ghost m1 = values_model(vals@);
        let ghost r1 = Seq::<WireKind>::empty();
        proof {
            assert(seq![WireKind::Uint32] + r1 =~= seq![WireKind::Uint32]);
        }
        let version = take_u32(&mut vals, Ghost(WireKind::Uint32), Ghost(r1));
        let ghost m2 = values_model(vals@);
        proof {
            assert(m2 =~= Seq::<ArgModel>::empty());
            assert(m0 =~= seq![ArgModel::String(Some(name@)), ArgModel::Uint32(version)]);
        }
        Ok(Request::InterfaceVersion { name, version })
    }

}

} // verus!
