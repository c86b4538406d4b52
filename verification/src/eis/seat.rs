//! The `ei_seat` interface on the server side.
use crate::arg::{
    args_model, new_id_only_at, take_float, take_fd, take_i32, take_i64, take_opt_string, take_string, take_u32, take_u64,
    values_model, Arg, ArgModel, EnumKind, ParseError, Reader, WireKind,
};
use crate::backend::{args_fd_values, Backend, Object};
use crate::enums::{ButtonState, ContextType, DeviceType, DisconnectReason, KeyState, KeymapType};
use crate::message::{
    args_size_bound, lemma_message_writable, opt_str_fits, opt_str_view, parse_model, parse_post, sent,
    sent_creating, sent_destroying, str_fits, WireMessage,
};
use crate::protocol::{event_kinds, event_slot, lemma_encode_len, lemma_name_len, request_kinds, request_slot, Iface, Interface};
use vstd::prelude::*;

verus! {

/// Proxy for an `ei_seat` object on the server side.
#[derive(Debug)]
pub struct Seat(pub Object);

impl Clone for Seat {
    fn clone(&self) -> (r: Self)
        ensures
            r == *self,
    {
        Seat(self.0.clone())
    }
}

impl Interface for Seat {
    open spec fn spec_iface() -> Iface {
        Iface::Seat
    }

    open spec fn spec_max_version() -> u32 {
        1
    }

    open spec fn spec_client_side() -> bool {
        false
    }

    open spec fn spec_object(&self) -> Object {
        self.0
    }

    fn iface() -> (r: Iface) {
        Iface::Seat
    }

    fn interface_name() -> (r: &'static str) {
        "ei_seat"
    }

    fn max_version() -> (r: u32) {
        1
    }

    fn client_side() -> (r: bool) {
        false
    }

    fn new_unchecked(object: Object) -> (r: Self) {
        Seat(object)
    }

    fn as_object(&self) -> (r: &Object) {
        &self.0
    }
}

impl Seat {
    /// Returns the version of the object's interface.
    pub fn version(&self) -> (r: u32)
        ensures
            r == self.0.version,
    {
        self.0.version
    }

    /// Returns `true` if the connection still has this object.
    pub fn is_alive<F>(&self, backend: &Backend<F>) -> (r: bool)
        ensures
            r == backend.objects@.contains_key(self.0.id),
    {
        self.0.is_alive(backend)
    }

    /// Sends the `ei_seat.destroyed` event, then forgets the object.
    pub fn destroyed<F>(&self, backend: &mut Backend<F>, serial: u32)
        ensures
            sent_destroying(*old(backend), *final(backend), self.0.id, 0, seq![ArgModel::Uint32(serial)], Seq::<F>::empty()),
    {
        let args = vec![Arg::Uint32(serial)];
        let ghost a = args@;
        proof {
            assert(args_model(a) =~= seq![ArgModel::Uint32(serial)]);
            reveal_with_fuel(args_size_bound, 2);
            lemma_message_writable(backend.order, args_model(a));
        }
        backend.request(self.0.id, 0, args);
        backend.remove_id(self.0.id);
        proof {
            reveal_with_fuel(args_fd_values, 2);
            assert(args_fd_values(a) =~= Seq::<F>::empty());
        }
    }

    /// Sends the `ei_seat.name` event.
    pub fn name<F>(&self, backend: &mut Backend<F>, name: &str)
        requires
            str_fits(name),
        ensures
            sent(*old(backend), *final(backend), self.0.id, 1, seq![ArgModel::String(Some(name@))], Seq::<F>::empty()),
    {
        let args = vec![Arg::String(Some(name))];
        let ghost a = args@;
        proof {
            assert(args_model(a) =~= seq![ArgModel::String(Some(name@))]);
            reveal_with_fuel(args_size_bound, 2);
            lemma_message_writable(backend.order, args_model(a));
        }
        backend.request(self.0.id, 1, args);
        proof {
            reveal_with_fuel(args_fd_values, 2);
            assert(args_fd_values(a) =~= Seq::<F>::empty());
        }
    }

    /// Sends the `ei_seat.capability` event.
    pub fn capability<F>(&self, backend: &mut Backend<F>, mask: u64, interface: &str)
        requires
            str_fits(interface),
        ensures
            sent(*old(backend), *final(backend), self.0.id, 2, seq![ArgModel::Uint64(mask), ArgModel::String(Some(interface@))], Seq::<F>::empty()),
    {
        let args = vec![Arg::Uint64(mask), Arg::String(Some(interface))];
        let ghost a = args@;
        proof {
            assert(args_model(a) =~= seq![ArgModel::Uint64(mask), ArgModel::String(Some(interface@))]);
            reveal_with_fuel(args_size_bound, 3);
            lemma_message_writable(backend.order, args_model(a));
        }
        backend.request(self.0.id, 2, args);
        proof {
            reveal_with_fuel(args_fd_values, 3);
            assert(args_fd_values(a) =~= Seq::<F>::empty());
        }
    }

    /// Sends the `ei_seat.done` event.
    pub fn done<F>(&self, backend: &mut Backend<F>)
        ensures
            sent(*old(backend), *final(backend), self.0.id, 3, Seq::<ArgModel>::empty(), Seq::<F>::empty()),
    {
        let args = vec![];
        let ghost a = args@;
        proof {
            assert(args_model(a) =~= Seq::<ArgModel>::empty());
            reveal_with_fuel(args_size_bound, 1);
            lemma_message_writable(backend.order, args_model(a));
        }
        backend.request(self.0.id, 3, args);
        proof {
            reveal_with_fuel(args_fd_values, 1);
            assert(args_fd_values(a) =~= Seq::<F>::empty());
        }
    }

    /// Creates an `ei_device` object with the given version and sends the `ei_seat.device` event.
    pub fn device<F>(&self, backend: &mut Backend<F>, version: u32) -> (r: super::device::Device)
        requires
            old(backend).next_id < u64::MAX,
        ensures
            sent_creating(*old(backend), *final(backend), self.0.id, 4, seq![ArgModel::Uint64(old(backend).next_id), ArgModel::Uint32(version)], Seq::<F>::empty(), "ei_device"@, version, false),
            r.0.id == old(backend).next_id,
            r.0.interface@ == "ei_device"@,
            r.0.version == version,
            r.0.client_side == old(backend).client,
    {
        let obj = backend.new_object("ei_device".to_owned(), version);
        let args = vec![Arg::NewId(obj.id), Arg::Uint32(version)];
        let ghost a = args@;
        proof {
            assert(args_model(a) =~= seq![ArgModel::Uint64(obj.id), ArgModel::Uint32(version)]);
            reveal_with_fuel(args_size_bound, 3);
            lemma_message_writable(backend.order, args_model(a));
        }
        backend.request(self.0.id, 4, args);
        proof {
            reveal_with_fuel(args_fd_values, 3);
            assert(args_fd_values(a) =~= Seq::<F>::empty());
            assert(backend.objects@.remove(obj.id) =~= old(backend).objects@.remove(obj.id));
        }
        super::device::Device(obj)
    }
}

/// The requests of `ei_seat`.
#[derive(Debug)]
pub enum Request {
    /// The `ei_seat.release` request.
    Release,
    /// The `ei_seat.bind` request.
    Bind { capabilities: u64 },
}

impl WireMessage for Request {
    open spec fn wire_opcode(&self) -> u32 {
        match self {
            Request::Release => 0,
            Request::Bind { .. } => 1,
        }
    }

    open spec fn wire_args(&self) -> Seq<ArgModel> {
        match self {
            Request::Release => Seq::empty(),
            Request::Bind { capabilities } => seq![ArgModel::Uint64(*capabilities)],
        }
    }

    open spec fn wire_created(&self) -> Option<Object> {
        match self {
            _ => None,
        }
    }

    open spec fn wire_new_id_at(&self) -> Option<int> {
        match self {
            _ => None,
        }
    }
}

impl Request {
    /// The name of the request with this opcode.
    pub open spec fn spec_op_name(opcode: u32) -> Option<&'static str> {
        match opcode {
            0 => Some("release"),
            1 => Some("bind"),
            _ => None,
        }
    }

    /// Returns the name of the request with this opcode.
    #[verifier::when_used_as_spec(spec_op_name)]
    pub fn op_name(opcode: u32) -> (r: Option<&'static str>)
        ensures
            r == Self::spec_op_name(opcode),
    {
        match opcode {
            0 => Some("release"),
            1 => Some("bind"),
            _ => None,
        }
    }

    /// Returns the arguments of the request, as they go on the wire.
    pub fn args<G>(&self) -> (r: Vec<Arg<'_, G>>)
        ensures
            args_model(r@) == self.wire_args(),
            new_id_only_at(r@, self.wire_new_id_at()),
    {
        match self {
            Request::Release => {
                let r: Vec<Arg<'_, G>> = Vec::new();
                proof {
                    assert(args_model(r@) =~= Seq::<ArgModel>::empty());
                }
                r
            },
            Request::Bind { capabilities } => {
                let r: Vec<Arg<'_, G>> = vec![Arg::Uint64(*capabilities)];
                proof {
                    assert(args_model(r@) =~= seq![ArgModel::Uint64(*capabilities)]);
                }
                r
            },
        }
    }

    /// Parses the body of the request with `opcode`; an object it creates is
    /// recorded in `backend`.
    pub fn parse<F>(opcode: u32, rd: &mut Reader, backend: &mut Backend<F>) -> (r: Result<Self, ParseError>)
        requires
            old(rd).wf(),
        ensures
            parse_post(
                "seat",
                request_kinds(Iface::Seat, opcode),
                request_slot(Iface::Seat, opcode),
                opcode,
                *old(rd),
                *final(rd),
                *old(backend),
                *final(backend),
                parse_model(r),
            ),
    {
        match opcode {
            0 => Self::parse_release(rd, backend),
            1 => Self::parse_bind(rd, backend),
            _ => Err(ParseError::InvalidOpcode("seat", opcode)),
        }
    }

    /// Parses the body of the `ei_seat.release` request.
    fn parse_release<F>(rd: &mut Reader, backend: &mut Backend<F>) -> (r: Result<Self, ParseError>)
        requires
            old(rd).wf(),
        ensures
            parse_post(
                "seat",
                request_kinds(Iface::Seat, 0),
                request_slot(Iface::Seat, 0),
                0,
                *old(rd),
                *final(rd),
                *old(backend),
                *final(backend),
                parse_model(r),
            ),
    {
        let ks = vec![];
        proof {
            assert(ks@ =~= Seq::<WireKind>::empty());
        }
        let mut vals = backend.read_args(ks.as_slice(), rd)?;
        let ghost m0 = values_model(vals@);
        proof {
            assert(m0 =~= Seq::<ArgModel>::empty());
            assert(m0 =~= Seq::<ArgModel>::empty());
        }
        Ok(Request::Release)
    }

    /// Parses the body of the `ei_seat.bind` request.
    fn parse_bind<F>(rd: &mut Reader, backend: &mut Backend<F>) -> (r: Result<Self, ParseError>)
        requires
            old(rd).wf(),
        ensures
            parse_post(
                "seat",
                request_kinds(Iface::Seat, 1),
                request_slot(Iface::Seat, 1),
                1,
                *old(rd),
                *final(rd),
                *old(backend),
                *final(backend),
                parse_model(r),
            ),
    {
        let ks = vec![WireKind::Uint64];
        proof {
            assert(ks@ =~= seq![WireKind::Uint64]);
        }
        let mut vals = backend.read_args(ks.as_slice(), rd)?;
        let ghost m0 = values_model(vals@);
        let ghost r0 = Seq::<WireKind>::empty();
        proof {
            assert(seq![WireKind::Uint64] + r0 =~= seq![WireKind::Uint64]);
        }
        let capabilities = take_u64(&mut vals, Ghost(r0));
        let ghost m1 = values_model(vals@);
        proof {
            assert(m1 =~= Seq::<ArgModel>::empty());
            assert(m0 =~= seq![ArgModel::Uint64(capabilities)]);
        }
        Ok(Request::Bind { capabilities })
    }

}

} // verus!
