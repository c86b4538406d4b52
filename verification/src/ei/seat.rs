//! The `ei_seat` interface on the client side.
use crate::arg::{
    args_model, new_id_only_at, take_float, take_fd, take_i32, take_i64, take_opt_string, take_string, take_u32, take_u64,
    values_model, Arg, ArgModel, EnumKind, ParseError, Reader, WireKind,
};
use crate::backend::{args_fd_values, Backend, Object};
use crate::enums::{ButtonState, ContextType, DeviceType, DisconnectReason, KeyState, KeymapType};
use crate::message::{
    args_size_bound, lemma_message_writable, opt_str_fits, opt_str_view, parse_model, parse_post, sent,
    sent_creating, sent_destroying, str_fits, WireMessage,
};
use crate::protocol::{event_kinds, event_slot, lemma_encode_len, lemma_name_len, request_kinds, request_slot, Iface, Interface};
use vstd::prelude::*;

verus! {

/// Proxy for an `ei_seat` object on the client side.
#[derive(Debug)]
pub struct Seat(pub Object);

impl Clone for Seat {
    fn clone(&self) -> (r: Self)
        ensures
            r == *self,
    {
        Seat(self.0.clone())
    }
}

impl Interface for Seat {
    open spec fn spec_iface() -> Iface {
        Iface::Seat
    }

    open spec fn spec_max_version() -> u32 {
        1
    }

    open spec fn spec_client_side() -> bool {
        true
    }

    open spec fn spec_object(&self) -> Object {
        self.0
    }

    fn iface() -> (r: Iface) {
        Iface::Seat
    }

    fn interface_name() -> (r: &'static str) {
        "ei_seat"
    }

    fn max_version() -> (r: u32) {
        1
    }

    fn client_side() -> (r: bool) {
        true
    }

    fn new_unchecked(object: Object) -> (r: Self) {
        Seat(object)
    }

    fn as_object(&self) -> (r: &Object) {
        &self.0
    }
}

impl Seat {
    /// Returns the version of the object's interface.
    pub fn version(&self) -> (r: u32)
        ensures
            r == self.0.version,
    {
        self.0.version
    }

    /// Returns `true` if the connection still has this object.
    pub fn is_alive<F>(&self, backend: &Backend<F>) -> (r: bool)
        ensures
            r == backend.objects@.contains_key(self.0.id),
    {
        self.0.is_alive(backend)
    }

    /// Sends the `ei_seat.release` request.
    pub fn release<F>(&self, backend: &mut Backend<F>)
        ensures
            sent(*old(backend), *final(backend), self.0.id, 0, Seq::<ArgModel>::empty(), Seq::<F>::empty()),
    {
        let args = vec![];
        let ghost a = args@;
        proof {
            assert(args_model(a) =~= Seq::<ArgModel>::empty());
            reveal_with_fuel(args_size_bound, 1);
            lemma_message_writable(backend.order, args_model(a));
        }
        backend.request(self.0.id, 0, args);
        proof {
            reveal_with_fuel(args_fd_values, 1);
            assert(args_fd_values(a) =~= Seq::<F>::empty());
        }
    }

    /// Sends the `ei_seat.bind` request.
    pub fn bind<F>(&self, backend: &mut Backend<F>, capabilities: u64)
        ensures
            sent(*old(backend), *final(backend), self.0.id, 1, seq![ArgModel::Uint64(capabilities)], Seq::<F>::empty()),
    {
        let args = vec![Arg::Uint64(capabilities)];
        let ghost a = args@;
        proof {
            assert(args_model(a) =~= seq![ArgModel::Uint64(capabilities)]);
            reveal_with_fuel(args_size_bound, 2);
            lemma_message_writable(backend.order, args_model(a));
        }
        backend.request(self.0.id, 1, args);
        proof {
            reveal_with_fuel(args_fd_values, 2);
            assert(args_fd_values(a) =~= Seq::<F>::empty());
        }
    }
}

/// The events of `ei_seat`.
#[derive(Debug)]
pub enum Event {
    /// The `ei_seat.destroyed` event.
    Destroyed { serial: u32 },
    /// The `ei_seat.name` event.
    Name { name: String },
    /// The `ei_seat.capability` event.
    Capability { mask: u64, interface: String },
    /// The `ei_seat.done` event.
    Done,
    /// The `ei_seat.device` event.
    Device { device: super::device::Device },
}

impl WireMessage for Event {
    open spec fn wire_opcode(&self) -> u32 {
        match self {
            Event::Destroyed { .. } => 0,
            Event::Name { .. } => 1,
            Event::Capability { .. } => 2,
            Event::Done => 3,
            Event::Device { .. } => 4,
        }
    }

    open spec fn wire_args(&self) -> Seq<ArgModel> {
        match self {
            Event::Destroyed { serial } => seq![ArgModel::Uint32(*serial)],
            Event::Name { name } => seq![ArgModel::String(Some(name@))],
            Event::Capability { mask, interface } => seq![ArgModel::Uint64(*mask), ArgModel::String(Some(interface@))],
            Event::Done => Seq::empty(),
            Event::Device { device } => seq![ArgModel::Uint64(device.0.id), ArgModel::Uint32(device.0.version)],
        }
    }

    open spec fn wire_created(&self) -> Option<Object> {
        match self {
            Event::Device { device, .. } => Some(device.0),
            _ => None,
        }
    }

    open spec fn wire_new_id_at(&self) -> Option<int> {
        match self {
            Event::Device { .. } => Some(0),
            _ => None,
        }
    }
}

impl Event {
    /// The name of the event with this opcode.
    pub open spec fn spec_op_name(opcode: u32) -> Option<&'static str> {
        match opcode {
            0 => Some("destroyed"),
            1 => Some("name"),
            2 => Some("capability"),
            3 => Some("done"),
            4 => Some("device"),
            _ => None,
        }
    }

    /// Returns the name of the event with this opcode.
    #[verifier::when_used_as_spec(spec_op_name)]
    pub fn op_name(opcode: u32) -> (r: Option<&'static str>)
        ensures
            r == Self::spec_op_name(opcode),
    {
        match opcode {
            0 => Some("destroyed"),
            1 => Some("name"),
            2 => Some("capability"),
            3 => Some("done"),
            4 => Some("device"),
            _ => None,
        }
    }

    /// Returns the arguments of the event, as they go on the wire.
    pub fn args<G>(&self) -> (r: Vec<Arg<'_, G>>)
        ensures
            args_model(r@) == self.wire_args(),
            new_id_only_at(r@, self.wire_new_id_at()),
    {
        match self {
            Event::Destroyed { serial } => {
                let r: Vec<Arg<'_, G>> = vec![Arg::Uint32(*serial)];
                proof {
                    assert(args_model(r@) =~= seq![ArgModel::Uint32(*serial)]);
                }
                r
            },
            Event::Name { name } => {
                let r: Vec<Arg<'_, G>> = vec![Arg::String(Some(name.as_str()))];
                proof {
                    assert(args_model(r@) =~= seq![ArgModel::String(Some(name@))]);
                }
                r
            },
            Event::Capability { mask, interface } => {
                let r: Vec<Arg<'_, G>> = vec![Arg::Uint64(*mask), Arg::String(Some(interface.as_str()))];
                proof {
                    assert(args_model(r@) =~= seq![ArgModel::Uint64(*mask), ArgModel::String(Some(interface@))]);
                }
                r
            },
            Event::Done => {
                let r: Vec<Arg<'_, G>> = Vec::new();
                proof {
                    assert(args_model(r@) =~= Seq::<ArgModel>::empty());
                }
                r
            },
            Event::Device { device } => {
                let r: Vec<Arg<'_, G>> = vec![Arg::NewId(device.0.id), Arg::Uint32(device.0.version)];
                proof {
                    assert(args_model(r@) =~= seq![ArgModel::Uint64(device.0.id), ArgModel::Uint32(device.0.version)]);
                }
                r
            },
        }
    }

    /// Parses the body of the event with `opcode`; an object it creates is
    /// recorded in `backend`.
    pub fn parse<F>(opcode: u32, rd: &mut Reader, backend: &mut Backend<F>) -> (r: Result<Self, ParseError>)
        requires
            old(rd).wf(),
        ensures
            parse_post(
                "seat",
                event_kinds(Iface::Seat, opcode),
                event_slot(Iface::Seat, opcode),
                opcode,
                *old(rd),
                *final(rd),
                *old(backend),
                *final(backend),
                parse_model(r),
            ),
    {
        match opcode {
            0 => Self::parse_destroyed(rd, backend),
            1 => Self::parse_name(rd, backend),
            2 => Self::parse_capability(rd, backend),
            3 => Self::parse_done(rd, backend),
            4 => Self::parse_device(rd, backend),
            _ => Err(ParseError::InvalidOpcode("seat", opcode)),
        }
    }

    /// Parses the body of the `ei_seat.destroyed` event.
    fn parse_destroyed<F>(rd: &mut Reader, backend: &mut Backend<F>) -> (r: Result<Self, ParseError>)
        requires
            old(rd).wf(),
        ensures
            parse_post(
                "seat",
                event_kinds(Iface::Seat, 0),
                event_slot(Iface::Seat, 0),
                0,
                *old(rd),
                *final(rd),
                *old(backend),
                *final(backend),
                parse_model(r),
            ),
    {
        let ks = vec![WireKind::Uint32];
        proof {
            assert(ks@ =~= seq![WireKind::Uint32]);
        }
        let mut vals = backend.read_args(ks.as_slice(), rd)?;
        let ghost m0 = values_model(vals@);
        let ghost r0 = Seq::<WireKind>::empty();
        proof {
            assert(seq![WireKind::Uint32] + r0 =~= seq![WireKind::Uint32]);
        }
        let serial = take_u32(&mut vals, Ghost(WireKind::Uint32), Ghost(r0));
        let ghost m1 = values_model(vals@);
        proof {
            assert(m1 =~= Seq::<ArgModel>::empty());
            assert(m0 =~= seq![ArgModel::Uint32(serial)]);
        }
        Ok(Event::Destroyed { serial })
    }

    /// Parses the body of the `ei_seat.name` event.
    fn parse_name<F>(rd: &mut Reader, backend: &mut Backend<F>) -> (r: Result<Self, ParseError>)
        requires
            old(rd).wf(),
        ensures
            parse_post(
                "seat",
                event_kinds(Iface::Seat, 1),
                event_slot(Iface::Seat, 1),
                1,
                *old(rd),
                *final(rd),
                *old(backend),
                *final(backend),
                parse_model(r),
            ),
    {
        let ks = vec![WireKind::String];
        proof {
            assert(ks@ =~= seq![WireKind::String]);
        }
        let mut vals = backend.read_args(ks.as_slice(), rd)?;
        let ghost m0 = values_model(vals@);
        let ghost r0 = Seq::<WireKind>::empty();
        proof {
            assert(seq![WireKind::String] + r0 =~= seq![WireKind::String]);
        }
        let name = take_string(&mut vals, Ghost(r0));
        let ghost m1 = values_model(vals@);
        proof {
            assert(m1 =~= Seq::<ArgModel>::empty());
            assert(m0 =~= seq![ArgModel::String(Some(name@))]);
        }
        Ok(Event::Name { name })
    }

    /// Parses the body of the `ei_seat.capability` event.
    fn parse_capability<F>(rd: &mut Reader, backend: &mut Backend<F>) -> (r: Result<Self, ParseError>)
        requires
            old(rd).wf(),
        ensures
            parse_post(
                "seat",
                event_kinds(Iface::Seat, 2),
                event_slot(Iface::Seat, 2),
                2,
                *old(rd),
                *final(rd),
                *old(backend),
                *final(backend),
                parse_model(r),
            ),
    {
        let ks = vec![WireKind::Uint64, WireKind::String];
        proof {
            assert(ks@ =~= seq![WireKind::Uint64, WireKind::String]);
        }
        let mut vals = backend.read_args(ks.as_slice(), rd)?;
        let ghost m0 = values_model(vals@);
        let ghost r0 = seq![WireKind::String];
        proof {
            assert(seq![WireKind::Uint64] + r0 =~= seq![WireKind::Uint64, WireKind::String]);
        }
        let mask = take_u64(&mut vals, Ghost(r0));
        let ghost m1 = values_model(vals@);
        let ghost r1 = Seq::<WireKind>::empty();
        proof {
            assert(seq![WireKind::String] + r1 =~= seq![WireKind::String]);
        }
        let interface = take_string(&mut vals, Ghost(r1));
        let ghost m2 = values_model(vals@);
        proof {
            assert(m2 =~= Seq::<ArgModel>::empty());
            assert(m0 =~= seq![ArgModel::Uint64(mask), ArgModel::String(Some(interface@))]);
        }
        Ok(Event::Capability { mask, interface })
    }

    /// Parses the body of the `ei_seat.done` event.
    fn parse_done<F>(rd: &mut Reader, backend: &mut Backend<F>) -> (r: Result<Self, ParseError>)
        requires
            old(rd).wf(),
        ensures
            parse_post(
                "seat",
                event_kinds(Iface::Seat, 3),
                event_slot(Iface::Seat, 3),
                3,
                *old(rd),
                *final(rd),
                *old(backend),
                *final(backend),
                parse_model(r),
            ),
    {
        let ks = vec![];
        proof {
            assert(ks@ =~= Seq::<WireKind>::empty());
        }
        let mut vals = backend.read_args(ks.as_slice(), rd)?;
        let ghost m0 = values_model(vals@);
        proof {
            assert(m0 =~= Seq::<ArgModel>::empty());
            assert(m0 =~= Seq::<ArgModel>::empty());
        }
        Ok(Event::Done)
    }

    /// Parses the body of the `ei_seat.device` event.
    fn parse_device<F>(rd: &mut Reader, backend: &mut Backend<F>) -> (r: Result<Self, ParseError>)
        requires
            old(rd).wf(),
        ensures
            parse_post(
                "seat",
                event_kinds(Iface::Seat, 4),
                event_slot(Iface::Seat, 4),
                4,
                *old(rd),
                *final(rd),
                *old(backend),
                *final(backend),
                parse_model(r),
            ),
    {
        let ks = vec![WireKind::Uint64, WireKind::Uint32];
        proof {
            assert(ks@ =~= seq![WireKind::Uint64, WireKind::Uint32]);
        }
        let mut vals = backend.read_args(ks.as_slice(), rd)?;
        let ghost m0 = values_model(vals@);
        let ghost r0 = seq![WireKind::Uint32];
        proof {
            assert(seq![WireKind::Uint64] + r0 =~= seq![WireKind::Uint64, WireKind::Uint32]);
        }
        let device_id = take_u64(&mut vals, Ghost(r0));
        let ghost m1 = values_model(vals@);
        let ghost r1 = Seq::<WireKind>::empty();
        proof {
            assert(seq![WireKind::Uint32] + r1 =~= seq![WireKind::Uint32]);
        }
        let device_version = take_u32(&mut vals, Ghost(WireKind::Uint32), Ghost(r1));
        let ghost m2 = values_model(vals@);
        proof {
            assert(m2 =~= Seq::<ArgModel>::empty());
            assert(m0 =~= seq![ArgModel::Uint64(device_id), ArgModel::Uint32(device_version)]);
        }
        let obj = backend.new_peer_object(device_id, "ei_device".to_owned(), device_version)?;
        proof {
            assert(backend.objects@.remove(device_id) =~= old(backend).objects@.remove(device_id));
        }
        Ok(Event::Device { device: super::device::Device(obj) })
    }

}

} // verus!
