//! The `ei_pointer` interface on the client side.
use crate::arg::{
    args_model, new_id_only_at, take_float, take_fd, take_i32, take_i64, take_opt_string, take_string, take_u32, take_u64,
    values_model, Arg, ArgModel, EnumKind, ParseError, Reader, WireKind,
};
use crate::backend::{args_fd_values, Backend, Object};
use crate::enums::{ButtonState, ContextType, DeviceType, DisconnectReason, KeyState, KeymapType};
use crate::message::{
    args_size_bound, lemma_message_writable, opt_str_fits, opt_str_view, parse_model, parse_post, sent,
    sent_creating, sent_destroying, str_fits, WireMessage,
};
use crate::protocol::{event_kinds, event_slot, lemma_encode_len, lemma_name_len, request_kinds, request_slot, Iface, Interface};
use vstd::prelude::*;

verus! {

/// Proxy for an `ei_pointer` object on the client side.
#[derive(Debug)]
pub struct Pointer(pub Object);

impl Clone for Pointer {
    fn clone(&self) -> (r: Self)
        ensures
            r == *self,
    {
        Pointer(self.0.clone())
    }
}

impl Interface for Pointer {
    open spec fn spec_iface() -> Iface {
        Iface::Pointer
    }

    open spec fn spec_max_version() -> u32 {
        1
    }

    open spec fn spec_client_side() -> bool {
        true
    }

    open spec fn spec_object(&self) -> Object {
        self.0
    }

    fn iface() -> (r: Iface) {
        Iface::Pointer
    }

    fn interface_name() -> (r: &'static str) {
        "ei_pointer"
    }

    fn max_version() -> (r: u32) {
        1
    }

    fn client_side() -> (r: bool) {
        true
    }

    fn new_unchecked(object: Object) -> (r: Self) {
        Pointer(object)
    }

    fn as_object(&self) -> (r: &Object) {
        &self.0
    }
}

impl Pointer {
    /// Returns the version of the object's interface.
    pub fn version(&self) -> (r: u32)
        ensures
            r == self.0.version,
    {
        self.0.version
    }

    /// Returns `true` if the connection still has this object.
    pub fn is_alive<F>(&self, backend: &Backend<F>) -> (r: bool)
        ensures
            r == backend.objects@.contains_key(self.0.id),
    {
        self.0.is_alive(backend)
    }

    /// Sends the `ei_pointer.release` request.
    pub fn release<F>(&self, backend: &mut Backend<F>)
        ensures
            sent(*old(backend), *final(backend), self.0.id, 0, Seq::<ArgModel>::empty(), Seq::<F>::empty()),
    {
        let args = vec![];
        let ghost a = args@;
        proof {
            assert(args_model(a) =~= Seq::<ArgModel>::empty());
            reveal_with_fuel(args_size_bound, 1);
            lemma_message_writable(backend.order, args_model(a));
        }
        backend.request(self.0.id, 0, args);
        proof {
            reveal_with_fuel(args_fd_values, 1);
            assert(args_fd_values(a) =~= Seq::<F>::empty());
        }
    }

    /// Sends the `ei_pointer.motion_relative` request.
    pub fn motion_relative<F>(&self, backend: &mut Backend<F>, x: u32, y: u32)
        ensures
            sent(*old(backend), *final(backend), self.0.id, 1, seq![ArgModel::Float(x), ArgModel::Float(y)], Seq::<F>::empty()),
    {
        let args = vec![Arg::Float(x), Arg::Float(y)];
        let ghost a = args@;
        proof {
            assert(args_model(a) =~= seq![ArgModel::Float(x), ArgModel::Float(y)]);
            reveal_with_fuel(args_size_bound, 3);
            lemma_message_writable(backend.order, args_model(a));
        }
        backend.request(self.0.id, 1, args);
        proof {
            reveal_with_fuel(args_fd_values, 3);
            assert(args_fd_values(a) =~= Seq::<F>::empty());
        }
    }
}

/// The events of `ei_pointer`.
#[derive(Debug)]
pub enum Event {
    /// The `ei_pointer.destroyed` event.
    Destroyed { serial: u32 },
    /// The `ei_pointer.motion_relative` event.
    MotionRelative { x: u32, y: u32 },
}

impl WireMessage for Event {
    open spec fn wire_opcode(&self) -> u32 {
        match self {
            Event::Destroyed { .. } => 0,
            Event::MotionRelative { .. } => 1,
        }
    }

    open spec fn wire_args(&self) -> Seq<ArgModel> {
        match self {
            Event::Destroyed { serial } => seq![ArgModel::Uint32(*serial)],
            Event::MotionRelative { x, y } => seq![ArgModel::Float(*x), ArgModel::Float(*y)],
        }
    }

    open spec fn wire_created(&self) -> Option<Object> {
        match self {
            _ => None,
        }
    }

    open spec fn wire_new_id_at(&self) -> Option<int> {
        match self {
            _ => None,
        }
    }
}

impl Event {
    /// The name of the event with this opcode.
    pub open spec fn spec_op_name(opcode: u32) -> Option<&'static str> {
        match opcode {
            0 => Some("destroyed"),
            1 => Some("motion_relative"),
            _ => None,
        }
    }

    /// Returns the name of the event with this opcode.
    #[verifier::when_used_as_spec(spec_op_name)]
    pub fn op_name(opcode: u32) -> (r: Option<&'static str>)
        ensures
            r == Self::spec_op_name(opcode),
    {
        match opcode {
            0 => Some("destroyed"),
            1 => Some("motion_relative"),
            _ => None,
        }
    }

    /// Returns the arguments of the event, as they go on the wire.
    pub fn args<G>(&self) -> (r: Vec<Arg<'_, G>>)
        ensures
            args_model(r@) == self.wire_args(),
            new_id_only_at(r@, self.wire_new_id_at()),
    {
        match self {
            Event::Destroyed { serial } => {
                let r: Vec<Arg<'_, G>> = vec![Arg::Uint32(*serial)];
                proof {
                    assert(args_model(r@) =~= seq![ArgModel::Uint32(*serial)]);
                }
                r
            },
            Event::MotionRelative { x, y } => {
                let r: Vec<Arg<'_, G>> = vec![Arg::Float(*x), Arg::Float(*y)];
                proof {
                    assert(args_model(r@) =~= seq![ArgModel::Float(*x), ArgModel::Float(*y)]);
                }
                r
            },
        }
    }

    /// Parses the body of the event with `opcode`; an object it creates is
    /// recorded in `backend`.
    pub fn parse<F>(opcode: u32, rd: &mut Reader, backend: &mut Backend<F>) -> (r: Result<Self, ParseError>)
        requires
            old(rd).wf(),
        ensures
            parse_post(
                "pointer",
                event_kinds(Iface::Pointer, opcode),
                event_slot(Iface::Pointer, opcode),
                opcode,
                *old(rd),
                *final(rd),
                *old(backend),
                *final(backend),
                parse_model(r),
            ),
    {
        match opcode {
            0 => Self::parse_destroyed(rd, backend),
            1 => Self::parse_motion_relative(rd, backend),
            _ => Err(ParseError::InvalidOpcode("pointer", opcode)),
        }
    }

    /// Parses the body of the `ei_pointer.destroyed` event.
    fn parse_destroyed<F>(rd: &mut Reader, backend: &mut Backend<F>) -> (r: Result<Self, ParseError>)
        requires
            old(rd).wf(),
        ensures
            parse_post(
                "pointer",
                event_kinds(Iface::Pointer, 0),
                event_slot(Iface::Pointer, 0),
                0,
                *old(rd),
                *final(rd),
                *old(backend),
                *final(backend),
                parse_model(r),
            ),
    {
        let ks = vec![WireKind::Uint32];
        proof {
            assert(ks@ =~= seq![WireKind::Uint32]);
        }
        let mut vals = backend.read_args(ks.as_slice(), rd)?;
        let ghost m0 = values_model(vals@);
        let ghost r0 = Seq::<WireKind>::empty();
        proof {
            assert(seq![WireKind::Uint32] + r0 =~= seq![WireKind::Uint32]);
        }
        let serial = take_u32(&mut vals, Ghost(WireKind::Uint32), Ghost(r0));
        let ghost m1 = values_model(vals@);
        proof {
            assert(m1 =~= Seq::<ArgModel>::empty());
            assert(m0 =~= seq![ArgModel::Uint32(serial)]);
        }
        Ok(Event::Destroyed { serial })
    }

    /// Parses the body of the `ei_pointer.motion_relative` event.
    fn parse_motion_relative<F>(rd: &mut Reader, backend: &mut Backend<F>) -> (r: Result<Self, ParseError>)
        requires
            old(rd).wf(),
        ensures
            parse_post(
                "pointer",
                event_kinds(Iface::Pointer, 1),
                event_slot(Iface::Pointer, 1),
                1,
                *old(rd),
                *final(rd),
                *old(backend),
                *final(backend),
                parse_model(r),
            ),
    {
        let ks = vec![WireKind::Float, WireKind::Float];
        proof {
            assert(ks@ =~= seq![WireKind::Float, WireKind::Float]);
        }
        let mut vals = backend.read_args(ks.as_slice(), rd)?;
        let ghost m0 = values_model(vals@);
        let ghost r0 = seq![WireKind::Float];
        proof {
            assert(seq![WireKind::Float] + r0 =~= seq![WireKind::Float, WireKind::Float]);
        }
        let x = take_float(&mut vals, Ghost(r0));
        let ghost m1 = values_model(vals@);
        let ghost r1 = Seq::<WireKind>::empty();
        proof {
            assert(seq![WireKind::Float] + r1 =~= seq![WireKind::Float]);
        }
        let y = take_float(&mut vals, Ghost(r1));
        let ghost m2 = values_model(vals@);
        proof {
            assert(m2 =~= Seq::<ArgModel>::empty());
            assert(m0 =~= seq![ArgModel::Float(x), ArgModel::Float(y)]);
        }
        Ok(Event::MotionRelative { x, y })
    }

}

} // verus!
