//! The `ei_button` interface on the client side.
use crate::arg::{
    args_model, new_id_only_at, take_float, take_fd, take_i32, take_i64, take_opt_string, take_string, take_u32, take_u64,
    values_model, Arg, ArgModel, EnumKind, ParseError, Reader, WireKind,
};
use crate::backend::{args_fd_values, Backend, Object};
use crate::enums::{ButtonState, ContextType, DeviceType, DisconnectReason, KeyState, KeymapType};
use crate::message::{
    args_size_bound, lemma_message_writable, opt_str_fits, opt_str_view, parse_model, parse_post, sent,
    sent_creating, sent_destroying, str_fits, WireMessage,
};
use crate::protocol::{event_kinds, event_slot, lemma_encode_len, lemma_name_len, request_kinds, request_slot, Iface, Interface};
use vstd::prelude::*;

verus! {

/// Proxy for an `ei_button` object on the client side.
#[derive(Debug)]
pub struct Button(pub Object);

impl Clone for Button {
    fn clone(&self) -> (r: Self)
        ensures
            r == *self,
    {
        Button(self.0.clone())
    }
}

impl Interface for Button {
    open spec fn spec_iface() -> Iface {
        Iface::Button
    }

    open spec fn spec_max_version() -> u32 {
        1
    }

    open spec fn spec_client_side() -> bool {
        true
    }

    open spec fn spec_object(&self) -> Object {
        self.0
    }

    fn iface() -> (r: Iface) {
        Iface::Button
    }

    fn interface_name() -> (r: &'static str) {
        "ei_button"
    }

    fn max_version() -> (r: u32) {
        1
    }

    fn client_side() -> (r: bool) {
        true
    }

    fn new_unchecked(object: Object) -> (r: Self) {
        Button(object)
    }

    fn as_object(&self) -> (r: &Object) {
        &self.0
    }
}

impl Button {
    /// Returns the version of the object's interface.
    pub fn version(&self) -> (r: u32)
        ensures
            r == self.0.version,
    {
        self.0.version
    }

    /// Returns `true` if the connection still has this object.
    pub fn is_alive<F>(&self, backend: &Backend<F>) -> (r: bool)
        ensures
            r == backend.objects@.contains_key(self.0.id),
    {
        self.0.is_alive(backend)
    }

    /// Sends the `ei_button.release` request.
    pub fn release<F>(&self, backend: &mut Backend<F>)
        ensures
            sent(*old(backend), *final(backend), self.0.id, 0, Seq::<ArgModel>::empty(), Seq::<F>::empty()),
    {
        let args = vec![];
        let ghost a = args@;
        proof {
            assert(args_model(a) =~= Seq::<ArgModel>::empty());
            reveal_with_fuel(args_size_bound, 1);
            lemma_message_writable(backend.order, args_model(a));
        }
        backend.request(self.0.id, 0, args);
        proof {
            reveal_with_fuel(args_fd_values, 1);
            assert(args_fd_values(a) =~= Seq::<F>::empty());
        }
    }

    /// Sends the `ei_button.button` request.
    pub fn button<F>(&self, backend: &mut Backend<F>, button: u32, state: ButtonState)
        ensures
            sent(*old(backend), *final(backend), self.0.id, 1, seq![ArgModel::Uint32(button), ArgModel::Uint32(state.spec_to_u32())], Seq::<F>::empty()),
    {
        let args = vec![Arg::Uint32(button), Arg::Uint32(state.to_u32())];
        let ghost a = args@;
        proof {
            assert(args_model(a) =~= seq![ArgModel::Uint32(button), ArgModel::Uint32(state.spec_to_u32())]);
            reveal_with_fuel(args_size_bound, 3);
            lemma_message_writable(backend.order, args_model(a));
        }
        backend.request(self.0.id, 1, args);
        proof {
            reveal_with_fuel(args_fd_values, 3);
            assert(args_fd_values(a) =~= Seq::<F>::empty());
        }
    }
}

/// The events of `ei_button`.
#[derive(Debug)]
pub enum Event {
    /// The `ei_button.destroyed` event.
    Destroyed { serial: u32 },
    /// The `ei_button.button` event.
    Button { button: u32, state: ButtonState },
}

impl WireMessage for Event {
    open spec fn wire_opcode(&self) -> u32 {
        match self {
            Event::Destroyed { .. } => 0,
            Event::Button { .. } => 1,
        }
    }

    open spec fn wire_args(&self) -> Seq<ArgModel> {
        match self {
            Event::Destroyed { serial } => seq![ArgModel::Uint32(*serial)],
            Event::Button { button, state } => seq![ArgModel::Uint32(*button), ArgModel::Uint32(state.spec_to_u32())],
        }
    }

    open spec fn wire_created(&self) -> Option<Object> {
        match self {
            _ => None,
        }
    }

    open spec fn wire_new_id_at(&self) -> Option<int> {
        match self {
            _ => None,
        }
    }
}

impl Event {
    /// The name of the event with this opcode.
    pub open spec fn spec_op_name(opcode: u32) -> Option<&'static str> {
        match opcode {
            0 => Some("destroyed"),
            1 => Some("button"),
            _ => None,
        }
    }

    /// Returns the name of the event with this opcode.
    #[verifier::when_used_as_spec(spec_op_name)]
    pub fn op_name(opcode: u32) -> (r: Option<&'static str>)
        ensures
            r == Self::spec_op_name(opcode),
    {
        match opcode {
            0 => Some("destroyed"),
            1 => Some("button"),
            _ => None,
        }
    }

    /// Returns the arguments of the event, as they go on the wire.
    pub fn args<G>(&self) -> (r: Vec<Arg<'_, G>>)
        ensures
            args_model(r@) == self.wire_args(),
            new_id_only_at(r@, self.wire_new_id_at()),
    {
        match self {
            Event::Destroyed { serial } => {
                let r: Vec<Arg<'_, G>> = vec![Arg::Uint32(*serial)];
                proof {
                    assert(args_model(r@) =~= seq![ArgModel::Uint32(*serial)]);
                }
                r
            },
            Event::Button { button, state } => {
                let r: Vec<Arg<'_, G>> = vec![Arg::Uint32(*button), Arg::Uint32(state.to_u32())];
                proof {
                    assert(args_model(r@) =~= seq![ArgModel::Uint32(*button), ArgModel::Uint32(state.spec_to_u32())]);
                }
                r
            },
        }
    }

    /// Parses the body of the event with `opcode`; an object it creates is
    /// recorded in `backend`.
    pub fn parse<F>(opcode: u32, rd: &mut Reader, backend: &mut Backend<F>) -> (r: Result<Self, ParseError>)
        requires
            old(rd).wf(),
        ensures
            parse_post(
                "button",
                event_kinds(Iface::Button, opcode),
                event_slot(Iface::Button, opcode),
                opcode,
                *old(rd),
                *final(rd),
                *old(backend),
                *final(backend),
                parse_model(r),
            ),
    {
        match opcode {
            0 => Self::parse_destroyed(rd, backend),
            1 => Self::parse_button(rd, backend),
            _ => Err(ParseError::InvalidOpcode("button", opcode)),
        }
    }

    /// Parses the body of the `ei_button.destroyed` event.
    fn parse_destroyed<F>(rd: &mut Reader, backend: &mut Backend<F>) -> (r: Result<Self, ParseError>)
        requires
            old(rd).wf(),
        ensures
            parse_post(
                "button",
                event_kinds(Iface::Button, 0),
                event_slot(Iface::Button, 0),
                0,
                *old(rd),
                *final(rd),
                *old(backend),
                *final(backend),
                parse_model(r),
            ),
    {
        let ks = vec![WireKind::Uint32];
        proof {
            assert(ks@ =~= seq![WireKind::Uint32]);
        }
        let mut vals = backend.read_args(ks.as_slice(), rd)?;
        let ghost m0 = values_model(vals@);
        let ghost r0 = Seq::<WireKind>::empty();
        proof {
            assert(seq![WireKind::Uint32] + r0 =~= seq![WireKind::Uint32]);
        }
        let serial = take_u32(&mut vals, Ghost(WireKind::Uint32), Ghost(r0));
        let ghost m1 = values_model(vals@);
        proof {
            assert(m1 =~= Seq::<ArgModel>::empty());
            assert(m0 =~= seq![ArgModel::Uint32(serial)]);
        }
        Ok(Event::Destroyed { serial })
    }

    /// Parses the body of the `ei_button.button` event.
    fn parse_button<F>(rd: &mut Reader, backend: &mut Backend<F>) -> (r: Result<Self, ParseError>)
        requires
            old(rd).wf(),
        ensures
            parse_post(
                "button",
                event_kinds(Iface::Button, 1),
                event_slot(Iface::Button, 1),
                1,
                *old(rd),
                *final(rd),
                *old(backend),
                *final(backend),
                parse_model(r),
            ),
    {
        let ks = vec![WireKind::Uint32, WireKind::Enum(EnumKind::ButtonState)];
        proof {
            assert(ks@ =~= seq![WireKind::Uint32, WireKind::Enum(EnumKind::ButtonState)]);
        }
        let mut vals = backend.read_args(ks.as_slice(), rd)?;
        let ghost m0 = values_model(vals@);
        let ghost r0 = seq![WireKind::Enum(EnumKind::ButtonState)];
        proof {
            assert(seq![WireKind::Uint32] + r0 =~= seq![WireKind::Uint32, WireKind::Enum(EnumKind::ButtonState)]);
        }
        let button = take_u32(&mut vals, Ghost(WireKind::Uint32), Ghost(r0));
        let ghost m1 = values_model(vals@);
        let ghost r1 = Seq::<WireKind>::empty();
        proof {
            assert(seq![WireKind::Enum(EnumKind::ButtonState)] + r1 =~= seq![WireKind::Enum(EnumKind::ButtonState)]);
        }
        let state_raw = take_u32(&mut vals, Ghost(WireKind::Enum(EnumKind::ButtonState)), Ghost(r1));
        let state = match ButtonState::from_u32(state_raw) {
            Some(v) => v,
            None => vstd::pervasive::unreached(),
        };
        let ghost m2 = values_model(vals@);
        proof {
            assert(m2 =~= Seq::<ArgModel>::empty());
            assert(m0 =~= seq![ArgModel::Uint32(button), ArgModel::Uint32(state.spec_to_u32())]);
        }
        Ok(Event::Button { button, state })
    }

}

} // verus!
