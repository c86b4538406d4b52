//! The `ei_callback` interface on the client side.
use crate::arg::{
    args_model, new_id_only_at, take_float, take_fd, take_i32, take_i64, take_opt_string, take_string, take_u32, take_u64,
    values_model, Arg, ArgModel, EnumKind, ParseError, Reader, WireKind,
};
use crate::backend::{args_fd_values, Backend, Object};
use crate::enums::{ButtonState, ContextType, DeviceType, DisconnectReason, KeyState, KeymapType};
use crate::message::{
    args_size_bound, lemma_message_writable, opt_str_fits, opt_str_view, parse_model, parse_post, sent,
    sent_creating, sent_destroying, str_fits, WireMessage,
};
use crate::protocol::{event_kinds, event_slot, lemma_encode_len, lemma_name_len, request_kinds, request_slot, Iface, Interface};
use vstd::prelude::*;

verus! {

/// Proxy for an `ei_callback` object on the client side.
#[derive(Debug)]
pub struct Callback(pub Object);

impl Clone for Callback {
    fn clone(&self) -> (r: Self)
        ensures
            r == *self,
    {
        Callback(self.0.clone())
    }
}

impl Interface for Callback {
    open spec fn spec_iface() -> Iface {
        Iface::Callback
    }

    open spec fn spec_max_version() -> u32 {
        1
    }

    open spec fn spec_client_side() -> bool {
        true
    }

    open spec fn spec_object(&self) -> Object {
        self.0
    }

    fn iface() -> (r: Iface) {
        Iface::Callback
    }

    fn interface_name() -> (r: &'static str) {
        "ei_callback"
    }

    fn max_version() -> (r: u32) {
        1
    }

    fn client_side() -> (r: bool) {
        true
    }

    fn new_unchecked(object: Object) -> (r: Self) {
        Callback(object)
    }

    fn as_object(&self) -> (r: &Object) {
        &self.0
    }
}

impl Callback {
    /// Returns the version of the object's interface.
    pub fn version(&self) -> (r: u32)
        ensures
            r == self.0.version,
    {
        self.0.version
    }

    /// Returns `true` if the connection still has this object.
    pub fn is_alive<F>(&self, backend: &Backend<F>) -> (r: bool)
        ensures
            r == backend.objects@.contains_key(self.0.id),
    {
        self.0.is_alive(backend)
    }
}

/// The events of `ei_callback`.
#[derive(Debug)]
pub enum Event {
    /// The `ei_callback.done` event.
    Done { callback_data: u64 },
}

impl WireMessage for Event {
    open spec fn wire_opcode(&self) -> u32 {
        match self {
            Event::Done { .. } => 0,
        }
    }

    open spec fn wire_args(&self) -> Seq<ArgModel> {
        match self {
            Event::Done { callback_data } => seq![ArgModel::Uint64(*callback_data)],
        }
    }

    open spec fn wire_created(&self) -> Option<Object> {
        match self {
            _ => None,
        }
    }

    open spec fn wire_new_id_at(&self) -> Option<int> {
        match self {
            _ => None,
        }
    }
}

impl Event {
    /// The name of the event with this opcode.
    pub open spec fn spec_op_name(opcode: u32) -> Option<&'static str> {
        match opcode {
            0 => Some("done"),
            _ => None,
        }
    }

    /// Returns the name of the event with this opcode.
    #[verifier::when_used_as_spec(spec_op_name)]
    pub fn op_name(opcode: u32) -> (r: Option<&'static str>)
        ensures
            r == Self::spec_op_name(opcode),
    {
        match opcode {
            0 => Some("done"),
            _ => None,
        }
    }

    /// Returns the arguments of the event, as they go on the wire.
    pub fn args<G>(&self) -> (r: Vec<Arg<'_, G>>)
        ensures
            args_model(r@) == self.wire_args(),
            new_id_only_at(r@, self.wire_new_id_at()),
    {
        match self {
            Event::Done { callback_data } => {
                let r: Vec<Arg<'_, G>> = vec![Arg::Uint64(*callback_data)];
                proof {
                    assert(args_model(r@) =~= seq![ArgModel::Uint64(*callback_data)]);
                }
                r
            },
        }
    }

    /// Parses the body of the event with `opcode`; an object it creates is
    /// recorded in `backend`.
    pub fn parse<F>(opcode: u32, rd: &mut Reader, backend: &mut Backend<F>) -> (r: Result<Self, ParseError>)
        requires
            old(rd).wf(),
        ensures
            parse_post(
                "callback",
                event_kinds(Iface::Callback, opcode),
                event_slot(Iface::Callback, opcode),
                opcode,
                *old(rd),
                *final(rd),
                *old(backend),
                *final(backend),
                parse_model(r),
            ),
    {
        match opcode {
            0 => Self::parse_done(rd, backend),
            _ => Err(ParseError::InvalidOpcode("callback", opcode)),
        }
    }

    /// Parses the body of the `ei_callback.done` event.
    fn parse_done<F>(rd: &mut Reader, backend: &mut Backend<F>) -> (r: Result<Self, ParseError>)
        requires
            old(rd).wf(),
        ensures
            parse_post(
                "callback",
                event_kinds(Iface::Callback, 0),
                event_slot(Iface::Callback, 0),
                0,
                *old(rd),
                *final(rd),
                *old(backend),
                *final(backend),
                parse_model(r),
            ),
    {
        let ks = vec![WireKind::Uint64];
        proof {
            assert(ks@ =~= seq![WireKind::Uint64]);
        }
        let mut vals = backend.read_args(ks.as_slice(), rd)?;
        let ghost m0 = values_model(vals@);
        let ghost r0 = Seq::<WireKind>::empty();
        proof {
            assert(seq![WireKind::Uint64] + r0 =~= seq![WireKind::Uint64]);
        }
        let callback_data = take_u64(&mut vals, Ghost(r0));
        let ghost m1 = values_model(vals@);
        proof {
            assert(m1 =~= Seq::<ArgModel>::empty());
            assert(m0 =~= seq![ArgModel::Uint64(callback_data)]);
        }
        Ok(Event::Done { callback_data })
    }

}

} // verus!
