//! The `ei_keyboard` interface on the server side.
use crate::arg::{
    args_model, new_id_only_at, take_float, take_fd, take_i32, take_i64, take_opt_string, take_string, take_u32, take_u64,
    values_model, Arg, ArgModel, EnumKind, ParseError, Reader, WireKind,
};
use crate::backend::{args_fd_values, Backend, Object};
use crate::enums::{ButtonState, ContextType, DeviceType, DisconnectReason, KeyState, KeymapType};
use crate::message::{
    args_size_bound, lemma_message_writable, opt_str_fits, opt_str_view, parse_model, parse_post, sent,
    sent_creating, sent_destroying, str_fits, WireMessage,
};
use crate::protocol::{event_kinds, event_slot, lemma_encode_len, lemma_name_len, request_kinds, request_slot, Iface, Interface};
use vstd::prelude::*;

verus! {

/// Proxy for an `ei_keyboard` object on the server side.
#[derive(Debug)]
pub struct Keyboard(pub Object);

impl Clone for Keyboard {
    fn clone(&self) -> (r: Self)
        ensures
            r == *self,
    {
        Keyboard(self.0.clone())
    }
}

impl Interface for Keyboard {
    open spec fn spec_iface() -> Iface {
        Iface::Keyboard
    }

    open spec fn spec_max_version() -> u32 {
        1
    }

    open spec fn spec_client_side() -> bool {
        false
    }

    open spec fn spec_object(&self) -> Object {
        self.0
    }

    fn iface() -> (r: Iface) {
        Iface::Keyboard
    }

    fn interface_name() -> (r: &'static str) {
        "ei_keyboard"
    }

    fn max_version() -> (r: u32) {
        1
    }

    fn client_side() -> (r: bool) {
        false
    }

    fn new_unchecked(object: Object) -> (r: Self) {
        Keyboard(object)
    }

    fn as_object(&self) -> (r: &Object) {
        &self.0
    }
}

impl Keyboard {
    /// Returns the version of the object's interface.
    pub fn version(&self) -> (r: u32)
        ensures
            r == self.0.version,
    {
        self.0.version
    }

    /// Returns `true` if the connection still has this object.
    pub fn is_alive<F>(&self, backend: &Backend<F>) -> (r: bool)
        ensures
            r == backend.objects@.contains_key(self.0.id),
    {
        self.0.is_alive(backend)
    }

    /// Sends the `ei_keyboard.destroyed` event, then forgets the object.
    pub fn destroyed<F>(&self, backend: &mut Backend<F>, serial: u32)
        ensures
            sent_destroying(*old(backend), *final(backend), self.0.id, 0, seq![ArgModel::Uint32(serial)], Seq::<F>::empty()),
    {
        let args = vec![Arg::Uint32(serial)];
        let ghost a = args@;
        proof {
            assert(args_model(a) =~= seq![ArgModel::Uint32(serial)]);
            reveal_with_fuel(args_size_bound, 2);
            lemma_message_writable(backend.order, args_model(a));
        }
        backend.request(self.0.id, 0, args);
        backend.remove_id(self.0.id);
        proof {
            reveal_with_fuel(args_fd_values, 2);
            assert(args_fd_values(a) =~= Seq::<F>::empty());
        }
    }

    /// Sends the `ei_keyboard.keymap` event.
    pub fn keymap<F>(&self, backend: &mut Backend<F>, keymap_type: KeymapType, size: u32, keymap: F)
        ensures
            sent(*old(backend), *final(backend), self.0.id, 1, seq![ArgModel::Uint32(keymap_type.spec_to_u32()), ArgModel::Uint32(size), ArgModel::Fd], seq![keymap]),
    {
        let args = vec![Arg::Uint32(keymap_type.to_u32()), Arg::Uint32(size), Arg::Fd(keymap)];
        let ghost a = args@;
        proof {
            assert(args_model(a) =~= seq![ArgModel::Uint32(keymap_type.spec_to_u32()), ArgModel::Uint32(size), ArgModel::Fd]);
            reveal_with_fuel(args_size_bound, 4);
            lemma_message_writable(backend.order, args_model(a));
        }
        backend.request(self.0.id, 1, args);
        proof {
            reveal_with_fuel(args_fd_values, 4);
            assert(args_fd_values(a) =~= seq![keymap]);
        }
    }

    /// Sends the `ei_keyboard.key` event.
    pub fn key<F>(&self, backend: &mut Backend<F>, key: u32, state: KeyState)
        ensures
            sent(*old(backend), *final(backend), self.0.id, 2, seq![ArgModel::Uint32(key), ArgModel::Uint32(state.spec_to_u32())], Seq::<F>::empty()),
    {
        let args = vec![Arg::Uint32(key), Arg::Uint32(state.to_u32())];
        let ghost a = args@;
        proof {
            assert(args_model(a) =~= seq![ArgModel::Uint32(key), ArgModel::Uint32(state.spec_to_u32())]);
            reveal_with_fuel(args_size_bound, 3);
            lemma_message_writable(backend.order, args_model(a));
        }
        backend.request(self.0.id, 2, args);
        proof {
            reveal_with_fuel(args_fd_values, 3);
            assert(args_fd_values(a) =~= Seq::<F>::empty());
        }
    }

    /// Sends the `ei_keyboard.modifiers` event.
    pub fn modifiers<F>(&self, backend: &mut Backend<F>, serial: u32, depressed: u32, locked: u32, latched: u32, group: u32)
        ensures
            sent(*old(backend), *final(backend), self.0.id, 3, seq![ArgModel::Uint32(serial), ArgModel::Uint32(depressed), ArgModel::Uint32(locked), ArgModel::Uint32(latched), ArgModel::Uint32(group)], Seq::<F>::empty()),
    {
        let args = vec![Arg::Uint32(serial), Arg::Uint32(depressed), Arg::Uint32(locked), Arg::Uint32(latched), Arg::Uint32(group)];
        let ghost a = args@;
        proof {
            assert(args_model(a) =~= seq![ArgModel::Uint32(serial), ArgModel::Uint32(depressed), ArgModel::Uint32(locked), ArgModel::Uint32(latched), ArgModel::Uint32(group)]);
            reveal_with_fuel(args_size_bound, 6);
            lemma_message_writable(backend.order, args_model(a));
        }
        backend.request(self.0.id, 3, args);
        proof {
            reveal_with_fuel(args_fd_values, 6);
            assert(args_fd_values(a) =~= Seq::<F>::empty());
        }
    }
}

/// The requests of `ei_keyboard`.
#[derive(Debug)]
pub enum Request {
    /// The `ei_keyboard.release` request.
    Release,
    /// The `ei_keyboard.key` request.
    Key { key: u32, state: KeyState },
}

impl WireMessage for Request {
    open spec fn wire_opcode(&self) -> u32 {
        match self {
            Request::Release => 0,
            Request::Key { .. } => 1,
        }
    }

    open spec fn wire_args(&self) -> Seq<ArgModel> {
        match self {
            Request::Release => Seq::empty(),
            Request::Key { key, state } => seq![ArgModel::Uint32(*key), ArgModel::Uint32(state.spec_to_u32())],
        }
    }

    open spec fn wire_created(&self) -> Option<Object> {
        match self {
            _ => None,
        }
    }

    open spec fn wire_new_id_at(&self) -> Option<int> {
        match self {
            _ => None,
        }
    }
}

impl Request {
    /// The name of the request with this opcode.
    pub open spec fn spec_op_name(opcode: u32) -> Option<&'static str> {
        match opcode {
            0 => Some("release"),
            1 => Some("key"),
            _ => None,
        }
    }

    /// Returns the name of the request with this opcode.
    #[verifier::when_used_as_spec(spec_op_name)]
    pub fn op_name(opcode: u32) -> (r: Option<&'static str>)
        ensures
            r == Self::spec_op_name(opcode),
    {
        match opcode {
            0 => Some("release"),
            1 => Some("key"),
            _ => None,
        }
    }

    /// Returns the arguments of the request, as they go on the wire.
    pub fn args<G>(&self) -> (r: Vec<Arg<'_, G>>)
        ensures
            args_model(r@) == self.wire_args(),
            new_id_only_at(r@, self.wire_new_id_at()),
    {
        match self {
            Request::Release => {
                let r: Vec<Arg<'_, G>> = Vec::new();
                proof {
                    assert(args_model(r@) =~= Seq::<ArgModel>::empty());
                }
                r
            },
            Request::Key { key, state } => {
                let r: Vec<Arg<'_, G>> = vec![Arg::Uint32(*key), Arg::Uint32(state.to_u32())];
                proof {
                    assert(args_model(r@) =~= seq![ArgModel::Uint32(*key), ArgModel::Uint32(state.spec_to_u32())]);
                }
                r
            },
        }
    }

    /// Parses the body of the request with `opcode`; an object it creates is
    /// recorded in `backend`.
    pub fn parse<F>(opcode: u32, rd: &mut Reader, backend: &mut Backend<F>) -> (r: Result<Self, ParseError>)
        requires
            old(rd).wf(),
        ensures
            parse_post(
                "keyboard",
                request_kinds(Iface::Keyboard, opcode),
                request_slot(Iface::Keyboard, opcode),
                opcode,
                *old(rd),
                *final(rd),
                *old(backend),
                *final(backend),
                parse_model(r),
            ),
    {
        match opcode {
            0 => Self::parse_release(rd, backend),
            1 => Self::parse_key(rd, backend),
            _ => Err(ParseError::InvalidOpcode("keyboard", opcode)),
        }
    }

    /// Parses the body of the `ei_keyboard.release` request.
    fn parse_release<F>(rd: &mut Reader, backend: &mut Backend<F>) -> (r: Result<Self, ParseError>)
        requires
            old(rd).wf(),
        ensures
            parse_post(
                "keyboard",
                request_kinds(Iface::Keyboard, 0),
                request_slot(Iface::Keyboard, 0),
                0,
                *old(rd),
                *final(rd),
                *old(backend),
                *final(backend),
                parse_model(r),
            ),
    {
        let ks = vec![];
        proof {
            assert(ks@ =~= Seq::<WireKind>::empty());
        }
        let mut vals = backend.read_args(ks.as_slice(), rd)?;
        let ghost m0 = values_model(vals@);
        proof {
            assert(m0 =~= Seq::<ArgModel>::empty());
            assert(m0 =~= Seq::<ArgModel>::empty());
        }
        Ok(Request::Release)
    }

    /// Parses the body of the `ei_keyboard.key` request.
    fn parse_key<F>(rd: &mut Reader, backend: &mut Backend<F>) -> (r: Result<Self, ParseError>)
        requires
            old(rd).wf(),
        ensures
            parse_post(
                "keyboard",
                request_kinds(Iface::Keyboard, 1),
                request_slot(Iface::Keyboard, 1),
                1,
                *old(rd),
                *final(rd),
                *old(backend),
                *final(backend),
                parse_model(r),
            ),
    {
        let ks = vec![WireKind::Uint32, WireKind::Enum(EnumKind::KeyState)];
        proof {
            assert(ks@ =~= seq![WireKind::Uint32, WireKind::Enum(EnumKind::KeyState)]);
        }
        let mut vals = backend.read_args(ks.as_slice(), rd)?;
        let ghost m0 = values_model(vals@);
        let ghost r0 = seq![WireKind::Enum(EnumKind::KeyState)];
        proof {
            assert(seq![WireKind::Uint32] + r0 =~= seq![WireKind::Uint32, WireKind::Enum(EnumKind::KeyState)]);
        }
        let key = take_u32(&mut vals, Ghost(WireKind::Uint32), Ghost(r0));
        let ghost m1 = values_model(vals@);
        let ghost r1 = Seq::<WireKind>::empty();
        proof {
            assert(seq![WireKind::Enum(EnumKind::KeyState)] + r1 =~= seq![WireKind::Enum(EnumKind::KeyState)]);
        }
        let state_raw = take_u32(&mut vals, Ghost(WireKind::Enum(EnumKind::KeyState)), Ghost(r1));
        let state = match KeyState::from_u32(state_raw) {
            Some(v) => v,
            None => vstd::pervasive::unreached(),
        };
        let ghost m2 = values_model(vals@);
        proof {
            assert(m2 =~= Seq::<ArgModel>::empty());
            assert(m0 =~= seq![ArgModel::Uint32(key), ArgModel::Uint32(state.spec_to_u32())]);
        }
        Ok(Request::Key { key, state })
    }

}

} // verus!
