//! The `ei_keyboard` interface on the client side.
use crate::arg::{
    args_model, new_id_only_at, take_float, take_fd, take_i32, take_i64, take_opt_string, take_string, take_u32, take_u64,
    values_model, Arg, ArgModel, EnumKind, ParseError, Reader, WireKind,
};
use crate::backend::{args_fd_values, Backend, Object};
use crate::enums::{ButtonState, ContextType, DeviceType, DisconnectReason, KeyState, KeymapType};
use crate::message::{
    args_size_bound, lemma_message_writable, opt_str_fits, opt_str_view, parse_model, parse_post, sent,
    sent_creating, sent_destroying, str_fits, WireMessage,
};
use crate::protocol::{event_kinds, event_slot, lemma_encode_len, lemma_name_len, request_kinds, request_slot, Iface, Interface};
use vstd::prelude::*;

verus! {

/// Proxy for an `ei_keyboard` object on the client side.
#[derive(Debug)]
pub struct Keyboard(pub Object);

impl Clone for Keyboard {
    fn clone(&self) -> (r: Self)
        ensures
            r == *self,
    {
        Keyboard(self.0.clone())
    }
}

impl Interface for Keyboard {
    open spec fn spec_iface() -> Iface {
        Iface::Keyboard
    }

    open spec fn spec_max_version() -> u32 {
        1
    }

    open spec fn spec_client_side() -> bool {
        true
    }

    open spec fn spec_object(&self) -> Object {
        self.0
    }

    fn iface() -> (r: Iface) {
        Iface::Keyboard
    }

    fn interface_name() -> (r: &'static str) {
        "ei_keyboard"
    }

    fn max_version() -> (r: u32) {
        1
    }

    fn client_side() -> (r: bool) {
        true
    }

    fn new_unchecked(object: Object) -> (r: Self) {
        Keyboard(object)
    }

    fn as_object(&self) -> (r: &Object) {
        &self.0
    }
}

impl Keyboard {
    /// Returns the version of the object's interface.
    pub fn version(&self) -> (r: u32)
        ensures
            r == self.0.version,
    {
        self.0.version
    }

    /// Returns `true` if the connection still has this object.
    pub fn is_alive<F>(&self, backend: &Backend<F>) -> (r: bool)
        ensures
            r == backend.objects@.contains_key(self.0.id),
    {
        self.0.is_alive(backend)
    }

    /// Sends the `ei_keyboard.release` request.
    pub fn release<F>(&self, backend: &mut Backend<F>)
        ensures
            sent(*old(backend), *final(backend), self.0.id, 0, Seq::<ArgModel>::empty(), Seq::<F>::empty()),
    {
        let args = vec![];
        let ghost a = args@;
        proof {
            assert(args_model(a) =~= Seq::<ArgModel>::empty());
            reveal_with_fuel(args_size_bound, 1);
            lemma_message_writable(backend.order, args_model(a));
        }
        backend.request(self.0.id, 0, args);
        proof {
            reveal_with_fuel(args_fd_values, 1);
            assert(args_fd_values(a) =~= Seq::<F>::empty());
        }
    }

    /// Sends the `ei_keyboard.key` request.
    pub fn key<F>(&self, backend: &mut Backend<F>, key: u32, state: KeyState)
        ensures
            sent(*old(backend), *final(backend), self.0.id, 1, seq![ArgModel::Uint32(key), ArgModel::Uint32(state.spec_to_u32())], Seq::<F>::empty()),
    {
        let args = vec![Arg::Uint32(key), Arg::Uint32(state.to_u32())];
        let ghost a = args@;
        proof {
            assert(args_model(a) =~= seq![ArgModel::Uint32(key), ArgModel::Uint32(state.spec_to_u32())]);
            reveal_with_fuel(args_size_bound, 3);
            lemma_message_writable(backend.order, args_model(a));
        }
        backend.request(self.0.id, 1, args);
        proof {
            reveal_with_fuel(args_fd_values, 3);
            assert(args_fd_values(a) =~= Seq::<F>::empty());
        }
    }
}

/// The events of `ei_keyboard`.
#[derive(Debug)]
pub enum Event<F> {
    /// The `ei_keyboard.destroyed` event.
    Destroyed { serial: u32 },
    /// The `ei_keyboard.keymap` event.
    Keymap { keymap_type: KeymapType, size: u32, keymap: F },
    /// The `ei_keyboard.key` event.
    Key { key: u32, state: KeyState },
    /// The `ei_keyboard.modifiers` event.
    Modifiers { serial: u32, depressed: u32, locked: u32, latched: u32, group: u32 },
}

impl<F> WireMessage for Event<F> {
    open spec fn wire_opcode(&self) -> u32 {
        match self {
            Event::Destroyed { .. } => 0,
            Event::Keymap { .. } => 1,
            Event::Key { .. } => 2,
            Event::Modifiers { .. } => 3,
        }
    }

    open spec fn wire_args(&self) -> Seq<ArgModel> {
        match self {
            Event::Destroyed { serial } => seq![ArgModel::Uint32(*serial)],
            Event::Keymap { keymap_type, size, keymap } => seq![ArgModel::Uint32(keymap_type.spec_to_u32()), ArgModel::Uint32(*size), ArgModel::Fd],
            Event::Key { key, state } => seq![ArgModel::Uint32(*key), ArgModel::Uint32(state.spec_to_u32())],
            Event::Modifiers { serial, depressed, locked, latched, group } => seq![ArgModel::Uint32(*serial), ArgModel::Uint32(*depressed), ArgModel::Uint32(*locked), ArgModel::Uint32(*latched), ArgModel::Uint32(*group)],
        }
    }

    open spec fn wire_created(&self) -> Option<Object> {
        match self {
            _ => None,
        }
    }

    open spec fn wire_new_id_at(&self) -> Option<int> {
        match self {
            _ => None,
        }
    }
}

impl<F> Event<F> {
    /// The name of the event with this opcode.
    pub open spec fn spec_op_name(opcode: u32) -> Option<&'static str> {
        match opcode {
            0 => Some("destroyed"),
            1 => Some("keymap"),
            2 => Some("key"),
            3 => Some("modifiers"),
            _ => None,
        }
    }

    /// Returns the name of the event with this opcode.
    #[verifier::when_used_as_spec(spec_op_name)]
    pub fn op_name(opcode: u32) -> (r: Option<&'static str>)
        ensures
            r == Self::spec_op_name(opcode),
    {
        match opcode {
            0 => Some("destroyed"),
            1 => Some("keymap"),
            2 => Some("key"),
            3 => Some("modifiers"),
            _ => None,
        }
    }

    /// Returns the arguments of the event, as they go on the wire.
    pub fn args(&self) -> (r: Vec<Arg<'_, &F>>)
        ensures
            args_model(r@) == self.wire_args(),
            new_id_only_at(r@, self.wire_new_id_at()),
    {
        match self {
            Event::Destroyed { serial } => {
                let r: Vec<Arg<'_, &F>> = vec![Arg::Uint32(*serial)];
                proof {
                    assert(args_model(r@) =~= seq![ArgModel::Uint32(*serial)]);
                }
                r
            },
            Event::Keymap { keymap_type, size, keymap } => {
                let r: Vec<Arg<'_, &F>> = vec![Arg::Uint32(keymap_type.to_u32()), Arg::Uint32(*size), Arg::Fd(keymap)];
                proof {
                    assert(args_model(r@) =~= seq![ArgModel::Uint32(keymap_type.spec_to_u32()), ArgModel::Uint32(*size), ArgModel::Fd]);
                }
                r
            },
            Event::Key { key, state } => {
                let r: Vec<Arg<'_, &F>> = vec![Arg::Uint32(*key), Arg::Uint32(state.to_u32())];
                proof {
                    assert(args_model(r@) =~= seq![ArgModel::Uint32(*key), ArgModel::Uint32(state.spec_to_u32())]);
                }
                r
            },
            Event::Modifiers { serial, depressed, locked, latched, group } => {
                let r: Vec<Arg<'_, &F>> = vec![Arg::Uint32(*serial), Arg::Uint32(*depressed), Arg::Uint32(*locked), Arg::Uint32(*latched), Arg::Uint32(*group)];
                proof {
                    assert(args_model(r@) =~= seq![ArgModel::Uint32(*serial), ArgModel::Uint32(*depressed), ArgModel::Uint32(*locked), ArgModel::Uint32(*latched), ArgModel::Uint32(*group)]);
                }
                r
            },
        }
    }

    /// Parses the body of the event with `opcode`; an object it creates is
    /// recorded in `backend`.
    pub fn parse(opcode: u32, rd: &mut Reader, backend: &mut Backend<F>) -> (r: Result<Self, ParseError>)
        requires
            old(rd).wf(),
        ensures
            parse_post(
                "keyboard",
                event_kinds(Iface::Keyboard, opcode),
                event_slot(Iface::Keyboard, opcode),
                opcode,
                *old(rd),
                *final(rd),
                *old(backend),
                *final(backend),
                parse_model(r),
            ),
    {
        match opcode {
            0 => Self::parse_destroyed(rd, backend),
            1 => Self::parse_keymap(rd, backend),
            2 => Self::parse_key(rd, backend),
            3 => Self::parse_modifiers(rd, backend),
            _ => Err(ParseError::InvalidOpcode("keyboard", opcode)),
        }
    }

    /// Parses the body of the `ei_keyboard.destroyed` event.
    fn parse_destroyed(rd: &mut Reader, backend: &mut Backend<F>) -> (r: Result<Self, ParseError>)
        requires
            old(rd).wf(),
        ensures
            parse_post(
                "keyboard",
                event_kinds(Iface::Keyboard, 0),
                event_slot(Iface::Keyboard, 0),
                0,
                *old(rd),
                *final(rd),
                *old(backend),
                *final(backend),
                parse_model(r),
            ),
    {
        let ks = vec![WireKind::Uint32];
        proof {
            assert(ks@ =~= seq![WireKind::Uint32]);
        }
        let mut vals = backend.read_args(ks.as_slice(), rd)?;
        let ghost m0 = values_model(vals@);
        let ghost r0 = Seq::<WireKind>::empty();
        proof {
            assert(seq![WireKind::Uint32] + r0 =~= seq![WireKind::Uint32]);
        }
        let serial = take_u32(&mut vals, Ghost(WireKind::Uint32), Ghost(r0));
        let ghost m1 = values_model(vals@);
        proof {
            assert(m1 =~= Seq::<ArgModel>::empty());
            assert(m0 =~= seq![ArgModel::Uint32(serial)]);
        }
        Ok(Event::Destroyed { serial })
    }

    /// Parses the body of the `ei_keyboard.keymap` event.
    fn parse_keymap(rd: &mut Reader, backend: &mut Backend<F>) -> (r: Result<Self, ParseError>)
        requires
            old(rd).wf(),
        ensures
            parse_post(
                "keyboard",
                event_kinds(Iface::Keyboard, 1),
                event_slot(Iface::Keyboard, 1),
                1,
                *old(rd),
                *final(rd),
                *old(backend),
                *final(backend),
                parse_model(r),
            ),
    {
        let ks = vec![WireKind::Enum(EnumKind::KeymapType), WireKind::Uint32, WireKind::Fd];
        proof {
            assert(ks@ =~= seq![WireKind::Enum(EnumKind::KeymapType), WireKind::Uint32, WireKind::Fd]);
        }
        let mut vals = backend.read_args(ks.as_slice(), rd)?;
        let ghost m0 = values_model(vals@);
        let ghost r0 = seq![WireKind::Uint32, WireKind::Fd];
        proof {
            assert(seq![WireKind::Enum(EnumKind::KeymapType)] + r0 =~= seq![WireKind::Enum(EnumKind::KeymapType), WireKind::Uint32, WireKind::Fd]);
        }
        let keymap_type_raw = take_u32(&mut vals, Ghost(WireKind::Enum(EnumKind::KeymapType)), Ghost(r0));
        let keymap_type = match KeymapType::from_u32(keymap_type_raw) {
            Some(v) => v,
            None => vstd::pervasive::unreached(),
        };
        let ghost m1 = values_model(vals@);
        let ghost r1 = seq![WireKind::Fd];
        proof {
            assert(seq![WireKind::Uint32] + r1 =~= seq![WireKind::Uint32, WireKind::Fd]);
        }
        let size = take_u32(&mut vals, Ghost(WireKind::Uint32), Ghost(r1));
        let ghost m2 = values_model(vals@);
        let ghost r2 = Seq::<WireKind>::empty();
        proof {
            assert(seq![WireKind::Fd] + r2 =~= seq![WireKind::Fd]);
        }
        let keymap = take_fd(&mut vals, Ghost(r2));
        let ghost m3 = values_model(vals@);
        proof {
            assert(m3 =~= Seq::<ArgModel>::empty());
            assert(m0 =~= seq![ArgModel::Uint32(keymap_type.spec_to_u32()), ArgModel::Uint32(size), ArgModel::Fd]);
        }
        Ok(Event::Keymap { keymap_type, size, keymap })
    }

    /// Parses the body of the `ei_keyboard.key` event.
    fn parse_key(rd: &mut Reader, backend: &mut Backend<F>) -> (r: Result<Self, ParseError>)
        requires
            old(rd).wf(),
        ensures
            parse_post(
                "keyboard",
                event_kinds(Iface::Keyboard, 2),
                event_slot(Iface::Keyboard, 2),
                2,
                *old(rd),
                *final(rd),
                *old(backend),
                *final(backend),
                parse_model(r),
            ),
    {
        let ks = vec![WireKind::Uint32, WireKind::Enum(EnumKind::KeyState)];
        proof {
            assert(ks@ =~= seq![WireKind::Uint32, WireKind::Enum(EnumKind::KeyState)]);
        }
        let mut vals = backend.read_args(ks.as_slice(), rd)?;
        let ghost m0 = values_model(vals@);
        let ghost r0 = seq![WireKind::Enum(EnumKind::KeyState)];
        proof {
            assert(seq![WireKind::Uint32] + r0 =~= seq![WireKind::Uint32, WireKind::Enum(EnumKind::KeyState)]);
        }
        let key = take_u32(&mut vals, Ghost(WireKind::Uint32), Ghost(r0));
        let ghost m1 = values_model(vals@);
        let ghost r1 = Seq::<WireKind>::empty();
        proof {
            assert(seq![WireKind::Enum(EnumKind::KeyState)] + r1 =~= seq![WireKind::Enum(EnumKind::KeyState)]);
        }
        let state_raw = take_u32(&mut vals, Ghost(WireKind::Enum(EnumKind::KeyState)), Ghost(r1));
        let state = match KeyState::from_u32(state_raw) {
            Some(v) => v,
            None => vstd::pervasive::unreached(),
        };
        let ghost m2 = values_model(vals@);
        proof {
            assert(m2 =~= Seq::<ArgModel>::empty());
            assert(m0 =~= seq![ArgModel::Uint32(key), ArgModel::Uint32(state.spec_to_u32())]);
        }
        Ok(Event::Key { key, state })
    }

    /// Parses the body of the `ei_keyboard.modifiers` event.
    fn parse_modifiers(rd: &mut Reader, backend: &mut Backend<F>) -> (r: Result<Self, ParseError>)
        requires
            old(rd).wf(),
        ensures
            parse_post(
                "keyboard",
                event_kinds(Iface::Keyboard, 3),
                event_slot(Iface::Keyboard, 3),
                3,
                *old(rd),
                *final(rd),
                *old(backend),
                *final(backend),
                parse_model(r),
            ),
    {
        let ks = vec![WireKind::Uint32, WireKind::Uint32, WireKind::Uint32, WireKind::Uint32, WireKind::Uint32];
        proof {
            assert(ks@ =~= seq![WireKind::Uint32, WireKind::Uint32, WireKind::Uint32, WireKind::Uint32, WireKind::Uint32]);
        }
        let mut vals = backend.read_args(ks.as_slice(), rd)?;
        let ghost m0 = values_model(vals@);
        let ghost r0 = seq![WireKind::Uint32, WireKind::Uint32, WireKind::Uint32, WireKind::Uint32];
        proof {
            assert(seq![WireKind::Uint32] + r0 =~= seq![WireKind::Uint32, WireKind::Uint32, WireKind::Uint32, WireKind::Uint32, WireKind::Uint32]);
        }
        let serial = take_u32(&mut vals, Ghost(WireKind::Uint32), Ghost(r0));
        let ghost m1 = values_model(vals@);
        let ghost r1 = seq![WireKind::Uint32, WireKind::Uint32, WireKind::Uint32];
        proof {
            assert(seq![WireKind::Uint32] + r1 =~= seq![WireKind::Uint32, WireKind::Uint32, WireKind::Uint32, WireKind::Uint32]);
        }
        let depressed = take_u32(&mut vals, Ghost(WireKind::Uint32), Ghost(r1));
        let ghost m2 = values_model(vals@);
        let ghost r2 = seq![WireKind::Uint32, WireKind::Uint32];
        proof {
            assert(seq![WireKind::Uint32] + r2 =~= seq![WireKind::Uint32, WireKind::Uint32, WireKind::Uint32]);
        }
        let locked = take_u32(&mut vals, Ghost(WireKind::Uint32), Ghost(r2));
        let ghost m3 = values_model(vals@);
        let ghost r3 = seq![WireKind::Uint32];
        proof {
            assert(seq![WireKind::Uint32] + r3 =~= seq![WireKind::Uint32, WireKind::Uint32]);
        }
        let latched = take_u32(&mut vals, Ghost(WireKind::Uint32), Ghost(r3));
        let ghost m4 = values_model(vals@);
        let ghost r4 = Seq::<WireKind>::empty();
        proof {
            assert(seq![WireKind::Uint32] + r4 =~= seq![WireKind::Uint32]);
        }
        let group = take_u32(&mut vals, Ghost(WireKind::Uint32), Ghost(r4));
        let ghost m5 = values_model(vals@);
        proof {
            assert(m5 =~= Seq::<ArgModel>::empty());
            assert(m0 =~= seq![ArgModel::Uint32(serial), ArgModel::Uint32(depressed), ArgModel::Uint32(locked), ArgModel::Uint32(latched), ArgModel::Uint32(group)]);
        }
        Ok(Event::Modifiers { serial, depressed, locked, latched, group })
    }

}

} // verus!
