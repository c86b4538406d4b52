//! The `ei_touchscreen` interface on the server side.
use crate::arg::{
    args_model, new_id_only_at, take_float, take_fd, take_i32, take_i64, take_opt_string, take_string, take_u32, take_u64,
    values_model, Arg, ArgModel, EnumKind, ParseError, Reader, WireKind,
};
use crate::backend::{args_fd_values, Backend, Object};
use crate::enums::{ButtonState, ContextType, DeviceType, DisconnectReason, KeyState, KeymapType};
use crate::message::{
    args_size_bound, lemma_message_writable, opt_str_fits, opt_str_view, parse_model, parse_post, sent,
    sent_creating, sent_destroying, str_fits, WireMessage,
};
use crate::protocol::{event_kinds, event_slot, lemma_encode_len, lemma_name_len, request_kinds, request_slot, Iface, Interface};
use vstd::prelude::*;

verus! {

/// Proxy for an `ei_touchscreen` object on the server side.
#[derive(Debug)]
pub struct Touchscreen(pub Object);

impl Clone for Touchscreen {
    fn clone(&self) -> (r: Self)
        ensures
            r == *self,
    {
        Touchscreen(self.0.clone())
    }
}

impl Interface for Touchscreen {
    open spec fn spec_iface() -> Iface {
        Iface::Touchscreen
    }

    open spec fn spec_max_version() -> u32 {
        2
    }

    open spec fn spec_client_side() -> bool {
        false
    }

    open spec fn spec_object(&self) -> Object {
        self.0
    }

    fn iface() -> (r: Iface) {
        Iface::Touchscreen
    }

    fn interface_name() -> (r: &'static str) {
        "ei_touchscreen"
    }

    fn max_version() -> (r: u32) {
        2
    }

    fn client_side() -> (r: bool) {
        false
    }

    fn new_unchecked(object: Object) -> (r: Self) {
        Touchscreen(object)
    }

    fn as_object(&self) -> (r: &Object) {
        &self.0
    }
}

impl Touchscreen {
    /// Returns the version of the object's interface.
    pub fn version(&self) -> (r: u32)
        ensures
            r == self.0.version,
    {
        self.0.version
    }

    /// Returns `true` if the connection still has this object.
    pub fn is_alive<F>(&self, backend: &Backend<F>) -> (r: bool)
        ensures
            r == backend.objects@.contains_key(self.0.id),
    {
        self.0.is_alive(backend)
    }

    /// Sends the `ei_touchscreen.destroyed` event, then forgets the object.
    pub fn destroyed<F>(&self, backend: &mut Backend<F>, serial: u32)
        ensures
            sent_destroying(*old(backend), *final(backend), self.0.id, 0, seq![ArgModel::Uint32(serial)], Seq::<F>::empty()),
    {
        let args = vec![Arg::Uint32(serial)];
        let ghost a = args@;
        proof {
            assert(args_model(a) =~= seq![ArgModel::Uint32(serial)]);
            reveal_with_fuel(args_size_bound, 2);
            lemma_message_writable(backend.order, args_model(a));
        }
        backend.request(self.0.id, 0, args);
        backend.remove_id(self.0.id);
        proof {
            reveal_with_fuel(args_fd_values, 2);
            assert(args_fd_values(a) =~= Seq::<F>::empty());
        }
    }

    /// Sends the `ei_touchscreen.down` event.
    pub fn down<F>(&self, backend: &mut Backend<F>, touchid: u32, x: u32, y: u32)
        ensures
            sent(*old(backend), *final(backend), self.0.id, 1, seq![ArgModel::Uint32(touchid), ArgModel::Float(x), ArgModel::Float(y)], Seq::<F>::empty()),
    {
        let args = vec![Arg::Uint32(touchid), Arg::Float(x), Arg::Float(y)];
        let ghost a = args@;
        proof {
            assert(args_model(a) =~= seq![ArgModel::Uint32(touchid), ArgModel::Float(x), ArgModel::Float(y)]);
            reveal_with_fuel(args_size_bound, 4);
            lemma_message_writable(backend.order, args_model(a));
        }
        backend.request(self.0.id, 1, args);
        proof {
            reveal_with_fuel(args_fd_values, 4);
            assert(args_fd_values(a) =~= Seq::<F>::empty());
        }
    }

    /// Sends the `ei_touchscreen.motion` event.
    pub fn motion<F>(&self, backend: &mut Backend<F>, touchid: u32, x: u32, y: u32)
        ensures
            sent(*old(backend), *final(backend), self.0.id, 2, seq![ArgModel::Uint32(touchid), ArgModel::Float(x), ArgModel::Float(y)], Seq::<F>::empty()),
    {
        let args = vec![Arg::Uint32(touchid), Arg::Float(x), Arg::Float(y)];
        let ghost a = args@;
        proof {
            assert(args_model(a) =~= seq![ArgModel::Uint32(touchid), ArgModel::Float(x), ArgModel::Float(y)]);
            reveal_with_fuel(args_size_bound, 4);
            lemma_message_writable(backend.order, args_model(a));
        }
        backend.request(self.0.id, 2, args);
        proof {
            reveal_with_fuel(args_fd_values, 4);
            assert(args_fd_values(a) =~= Seq::<F>::empty());
        }
    }

    /// Sends the `ei_touchscreen.up` event.
    pub fn up<F>(&self, backend: &mut Backend<F>, touchid: u32)
        ensures
            sent(*old(backend), *final(backend), self.0.id, 3, seq![ArgModel::Uint32(touchid)], Seq::<F>::empty()),
    {
        let args = vec![Arg::Uint32(touchid)];
        let ghost a = args@;
        proof {
            assert(args_model(a) =~= seq![ArgModel::Uint32(touchid)]);
            reveal_with_fuel(args_size_bound, 2);
            lemma_message_writable(backend.order, args_model(a));
        }
        backend.request(self.0.id, 3, args);
        proof {
            reveal_with_fuel(args_fd_values, 2);
            assert(args_fd_values(a) =~= Seq::<F>::empty());
        }
    }

    /// Sends the `ei_touchscreen.cancel` event.
    pub fn cancel<F>(&self, backend: &mut Backend<F>, touchid: u32)
        ensures
            sent(*old(backend), *final(backend), self.0.id, 4, seq![ArgModel::Uint32(touchid)], Seq::<F>::empty()),
    {
        let args = vec![Arg::Uint32(touchid)];
        let ghost a = args@;
        proof {
            assert(args_model(a) =~= seq![ArgModel::Uint32(touchid)]);
            reveal_with_fuel(args_size_bound, 2);
            lemma_message_writable(backend.order, args_model(a));
        }
        backend.request(self.0.id, 4, args);
        proof {
            reveal_with_fuel(args_fd_values, 2);
            assert(args_fd_values(a) =~= Seq::<F>::empty());
        }
    }
}

/// The requests of `ei_touchscreen`.
#[derive(Debug)]
pub enum Request {
    /// The `ei_touchscreen.release` request.
    Release,
    /// The `ei_touchscreen.down` request.
    Down { touchid: u32, x: u32, y: u32 },
    /// The `ei_touchscreen.motion` request.
    Motion { touchid: u32, x: u32, y: u32 },
    /// The `ei_touchscreen.up` request.
    Up { touchid: u32 },
    /// The `ei_touchscreen.cancel` request.
    Cancel { touchid: u32 },
}

impl WireMessage for Request {
    open spec fn wire_opcode(&self) -> u32 {
        match self {
            Request::Release => 0,
            Request::Down { .. } => 1,
            Request::Motion { .. } => 2,
            Request::Up { .. } => 3,
            Request::Cancel { .. } => 4,
        }
    }

    open spec fn wire_args(&self) -> Seq<ArgModel> {
        match self {
            Request::Release => Seq::empty(),
            Request::Down { touchid, x, y } => seq![ArgModel::Uint32(*touchid), ArgModel::Float(*x), ArgModel::Float(*y)],
            Request::Motion { touchid, x, y } => seq![ArgModel::Uint32(*touchid), ArgModel::Float(*x), ArgModel::Float(*y)],
            Request::Up { touchid } => seq![ArgModel::Uint32(*touchid)],
            Request::Cancel { touchid } => seq![ArgModel::Uint32(*touchid)],
        }
    }

    open spec fn wire_created(&self) -> Option<Object> {
        match self {
            _ => None,
        }
    }

    open spec fn wire_new_id_at(&self) -> Option<int> {
        match self {
            _ => None,
        }
    }
}

impl Request {
    /// The name of the request with this opcode.
    pub open spec fn spec_op_name(opcode: u32) -> Option<&'static str> {
        match opcode {
            0 => Some("release"),
            1 => Some("down"),
            2 => Some("motion"),
            3 => Some("up"),
            4 => Some("cancel"),
            _ => None,
        }
    }

    /// Returns the name of the request with this opcode.
    #[verifier::when_used_as_spec(spec_op_name)]
    pub fn op_name(opcode: u32) -> (r: Option<&'static str>)
        ensures
            r == Self::spec_op_name(opcode),
    {
        match opcode {
            0 => Some("release"),
            1 => Some("down"),
            2 => Some("motion"),
            3 => Some("up"),
            4 => Some("cancel"),
            _ => None,
        }
    }

    /// Returns the arguments of the request, as they go on the wire.
    pub fn args<G>(&self) -> (r: Vec<Arg<'_, G>>)
        ensures
            args_model(r@) == self.wire_args(),
            new_id_only_at(r@, self.wire_new_id_at()),
    {
        match self {
            Request::Release => {
                let r: Vec<Arg<'_, G>> = Vec::new();
                proof {
                    assert(args_model(r@) =~= Seq::<ArgModel>::empty());
                }
                r
            },
            Request::Down { touchid, x, y } => {
                let r: Vec<Arg<'_, G>> = vec![Arg::Uint32(*touchid), Arg::Float(*x), Arg::Float(*y)];
                proof {
                    assert(args_model(r@) =~= seq![ArgModel::Uint32(*touchid), ArgModel::Float(*x), ArgModel::Float(*y)]);
                }
                r
            },
            Request::Motion { touchid, x, y } => {
                let r: Vec<Arg<'_, G>> = vec![Arg::Uint32(*touchid), Arg::Float(*x), Arg::Float(*y)];
                proof {
                    assert(args_model(r@) =~= seq![ArgModel::Uint32(*touchid), ArgModel::Float(*x), ArgModel::Float(*y)]);
                }
                r
            },
            Request::Up { touchid } => {
                let r: Vec<Arg<'_, G>> = vec![Arg::Uint32(*touchid)];
                proof {
                    assert(args_model(r@) =~= seq![ArgModel::Uint32(*touchid)]);
                }
                r
            },
            Request::Cancel { touchid } => {
                let r: Vec<Arg<'_, G>> = vec![Arg::Uint32(*touchid)];
                proof {
                    assert(args_model(r@) =~= seq![ArgModel::Uint32(*touchid)]);
                }
                r
            },
        }
    }

    /// Parses the body of the request with `opcode`; an object it creates is
    /// recorded in `backend`.
    pub fn parse<F>(opcode: u32, rd: &mut Reader, backend: &mut Backend<F>) -> (r: Result<Self, ParseError>)
        requires
            old(rd).wf(),
        ensures
            parse_post(
                "touchscreen",
                request_kinds(Iface::Touchscreen, opcode),
                request_slot(Iface::Touchscreen, opcode),
                opcode,
                *old(rd),
                *final(rd),
                *old(backend),
                *final(backend),
                parse_model(r),
            ),
    {
        match opcode {
            0 => Self::parse_release(rd, backend),
            1 => Self::parse_down(rd, backend),
            2 => Self::parse_motion(rd, backend),
            3 => Self::parse_up(rd, backend),
            4 => Self::parse_cancel(rd, backend),
            _ => Err(ParseError::InvalidOpcode("touchscreen", opcode)),
        }
    }

    /// Parses the body of the `ei_touchscreen.release` request.
    fn parse_release<F>(rd: &mut Reader, backend: &mut Backend<F>) -> (r: Result<Self, ParseError>)
        requires
            old(rd).wf(),
        ensures
            parse_post(
                "touchscreen",
                request_kinds(Iface::Touchscreen, 0),
                request_slot(Iface::Touchscreen, 0),
                0,
                *old(rd),
                *final(rd),
                *old(backend),
                *final(backend),
                parse_model(r),
            ),
    {
        let ks = vec![];
        proof {
            assert(ks@ =~= Seq::<WireKind>::empty());
        }
        let mut vals = backend.read_args(ks.as_slice(), rd)?;
        let ghost m0 = values_model(vals@);
        proof {
            assert(m0 =~= Seq::<ArgModel>::empty());
            assert(m0 =~= Seq::<ArgModel>::empty());
        }
        Ok(Request::Release)
    }

    /// Parses the body of the `ei_touchscreen.down` request.
    fn parse_down<F>(rd: &mut Reader, backend: &mut Backend<F>) -> (r: Result<Self, ParseError>)
        requires
            old(rd).wf(),
        ensures
            parse_post(
                "touchscreen",
                request_kinds(Iface::Touchscreen, 1),
                request_slot(Iface::Touchscreen, 1),
                1,
                *old(rd),
                *final(rd),
                *old(backend),
                *final(backend),
                parse_model(r),
            ),
    {
        let ks = vec![WireKind::Uint32, WireKind::Float, WireKind::Float];
        proof {
            assert(ks@ =~= seq![WireKind::Uint32, WireKind::Float, WireKind::Float]);
        }
        let mut vals = backend.read_args(ks.as_slice(), rd)?;
        let ghost m0 = values_model(vals@);
        let ghost r0 = seq![WireKind::Float, WireKind::Float];
        proof {
            assert(seq![WireKind::Uint32] + r0 =~= seq![WireKind::Uint32, WireKind::Float, WireKind::Float]);
        }
        let touchid = take_u32(&mut vals, Ghost(WireKind::Uint32), Ghost(r0));
        let ghost m1 = values_model(vals@);
        let ghost r1 = seq![WireKind::Float];
        proof {
            assert(seq![WireKind::Float] + r1 =~= seq![WireKind::Float, WireKind::Float]);
        }
        let x = take_float(&mut vals, Ghost(r1));
        let ghost m2 = values_model(vals@);
        let ghost r2 = Seq::<WireKind>::empty();
        proof {
            assert(seq![WireKind::Float] + r2 =~= seq![WireKind::Float]);
        }
        let y = take_float(&mut vals, Ghost(r2));
        let ghost m3 = values_model(vals@);
        proof {
            assert(m3 =~= Seq::<ArgModel>::empty());
            assert(m0 =~= seq![ArgModel::Uint32(touchid), ArgModel::Float(x), ArgModel::Float(y)]);
        }
        Ok(Request::Down { touchid, x, y })
    }

    /// Parses the body of the `ei_touchscreen.motion` request.
    fn parse_motion<F>(rd: &mut Reader, backend: &mut Backend<F>) -> (r: Result<Self, ParseError>)
        requires
            old(rd).wf(),
        ensures
            parse_post(
                "touchscreen",
                request_kinds(Iface::Touchscreen, 2),
                request_slot(Iface::Touchscreen, 2),
                2,
                *old(rd),
                *final(rd),
                *old(backend),
                *final(backend),
                parse_model(r),
            ),
    {
        let ks = vec![WireKind::Uint32, WireKind::Float, WireKind::Float];
        proof {
            assert(ks@ =~= seq![WireKind::Uint32, WireKind::Float, WireKind::Float]);
        }
        let mut vals = backend.read_args(ks.as_slice(), rd)?;
        let ghost m0 = values_model(vals@);
        let ghost r0 = seq![WireKind::Float, WireKind::Float];
        proof {
            assert(seq![WireKind::Uint32] + r0 =~= seq![WireKind::Uint32, WireKind::Float, WireKind::Float]);
        }
        let touchid = take_u32(&mut vals, Ghost(WireKind::Uint32), Ghost(r0));
        let ghost m1 = values_model(vals@);
        let ghost r1 = seq![WireKind::Float];
        proof {
            assert(seq![WireKind::Float] + r1 =~= seq![WireKind::Float, WireKind::Float]);
        }
        let x = take_float(&mut vals, Ghost(r1));
        let ghost m2 = values_model(vals@);
        let ghost r2 = Seq::<WireKind>::empty();
        proof {
            assert(seq![WireKind::Float] + r2 =~= seq![WireKind::Float]);
        }
        let y = take_float(&mut vals, Ghost(r2));
        let ghost m3 = values_model(vals@);
        proof {
            assert(m3 =~= Seq::<ArgModel>::empty());
            assert(m0 =~= seq![ArgModel::Uint32(touchid), ArgModel::Float(x), ArgModel::Float(y)]);
        }
        Ok(Request::Motion { touchid, x, y })
    }

    /// Parses the body of the `ei_touchscreen.up` request.
    fn parse_up<F>(rd: &mut Reader, backend: &mut Backend<F>) -> (r: Result<Self, ParseError>)
        requires
            old(rd).wf(),
        ensures
            parse_post(
                "touchscreen",
                request_kinds(Iface::Touchscreen, 3),
                request_slot(Iface::Touchscreen, 3),
                3,
                *old(rd),
                *final(rd),
                *old(backend),
                *final(backend),
                parse_model(r),
            ),
    {
        let ks = vec![WireKind::Uint32];
        proof {
            assert(ks@ =~= seq![WireKind::Uint32]);
        }
        let mut vals = backend.read_args(ks.as_slice(), rd)?;
        let ghost m0 = values_model(vals@);
        let ghost r0 = Seq::<WireKind>::empty();
        proof {
            assert(seq![WireKind::Uint32] + r0 =~= seq![WireKind::Uint32]);
        }
        let touchid = take_u32(&mut vals, Ghost(WireKind::Uint32), Ghost(r0));
        let ghost m1 = values_model(vals@);
        proof {
            assert(m1 =~= Seq::<ArgModel>::empty());
            assert(m0 =~= seq![ArgModel::Uint32(touchid)]);
        }
        Ok(Request::Up { touchid })
    }

    /// Parses the body of the `ei_touchscreen.cancel` request.
    fn parse_cancel<F>(rd: &mut Reader, backend: &mut Backend<F>) -> (r: Result<Self, ParseError>)
        requires
            old(rd).wf(),
        ensures
            parse_post(
                "touchscreen",
                request_kinds(Iface::Touchscreen, 4),
                request_slot(Iface::Touchscreen, 4),
                4,
                *old(rd),
                *final(rd),
                *old(backend),
                *final(backend),
                parse_model(r),
            ),
    {
        let ks = vec![WireKind::Uint32];
        proof {
            assert(ks@ =~= seq![WireKind::Uint32]);
        }
        let mut vals = backend.read_args(ks.as_slice(), rd)?;
        let ghost m0 = values_model(vals@);
        let ghost r0 = Seq::<WireKind>::empty();
        proof {
            assert(seq![WireKind::Uint32] + r0 =~= seq![WireKind::Uint32]);
        }
        let touchid = take_u32(&mut vals, Ghost(WireKind::Uint32), Ghost(r0));
        let ghost m1 = values_model(vals@);
        proof {
            assert(m1 =~= Seq::<ArgModel>::empty());
            assert(m0 =~= seq![ArgModel::Uint32(touchid)]);
        }
        Ok(Request::Cancel { touchid })
    }

}

} // verus!
