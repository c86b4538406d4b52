//! The `ei_device` interface on the server side.
use crate::arg::{
    args_model, new_id_only_at, take_float, take_fd, take_i32, take_i64, take_opt_string, take_string, take_u32, take_u64,
    values_model, Arg, ArgModel, EnumKind, ParseError, Reader, WireKind,
};
use crate::backend::{args_fd_values, Backend, Object};
use crate::enums::{ButtonState, ContextType, DeviceType, DisconnectReason, KeyState, KeymapType};
use crate::message::{
    args_size_bound, lemma_message_writable, opt_str_fits, opt_str_view, parse_model, parse_post, sent,
    sent_creating, sent_destroying, str_fits, WireMessage,
};
use crate::protocol::{event_kinds, event_slot, lemma_encode_len, lemma_name_len, request_kinds, request_slot, Iface, Interface};
use vstd::prelude::*;

verus! {

/// Proxy for an `ei_device` object on the server side.
#[derive(Debug)]
pub struct Device(pub Object);

impl Clone for Device {
    fn clone(&self) -> (r: Self)
        ensures
            r == *self,
    {
        Device(self.0.clone())
    }
}

impl Interface for Device {
    open spec fn spec_iface() -> Iface {
        Iface::Device
    }

    open spec fn spec_max_version() -> u32 {
        2
    }

    open spec fn spec_client_side() -> bool {
        false
    }

    open spec fn spec_object(&self) -> Object {
        self.0
    }

    fn iface() -> (r: Iface) {
        Iface::Device
    }

    fn interface_name() -> (r: &'static str) {
        "ei_device"
    }

    fn max_version() -> (r: u32) {
        2
    }

    fn client_side() -> (r: bool) {
        false
    }

    fn new_unchecked(object: Object) -> (r: Self) {
        Device(object)
    }

    fn as_object(&self) -> (r: &Object) {
        &self.0
    }
}

impl Device {
    /// Returns the version of the object's interface.
    pub fn version(&self) -> (r: u32)
        ensures
            r == self.0.version,
    {
        self.0.version
    }

    /// Returns `true` if the connection still has this object.
    pub fn is_alive<F>(&self, backend: &Backend<F>) -> (r: bool)
        ensures
            r == backend.objects@.contains_key(self.0.id),
    {
        self.0.is_alive(backend)
    }

    /// Sends the `ei_device.destroyed` event, then forgets the object.
    pub fn destroyed<F>(&self, backend: &mut Backend<F>, serial: u32)
        ensures
            sent_destroying(*old(backend), *final(backend), self.0.id, 0, seq![ArgModel::Uint32(serial)], Seq::<F>::empty()),
    {
        let args = vec![Arg::Uint32(serial)];
        let ghost a = args@;
        proof {
            assert(args_model(a) =~= seq![ArgModel::Uint32(serial)]);
            reveal_with_fuel(args_size_bound, 2);
            lemma_message_writable(backend.order, args_model(a));
        }
        backend.request(self.0.id, 0, args);
        backend.remove_id(self.0.id);
        proof {
            reveal_with_fuel(args_fd_values, 2);
            assert(args_fd_values(a) =~= Seq::<F>::empty());
        }
    }

    /// Sends the `ei_device.name` event.
    pub fn name<F>(&self, backend: &mut Backend<F>, name: &str)
        requires
            str_fits(name),
        ensures
            sent(*old(backend), *final(backend), self.0.id, 1, seq![ArgModel::String(Some(name@))], Seq::<F>::empty()),
    {
        let args = vec![Arg::String(Some(name))];
        let ghost a = args@;
        proof {
            assert(args_model(a) =~= seq![ArgModel::String(Some(name@))]);
            reveal_with_fuel(args_size_bound, 2);
            lemma_message_writable(backend.order, args_model(a));
        }
        backend.request(self.0.id, 1, args);
        proof {
            reveal_with_fuel(args_fd_values, 2);
            assert(args_fd_values(a) =~= Seq::<F>::empty());
        }
    }

    /// Sends the `ei_device.device_type` event.
    pub fn device_type<F>(&self, backend: &mut Backend<F>, device_type: DeviceType)
        ensures
            sent(*old(backend), *final(backend), self.0.id, 2, seq![ArgModel::Uint32(device_type.spec_to_u32())], Seq::<F>::empty()),
    {
        let args = vec![Arg::Uint32(device_type.to_u32())];
        let ghost a = args@;
        proof {
            assert(args_model(a) =~= seq![ArgModel::Uint32(device_type.spec_to_u32())]);
            reveal_with_fuel(args_size_bound, 2);
            lemma_message_writable(backend.order, args_model(a));
        }
        backend.request(self.0.id, 2, args);
        proof {
            reveal_with_fuel(args_fd_values, 2);
            assert(args_fd_values(a) =~= Seq::<F>::empty());
        }
    }

    /// Sends the `ei_device.dimensions` event.
    pub fn dimensions<F>(&self, backend: &mut Backend<F>, width: u32, height: u32)
        ensures
            sent(*old(backend), *final(backend), self.0.id, 3, seq![ArgModel::Uint32(width), ArgModel::Uint32(height)], Seq::<F>::empty()),
    {
        let args = vec![Arg::Uint32(width), Arg::Uint32(height)];
        let ghost a = args@;
        proof {
            assert(args_model(a) =~= seq![ArgModel::Uint32(width), ArgModel::Uint32(height)]);
            reveal_with_fuel(args_size_bound, 3);
            lemma_message_writable(backend.order, args_model(a));
        }
        backend.request(self.0.id, 3, args);
        proof {
            reveal_with_fuel(args_fd_values, 3);
            assert(args_fd_values(a) =~= Seq::<F>::empty());
        }
    }

    /// Sends the `ei_device.region` event.
    pub fn region<F>(&self, backend: &mut Backend<F>, offset_x: u32, offset_y: u32, width: u32, hight: u32, scale: u32)
        ensures
            sent(*old(backend), *final(backend), self.0.id, 4, seq![ArgModel::Uint32(offset_x), ArgModel::Uint32(offset_y), ArgModel::Uint32(width), ArgModel::Uint32(hight), ArgModel::Float(scale)], Seq::<F>::empty()),
    {
        let args = vec![Arg::Uint32(offset_x), Arg::Uint32(offset_y), Arg::Uint32(width), Arg::Uint32(hight), Arg::Float(scale)];
        let ghost a = args@;
        proof {
            assert(args_model(a) =~= seq![ArgModel::Uint32(offset_x), ArgModel::Uint32(offset_y), ArgModel::Uint32(width), ArgModel::Uint32(hight), ArgModel::Float(scale)]);
            reveal_with_fuel(args_size_bound, 6);
            lemma_message_writable(backend.order, args_model(a));
        }
        backend.request(self.0.id, 4, args);
        proof {
            reveal_with_fuel(args_fd_values, 6);
            assert(args_fd_values(a) =~= Seq::<F>::empty());
        }
    }

    /// Creates an `I` object with the given version and sends the `ei_device.interface` event.
    pub fn interface<F, I: Interface>(&self, backend: &mut Backend<F>, version: u32) -> (r: I)
        requires
            old(backend).next_id < u64::MAX,
        ensures
            sent_creating(*old(backend), *final(backend), self.0.id, 5, seq![ArgModel::Uint64(old(backend).next_id), ArgModel::String(Some(I::spec_iface().spec_name()@)), ArgModel::Uint32(version)], Seq::<F>::empty(), I::spec_iface().spec_name()@, version, false),
            r.spec_object().id == old(backend).next_id,
            r.spec_object().interface@ == I::spec_iface().spec_name()@,
            r.spec_object().version == version,
            r.spec_object().client_side == old(backend).client,
    {
        let name = I::interface_name();
        let obj = backend.new_object(name.to_owned(), version);
        let args = vec![Arg::NewId(obj.id), Arg::String(Some(name)), Arg::Uint32(version)];
        let ghost a = args@;
        proof {
            assert(args_model(a) =~= seq![ArgModel::Uint64(obj.id), ArgModel::String(Some(I::spec_iface().spec_name()@)), ArgModel::Uint32(version)]);
            lemma_name_len(I::spec_iface());
            lemma_encode_len(name@);
            reveal_with_fuel(args_size_bound, 4);
            lemma_message_writable(backend.order, args_model(a));
        }
        backend.request(self.0.id, 5, args);
        proof {
            reveal_with_fuel(args_fd_values, 4);
            assert(args_fd_values(a) =~= Seq::<F>::empty());
            assert(backend.objects@.remove(obj.id) =~= old(backend).objects@.remove(obj.id));
        }
        I::new_unchecked(obj)
    }

    /// Sends the `ei_device.done` event.
    pub fn done<F>(&self, backend: &mut Backend<F>)
        ensures
            sent(*old(backend), *final(backend), self.0.id, 6, Seq::<ArgModel>::empty(), Seq::<F>::empty()),
    {
        let args = vec![];
        let ghost a = args@;
        proof {
            assert(args_model(a) =~= Seq::<ArgModel>::empty());
            reveal_with_fuel(args_size_bound, 1);
            lemma_message_writable(backend.order, args_model(a));
        }
        backend.request(self.0.id, 6, args);
        proof {
            reveal_with_fuel(args_fd_values, 1);
            assert(args_fd_values(a) =~= Seq::<F>::empty());
        }
    }

    /// Sends the `ei_device.resumed` event.
    pub fn resumed<F>(&self, backend: &mut Backend<F>, serial: u32)
        ensures
            sent(*old(backend), *final(backend), self.0.id, 7, seq![ArgModel::Uint32(serial)], Seq::<F>::empty()),
    {
        let args = vec![Arg::Uint32(serial)];
        let ghost a = args@;
        proof {
            assert(args_model(a) =~= seq![ArgModel::Uint32(serial)]);
            reveal_with_fuel(args_size_bound, 2);
            lemma_message_writable(backend.order, args_model(a));
        }
        backend.request(self.0.id, 7, args);
        proof {
            reveal_with_fuel(args_fd_values, 2);
            assert(args_fd_values(a) =~= Seq::<F>::empty());
        }
    }

    /// Sends the `ei_device.paused` event.
    pub fn paused<F>(&self, backend: &mut Backend<F>, serial: u32)
        ensures
            sent(*old(backend), *final(backend), self.0.id, 8, seq![ArgModel::Uint32(serial)], Seq::<F>::empty()),
    {
        let args = vec![Arg::Uint32(serial)];
        let ghost a = args@;
        proof {
            assert(args_model(a) =~= seq![ArgModel::Uint32(serial)]);
            reveal_with_fuel(args_size_bound, 2);
            lemma_message_writable(backend.order, args_model(a));
        }
        backend.request(self.0.id, 8, args);
        proof {
            reveal_with_fuel(args_fd_values, 2);
            assert(args_fd_values(a) =~= Seq::<F>::empty());
        }
    }

    /// Sends the `ei_device.start_emulating` event.
    pub fn start_emulating<F>(&self, backend: &mut Backend<F>, serial: u32, sequence: u32)
        ensures
            sent(*old(backend), *final(backend), self.0.id, 9, seq![ArgModel::Uint32(serial), ArgModel::Uint32(sequence)], Seq::<F>::empty()),
    {
        let args = vec![Arg::Uint32(serial), Arg::Uint32(sequence)];
        let ghost a = args@;
        proof {
            assert(args_model(a) =~= seq![ArgModel::Uint32(serial), ArgModel::Uint32(sequence)]);
            reveal_with_fuel(args_size_bound, 3);
            lemma_message_writable(backend.order, args_model(a));
        }
        backend.request(self.0.id, 9, args);
        proof {
            reveal_with_fuel(args_fd_values, 3);
            assert(args_fd_values(a) =~= Seq::<F>::empty());
        }
    }

    /// Sends the `ei_device.stop_emulating` event.
    pub fn stop_emulating<F>(&self, backend: &mut Backend<F>, serial: u32)
        ensures
            sent(*old(backend), *final(backend), self.0.id, 10, seq![ArgModel::Uint32(serial)], Seq::<F>::empty()),
    {
        let args = vec![Arg::Uint32(serial)];
        let ghost a = args@;
        proof {
            assert(args_model(a) =~= seq![ArgModel::Uint32(serial)]);
            reveal_with_fuel(args_size_bound, 2);
            lemma_message_writable(backend.order, args_model(a));
        }
        backend.request(self.0.id, 10, args);
        proof {
            reveal_with_fuel(args_fd_values, 2);
            assert(args_fd_values(a) =~= Seq::<F>::empty());
        }
    }

    /// Sends the `ei_device.frame` event.
    pub fn frame<F>(&self, backend: &mut Backend<F>, serial: u32, timestamp: u64)
        ensures
            sent(*old(backend), *final(backend), self.0.id, 11, seq![ArgModel::Uint32(serial), ArgModel::Uint64(timestamp)], Seq::<F>::empty()),
    {
        let args = vec![Arg::Uint32(serial), Arg::Uint64(timestamp)];
        let ghost a = args@;
        proof {
            assert(args_model(a) =~= seq![ArgModel::Uint32(serial), ArgModel::Uint64(timestamp)]);
            reveal_with_fuel(args_size_bound, 3);
            lemma_message_writable(backend.order, args_model(a));
        }
        backend.request(self.0.id, 11, args);
        proof {
            reveal_with_fuel(args_fd_values, 3);
            assert(args_fd_values(a) =~= Seq::<F>::empty());
        }
    }

    /// Sends the `ei_device.region_mapping_id` event.
    pub fn region_mapping_id<F>(&self, backend: &mut Backend<F>, mapping_id: &str)
        requires
            str_fits(mapping_id),
        ensures
            sent(*old(backend), *final(backend), self.0.id, 12, seq![ArgModel::String(Some(mapping_id@))], Seq::<F>::empty()),
    {
        let args = vec![Arg::String(Some(mapping_id))];
        let ghost a = args@;
        proof {
            assert(args_model(a) =~= seq![ArgModel::String(Some(mapping_id@))]);
            reveal_with_fuel(args_size_bound, 2);
            lemma_message_writable(backend.order, args_model(a));
        }
        backend.request(self.0.id, 12, args);
        proof {
            reveal_with_fuel(args_fd_values, 2);
            assert(args_fd_values(a) =~= Seq::<F>::empty());
        }
    }
}

/// The requests of `ei_device`.
#[derive(Debug)]
pub enum Request {
    /// The `ei_device.release` request.
    Release,
    /// The `ei_device.start_emulating` request.
    StartEmulating { last_serial: u32, sequence: u32 },
    /// The `ei_device.stop_emulating` request.
    StopEmulating { last_serial: u32 },
    /// The `ei_device.frame` request.
    Frame { last_serial: u32, timestamp: u64 },
}

impl WireMessage for Request {
    open spec fn wire_opcode(&self) -> u32 {
        match self {
            Request::Release => 0,
            Request::StartEmulating { .. } => 1,
            Request::StopEmulating { .. } => 2,
            Request::Frame { .. } => 3,
        }
    }

    open spec fn wire_args(&self) -> Seq<ArgModel> {
        match self {
            Request::Release => Seq::empty(),
            Request::StartEmulating { last_serial, sequence } => seq![ArgModel::Uint32(*last_serial), ArgModel::Uint32(*sequence)],
            Request::StopEmulating { last_serial } => seq![ArgModel::Uint32(*last_serial)],
            Request::Frame { last_serial, timestamp } => seq![ArgModel::Uint32(*last_serial), ArgModel::Uint64(*timestamp)],
        }
    }

    open spec fn wire_created(&self) -> Option<Object> {
        match self {
            _ => None,
        }
    }

    open spec fn wire_new_id_at(&self) -> Option<int> {
        match self {
            _ => None,
        }
    }
}

impl Request {
    /// The name of the request with this opcode.
    pub open spec fn spec_op_name(opcode: u32) -> Option<&'static str> {
        match opcode {
            0 => Some("release"),
            1 => Some("start_emulating"),
            2 => Some("stop_emulating"),
            3 => Some("frame"),
            _ => None,
        }
    }

    /// Returns the name of the request with this opcode.
    #[verifier::when_used_as_spec(spec_op_name)]
    pub fn op_name(opcode: u32) -> (r: Option<&'static str>)
        ensures
            r == Self::spec_op_name(opcode),
    {
        match opcode {
            0 => Some("release"),
            1 => Some("start_emulating"),
            2 => Some("stop_emulating"),
            3 => Some("frame"),
            _ => None,
        }
    }

    /// Returns the arguments of the request, as they go on the wire.
    pub fn args<G>(&self) -> (r: Vec<Arg<'_, G>>)
        ensures
            args_model(r@) == self.wire_args(),
            new_id_only_at(r@, self.wire_new_id_at()),
    {
        match self {
            Request::Release => {
                let r: Vec<Arg<'_, G>> = Vec::new();
                proof {
                    assert(args_model(r@) =~= Seq::<ArgModel>::empty());
                }
                r
            },
            Request::StartEmulating { last_serial, sequence } => {
                let r: Vec<Arg<'_, G>> = vec![Arg::Uint32(*last_serial), Arg::Uint32(*sequence)];
                proof {
                    assert(args_model(r@) =~= seq![ArgModel::Uint32(*last_serial), ArgModel::Uint32(*sequence)]);
                }
                r
            },
            Request::StopEmulating { last_serial } => {
                let r: Vec<Arg<'_, G>> = vec![Arg::Uint32(*last_serial)];
                proof {
                    assert(args_model(r@) =~= seq![ArgModel::Uint32(*last_serial)]);
                }
                r
            },
            Request::Frame { last_serial, timestamp } => {
                let r: Vec<Arg<'_, G>> = vec![Arg::Uint32(*last_serial), Arg::Uint64(*timestamp)];
                proof {
                    assert(args_model(r@) =~= seq![ArgModel::Uint32(*last_serial), ArgModel::Uint64(*timestamp)]);
                }
                r
            },
        }
    }

    /// Parses the body of the request with `opcode`; an object it creates is
    /// recorded in `backend`.
    pub fn parse<F>(opcode: u32, rd: &mut Reader, backend: &mut Backend<F>) -> (r: Result<Self, ParseError>)
        requires
            old(rd).wf(),
        ensures
            parse_post(
                "device",
                request_kinds(Iface::Device, opcode),
                request_slot(Iface::Device, opcode),
                opcode,
                *old(rd),
                *final(rd),
                *old(backend),
                *final(backend),
                parse_model(r),
            ),
    {
        match opcode {
            0 => Self::parse_release(rd, backend),
            1 => Self::parse_start_emulating(rd, backend),
            2 => Self::parse_stop_emulating(rd, backend),
            3 => Self::parse_frame(rd, backend),
            _ => Err(ParseError::InvalidOpcode("device", opcode)),
        }
    }

    /// Parses the body of the `ei_device.release` request.
    fn parse_release<F>(rd: &mut Reader, backend: &mut Backend<F>) -> (r: Result<Self, ParseError>)
        requires
            old(rd).wf(),
        ensures
            parse_post(
                "device",
                request_kinds(Iface::Device, 0),
                request_slot(Iface::Device, 0),
                0,
                *old(rd),
                *final(rd),
                *old(backend),
                *final(backend),
                parse_model(r),
            ),
    {
        let ks = vec![];
        proof {
            assert(ks@ =~= Seq::<WireKind>::empty());
        }
        let mut vals = backend.read_args(ks.as_slice(), rd)?;
        let ghost m0 = values_model(vals@);
        proof {
            assert(m0 =~= Seq::<ArgModel>::empty());
            assert(m0 =~= Seq::<ArgModel>::empty());
        }
        Ok(Request::Release)
    }

    /// Parses the body of the `ei_device.start_emulating` request.
    fn parse_start_emulating<F>(rd: &mut Reader, backend: &mut Backend<F>) -> (r: Result<Self, ParseError>)
        requires
            old(rd).wf(),
        ensures
            parse_post(
                "device",
                request_kinds(Iface::Device, 1),
                request_slot(Iface::Device, 1),
                1,
                *old(rd),
                *final(rd),
                *old(backend),
                *final(backend),
                parse_model(r),
            ),
    {
        let ks = vec![WireKind::Uint32, WireKind::Uint32];
        proof {
            assert(ks@ =~= seq![WireKind::Uint32, WireKind::Uint32]);
        }
        let mut vals = backend.read_args(ks.as_slice(), rd)?;
        let ghost m0 = values_model(vals@);
        let ghost r0 = seq![WireKind::Uint32];
        proof {
            assert(seq![WireKind::Uint32] + r0 =~= seq![WireKind::Uint32, WireKind::Uint32]);
        }
        let last_serial = take_u32(&mut vals, Ghost(WireKind::Uint32), Ghost(r0));
        let ghost m1 = values_model(vals@);
        let ghost r1 = Seq::<WireKind>::empty();
        proof {
            assert(seq![WireKind::Uint32] + r1 =~= seq![WireKind::Uint32]);
        }
        let sequence = take_u32(&mut vals, Ghost(WireKind::Uint32), Ghost(r1));
        let ghost m2 = values_model(vals@);
        proof {
            assert(m2 =~= Seq::<ArgModel>::empty());
            assert(m0 =~= seq![ArgModel::Uint32(last_serial), ArgModel::Uint32(sequence)]);
        }
        Ok(Request::StartEmulating { last_serial, sequence })
    }

    /// Parses the body of the `ei_device.stop_emulating` request.
    fn parse_stop_emulating<F>(rd: &mut Reader, backend: &mut Backend<F>) -> (r: Result<Self, ParseError>)
        requires
            old(rd).wf(),
        ensures
            parse_post(
                "device",
                request_kinds(Iface::Device, 2),
                request_slot(Iface::Device, 2),
                2,
                *old(rd),
                *final(rd),
                *old(backend),
                *final(backend),
                parse_model(r),
            ),
    {
        let ks = vec![WireKind::Uint32];
        proof {
            assert(ks@ =~= seq![WireKind::Uint32]);
        }
        let mut vals = backend.read_args(ks.as_slice(), rd)?;
        let ghost m0 = values_model(vals@);
        let ghost r0 = Seq::<WireKind>::empty();
        proof {
            assert(seq![WireKind::Uint32] + r0 =~= seq![WireKind::Uint32]);
        }
        let last_serial = take_u32(&mut vals, Ghost(WireKind::Uint32), Ghost(r0));
        let ghost m1 = values_model(vals@);
        proof {
            assert(m1 =~= Seq::<ArgModel>::empty());
            assert(m0 =~= seq![ArgModel::Uint32(last_serial)]);
        }
        Ok(Request::StopEmulating { last_serial })
    }

    /// Parses the body of the `ei_device.frame` request.
    fn parse_frame<F>(rd: &mut Reader, backend: &mut Backend<F>) -> (r: Result<Self, ParseError>)
        requires
            old(rd).wf(),
        ensures
            parse_post(
                "device",
                request_kinds(Iface::Device, 3),
                request_slot(Iface::Device, 3),
                3,
                *old(rd),
                *final(rd),
                *old(backend),
                *final(backend),
                parse_model(r),
            ),
    {
        let ks = vec![WireKind::Uint32, WireKind::Uint64];
        proof {
            assert(ks@ =~= seq![WireKind::Uint32, WireKind::Uint64]);
        }
        let mut vals = backend.read_args(ks.as_slice(), rd)?;
        let ghost m0 = values_model(vals@);
        let ghost r0 = seq![WireKind::Uint64];
        proof {
            assert(seq![WireKind::Uint32] + r0 =~= seq![WireKind::Uint32, WireKind::Uint64]);
        }
        let last_serial = take_u32(&mut vals, Ghost(WireKind::Uint32), Ghost(r0));
        let ghost m1 = values_model(vals@);
        let ghost r1 = Seq::<WireKind>::empty();
        proof {
            assert(seq![WireKind::Uint64] + r1 =~= seq![WireKind::Uint64]);
        }
        let timestamp = take_u64(&mut vals, Ghost(r1));
        let ghost m2 = values_model(vals@);
        proof {
            assert(m2 =~= Seq::<ArgModel>::empty());
            assert(m0 =~= seq![ArgModel::Uint32(last_serial), ArgModel::Uint64(timestamp)]);
        }
        Ok(Request::Frame { last_serial, timestamp })
    }

}

} // verus!
