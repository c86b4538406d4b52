//! The `ei_device` interface on the client side.
use crate::arg::{
    args_model, new_id_only_at, take_float, take_fd, take_i32, take_i64, take_opt_string, take_string, take_u32, take_u64,
    values_model, Arg, ArgModel, EnumKind, ParseError, Reader, WireKind,
};
use crate::backend::{args_fd_values, Backend, Object};
use crate::enums::{ButtonState, ContextType, DeviceType, DisconnectReason, KeyState, KeymapType};
use crate::message::{
    args_size_bound, lemma_message_writable, opt_str_fits, opt_str_view, parse_model, parse_post, sent,
    sent_creating, sent_destroying, str_fits, WireMessage,
};
use crate::protocol::{event_kinds, event_slot, lemma_encode_len, lemma_name_len, request_kinds, request_slot, Iface, Interface};
use vstd::prelude::*;

verus! {

/// Proxy for an `ei_device` object on the client side.
#[derive(Debug)]
pub struct Device(pub Object);

impl Clone for Device {
    fn clone(&self) -> (r: Self)
        ensures
            r == *self,
    {
        Device(self.0.clone())
    }
}

impl Interface for Device {
    open spec fn spec_iface() -> Iface {
        Iface::Device
    }

    open spec fn spec_max_version() -> u32 {
        2
    }

    open spec fn spec_client_side() -> bool {
        true
    }

    open spec fn spec_object(&self) -> Object {
        self.0
    }

    fn iface() -> (r: Iface) {
        Iface::Device
    }

    fn interface_name() -> (r: &'static str) {
        "ei_device"
    }

    fn max_version() -> (r: u32) {
        2
    }

    fn client_side() -> (r: bool) {
        true
    }

    fn new_unchecked(object: Object) -> (r: Self) {
        Device(object)
    }

    fn as_object(&self) -> (r: &Object) {
        &self.0
    }
}

impl Device {
    /// Returns the version of the object's interface.
    pub fn version(&self) -> (r: u32)
        ensures
            r == self.0.version,
    {
        self.0.version
    }

    /// Returns `true` if the connection still has this object.
    pub fn is_alive<F>(&self, backend: &Backend<F>) -> (r: bool)
        ensures
            r == backend.objects@.contains_key(self.0.id),
    {
        self.0.is_alive(backend)
    }

    /// Sends the `ei_device.release` request.
    pub fn release<F>(&self, backend: &mut Backend<F>)
        ensures
            sent(*old(backend), *final(backend), self.0.id, 0, Seq::<ArgModel>::empty(), Seq::<F>::empty()),
    {
        let args = vec![];
        let ghost a = args@;
        proof {
            assert(args_model(a) =~= Seq::<ArgModel>::empty());
            reveal_with_fuel(args_size_bound, 1);
            lemma_message_writable(backend.order, args_model(a));
        }
        backend.request(self.0.id, 0, args);
        proof {
            reveal_with_fuel(args_fd_values, 1);
            assert(args_fd_values(a) =~= Seq::<F>::empty());
        }
    }

    /// Sends the `ei_device.start_emulating` request.
    pub fn start_emulating<F>(&self, backend: &mut Backend<F>, last_serial: u32, sequence: u32)
        ensures
            sent(*old(backend), *final(backend), self.0.id, 1, seq![ArgModel::Uint32(last_serial), ArgModel::Uint32(sequence)], Seq::<F>::empty()),
    {
        let args = vec![Arg::Uint32(last_serial), Arg::Uint32(sequence)];
        let ghost a = args@;
        proof {
            assert(args_model(a) =~= seq![ArgModel::Uint32(last_serial), ArgModel::Uint32(sequence)]);
            reveal_with_fuel(args_size_bound, 3);
            lemma_message_writable(backend.order, args_model(a));
        }
        backend.request(self.0.id, 1, args);
        proof {
            reveal_with_fuel(args_fd_values, 3);
            assert(args_fd_values(a) =~= Seq::<F>::empty());
        }
    }

    /// Sends the `ei_device.stop_emulating` request.
    pub fn stop_emulating<F>(&self, backend: &mut Backend<F>, last_serial: u32)
        ensures
            sent(*old(backend), *final(backend), self.0.id, 2, seq![ArgModel::Uint32(last_serial)], Seq::<F>::empty()),
    {
        let args = vec![Arg::Uint32(last_serial)];
        let ghost a = args@;
        proof {
            assert(args_model(a) =~= seq![ArgModel::Uint32(last_serial)]);
            reveal_with_fuel(args_size_bound, 2);
            lemma_message_writable(backend.order, args_model(a));
        }
        backend.request(self.0.id, 2, args);
        proof {
            reveal_with_fuel(args_fd_values, 2);
            assert(args_fd_values(a) =~= Seq::<F>::empty());
        }
    }

    /// Sends the `ei_device.frame` request.
    pub fn frame<F>(&self, backend: &mut Backend<F>, last_serial: u32, timestamp: u64)
        ensures
            sent(*old(backend), *final(backend), self.0.id, 3, seq![ArgModel::Uint32(last_serial), ArgModel::Uint64(timestamp)], Seq::<F>::empty()),
    {
        let args = vec![Arg::Uint32(last_serial), Arg::Uint64(timestamp)];
        let ghost a = args@;
        proof {
            assert(args_model(a) =~= seq![ArgModel::Uint32(last_serial), ArgModel::Uint64(timestamp)]);
            reveal_with_fuel(args_size_bound, 3);
            lemma_message_writable(backend.order, args_model(a));
        }
        backend.request(self.0.id, 3, args);
        proof {
            reveal_with_fuel(args_fd_values, 3);
            assert(args_fd_values(a) =~= Seq::<F>::empty());
        }
    }
}

/// The events of `ei_device`.
#[derive(Debug)]
pub enum Event {
    /// The `ei_device.destroyed` event.
    Destroyed { serial: u32 },
    /// The `ei_device.name` event.
    Name { name: String },
    /// The `ei_device.device_type` event.
    DeviceType { device_type: DeviceType },
    /// The `ei_device.dimensions` event.
    Dimensions { width: u32, height: u32 },
    /// The `ei_device.region` event.
    Region { offset_x: u32, offset_y: u32, width: u32, hight: u32, scale: u32 },
    /// The `ei_device.interface` event.
    Interface { object: Object },
    /// The `ei_device.done` event.
    Done,
    /// The `ei_device.resumed` event.
    Resumed { serial: u32 },
    /// The `ei_device.paused` event.
    Paused { serial: u32 },
    /// The `ei_device.start_emulating` event.
    StartEmulating { serial: u32, sequence: u32 },
    /// The `ei_device.stop_emulating` event.
    StopEmulating { serial: u32 },
    /// The `ei_device.frame` event.
    Frame { serial: u32, timestamp: u64 },
    /// The `ei_device.region_mapping_id` event.
    RegionMappingId { mapping_id: String },
}

impl WireMessage for Event {
    open spec fn wire_opcode(&self) -> u32 {
        match self {
            Event::Destroyed { .. } => 0,
            Event::Name { .. } => 1,
            Event::DeviceType { .. } => 2,
            Event::Dimensions { .. } => 3,
            Event::Region { .. } => 4,
            Event::Interface { .. } => 5,
            Event::Done => 6,
            Event::Resumed { .. } => 7,
            Event::Paused { .. } => 8,
            Event::StartEmulating { .. } => 9,
            Event::StopEmulating { .. } => 10,
            Event::Frame { .. } => 11,
            Event::RegionMappingId { .. } => 12,
        }
    }

    open spec fn wire_args(&self) -> Seq<ArgModel> {
        match self {
            Event::Destroyed { serial } => seq![ArgModel::Uint32(*serial)],
            Event::Name { name } => seq![ArgModel::String(Some(name@))],
            Event::DeviceType { device_type } => seq![ArgModel::Uint32(device_type.spec_to_u32())],
            Event::Dimensions { width, height } => seq![ArgModel::Uint32(*width), ArgModel::Uint32(*height)],
            Event::Region { offset_x, offset_y, width, hight, scale } => seq![ArgModel::Uint32(*offset_x), ArgModel::Uint32(*offset_y), ArgModel::Uint32(*width), ArgModel::Uint32(*hight), ArgModel::Float(*scale)],
            Event::Interface { object } => seq![ArgModel::Uint64(object.id), ArgModel::String(Some(object.interface@)), ArgModel::Uint32(object.version)],
            Event::Done => Seq::empty(),
            Event::Resumed { serial } => seq![ArgModel::Uint32(*serial)],
            Event::Paused { serial } => seq![ArgModel::Uint32(*serial)],
            Event::StartEmulating { serial, sequence } => seq![ArgModel::Uint32(*serial), ArgModel::Uint32(*sequence)],
            Event::StopEmulating { serial } => seq![ArgModel::Uint32(*serial)],
            Event::Frame { serial, timestamp } => seq![ArgModel::Uint32(*serial), ArgModel::Uint64(*timestamp)],
            Event::RegionMappingId { mapping_id } => seq![ArgModel::String(Some(mapping_id@))],
        }
    }

    open spec fn wire_created(&self) -> Option<Object> {
        match self {
            Event::Interface { object, .. } => Some(*object),
            _ => None,
        }
    }

    open spec fn wire_new_id_at(&self) -> Option<int> {
        match self {
            Event::Interface { .. } => Some(0),
            _ => None,
        }
    }
}

impl Event {
    /// The name of the event with this opcode.
    pub open spec fn spec_op_name(opcode: u32) -> Option<&'static str> {
        match opcode {
            0 => Some("destroyed"),
            1 => Some("name"),
            2 => Some("device_type"),
            3 => Some("dimensions"),
            4 => Some("region"),
            5 => Some("interface"),
            6 => Some("done"),
            7 => Some("resumed"),
            8 => Some("paused"),
            9 => Some("start_emulating"),
            10 => Some("stop_emulating"),
            11 => Some("frame"),
            12 => Some("region_mapping_id"),
            _ => None,
        }
    }

    /// Returns the name of the event with this opcode.
    #[verifier::when_used_as_spec(spec_op_name)]
    pub fn op_name(opcode: u32) -> (r: Option<&'static str>)
        ensures
            r == Self::spec_op_name(opcode),
    {
        match opcode {
            0 => Some("destroyed"),
            1 => Some("name"),
            2 => Some("device_type"),
            3 => Some("dimensions"),
            4 => Some("region"),
            5 => Some("interface"),
            6 => Some("done"),
            7 => Some("resumed"),
            8 => Some("paused"),
            9 => Some("start_emulating"),
            10 => Some("stop_emulating"),
            11 => Some("frame"),
            12 => Some("region_mapping_id"),
            _ => None,
        }
    }

    /// Returns the arguments of the event, as they go on the wire.
    pub fn args<G>(&self) -> (r: Vec<Arg<'_, G>>)
        ensures
            args_model(r@) == self.wire_args(),
            new_id_only_at(r@, self.wire_new_id_at()),
    {
        match self {
            Event::Destroyed { serial } => {
                let r: Vec<Arg<'_, G>> = vec![Arg::Uint32(*serial)];
                proof {
                    assert(args_model(r@) =~= seq![ArgModel::Uint32(*serial)]);
                }
                r
            },
            Event::Name { name } => {
                let r: Vec<Arg<'_, G>> = vec![Arg::String(Some(name.as_str()))];
                proof {
                    assert(args_model(r@) =~= seq![ArgModel::String(Some(name@))]);
                }
                r
            },
            Event::DeviceType { device_type } => {
                let r: Vec<Arg<'_, G>> = vec![Arg::Uint32(device_type.to_u32())];
                proof {
                    assert(args_model(r@) =~= seq![ArgModel::Uint32(device_type.spec_to_u32())]);
                }
                r
            },
            Event::Dimensions { width, height } => {
                let r: Vec<Arg<'_, G>> = vec![Arg::Uint32(*width), Arg::Uint32(*height)];
                proof {
                    assert(args_model(r@) =~= seq![ArgModel::Uint32(*width), ArgModel::Uint32(*height)]);
                }
                r
            },
            Event::Region { offset_x, offset_y, width, hight, scale } => {
                let r: Vec<Arg<'_, G>> = vec![Arg::Uint32(*offset_x), Arg::Uint32(*offset_y), Arg::Uint32(*width), Arg::Uint32(*hight), Arg::Float(*scale)];
                proof {
                    assert(args_model(r@) =~= seq![ArgModel::Uint32(*offset_x), ArgModel::Uint32(*offset_y), ArgModel::Uint32(*width), ArgModel::Uint32(*hight), ArgModel::Float(*scale)]);
                }
                r
            },
            Event::Interface { object } => {
                let r: Vec<Arg<'_, G>> = vec![Arg::NewId(object.id), Arg::String(Some(object.interface.as_str())), Arg::Uint32(object.version)];
                proof {
                    assert(args_model(r@) =~= seq![ArgModel::Uint64(object.id), ArgModel::String(Some(object.interface@)), ArgModel::Uint32(object.version)]);
                }
                r
            },
            Event::Done => {
                let r: Vec<Arg<'_, G>> = Vec::new();
                proof {
                    assert(args_model(r@) =~= Seq::<ArgModel>::empty());
                }
                r
            },
            Event::Resumed { serial } => {
                let r: Vec<Arg<'_, G>> = vec![Arg::Uint32(*serial)];
                proof {
                    assert(args_model(r@) =~= seq![ArgModel::Uint32(*serial)]);
                }
                r
            },
            Event::Paused { serial } => {
                let r: Vec<Arg<'_, G>> = vec![Arg::Uint32(*serial)];
                proof {
                    assert(args_model(r@) =~= seq![ArgModel::Uint32(*serial)]);
                }
                r
            },
            Event::StartEmulating { serial, sequence } => {
                let r: Vec<Arg<'_, G>> = vec![Arg::Uint32(*serial), Arg::Uint32(*sequence)];
                proof {
                    assert(args_model(r@) =~= seq![ArgModel::Uint32(*serial), ArgModel::Uint32(*sequence)]);
                }
                r
            },
            Event::StopEmulating { serial } => {
                let r: Vec<Arg<'_, G>> = vec![Arg::Uint32(*serial)];
                proof {
                    assert(args_model(r@) =~= seq![ArgModel::Uint32(*serial)]);
                }
                r
            },
            Event::Frame { serial, timestamp } => {
                let r: Vec<Arg<'_, G>> = vec![Arg::Uint32(*serial), Arg::Uint64(*timestamp)];
                proof {
                    assert(args_model(r@) =~= seq![ArgModel::Uint32(*serial), ArgModel::Uint64(*timestamp)]);
                }
                r
            },
            Event::RegionMappingId { mapping_id } => {
                let r: Vec<Arg<'_, G>> = vec![Arg::String(Some(mapping_id.as_str()))];
                proof {
                    assert(args_model(r@) =~= seq![ArgModel::String(Some(mapping_id@))]);
                }
                r
            },
        }
    }

    /// Parses the body of the event with `opcode`; an object it creates is
    /// recorded in `backend`.
    pub fn parse<F>(opcode: u32, rd: &mut Reader, backend: &mut Backend<F>) -> (r: Result<Self, ParseError>)
        requires
            old(rd).wf(),
        ensures
            parse_post(
                "device",
                event_kinds(Iface::Device, opcode),
                event_slot(Iface::Device, opcode),
                opcode,
                *old(rd),
                *final(rd),
                *old(backend),
                *final(backend),
                parse_model(r),
            ),
    {
        match opcode {
            0 => Self::parse_destroyed(rd, backend),
            1 => Self::parse_name(rd, backend),
            2 => Self::parse_device_type(rd, backend),
            3 => Self::parse_dimensions(rd, backend),
            4 => Self::parse_region(rd, backend),
            5 => Self::parse_interface(rd, backend),
            6 => Self::parse_done(rd, backend),
            7 => Self::parse_resumed(rd, backend),
            8 => Self::parse_paused(rd, backend),
            9 => Self::parse_start_emulating(rd, backend),
            10 => Self::parse_stop_emulating(rd, backend),
            11 => Self::parse_frame(rd, backend),
            12 => Self::parse_region_mapping_id(rd, backend),
            _ => Err(ParseError::InvalidOpcode("device", opcode)),
        }
    }

    /// Parses the body of the `ei_device.destroyed` event.
    fn parse_destroyed<F>(rd: &mut Reader, backend: &mut Backend<F>) -> (r: Result<Self, ParseError>)
        requires
            old(rd).wf(),
        ensures
            parse_post(
                "device",
                event_kinds(Iface::Device, 0),
                event_slot(Iface::Device, 0),
                0,
                *old(rd),
                *final(rd),
                *old(backend),
                *final(backend),
                parse_model(r),
            ),
    {
        let ks = vec![WireKind::Uint32];
        proof {
            assert(ks@ =~= seq![WireKind::Uint32]);
        }
        let mut vals = backend.read_args(ks.as_slice(), rd)?;
        let ghost m0 = values_model(vals@);
        let ghost r0 = Seq::<WireKind>::empty();
        proof {
            assert(seq![WireKind::Uint32] + r0 =~= seq![WireKind::Uint32]);
        }
        let serial = take_u32(&mut vals, Ghost(WireKind::Uint32), Ghost(r0));
        let ghost m1 = values_model(vals@);
        proof {
            assert(m1 =~= Seq::<ArgModel>::empty());
            assert(m0 =~= seq![ArgModel::Uint32(serial)]);
        }
        Ok(Event::Destroyed { serial })
    }

    /// Parses the body of the `ei_device.name` event.
    fn parse_name<F>(rd: &mut Reader, backend: &mut Backend<F>) -> (r: Result<Self, ParseError>)
        requires
            old(rd).wf(),
        ensures
            parse_post(
                "device",
                event_kinds(Iface::Device, 1),
                event_slot(Iface::Device, 1),
                1,
                *old(rd),
                *final(rd),
                *old(backend),
                *final(backend),
                parse_model(r),
            ),
    {
        let ks = vec![WireKind::String];
        proof {
            assert(ks@ =~= seq![WireKind::String]);
        }
        let mut vals = backend.read_args(ks.as_slice(), rd)?;
        let ghost m0 = values_model(vals@);
        let ghost r0 = Seq::<WireKind>::empty();
        proof {
            assert(seq![WireKind::String] + r0 =~= seq![WireKind::String]);
        }
        let name = take_string(&mut vals, Ghost(r0));
        let ghost m1 = values_model(vals@);
        proof {
            assert(m1 =~= Seq::<ArgModel>::empty());
            assert(m0 =~= seq![ArgModel::String(Some(name@))]);
        }
        Ok(Event::Name { name })
    }

    /// Parses the body of the `ei_device.device_type` event.
    fn parse_device_type<F>(rd: &mut Reader, backend: &mut Backend<F>) -> (r: Result<Self, ParseError>)
        requires
            old(rd).wf(),
        ensures
            parse_post(
                "device",
                event_kinds(Iface::Device, 2),
                event_slot(Iface::Device, 2),
                2,
                *old(rd),
                *final(rd),
                *old(backend),
                *final(backend),
                parse_model(r),
            ),
    {
        let ks = vec![WireKind::Enum(EnumKind::DeviceType)];
        proof {
            assert(ks@ =~= seq![WireKind::Enum(EnumKind::DeviceType)]);
        }
        let mut vals = backend.read_args(ks.as_slice(), rd)?;
        let ghost m0 = values_model(vals@);
        let ghost r0 = Seq::<WireKind>::empty();
        proof {
            assert(seq![WireKind::Enum(EnumKind::DeviceType)] + r0 =~= seq![WireKind::Enum(EnumKind::DeviceType)]);
        }
        let device_type_raw = take_u32(&mut vals, Ghost(WireKind::Enum(EnumKind::DeviceType)), Ghost(r0));
        let device_type = match DeviceType::from_u32(device_type_raw) {
            Some(v) => v,
            None => vstd::pervasive::unreached(),
        };
        let ghost m1 = values_model(vals@);
        proof {
            assert(m1 =~= Seq::<ArgModel>::empty());
            assert(m0 =~= seq![ArgModel::Uint32(device_type.spec_to_u32())]);
        }
        Ok(Event::DeviceType { device_type })
    }

    /// Parses the body of the `ei_device.dimensions` event.
    fn parse_dimensions<F>(rd: &mut Reader, backend: &mut Backend<F>) -> (r: Result<Self, ParseError>)
        requires
            old(rd).wf(),
        ensures
            parse_post(
                "device",
                event_kinds(Iface::Device, 3),
                event_slot(Iface::Device, 3),
                3,
                *old(rd),
                *final(rd),
                *old(backend),
                *final(backend),
                parse_model(r),
            ),
    {
        let ks = vec![WireKind::Uint32, WireKind::Uint32];
        proof {
            assert(ks@ =~= seq![WireKind::Uint32, WireKind::Uint32]);
        }
        let mut vals = backend.read_args(ks.as_slice(), rd)?;
        let ghost m0 = values_model(vals@);
        let ghost r0 = seq![WireKind::Uint32];
        proof {
            assert(seq![WireKind::Uint32] + r0 =~= seq![WireKind::Uint32, WireKind::Uint32]);
        }
        let width = take_u32(&mut vals, Ghost(WireKind::Uint32), Ghost(r0));
        let ghost m1 = values_model(vals@);
        let ghost r1 = Seq::<WireKind>::empty();
        proof {
            assert(seq![WireKind::Uint32] + r1 =~= seq![WireKind::Uint32]);
        }
        let height = take_u32(&mut vals, Ghost(WireKind::Uint32), Ghost(r1));
        let ghost m2 = values_model(vals@);
        proof {
            assert(m2 =~= Seq::<ArgModel>::empty());
            assert(m0 =~= seq![ArgModel::Uint32(width), ArgModel::Uint32(height)]);
        }
        Ok(Event::Dimensions { width, height })
    }

    /// Parses the body of the `ei_device.region` event.
    fn parse_region<F>(rd: &mut Reader, backend: &mut Backend<F>) -> (r: Result<Self, ParseError>)
        requires
            old(rd).wf(),
        ensures
            parse_post(
                "device",
                event_kinds(Iface::Device, 4),
                event_slot(Iface::Device, 4),
                4,
                *old(rd),
                *final(rd),
                *old(backend),
                *final(backend),
                parse_model(r),
            ),
    {
        let ks = vec![WireKind::Uint32, WireKind::Uint32, WireKind::Uint32, WireKind::Uint32, WireKind::Float];
        proof {
            assert(ks@ =~= seq![WireKind::Uint32, WireKind::Uint32, WireKind::Uint32, WireKind::Uint32, WireKind::Float]);
        }
        let mut vals = backend.read_args(ks.as_slice(), rd)?;
        let ghost m0 = values_model(vals@);
        let ghost r0 = seq![WireKind::Uint32, WireKind::Uint32, WireKind::Uint32, WireKind::Float];
        proof {
            assert(seq![WireKind::Uint32] + r0 =~= seq![WireKind::Uint32, WireKind::Uint32, WireKind::Uint32, WireKind::Uint32, WireKind::Float]);
        }
        let offset_x = take_u32(&mut vals, Ghost(WireKind::Uint32), Ghost(r0));
        let ghost m1 = values_model(vals@);
        let ghost r1 = seq![WireKind::Uint32, WireKind::Uint32, WireKind::Float];
        proof {
            assert(seq![WireKind::Uint32] + r1 =~= seq![WireKind::Uint32, WireKind::Uint32, WireKind::Uint32, WireKind::Float]);
        }
        let offset_y = take_u32(&mut vals, Ghost(WireKind::Uint32), Ghost(r1));
        let ghost m2 = values_model(vals@);
        let ghost r2 = seq![WireKind::Uint32, WireKind::Float];
        proof {
            assert(seq![WireKind::Uint32] + r2 =~= seq![WireKind::Uint32, WireKind::Uint32, WireKind::Float]);
        }
        let width = take_u32(&mut vals, Ghost(WireKind::Uint32), Ghost(r2));
        let ghost m3 = values_model(vals@);
        let ghost r3 = seq![WireKind::Float];
        proof {
            assert(seq![WireKind::Uint32] + r3 =~= seq![WireKind::Uint32, WireKind::Float]);
        }
        let hight = take_u32(&mut vals, Ghost(WireKind::Uint32), Ghost(r3));
        let ghost m4 = values_model(vals@);
        let ghost r4 = Seq::<WireKind>::empty();
        proof {
            assert(seq![WireKind::Float] + r4 =~= seq![WireKind::Float]);
        }
        let scale = take_float(&mut vals, Ghost(r4));
        let ghost m5 = values_model(vals@);
        proof {
            assert(m5 =~= Seq::<ArgModel>::empty());
            assert(m0 =~= seq![ArgModel::Uint32(offset_x), ArgModel::Uint32(offset_y), ArgModel::Uint32(width), ArgModel::Uint32(hight), ArgModel::Float(scale)]);
        }
        Ok(Event::Region { offset_x, offset_y, width, hight, scale })
    }

    /// Parses the body of the `ei_device.interface` event.
    fn parse_interface<F>(rd: &mut Reader, backend: &mut Backend<F>) -> (r: Result<Self, ParseError>)
        requires
            old(rd).wf(),
        ensures
            parse_post(
                "device",
                event_kinds(Iface::Device, 5),
                event_slot(Iface::Device, 5),
                5,
                *old(rd),
                *final(rd),
                *old(backend),
                *final(backend),
                parse_model(r),
            ),
    {
        let ks = vec![WireKind::Uint64, WireKind::String, WireKind::Uint32];
        proof {
            assert(ks@ =~= seq![WireKind::Uint64, WireKind::String, WireKind::Uint32]);
        }
        let mut vals = backend.read_args(ks.as_slice(), rd)?;
        let ghost m0 = values_model(vals@);
        let ghost r0 = seq![WireKind::String, WireKind::Uint32];
        proof {
            assert(seq![WireKind::Uint64] + r0 =~= seq![WireKind::Uint64, WireKind::String, WireKind::Uint32]);
        }
        let object_id = take_u64(&mut vals, Ghost(r0));
        let ghost m1 = values_model(vals@);
        let ghost r1 = seq![WireKind::Uint32];
        proof {
            assert(seq![WireKind::String] + r1 =~= seq![WireKind::String, WireKind::Uint32]);
        }
        let object_name = take_string(&mut vals, Ghost(r1));
        let ghost m2 = values_model(vals@);
        let ghost r2 = Seq::<WireKind>::empty();
        proof {
            assert(seq![WireKind::Uint32] + r2 =~= seq![WireKind::Uint32]);
        }
        let object_version = take_u32(&mut vals, Ghost(WireKind::Uint32), Ghost(r2));
        let ghost m3 = values_model(vals@);
        proof {
            assert(m3 =~= Seq::<ArgModel>::empty());
            assert(m0 =~= seq![ArgModel::Uint64(object_id), ArgModel::String(Some(object_name@)), ArgModel::Uint32(object_version)]);
        }
        let obj = backend.new_peer_object(object_id, object_name, object_version)?;
        proof {
            assert(backend.objects@.remove(object_id) =~= old(backend).objects@.remove(object_id));
        }
        Ok(Event::Interface { object: obj })
    }

    /// Parses the body of the `ei_device.done` event.
    fn parse_done<F>(rd: &mut Reader, backend: &mut Backend<F>) -> (r: Result<Self, ParseError>)
        requires
            old(rd).wf(),
        ensures
            parse_post(
                "device",
                event_kinds(Iface::Device, 6),
                event_slot(Iface::Device, 6),
                6,
                *old(rd),
                *final(rd),
                *old(backend),
                *final(backend),
                parse_model(r),
            ),
    {
        let ks = vec![];
        proof {
            assert(ks@ =~= Seq::<WireKind>::empty());
        }
        let mut vals = backend.read_args(ks.as_slice(), rd)?;
        let ghost m0 = values_model(vals@);
        proof {
            assert(m0 =~= Seq::<ArgModel>::empty());
            assert(m0 =~= Seq::<ArgModel>::empty());
        }
        Ok(Event::Done)
    }

    /// Parses the body of the `ei_device.resumed` event.
    fn parse_resumed<F>(rd: &mut Reader, backend: &mut Backend<F>) -> (r: Result<Self, ParseError>)
        requires
            old(rd).wf(),
        ensures
            parse_post(
                "device",
                event_kinds(Iface::Device, 7),
                event_slot(Iface::Device, 7),
                7,
                *old(rd),
                *final(rd),
                *old(backend),
                *final(backend),
                parse_model(r),
            ),
    {
        let ks = vec![WireKind::Uint32];
        proof {
            assert(ks@ =~= seq![WireKind::Uint32]);
        }
        let mut vals = backend.read_args(ks.as_slice(), rd)?;
        let ghost m0 = values_model(vals@);
        let ghost r0 = Seq::<WireKind>::empty();
        proof {
            assert(seq![WireKind::Uint32] + r0 =~= seq![WireKind::Uint32]);
        }
        let serial = take_u32(&mut vals, Ghost(WireKind::Uint32), Ghost(r0));
        let ghost m1 = values_model(vals@);
        proof {
            assert(m1 =~= Seq::<ArgModel>::empty());
            assert(m0 =~= seq![ArgModel::Uint32(serial)]);
        }
        Ok(Event::Resumed { serial })
    }

    /// Parses the body of the `ei_device.paused` event.
    fn parse_paused<F>(rd: &mut Reader, backend: &mut Backend<F>) -> (r: Result<Self, ParseError>)
        requires
            old(rd).wf(),
        ensures
            parse_post(
                "device",
                event_kinds(Iface::Device, 8),
                event_slot(Iface::Device, 8),
                8,
                *old(rd),
                *final(rd),
                *old(backend),
                *final(backend),
                parse_model(r),
            ),
    {
        let ks = vec![WireKind::Uint32];
        proof {
            assert(ks@ =~= seq![WireKind::Uint32]);
        }
        let mut vals = backend.read_args(ks.as_slice(), rd)?;
        let ghost m0 = values_model(vals@);
        let ghost r0 = Seq::<WireKind>::empty();
        proof {
            assert(seq![WireKind::Uint32] + r0 =~= seq![WireKind::Uint32]);
        }
        let serial = take_u32(&mut vals, Ghost(WireKind::Uint32), Ghost(r0));
        let ghost m1 = values_model(vals@);
        proof {
            assert(m1 =~= Seq::<ArgModel>::empty());
            assert(m0 =~= seq![ArgModel::Uint32(serial)]);
        }
        Ok(Event::Paused { serial })
    }

    /// Parses the body of the `ei_device.start_emulating` event.
    fn parse_start_emulating<F>(rd: &mut Reader, backend: &mut Backend<F>) -> (r: Result<Self, ParseError>)
        requires
            old(rd).wf(),
        ensures
            parse_post(
                "device",
                event_kinds(Iface::Device, 9),
                event_slot(Iface::Device, 9),
                9,
                *old(rd),
                *final(rd),
                *old(backend),
                *final(backend),
                parse_model(r),
            ),
    {
        let ks = vec![WireKind::Uint32, WireKind::Uint32];
        proof {
            assert(ks@ =~= seq![WireKind::Uint32, WireKind::Uint32]);
        }
        let mut vals = backend.read_args(ks.as_slice(), rd)?;
        let ghost m0 = values_model(vals@);
        let ghost r0 = seq![WireKind::Uint32];
        proof {
            assert(seq![WireKind::Uint32] + r0 =~= seq![WireKind::Uint32, WireKind::Uint32]);
        }
        let serial = take_u32(&mut vals, Ghost(WireKind::Uint32), Ghost(r0));
        let ghost m1 = values_model(vals@);
        let ghost r1 = Seq::<WireKind>::empty();
        proof {
            assert(seq![WireKind::Uint32] + r1 =~= seq![WireKind::Uint32]);
        }
        let sequence = take_u32(&mut vals, Ghost(WireKind::Uint32), Ghost(r1));
        let ghost m2 = values_model(vals@);
        proof {
            assert(m2 =~= Seq::<ArgModel>::empty());
            assert(m0 =~= seq![ArgModel::Uint32(serial), ArgModel::Uint32(sequence)]);
        }
        Ok(Event::StartEmulating { serial, sequence })
    }

    /// Parses the body of the `ei_device.stop_emulating` event.
    fn parse_stop_emulating<F>(rd: &mut Reader, backend: &mut Backend<F>) -> (r: Result<Self, ParseError>)
        requires
            old(rd).wf(),
        ensures
            parse_post(
                "device",
                event_kinds(Iface::Device, 10),
                event_slot(Iface::Device, 10),
                10,
                *old(rd),
                *final(rd),
                *old(backend),
                *final(backend),
                parse_model(r),
            ),
    {
        let ks = vec![WireKind::Uint32];
        proof {
            assert(ks@ =~= seq![WireKind::Uint32]);
        }
        let mut vals = backend.read_args(ks.as_slice(), rd)?;
        let ghost m0 = values_model(vals@);
        let ghost r0 = Seq::<WireKind>::empty();
        proof {
            assert(seq![WireKind::Uint32] + r0 =~= seq![WireKind::Uint32]);
        }
        let serial = take_u32(&mut vals, Ghost(WireKind::Uint32), Ghost(r0));
        let ghost m1 = values_model(vals@);
        proof {
            assert(m1 =~= Seq::<ArgModel>::empty());
            assert(m0 =~= seq![ArgModel::Uint32(serial)]);
        }
        Ok(Event::StopEmulating { serial })
    }

    /// Parses the body of the `ei_device.frame` event.
    fn parse_frame<F>(rd: &mut Reader, backend: &mut Backend<F>) -> (r: Result<Self, ParseError>)
        requires
            old(rd).wf(),
        ensures
            parse_post(
                "device",
                event_kinds(Iface::Device, 11),
                event_slot(Iface::Device, 11),
                11,
                *old(rd),
                *final(rd),
                *old(backend),
                *final(backend),
                parse_model(r),
            ),
    {
        let ks = vec![WireKind::Uint32, WireKind::Uint64];
        proof {
            assert(ks@ =~= seq![WireKind::Uint32, WireKind::Uint64]);
        }
        let mut vals = backend.read_args(ks.as_slice(), rd)?;
        let ghost m0 = values_model(vals@);
        let ghost r0 = seq![WireKind::Uint64];
        proof {
            assert(seq![WireKind::Uint32] + r0 =~= seq![WireKind::Uint32, WireKind::Uint64]);
        }
        let serial = take_u32(&mut vals, Ghost(WireKind::Uint32), Ghost(r0));
        let ghost m1 = values_model(vals@);
        let ghost r1 = Seq::<WireKind>::empty();
        proof {
            assert(seq![WireKind::Uint64] + r1 =~= seq![WireKind::Uint64]);
        }
        let timestamp = take_u64(&mut vals, Ghost(r1));
        let ghost m2 = values_model(vals@);
        proof {
            assert(m2 =~= Seq::<ArgModel>::empty());
            assert(m0 =~= seq![ArgModel::Uint32(serial), ArgModel::Uint64(timestamp)]);
        }
        Ok(Event::Frame { serial, timestamp })
    }

    /// Parses the body of the `ei_device.region_mapping_id` event.
    fn parse_region_mapping_id<F>(rd: &mut Reader, backend: &mut Backend<F>) -> (r: Result<Self, ParseError>)
        requires
            old(rd).wf(),
        ensures
            parse_post(
                "device",
                event_kinds(Iface::Device, 12),
                event_slot(Iface::Device, 12),
                12,
                *old(rd),
                *final(rd),
                *old(backend),
                *final(backend),
                parse_model(r),
            ),
    {
        let ks = vec![WireKind::String];
        proof {
            assert(ks@ =~= seq![WireKind::String]);
        }
        let mut vals = backend.read_args(ks.as_slice(), rd)?;
        let ghost m0 = values_model(vals@);
        let ghost r0 = Seq::<WireKind>::empty();
        proof {
            assert(seq![WireKind::String] + r0 =~= seq![WireKind::String]);
        }
        let mapping_id = take_string(&mut vals, Ghost(r0));
        let ghost m1 = values_model(vals@);
        proof {
            assert(m1 =~= Seq::<ArgModel>::empty());
            assert(m0 =~= seq![ArgModel::String(Some(mapping_id@))]);
        }
        Ok(Event::RegionMappingId { mapping_id })
    }

}

} // verus!
