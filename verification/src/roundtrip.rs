//! What one end of a connection sends, the other end reads back.
use crate::arg::{WireKind, args_bytes, args_fds, args_writable, kinds_accept, lemma_args_roundtrip, ArgModel, ParseError, Reader};
use crate::ei;
use crate::ei::device::Event as DeviceEvent;
use crate::message::{parse_model, parse_post, WireMessage};
use crate::protocol::{event_kinds, event_slot};
use crate::backend::{frame_of, message_bytes, message_writable, Backend, Frame, ObjectInfo};
use crate::codec::{header_bytes, lemma_header_roundtrip, ByteOrder, Header, HEADER_LEN};
use crate::message::{slot_id, NewObjectSlot};
use crate::protocol::{incoming_kinds, incoming_slot, receive_post, Iface, Outcome, Side};
use vstd::prelude::*;

verus! {

/// A whole message at the front of the read buffer, for an object the
/// receiver knows, frames as that message: its header comes back, its body
/// is the encoding of its arguments, and what follows it is left.
pub proof fn lemma_frame_of_message(
    o: ByteOrder,
    id: u64,
    opcode: u32,
    args: Seq<ArgModel>,
    rest: Seq<u8>,
    objects: Map<u64, ObjectInfo>,
)
    requires
        message_writable(o, args),
        objects.contains_key(id),
    ensures
        ({
            let buf = message_bytes(o, id, opcode, args) + rest;
            let h = Header { object_id: id, length: (HEADER_LEN + args_bytes(o, args).len()) as u32, opcode };
            &&& frame_of(o, buf, objects) == Frame::Message(h)
            &&& buf.subrange(HEADER_LEN as int, h.length as int) == args_bytes(o, args)
            &&& buf.skip(h.length as int) == rest
        }),
{
    let body = args_bytes(o, args);
    let h = Header { object_id: id, length: (HEADER_LEN + body.len()) as u32, opcode };
    let buf = message_bytes(o, id, opcode, args) + rest;
    lemma_header_roundtrip(o, h, body + rest);
    assert(buf =~= header_bytes(o, h) + (body + rest));
    assert(buf.subrange(16, h.length as int) =~= body);
    assert(buf.skip(h.length as int) =~= rest);
}

/// What one end sends, the other end reads back: a message for an object
/// the receiver knows, whose arguments are of the kinds the receiver
/// expects for its opcode and whose new object, if any, has an ID the
/// receiver accepts, is received as that object, opcode and arguments; the
/// bytes after it stay buffered and the descriptors it carries are taken.
pub proof fn law_message_received<F>(
    side: Side,
    b0: Backend<F>,
    b1: Backend<F>,
    r: Option<Outcome>,
    id: u64,
    opcode: u32,
    args: Seq<ArgModel>,
    rest: Seq<u8>,
)
    requires
        message_writable(b0.order, args),
        b0.read_buf@ == message_bytes(b0.order, id, opcode, args) + rest,
        b0.objects@.contains_key(id),
        Iface::spec_from_name(b0.objects@[id].interface@) matches Some(i) && incoming_kinds(side, i, opcode) matches Some(
            ks,
        ) && kinds_accept(ks, args) && (incoming_slot(side, i, opcode) matches Some(s) ==> b0.peer_id_ok(
            slot_id(s, args),
        )),
        b0.read_fds@.len() >= args_fds(args),
        receive_post(side, b0, b1, r),
    ensures
        r matches Some(Outcome::Message(obj, op, vals, _)) && obj.id == id && op == opcode && vals == args,
        b1.read_buf@ == rest,
        b1.read_fds@ == b0.read_fds@.skip(args_fds(args) as int),
{
    let o = b0.order;
    lemma_frame_of_message(o, id, opcode, args, rest, b0.objects@);
    let i = Iface::spec_from_name(b0.objects@[id].interface@)->Some_0;
    let ks = incoming_kinds(side, i, opcode)->Some_0;
    lemma_args_roundtrip(o, ks, args, Seq::empty(), b0.read_fds@.len());
    assert(args_bytes(o, args) + Seq::<u8>::empty() =~= args_bytes(o, args));
}

/// Two `ei_device` events are the same: the same event with equal fields,
/// strings compared by their text and the scale by its bits.
pub open spec fn same_device_event(a: DeviceEvent, b: DeviceEvent) -> bool {
    match (a, b) {
        (DeviceEvent::Destroyed { serial: x }, DeviceEvent::Destroyed { serial: y }) => x == y,
        (DeviceEvent::Name { name: x }, DeviceEvent::Name { name: y }) => x@ == y@,
        (DeviceEvent::DeviceType { device_type: x }, DeviceEvent::DeviceType { device_type: y }) => x == y,
        (
            DeviceEvent::Dimensions { width: w1, height: h1 },
            DeviceEvent::Dimensions { width: w2, height: h2 },
        ) => w1 == w2 && h1 == h2,
        (
            DeviceEvent::Region { offset_x: x1, offset_y: y1, width: w1, hight: h1, scale: s1 },
            DeviceEvent::Region { offset_x: x2, offset_y: y2, width: w2, hight: h2, scale: s2 },
        ) => x1 == x2 && y1 == y2 && w1 == w2 && h1 == h2 && s1 == s2,
        (DeviceEvent::Interface { object: x }, DeviceEvent::Interface { object: y }) => x.id == y.id
            && x.interface@ == y.interface@ && x.version == y.version,
        (DeviceEvent::Done, DeviceEvent::Done) => true,
        (DeviceEvent::Resumed { serial: x }, DeviceEvent::Resumed { serial: y }) => x == y,
        (DeviceEvent::Paused { serial: x }, DeviceEvent::Paused { serial: y }) => x == y,
        (
            DeviceEvent::StartEmulating { serial: s1, sequence: q1 },
            DeviceEvent::StartEmulating { serial: s2, sequence: q2 },
        ) => s1 == s2 && q1 == q2,
        (DeviceEvent::StopEmulating { serial: x }, DeviceEvent::StopEmulating { serial: y }) => x == y,
        (
            DeviceEvent::Frame { serial: s1, timestamp: t1 },
            DeviceEvent::Frame { serial: s2, timestamp: t2 },
        ) => s1 == s2 && t1 == t2,
        (DeviceEvent::RegionMappingId { mapping_id: x }, DeviceEvent::RegionMappingId { mapping_id: y }) => x@ == y@,
        _ => false,
    }
}

/// Device events with the same opcode and the same arguments are the same
/// event.
proof fn lemma_device_event_args(a: DeviceEvent, b: DeviceEvent)
    requires
        a.wire_opcode() == b.wire_opcode(),
        a.wire_args() == b.wire_args(),
    ensures
        same_device_event(a, b),
{
    let aa = a.wire_args();
    let ba = b.wire_args();
    match a {
        DeviceEvent::Region { .. } => {
            assert(aa[0] == ba[0] && aa[1] == ba[1] && aa[2] == ba[2] && aa[3] == ba[3] && aa[4] == ba[4]);
        },
        DeviceEvent::Interface { .. } => {
            assert(aa[0] == ba[0] && aa[1] == ba[1] && aa[2] == ba[2]);
        },
        DeviceEvent::Dimensions { .. } | DeviceEvent::StartEmulating { .. } | DeviceEvent::Frame { .. } => {
            assert(aa[0] == ba[0] && aa[1] == ba[1]);
        },
        DeviceEvent::Done => {},
        _ => {
            assert(aa[0] == ba[0]);
        },
    }
}

/// What the server writes of an `ei_device` event other than `interface`
/// is parsed back by the client as the same event: when the unread bytes
/// start with the encoding of the event's arguments, parsing with the
/// event's opcode gives an equal event, reads exactly those bytes and takes
/// no descriptor.
pub proof fn law_device_event_roundtrip<F>(
    e: DeviceEvent,
    rd0: Reader,
    rd1: Reader,
    b0: Backend<F>,
    b1: Backend<F>,
    r: Result<DeviceEvent, ParseError>,
    rest: Seq<u8>,
)
    requires
        !(e is Interface),
        args_writable(e.wire_args()),
        rd0.wf(),
        rd0.rest() == args_bytes(b0.order, e.wire_args()) + rest,
        parse_post(
            "device",
            event_kinds(Iface::Device, e.wire_opcode()),
            event_slot(Iface::Device, e.wire_opcode()),
            e.wire_opcode(),
            rd0,
            rd1,
            b0,
            b1,
            parse_model(r),
        ),
    ensures
        r matches Ok(e2) && same_device_event(e, e2),
        rd1.rest() == rest,
        b1.read_fds@ == b0.read_fds@,
{
    let o = b0.order;
    let args = e.wire_args();
    let ks = event_kinds(Iface::Device, e.wire_opcode())->Some_0;
    reveal_with_fuel(args_fds, 6);
    assert(kinds_accept(ks, args));
    assert(args_fds(args) == 0);
    lemma_args_roundtrip(o, ks, args, rest, b0.read_fds@.len());
    let e2 = r->Ok_0;
    lemma_device_event_args(e, e2);
    let nb = args_bytes(o, args).len();
    assert(rd1.pos == rd0.pos + nb);
    assert(rd0.rest().len() == nb + rest.len());
    assert forall|k: int| 0 <= k < rest.len() implies rd1.rest()[k] == rest[k] by {
        assert(rd1.rest()[k] == rd1.bytes@[rd0.pos + nb + k]);
        assert(rd0.rest()[nb + k] == rd0.bytes@[rd0.pos + nb + k]);
        assert((args_bytes(o, args) + rest)[nb + k] == rest[k]);
    }
    assert(rd1.rest() =~= rest);
    assert(b0.read_fds@.skip(0) =~= b0.read_fds@);
}

/// A device event with an opcode past the last one is refused as an
/// invalid opcode of `ei_device`, and nothing is read.
pub proof fn law_device_event_bad_opcode<F>(
    opcode: u32,
    rd0: Reader,
    rd1: Reader,
    b0: Backend<F>,
    b1: Backend<F>,
    r: Result<DeviceEvent, ParseError>,
)
    requires
        opcode >= 13,
        parse_post(
            "device",
            event_kinds(Iface::Device, opcode),
            event_slot(Iface::Device, opcode),
            opcode,
            rd0,
            rd1,
            b0,
            b1,
            parse_model(r),
        ),
    ensures
        r == Err::<DeviceEvent, ParseError>(ParseError::InvalidOpcode("device", opcode)),
        b1.read_fds == b0.read_fds,
{
}

/// Parsing a message body that is the encoding of `args`, where the
/// opcode's kinds accept them, the descriptors they carry are at hand and
/// the ID of the object the message creates, if any, is one the receiver
/// accepts, gives a message with that opcode and those arguments, and
/// reads exactly the encoding.
pub proof fn lemma_read_written<M: WireMessage, F>(
    name: &'static str,
    kinds: Option<Seq<WireKind>>,
    slot: Option<NewObjectSlot>,
    opcode: u32,
    args: Seq<ArgModel>,
    rd0: Reader,
    rd1: Reader,
    b0: Backend<F>,
    b1: Backend<F>,
    r: Result<M, ParseError>,
    rest: Seq<u8>,
)
    requires
        kinds matches Some(ks) && kinds_accept(ks, args),
        slot matches Some(s) ==> b0.peer_id_ok(slot_id(s, args)),
        args_writable(args),
        b0.read_fds@.len() >= args_fds(args),
        rd0.wf(),
        rd0.rest() == args_bytes(b0.order, args) + rest,
        parse_post(name, kinds, slot, opcode, rd0, rd1, b0, b1, parse_model(r)),
    ensures
        r matches Ok(m) && m.wire_opcode() == opcode && m.wire_args() == args,
        rd1.rest() == rest,
{
    let o = b0.order;
    let ks = kinds->Some_0;
    lemma_args_roundtrip(o, ks, args, rest, b0.read_fds@.len());
    let nb = args_bytes(o, args).len();
    assert(rd1.pos == rd0.pos + nb);
    assert(rd0.rest().len() == nb + rest.len());
    assert forall|k: int| 0 <= k < rest.len() implies rd1.rest()[k] == rest[k] by {
        assert(rd1.rest()[k] == rd1.bytes@[rd0.pos + nb + k]);
        assert(rd0.rest()[nb + k] == rd0.bytes@[rd0.pos + nb + k]);
        assert((args_bytes(o, args) + rest)[nb + k] == rest[k]);
    }
    assert(rd1.rest() =~= rest);
}

} // verus!
