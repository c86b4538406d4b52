//! What one end writes of a message, the other end parses back as the same
//! message: for each message that carries values and creates no object,
//! parsing the encoding of its arguments, in the protocol's order, gives
//! the message with those values in their places.
use crate::arg::{args_bytes, ArgModel, ParseError, Reader};
use crate::backend::Backend;
use crate::ei;
use crate::eis;
use crate::enums::{ButtonState, ContextType, DeviceType, DisconnectReason, KeyState, KeymapType};
use crate::message::{opt_str_view, parse_model, parse_post, slot_id, WireMessage};
use crate::protocol::{event_kinds, event_slot, request_kinds, request_slot, Iface};
use crate::roundtrip::lemma_read_written;
use vstd::prelude::*;
use vstd::utf8::*;

verus! {

/// `ei_handshake.handshake_version`, as the server writes it: parsing `version`, in this order, gives
/// the event with each value in its own field.
pub proof fn law_ei_handshake_handshake_version_read_back<F>(
    version: u32,
    rd0: Reader,
    rd1: Reader,
    b0: Backend<F>,
    b1: Backend<F>,
    r: Result<ei::handshake::Event, ParseError>,
    rest: Seq<u8>,
)
    requires
        event_slot(Iface::Handshake, 0) matches Some(s) ==> b0.peer_id_ok(slot_id(s, seq![ArgModel::Uint32(version)])),
        rd0.wf(),
        rd0.rest() == args_bytes(b0.order, seq![ArgModel::Uint32(version)]) + rest,
        parse_post(
            "handshake",
            event_kinds(Iface::Handshake, 0),
            event_slot(Iface::Handshake, 0),
            0,
            rd0,
            rd1,
            b0,
            b1,
            parse_model(r),
        ),
    ensures
        r matches Ok(ei::handshake::Event::HandshakeVersion { version: v0 }) && v0 == version,
        rd1.rest() == rest,
{
    let args = seq![ArgModel::Uint32(version)];
    reveal_with_fuel(crate::arg::args_fds, 2);
    lemma_read_written("handshake", event_kinds(Iface::Handshake, 0), event_slot(Iface::Handshake, 0), 0, args, rd0, rd1, b0, b1, r, rest);
    let m = r->Ok_0;
    assert(m.wire_args()[0] == args[0]);
}

/// `ei_handshake.interface_version`, as the server writes it: parsing `name`, `version`, in this order, gives
/// the event with each value in its own field.
pub proof fn law_ei_handshake_interface_version_read_back<F>(
    name: Seq<char>,
    version: u32,
    rd0: Reader,
    rd1: Reader,
    b0: Backend<F>,
    b1: Backend<F>,
    r: Result<ei::handshake::Event, ParseError>,
    rest: Seq<u8>,
)
    requires
        encode_utf8(name).len() + 1 <= u32::MAX,
        event_slot(Iface::Handshake, 1) matches Some(s) ==> b0.peer_id_ok(slot_id(s, seq![ArgModel::String(Some(name)), ArgModel::Uint32(version)])),
        rd0.wf(),
        rd0.rest() == args_bytes(b0.order, seq![ArgModel::String(Some(name)), ArgModel::Uint32(version)]) + rest,
        parse_post(
            "handshake",
            event_kinds(Iface::Handshake, 1),
            event_slot(Iface::Handshake, 1),
            1,
            rd0,
            rd1,
            b0,
            b1,
            parse_model(r),
        ),
    ensures
        r matches Ok(ei::handshake::Event::InterfaceVersion { name: v0, version: v1 }) && v0@ == name && v1 == version,
        rd1.rest() == rest,
{
    let args = seq![ArgModel::String(Some(name)), ArgModel::Uint32(version)];
    reveal_with_fuel(crate::arg::args_fds, 3);
    lemma_read_written("handshake", event_kinds(Iface::Handshake, 1), event_slot(Iface::Handshake, 1), 1, args, rd0, rd1, b0, b1, r, rest);
    let m = r->Ok_0;
    assert(m.wire_args()[0] == args[0]);
    assert(m.wire_args()[1] == args[1]);
}

/// `ei_handshake.connection`, as the server writes it: parsing `serial`, `connection`, in this order, gives
/// the event with each value in its own field.
pub proof fn law_ei_handshake_connection_read_back<F>(
    serial: u32,
    connection_id: u64,
    connection_version: u32,
    rd0: Reader,
    rd1: Reader,
    b0: Backend<F>,
    b1: Backend<F>,
    r: Result<ei::handshake::Event, ParseError>,
    rest: Seq<u8>,
)
    requires
        event_slot(Iface::Handshake, 2) matches Some(s) ==> b0.peer_id_ok(slot_id(s, seq![ArgModel::Uint32(serial), ArgModel::Uint64(connection_id), ArgModel::Uint32(connection_version)])),
        rd0.wf(),
        rd0.rest() == args_bytes(b0.order, seq![ArgModel::Uint32(serial), ArgModel::Uint64(connection_id), ArgModel::Uint32(connection_version)]) + rest,
        parse_post(
            "handshake",
            event_kinds(Iface::Handshake, 2),
            event_slot(Iface::Handshake, 2),
            2,
            rd0,
            rd1,
            b0,
            b1,
            parse_model(r),
        ),
    ensures
        r matches Ok(ei::handshake::Event::Connection { serial: v0, connection: v1 }) && v0 == serial && v1.0.id == connection_id && v1.0.version == connection_version,
        rd1.rest() == rest,
{
    let args = seq![ArgModel::Uint32(serial), ArgModel::Uint64(connection_id), ArgModel::Uint32(connection_version)];
    reveal_with_fuel(crate::arg::args_fds, 4);
    lemma_read_written("handshake", event_kinds(Iface::Handshake, 2), event_slot(Iface::Handshake, 2), 2, args, rd0, rd1, b0, b1, r, rest);
    let m = r->Ok_0;
    assert(m.wire_args()[0] == args[0]);
    assert(m.wire_args()[1] == args[1]);
    assert(m.wire_args()[2] == args[2]);
}

/// `ei_connection.disconnected`, as the server writes it: parsing `last_serial`, `reason`, `explanation`, in this order, gives
/// the event with each value in its own field.
pub proof fn law_ei_connection_disconnected_read_back<F>(
    last_serial: u32,
    reason: DisconnectReason,
    explanation: Seq<char>,
    rd0: Reader,
    rd1: Reader,
    b0: Backend<F>,
    b1: Backend<F>,
    r: Result<ei::connection::Event, ParseError>,
    rest: Seq<u8>,
)
    requires
        encode_utf8(explanation).len() + 1 <= u32::MAX,
        event_slot(Iface::Connection, 0) matches Some(s) ==> b0.peer_id_ok(slot_id(s, seq![ArgModel::Uint32(last_serial), ArgModel::Uint32(reason.spec_to_u32()), ArgModel::String(Some(explanation))])),
        rd0.wf(),
        rd0.rest() == args_bytes(b0.order, seq![ArgModel::Uint32(last_serial), ArgModel::Uint32(reason.spec_to_u32()), ArgModel::String(Some(explanation))]) + rest,
        parse_post(
            "connection",
            event_kinds(Iface::Connection, 0),
            event_slot(Iface::Connection, 0),
            0,
            rd0,
            rd1,
            b0,
            b1,
            parse_model(r),
        ),
    ensures
        r matches Ok(ei::connection::Event::Disconnected { last_serial: v0, reason: v1, explanation: v2 }) && v0 == last_serial && v1 == reason && v2@ == explanation,
        rd1.rest() == rest,
{
    let args = seq![ArgModel::Uint32(last_serial), ArgModel::Uint32(reason.spec_to_u32()), ArgModel::String(Some(explanation))];
    reveal_with_fuel(crate::arg::args_fds, 4);
    lemma_read_written("connection", event_kinds(Iface::Connection, 0), event_slot(Iface::Connection, 0), 0, args, rd0, rd1, b0, b1, r, rest);
    let m = r->Ok_0;
    assert(m.wire_args()[0] == args[0]);
    assert(m.wire_args()[1] == args[1]);
    assert(m.wire_args()[2] == args[2]);
}

/// `ei_connection.seat`, as the server writes it: parsing `seat`, in this order, gives
/// the event with each value in its own field.
pub proof fn law_ei_connection_seat_read_back<F>(
    seat_id: u64,
    seat_version: u32,
    rd0: Reader,
    rd1: Reader,
    b0: Backend<F>,
    b1: Backend<F>,
    r: Result<ei::connection::Event, ParseError>,
    rest: Seq<u8>,
)
    requires
        event_slot(Iface::Connection, 1) matches Some(s) ==> b0.peer_id_ok(slot_id(s, seq![ArgModel::Uint64(seat_id), ArgModel::Uint32(seat_version)])),
        rd0.wf(),
        rd0.rest() == args_bytes(b0.order, seq![ArgModel::Uint64(seat_id), ArgModel::Uint32(seat_version)]) + rest,
        parse_post(
            "connection",
            event_kinds(Iface::Connection, 1),
            event_slot(Iface::Connection, 1),
            1,
            rd0,
            rd1,
            b0,
            b1,
            parse_model(r),
        ),
    ensures
        r matches Ok(ei::connection::Event::Seat { seat: v0 }) && v0.0.id == seat_id && v0.0.version == seat_version,
        rd1.rest() == rest,
{
    let args = seq![ArgModel::Uint64(seat_id), ArgModel::Uint32(seat_version)];
    reveal_with_fuel(crate::arg::args_fds, 3);
    lemma_read_written("connection", event_kinds(Iface::Connection, 1), event_slot(Iface::Connection, 1), 1, args, rd0, rd1, b0, b1, r, rest);
    let m = r->Ok_0;
    assert(m.wire_args()[0] == args[0]);
    assert(m.wire_args()[1] == args[1]);
}

/// `ei_connection.invalid_object`, as the server writes it: parsing `last_serial`, `invalid_id`, in this order, gives
/// the event with each value in its own field.
pub proof fn law_ei_connection_invalid_object_read_back<F>(
    last_serial: u32,
    invalid_id: u64,
    rd0: Reader,
    rd1: Reader,
    b0: Backend<F>,
    b1: Backend<F>,
    r: Result<ei::connection::Event, ParseError>,
    rest: Seq<u8>,
)
    requires
        event_slot(Iface::Connection, 2) matches Some(s) ==> b0.peer_id_ok(slot_id(s, seq![ArgModel::Uint32(last_serial), ArgModel::Uint64(invalid_id)])),
        rd0.wf(),
        rd0.rest() == args_bytes(b0.order, seq![ArgModel::Uint32(last_serial), ArgModel::Uint64(invalid_id)]) + rest,
        parse_post(
            "connection",
            event_kinds(Iface::Connection, 2),
            event_slot(Iface::Connection, 2),
            2,
            rd0,
            rd1,
            b0,
            b1,
            parse_model(r),
        ),
    ensures
        r matches Ok(ei::connection::Event::InvalidObject { last_serial: v0, invalid_id: v1 }) && v0 == last_serial && v1 == invalid_id,
        rd1.rest() == rest,
{
    let args = seq![ArgModel::Uint32(last_serial), ArgModel::Uint64(invalid_id)];
    reveal_with_fuel(crate::arg::args_fds, 3);
    lemma_read_written("connection", event_kinds(Iface::Connection, 2), event_slot(Iface::Connection, 2), 2, args, rd0, rd1, b0, b1, r, rest);
    let m = r->Ok_0;
    assert(m.wire_args()[0] == args[0]);
    assert(m.wire_args()[1] == args[1]);
}

/// `ei_connection.ping`, as the server writes it: parsing `ping`, in this order, gives
/// the event with each value in its own field.
pub proof fn law_ei_connection_ping_read_back<F>(
    ping_id: u64,
    ping_version: u32,
    rd0: Reader,
    rd1: Reader,
    b0: Backend<F>,
    b1: Backend<F>,
    r: Result<ei::connection::Event, ParseError>,
    rest: Seq<u8>,
)
    requires
        event_slot(Iface::Connection, 3) matches Some(s) ==> b0.peer_id_ok(slot_id(s, seq![ArgModel::Uint64(ping_id), ArgModel::Uint32(ping_version)])),
        rd0.wf(),
        rd0.rest() == args_bytes(b0.order, seq![ArgModel::Uint64(ping_id), ArgModel::Uint32(ping_version)]) + rest,
        parse_post(
            "connection",
            event_kinds(Iface::Connection, 3),
            event_slot(Iface::Connection, 3),
            3,
            rd0,
            rd1,
            b0,
            b1,
            parse_model(r),
        ),
    ensures
        r matches Ok(ei::connection::Event::Ping { ping: v0 }) && v0.0.id == ping_id && v0.0.version == ping_version,
        rd1.rest() == rest,
{
    let args = seq![ArgModel::Uint64(ping_id), ArgModel::Uint32(ping_version)];
    reveal_with_fuel(crate::arg::args_fds, 3);
    lemma_read_written("connection", event_kinds(Iface::Connection, 3), event_slot(Iface::Connection, 3), 3, args, rd0, rd1, b0, b1, r, rest);
    let m = r->Ok_0;
    assert(m.wire_args()[0] == args[0]);
    assert(m.wire_args()[1] == args[1]);
}

/// `ei_callback.done`, as the server writes it: parsing `callback_data`, in this order, gives
/// the event with each value in its own field.
pub proof fn law_ei_callback_done_read_back<F>(
    callback_data: u64,
    rd0: Reader,
    rd1: Reader,
    b0: Backend<F>,
    b1: Backend<F>,
    r: Result<ei::callback::Event, ParseError>,
    rest: Seq<u8>,
)
    requires
        event_slot(Iface::Callback, 0) matches Some(s) ==> b0.peer_id_ok(slot_id(s, seq![ArgModel::Uint64(callback_data)])),
        rd0.wf(),
        rd0.rest() == args_bytes(b0.order, seq![ArgModel::Uint64(callback_data)]) + rest,
        parse_post(
            "callback",
            event_kinds(Iface::Callback, 0),
            event_slot(Iface::Callback, 0),
            0,
            rd0,
            rd1,
            b0,
            b1,
            parse_model(r),
        ),
    ensures
        r matches Ok(ei::callback::Event::Done { callback_data: v0 }) && v0 == callback_data,
        rd1.rest() == rest,
{
    let args = seq![ArgModel::Uint64(callback_data)];
    reveal_with_fuel(crate::arg::args_fds, 2);
    lemma_read_written("callback", event_kinds(Iface::Callback, 0), event_slot(Iface::Callback, 0), 0, args, rd0, rd1, b0, b1, r, rest);
    let m = r->Ok_0;
    assert(m.wire_args()[0] == args[0]);
}

/// `ei_seat.destroyed`, as the server writes it: parsing `serial`, in this order, gives
/// the event with each value in its own field.
pub proof fn law_ei_seat_destroyed_read_back<F>(
    serial: u32,
    rd0: Reader,
    rd1: Reader,
    b0: Backend<F>,
    b1: Backend<F>,
    r: Result<ei::seat::Event, ParseError>,
    rest: Seq<u8>,
)
    requires
        event_slot(Iface::Seat, 0) matches Some(s) ==> b0.peer_id_ok(slot_id(s, seq![ArgModel::Uint32(serial)])),
        rd0.wf(),
        rd0.rest() == args_bytes(b0.order, seq![ArgModel::Uint32(serial)]) + rest,
        parse_post(
            "seat",
            event_kinds(Iface::Seat, 0),
            event_slot(Iface::Seat, 0),
            0,
            rd0,
            rd1,
            b0,
            b1,
            parse_model(r),
        ),
    ensures
        r matches Ok(ei::seat::Event::Destroyed { serial: v0 }) && v0 == serial,
        rd1.rest() == rest,
{
    let args = seq![ArgModel::Uint32(serial)];
    reveal_with_fuel(crate::arg::args_fds, 2);
    lemma_read_written("seat", event_kinds(Iface::Seat, 0), event_slot(Iface::Seat, 0), 0, args, rd0, rd1, b0, b1, r, rest);
    let m = r->Ok_0;
    assert(m.wire_args()[0] == args[0]);
}

/// `ei_seat.name`, as the server writes it: parsing `name`, in this order, gives
/// the event with each value in its own field.
pub proof fn law_ei_seat_name_read_back<F>(
    name: Seq<char>,
    rd0: Reader,
    rd1: Reader,
    b0: Backend<F>,
    b1: Backend<F>,
    r: Result<ei::seat::Event, ParseError>,
    rest: Seq<u8>,
)
    requires
        encode_utf8(name).len() + 1 <= u32::MAX,
        event_slot(Iface::Seat, 1) matches Some(s) ==> b0.peer_id_ok(slot_id(s, seq![ArgModel::String(Some(name))])),
        rd0.wf(),
        rd0.rest() == args_bytes(b0.order, seq![ArgModel::String(Some(name))]) + rest,
        parse_post(
            "seat",
            event_kinds(Iface::Seat, 1),
            event_slot(Iface::Seat, 1),
            1,
            rd0,
            rd1,
            b0,
            b1,
            parse_model(r),
        ),
    ensures
        r matches Ok(ei::seat::Event::Name { name: v0 }) && v0@ == name,
        rd1.rest() == rest,
{
    let args = seq![ArgModel::String(Some(name))];
    reveal_with_fuel(crate::arg::args_fds, 2);
    lemma_read_written("seat", event_kinds(Iface::Seat, 1), event_slot(Iface::Seat, 1), 1, args, rd0, rd1, b0, b1, r, rest);
    let m = r->Ok_0;
    assert(m.wire_args()[0] == args[0]);
}

/// `ei_seat.capability`, as the server writes it: parsing `mask`, `interface`, in this order, gives
/// the event with each value in its own field.
pub proof fn law_ei_seat_capability_read_back<F>(
    mask: u64,
    interface: Seq<char>,
    rd0: Reader,
    rd1: Reader,
    b0: Backend<F>,
    b1: Backend<F>,
    r: Result<ei::seat::Event, ParseError>,
    rest: Seq<u8>,
)
    requires
        encode_utf8(interface).len() + 1 <= u32::MAX,
        event_slot(Iface::Seat, 2) matches Some(s) ==> b0.peer_id_ok(slot_id(s, seq![ArgModel::Uint64(mask), ArgModel::String(Some(interface))])),
        rd0.wf(),
        rd0.rest() == args_bytes(b0.order, seq![ArgModel::Uint64(mask), ArgModel::String(Some(interface))]) + rest,
        parse_post(
            "seat",
            event_kinds(Iface::Seat, 2),
            event_slot(Iface::Seat, 2),
            2,
            rd0,
            rd1,
            b0,
            b1,
            parse_model(r),
        ),
    ensures
        r matches Ok(ei::seat::Event::Capability { mask: v0, interface: v1 }) && v0 == mask && v1@ == interface,
        rd1.rest() == rest,
{
    let args = seq![ArgModel::Uint64(mask), ArgModel::String(Some(interface))];
    reveal_with_fuel(crate::arg::args_fds, 3);
    lemma_read_written("seat", event_kinds(Iface::Seat, 2), event_slot(Iface::Seat, 2), 2, args, rd0, rd1, b0, b1, r, rest);
    let m = r->Ok_0;
    assert(m.wire_args()[0] == args[0]);
    assert(m.wire_args()[1] == args[1]);
}

/// `ei_seat.device`, as the server writes it: parsing `device`, in this order, gives
/// the event with each value in its own field.
pub proof fn law_ei_seat_device_read_back<F>(
    device_id: u64,
    device_version: u32,
    rd0: Reader,
    rd1: Reader,
    b0: Backend<F>,
    b1: Backend<F>,
    r: Result<ei::seat::Event, ParseError>,
    rest: Seq<u8>,
)
    requires
        event_slot(Iface::Seat, 4) matches Some(s) ==> b0.peer_id_ok(slot_id(s, seq![ArgModel::Uint64(device_id), ArgModel::Uint32(device_version)])),
        rd0.wf(),
        rd0.rest() == args_bytes(b0.order, seq![ArgModel::Uint64(device_id), ArgModel::Uint32(device_version)]) + rest,
        parse_post(
            "seat",
            event_kinds(Iface::Seat, 4),
            event_slot(Iface::Seat, 4),
            4,
            rd0,
            rd1,
            b0,
            b1,
            parse_model(r),
        ),
    ensures
        r matches Ok(ei::seat::Event::Device { device: v0 }) && v0.0.id == device_id && v0.0.version == device_version,
        rd1.rest() == rest,
{
    let args = seq![ArgModel::Uint64(device_id), ArgModel::Uint32(device_version)];
    reveal_with_fuel(crate::arg::args_fds, 3);
    lemma_read_written("seat", event_kinds(Iface::Seat, 4), event_slot(Iface::Seat, 4), 4, args, rd0, rd1, b0, b1, r, rest);
    let m = r->Ok_0;
    assert(m.wire_args()[0] == args[0]);
    assert(m.wire_args()[1] == args[1]);
}

/// `ei_device.destroyed`, as the server writes it: parsing `serial`, in this order, gives
/// the event with each value in its own field.
pub proof fn law_ei_device_destroyed_read_back<F>(
    serial: u32,
    rd0: Reader,
    rd1: Reader,
    b0: Backend<F>,
    b1: Backend<F>,
    r: Result<ei::device::Event, ParseError>,
    rest: Seq<u8>,
)
    requires
        event_slot(Iface::Device, 0) matches Some(s) ==> b0.peer_id_ok(slot_id(s, seq![ArgModel::Uint32(serial)])),
        rd0.wf(),
        rd0.rest() == args_bytes(b0.order, seq![ArgModel::Uint32(serial)]) + rest,
        parse_post(
            "device",
            event_kinds(Iface::Device, 0),
            event_slot(Iface::Device, 0),
            0,
            rd0,
            rd1,
            b0,
            b1,
            parse_model(r),
        ),
    ensures
        r matches Ok(ei::device::Event::Destroyed { serial: v0 }) && v0 == serial,
        rd1.rest() == rest,
{
    let args = seq![ArgModel::Uint32(serial)];
    reveal_with_fuel(crate::arg::args_fds, 2);
    lemma_read_written("device", event_kinds(Iface::Device, 0), event_slot(Iface::Device, 0), 0, args, rd0, rd1, b0, b1, r, rest);
    let m = r->Ok_0;
    assert(m.wire_args()[0] == args[0]);
}

/// `ei_device.name`, as the server writes it: parsing `name`, in this order, gives
/// the event with each value in its own field.
pub proof fn law_ei_device_name_read_back<F>(
    name: Seq<char>,
    rd0: Reader,
    rd1: Reader,
    b0: Backend<F>,
    b1: Backend<F>,
    r: Result<ei::device::Event, ParseError>,
    rest: Seq<u8>,
)
    requires
        encode_utf8(name).len() + 1 <= u32::MAX,
        event_slot(Iface::Device, 1) matches Some(s) ==> b0.peer_id_ok(slot_id(s, seq![ArgModel::String(Some(name))])),
        rd0.wf(),
        rd0.rest() == args_bytes(b0.order, seq![ArgModel::String(Some(name))]) + rest,
        parse_post(
            "device",
            event_kinds(Iface::Device, 1),
            event_slot(Iface::Device, 1),
            1,
            rd0,
            rd1,
            b0,
            b1,
            parse_model(r),
        ),
    ensures
        r matches Ok(ei::device::Event::Name { name: v0 }) && v0@ == name,
        rd1.rest() == rest,
{
    let args = seq![ArgModel::String(Some(name))];
    reveal_with_fuel(crate::arg::args_fds, 2);
    lemma_read_written("device", event_kinds(Iface::Device, 1), event_slot(Iface::Device, 1), 1, args, rd0, rd1, b0, b1, r, rest);
    let m = r->Ok_0;
    assert(m.wire_args()[0] == args[0]);
}

/// `ei_device.device_type`, as the server writes it: parsing `device_type`, in this order, gives
/// the event with each value in its own field.
pub proof fn law_ei_device_device_type_read_back<F>(
    device_type: DeviceType,
    rd0: Reader,
    rd1: Reader,
    b0: Backend<F>,
    b1: Backend<F>,
    r: Result<ei::device::Event, ParseError>,
    rest: Seq<u8>,
)
    requires
        event_slot(Iface::Device, 2) matches Some(s) ==> b0.peer_id_ok(slot_id(s, seq![ArgModel::Uint32(device_type.spec_to_u32())])),
        rd0.wf(),
        rd0.rest() == args_bytes(b0.order, seq![ArgModel::Uint32(device_type.spec_to_u32())]) + rest,
        parse_post(
            "device",
            event_kinds(Iface::Device, 2),
            event_slot(Iface::Device, 2),
            2,
            rd0,
            rd1,
            b0,
            b1,
            parse_model(r),
        ),
    ensures
        r matches Ok(ei::device::Event::DeviceType { device_type: v0 }) && v0 == device_type,
        rd1.rest() == rest,
{
    let args = seq![ArgModel::Uint32(device_type.spec_to_u32())];
    reveal_with_fuel(crate::arg::args_fds, 2);
    lemma_read_written("device", event_kinds(Iface::Device, 2), event_slot(Iface::Device, 2), 2, args, rd0, rd1, b0, b1, r, rest);
    let m = r->Ok_0;
    assert(m.wire_args()[0] == args[0]);
}

/// `ei_device.dimensions`, as the server writes it: parsing `width`, `height`, in this order, gives
/// the event with each value in its own field.
pub proof fn law_ei_device_dimensions_read_back<F>(
    width: u32,
    height: u32,
    rd0: Reader,
    rd1: Reader,
    b0: Backend<F>,
    b1: Backend<F>,
    r: Result<ei::device::Event, ParseError>,
    rest: Seq<u8>,
)
    requires
        event_slot(Iface::Device, 3) matches Some(s) ==> b0.peer_id_ok(slot_id(s, seq![ArgModel::Uint32(width), ArgModel::Uint32(height)])),
        rd0.wf(),
        rd0.rest() == args_bytes(b0.order, seq![ArgModel::Uint32(width), ArgModel::Uint32(height)]) + rest,
        parse_post(
            "device",
            event_kinds(Iface::Device, 3),
            event_slot(Iface::Device, 3),
            3,
            rd0,
            rd1,
            b0,
            b1,
            parse_model(r),
        ),
    ensures
        r matches Ok(ei::device::Event::Dimensions { width: v0, height: v1 }) && v0 == width && v1 == height,
        rd1.rest() == rest,
{
    let args = seq![ArgModel::Uint32(width), ArgModel::Uint32(height)];
    reveal_with_fuel(crate::arg::args_fds, 3);
    lemma_read_written("device", event_kinds(Iface::Device, 3), event_slot(Iface::Device, 3), 3, args, rd0, rd1, b0, b1, r, rest);
    let m = r->Ok_0;
    assert(m.wire_args()[0] == args[0]);
    assert(m.wire_args()[1] == args[1]);
}

/// `ei_device.region`, as the server writes it: parsing `offset_x`, `offset_y`, `width`, `hight`, `scale`, in this order, gives
/// the event with each value in its own field.
pub proof fn law_ei_device_region_read_back<F>(
    offset_x: u32,
    offset_y: u32,
    width: u32,
    hight: u32,
    scale: u32,
    rd0: Reader,
    rd1: Reader,
    b0: Backend<F>,
    b1: Backend<F>,
    r: Result<ei::device::Event, ParseError>,
    rest: Seq<u8>,
)
    requires
        event_slot(Iface::Device, 4) matches Some(s) ==> b0.peer_id_ok(slot_id(s, seq![ArgModel::Uint32(offset_x), ArgModel::Uint32(offset_y), ArgModel::Uint32(width), ArgModel::Uint32(hight), ArgModel::Float(scale)])),
        rd0.wf(),
        rd0.rest() == args_bytes(b0.order, seq![ArgModel::Uint32(offset_x), ArgModel::Uint32(offset_y), ArgModel::Uint32(width), ArgModel::Uint32(hight), ArgModel::Float(scale)]) + rest,
        parse_post(
            "device",
            event_kinds(Iface::Device, 4),
            event_slot(Iface::Device, 4),
            4,
            rd0,
            rd1,
            b0,
            b1,
            parse_model(r),
        ),
    ensures
        r matches Ok(ei::device::Event::Region { offset_x: v0, offset_y: v1, width: v2, hight: v3, scale: v4 }) && v0 == offset_x && v1 == offset_y && v2 == width && v3 == hight && v4 == scale,
        rd1.rest() == rest,
{
    let args = seq![ArgModel::Uint32(offset_x), ArgModel::Uint32(offset_y), ArgModel::Uint32(width), ArgModel::Uint32(hight), ArgModel::Float(scale)];
    reveal_with_fuel(crate::arg::args_fds, 6);
    lemma_read_written("device", event_kinds(Iface::Device, 4), event_slot(Iface::Device, 4), 4, args, rd0, rd1, b0, b1, r, rest);
    let m = r->Ok_0;
    assert(m.wire_args()[0] == args[0]);
    assert(m.wire_args()[1] == args[1]);
    assert(m.wire_args()[2] == args[2]);
    assert(m.wire_args()[3] == args[3]);
    assert(m.wire_args()[4] == args[4]);
}

/// `ei_device.interface`, as the server writes it: parsing `object`, in this order, gives
/// the event with each value in its own field.
pub proof fn law_ei_device_interface_read_back<F>(
    object_id: u64,
    object_interface: Seq<char>,
    object_version: u32,
    rd0: Reader,
    rd1: Reader,
    b0: Backend<F>,
    b1: Backend<F>,
    r: Result<ei::device::Event, ParseError>,
    rest: Seq<u8>,
)
    requires
        encode_utf8(object_interface).len() + 1 <= u32::MAX,
        event_slot(Iface::Device, 5) matches Some(s) ==> b0.peer_id_ok(slot_id(s, seq![ArgModel::Uint64(object_id), ArgModel::String(Some(object_interface)), ArgModel::Uint32(object_version)])),
        rd0.wf(),
        rd0.rest() == args_bytes(b0.order, seq![ArgModel::Uint64(object_id), ArgModel::String(Some(object_interface)), ArgModel::Uint32(object_version)]) + rest,
        parse_post(
            "device",
            event_kinds(Iface::Device, 5),
            event_slot(Iface::Device, 5),
            5,
            rd0,
            rd1,
            b0,
            b1,
            parse_model(r),
        ),
    ensures
        r matches Ok(ei::device::Event::Interface { object: v0 }) && v0.id == object_id && v0.interface@ == object_interface && v0.version == object_version,
        rd1.rest() == rest,
{
    let args = seq![ArgModel::Uint64(object_id), ArgModel::String(Some(object_interface)), ArgModel::Uint32(object_version)];
    reveal_with_fuel(crate::arg::args_fds, 4);
    lemma_read_written("device", event_kinds(Iface::Device, 5), event_slot(Iface::Device, 5), 5, args, rd0, rd1, b0, b1, r, rest);
    let m = r->Ok_0;
    assert(m.wire_args()[0] == args[0]);
    assert(m.wire_args()[1] == args[1]);
    assert(m.wire_args()[2] == args[2]);
}

/// `ei_device.resumed`, as the server writes it: parsing `serial`, in this order, gives
/// the event with each value in its own field.
pub proof fn law_ei_device_resumed_read_back<F>(
    serial: u32,
    rd0: Reader,
    rd1: Reader,
    b0: Backend<F>,
    b1: Backend<F>,
    r: Result<ei::device::Event, ParseError>,
    rest: Seq<u8>,
)
    requires
        event_slot(Iface::Device, 7) matches Some(s) ==> b0.peer_id_ok(slot_id(s, seq![ArgModel::Uint32(serial)])),
        rd0.wf(),
        rd0.rest() == args_bytes(b0.order, seq![ArgModel::Uint32(serial)]) + rest,
        parse_post(
            "device",
            event_kinds(Iface::Device, 7),
            event_slot(Iface::Device, 7),
            7,
            rd0,
            rd1,
            b0,
            b1,
            parse_model(r),
        ),
    ensures
        r matches Ok(ei::device::Event::Resumed { serial: v0 }) && v0 == serial,
        rd1.rest() == rest,
{
    let args = seq![ArgModel::Uint32(serial)];
    reveal_with_fuel(crate::arg::args_fds, 2);
    lemma_read_written("device", event_kinds(Iface::Device, 7), event_slot(Iface::Device, 7), 7, args, rd0, rd1, b0, b1, r, rest);
    let m = r->Ok_0;
    assert(m.wire_args()[0] == args[0]);
}

/// `ei_device.paused`, as the server writes it: parsing `serial`, in this order, gives
/// the event with each value in its own field.
pub proof fn law_ei_device_paused_read_back<F>(
    serial: u32,
    rd0: Reader,
    rd1: Reader,
    b0: Backend<F>,
    b1: Backend<F>,
    r: Result<ei::device::Event, ParseError>,
    rest: Seq<u8>,
)
    requires
        event_slot(Iface::Device, 8) matches Some(s) ==> b0.peer_id_ok(slot_id(s, seq![ArgModel::Uint32(serial)])),
        rd0.wf(),
        rd0.rest() == args_bytes(b0.order, seq![ArgModel::Uint32(serial)]) + rest,
        parse_post(
            "device",
            event_kinds(Iface::Device, 8),
            event_slot(Iface::Device, 8),
            8,
            rd0,
            rd1,
            b0,
            b1,
            parse_model(r),
        ),
    ensures
        r matches Ok(ei::device::Event::Paused { serial: v0 }) && v0 == serial,
        rd1.rest() == rest,
{
    let args = seq![ArgModel::Uint32(serial)];
    reveal_with_fuel(crate::arg::args_fds, 2);
    lemma_read_written("device", event_kinds(Iface::Device, 8), event_slot(Iface::Device, 8), 8, args, rd0, rd1, b0, b1, r, rest);
    let m = r->Ok_0;
    assert(m.wire_args()[0] == args[0]);
}

/// `ei_device.start_emulating`, as the server writes it: parsing `serial`, `sequence`, in this order, gives
/// the event with each value in its own field.
pub proof fn law_ei_device_start_emulating_read_back<F>(
    serial: u32,
    sequence: u32,
    rd0: Reader,
    rd1: Reader,
    b0: Backend<F>,
    b1: Backend<F>,
    r: Result<ei::device::Event, ParseError>,
    rest: Seq<u8>,
)
    requires
        event_slot(Iface::Device, 9) matches Some(s) ==> b0.peer_id_ok(slot_id(s, seq![ArgModel::Uint32(serial), ArgModel::Uint32(sequence)])),
        rd0.wf(),
        rd0.rest() == args_bytes(b0.order, seq![ArgModel::Uint32(serial), ArgModel::Uint32(sequence)]) + rest,
        parse_post(
            "device",
            event_kinds(Iface::Device, 9),
            event_slot(Iface::Device, 9),
            9,
            rd0,
            rd1,
            b0,
            b1,
            parse_model(r),
        ),
    ensures
        r matches Ok(ei::device::Event::StartEmulating { serial: v0, sequence: v1 }) && v0 == serial && v1 == sequence,
        rd1.rest() == rest,
{
    let args = seq![ArgModel::Uint32(serial), ArgModel::Uint32(sequence)];
    reveal_with_fuel(crate::arg::args_fds, 3);
    lemma_read_written("device", event_kinds(Iface::Device, 9), event_slot(Iface::Device, 9), 9, args, rd0, rd1, b0, b1, r, rest);
    let m = r->Ok_0;
    assert(m.wire_args()[0] == args[0]);
    assert(m.wire_args()[1] == args[1]);
}

/// `ei_device.stop_emulating`, as the server writes it: parsing `serial`, in this order, gives
/// the event with each value in its own field.
pub proof fn law_ei_device_stop_emulating_read_back<F>(
    serial: u32,
    rd0: Reader,
    rd1: Reader,
    b0: Backend<F>,
    b1: Backend<F>,
    r: Result<ei::device::Event, ParseError>,
    rest: Seq<u8>,
)
    requires
        event_slot(Iface::Device, 10) matches Some(s) ==> b0.peer_id_ok(slot_id(s, seq![ArgModel::Uint32(serial)])),
        rd0.wf(),
        rd0.rest() == args_bytes(b0.order, seq![ArgModel::Uint32(serial)]) + rest,
        parse_post(
            "device",
            event_kinds(Iface::Device, 10),
            event_slot(Iface::Device, 10),
            10,
            rd0,
            rd1,
            b0,
            b1,
            parse_model(r),
        ),
    ensures
        r matches Ok(ei::device::Event::StopEmulating { serial: v0 }) && v0 == serial,
        rd1.rest() == rest,
{
    let args = seq![ArgModel::Uint32(serial)];
    reveal_with_fuel(crate::arg::args_fds, 2);
    lemma_read_written("device", event_kinds(Iface::Device, 10), event_slot(Iface::Device, 10), 10, args, rd0, rd1, b0, b1, r, rest);
    let m = r->Ok_0;
    assert(m.wire_args()[0] == args[0]);
}

/// `ei_device.frame`, as the server writes it: parsing `serial`, `timestamp`, in this order, gives
/// the event with each value in its own field.
pub proof fn law_ei_device_frame_read_back<F>(
    serial: u32,
    timestamp: u64,
    rd0: Reader,
    rd1: Reader,
    b0: Backend<F>,
    b1: Backend<F>,
    r: Result<ei::device::Event, ParseError>,
    rest: Seq<u8>,
)
    requires
        event_slot(Iface::Device, 11) matches Some(s) ==> b0.peer_id_ok(slot_id(s, seq![ArgModel::Uint32(serial), ArgModel::Uint64(timestamp)])),
        rd0.wf(),
        rd0.rest() == args_bytes(b0.order, seq![ArgModel::Uint32(serial), ArgModel::Uint64(timestamp)]) + rest,
        parse_post(
            "device",
            event_kinds(Iface::Device, 11),
            event_slot(Iface::Device, 11),
            11,
            rd0,
            rd1,
            b0,
            b1,
            parse_model(r),
        ),
    ensures
        r matches Ok(ei::device::Event::Frame { serial: v0, timestamp: v1 }) && v0 == serial && v1 == timestamp,
        rd1.rest() == rest,
{
    let args = seq![ArgModel::Uint32(serial), ArgModel::Uint64(timestamp)];
    reveal_with_fuel(crate::arg::args_fds, 3);
    lemma_read_written("device", event_kinds(Iface::Device, 11), event_slot(Iface::Device, 11), 11, args, rd0, rd1, b0, b1, r, rest);
    let m = r->Ok_0;
    assert(m.wire_args()[0] == args[0]);
    assert(m.wire_args()[1] == args[1]);
}

/// `ei_device.region_mapping_id`, as the server writes it: parsing `mapping_id`, in this order, gives
/// the event with each value in its own field.
pub proof fn law_ei_device_region_mapping_id_read_back<F>(
    mapping_id: Seq<char>,
    rd0: Reader,
    rd1: Reader,
    b0: Backend<F>,
    b1: Backend<F>,
    r: Result<ei::device::Event, ParseError>,
    rest: Seq<u8>,
)
    requires
        encode_utf8(mapping_id).len() + 1 <= u32::MAX,
        event_slot(Iface::Device, 12) matches Some(s) ==> b0.peer_id_ok(slot_id(s, seq![ArgModel::String(Some(mapping_id))])),
        rd0.wf(),
        rd0.rest() == args_bytes(b0.order, seq![ArgModel::String(Some(mapping_id))]) + rest,
        parse_post(
            "device",
            event_kinds(Iface::Device, 12),
            event_slot(Iface::Device, 12),
            12,
            rd0,
            rd1,
            b0,
            b1,
            parse_model(r),
        ),
    ensures
        r matches Ok(ei::device::Event::RegionMappingId { mapping_id: v0 }) && v0@ == mapping_id,
        rd1.rest() == rest,
{
    let args = seq![ArgModel::String(Some(mapping_id))];
    reveal_with_fuel(crate::arg::args_fds, 2);
    lemma_read_written("device", event_kinds(Iface::Device, 12), event_slot(Iface::Device, 12), 12, args, rd0, rd1, b0, b1, r, rest);
    let m = r->Ok_0;
    assert(m.wire_args()[0] == args[0]);
}

/// `ei_pointer.destroyed`, as the server writes it: parsing `serial`, in this order, gives
/// the event with each value in its own field.
pub proof fn law_ei_pointer_destroyed_read_back<F>(
    serial: u32,
    rd0: Reader,
    rd1: Reader,
    b0: Backend<F>,
    b1: Backend<F>,
    r: Result<ei::pointer::Event, ParseError>,
    rest: Seq<u8>,
)
    requires
        event_slot(Iface::Pointer, 0) matches Some(s) ==> b0.peer_id_ok(slot_id(s, seq![ArgModel::Uint32(serial)])),
        rd0.wf(),
        rd0.rest() == args_bytes(b0.order, seq![ArgModel::Uint32(serial)]) + rest,
        parse_post(
            "pointer",
            event_kinds(Iface::Pointer, 0),
            event_slot(Iface::Pointer, 0),
            0,
            rd0,
            rd1,
            b0,
            b1,
            parse_model(r),
        ),
    ensures
        r matches Ok(ei::pointer::Event::Destroyed { serial: v0 }) && v0 == serial,
        rd1.rest() == rest,
{
    let args = seq![ArgModel::Uint32(serial)];
    reveal_with_fuel(crate::arg::args_fds, 2);
    lemma_read_written("pointer", event_kinds(Iface::Pointer, 0), event_slot(Iface::Pointer, 0), 0, args, rd0, rd1, b0, b1, r, rest);
    let m = r->Ok_0;
    assert(m.wire_args()[0] == args[0]);
}

/// `ei_pointer.motion_relative`, as the server writes it: parsing `x`, `y`, in this order, gives
/// the event with each value in its own field.
pub proof fn law_ei_pointer_motion_relative_read_back<F>(
    x: u32,
    y: u32,
    rd0: Reader,
    rd1: Reader,
    b0: Backend<F>,
    b1: Backend<F>,
    r: Result<ei::pointer::Event, ParseError>,
    rest: Seq<u8>,
)
    requires
        event_slot(Iface::Pointer, 1) matches Some(s) ==> b0.peer_id_ok(slot_id(s, seq![ArgModel::Float(x), ArgModel::Float(y)])),
        rd0.wf(),
        rd0.rest() == args_bytes(b0.order, seq![ArgModel::Float(x), ArgModel::Float(y)]) + rest,
        parse_post(
            "pointer",
            event_kinds(Iface::Pointer, 1),
            event_slot(Iface::Pointer, 1),
            1,
            rd0,
            rd1,
            b0,
            b1,
            parse_model(r),
        ),
    ensures
        r matches Ok(ei::pointer::Event::MotionRelative { x: v0, y: v1 }) && v0 == x && v1 == y,
        rd1.rest() == rest,
{
    let args = seq![ArgModel::Float(x), ArgModel::Float(y)];
    reveal_with_fuel(crate::arg::args_fds, 3);
    lemma_read_written("pointer", event_kinds(Iface::Pointer, 1), event_slot(Iface::Pointer, 1), 1, args, rd0, rd1, b0, b1, r, rest);
    let m = r->Ok_0;
    assert(m.wire_args()[0] == args[0]);
    assert(m.wire_args()[1] == args[1]);
}

/// `ei_pointer_absolute.destroyed`, as the server writes it: parsing `serial`, in this order, gives
/// the event with each value in its own field.
pub proof fn law_ei_pointer_absolute_destroyed_read_back<F>(
    serial: u32,
    rd0: Reader,
    rd1: Reader,
    b0: Backend<F>,
    b1: Backend<F>,
    r: Result<ei::pointer_absolute::Event, ParseError>,
    rest: Seq<u8>,
)
    requires
        event_slot(Iface::PointerAbsolute, 0) matches Some(s) ==> b0.peer_id_ok(slot_id(s, seq![ArgModel::Uint32(serial)])),
        rd0.wf(),
        rd0.rest() == args_bytes(b0.order, seq![ArgModel::Uint32(serial)]) + rest,
        parse_post(
            "pointer_absolute",
            event_kinds(Iface::PointerAbsolute, 0),
            event_slot(Iface::PointerAbsolute, 0),
            0,
            rd0,
            rd1,
            b0,
            b1,
            parse_model(r),
        ),
    ensures
        r matches Ok(ei::pointer_absolute::Event::Destroyed { serial: v0 }) && v0 == serial,
        rd1.rest() == rest,
{
    let args = seq![ArgModel::Uint32(serial)];
    reveal_with_fuel(crate::arg::args_fds, 2);
    lemma_read_written("pointer_absolute", event_kinds(Iface::PointerAbsolute, 0), event_slot(Iface::PointerAbsolute, 0), 0, args, rd0, rd1, b0, b1, r, rest);
    let m = r->Ok_0;
    assert(m.wire_args()[0] == args[0]);
}

/// `ei_pointer_absolute.motion_absolute`, as the server writes it: parsing `x`, `y`, in this order, gives
/// the event with each value in its own field.
pub proof fn law_ei_pointer_absolute_motion_absolute_read_back<F>(
    x: u32,
    y: u32,
    rd0: Reader,
    rd1: Reader,
    b0: Backend<F>,
    b1: Backend<F>,
    r: Result<ei::pointer_absolute::Event, ParseError>,
    rest: Seq<u8>,
)
    requires
        event_slot(Iface::PointerAbsolute, 1) matches Some(s) ==> b0.peer_id_ok(slot_id(s, seq![ArgModel::Float(x), ArgModel::Float(y)])),
        rd0.wf(),
        rd0.rest() == args_bytes(b0.order, seq![ArgModel::Float(x), ArgModel::Float(y)]) + rest,
        parse_post(
            "pointer_absolute",
            event_kinds(Iface::PointerAbsolute, 1),
            event_slot(Iface::PointerAbsolute, 1),
            1,
            rd0,
            rd1,
            b0,
            b1,
            parse_model(r),
        ),
    ensures
        r matches Ok(ei::pointer_absolute::Event::MotionAbsolute { x: v0, y: v1 }) && v0 == x && v1 == y,
        rd1.rest() == rest,
{
    let args = seq![ArgModel::Float(x), ArgModel::Float(y)];
    reveal_with_fuel(crate::arg::args_fds, 3);
    lemma_read_written("pointer_absolute", event_kinds(Iface::PointerAbsolute, 1), event_slot(Iface::PointerAbsolute, 1), 1, args, rd0, rd1, b0, b1, r, rest);
    let m = r->Ok_0;
    assert(m.wire_args()[0] == args[0]);
    assert(m.wire_args()[1] == args[1]);
}

/// `ei_scroll.destroyed`, as the server writes it: parsing `serial`, in this order, gives
/// the event with each value in its own field.
pub proof fn law_ei_scroll_destroyed_read_back<F>(
    serial: u32,
    rd0: Reader,
    rd1: Reader,
    b0: Backend<F>,
    b1: Backend<F>,
    r: Result<ei::scroll::Event, ParseError>,
    rest: Seq<u8>,
)
    requires
        event_slot(Iface::Scroll, 0) matches Some(s) ==> b0.peer_id_ok(slot_id(s, seq![ArgModel::Uint32(serial)])),
        rd0.wf(),
        rd0.rest() == args_bytes(b0.order, seq![ArgModel::Uint32(serial)]) + rest,
        parse_post(
            "scroll",
            event_kinds(Iface::Scroll, 0),
            event_slot(Iface::Scroll, 0),
            0,
            rd0,
            rd1,
            b0,
            b1,
            parse_model(r),
        ),
    ensures
        r matches Ok(ei::scroll::Event::Destroyed { serial: v0 }) && v0 == serial,
        rd1.rest() == rest,
{
    let args = seq![ArgModel::Uint32(serial)];
    reveal_with_fuel(crate::arg::args_fds, 2);
    lemma_read_written("scroll", event_kinds(Iface::Scroll, 0), event_slot(Iface::Scroll, 0), 0, args, rd0, rd1, b0, b1, r, rest);
    let m = r->Ok_0;
    assert(m.wire_args()[0] == args[0]);
}

/// `ei_scroll.scroll`, as the server writes it: parsing `x`, `y`, in this order, gives
/// the event with each value in its own field.
pub proof fn law_ei_scroll_scroll_read_back<F>(
    x: u32,
    y: u32,
    rd0: Reader,
    rd1: Reader,
    b0: Backend<F>,
    b1: Backend<F>,
    r: Result<ei::scroll::Event, ParseError>,
    rest: Seq<u8>,
)
    requires
        event_slot(Iface::Scroll, 1) matches Some(s) ==> b0.peer_id_ok(slot_id(s, seq![ArgModel::Float(x), ArgModel::Float(y)])),
        rd0.wf(),
        rd0.rest() == args_bytes(b0.order, seq![ArgModel::Float(x), ArgModel::Float(y)]) + rest,
        parse_post(
            "scroll",
            event_kinds(Iface::Scroll, 1),
            event_slot(Iface::Scroll, 1),
            1,
            rd0,
            rd1,
            b0,
            b1,
            parse_model(r),
        ),
    ensures
        r matches Ok(ei::scroll::Event::Scroll { x: v0, y: v1 }) && v0 == x && v1 == y,
        rd1.rest() == rest,
{
    let args = seq![ArgModel::Float(x), ArgModel::Float(y)];
    reveal_with_fuel(crate::arg::args_fds, 3);
    lemma_read_written("scroll", event_kinds(Iface::Scroll, 1), event_slot(Iface::Scroll, 1), 1, args, rd0, rd1, b0, b1, r, rest);
    let m = r->Ok_0;
    assert(m.wire_args()[0] == args[0]);
    assert(m.wire_args()[1] == args[1]);
}

/// `ei_scroll.scroll_discrete`, as the server writes it: parsing `x`, `y`, in this order, gives
/// the event with each value in its own field.
pub proof fn law_ei_scroll_scroll_discrete_read_back<F>(
    x: i32,
    y: i32,
    rd0: Reader,
    rd1: Reader,
    b0: Backend<F>,
    b1: Backend<F>,
    r: Result<ei::scroll::Event, ParseError>,
    rest: Seq<u8>,
)
    requires
        event_slot(Iface::Scroll, 2) matches Some(s) ==> b0.peer_id_ok(slot_id(s, seq![ArgModel::Int32(x), ArgModel::Int32(y)])),
        rd0.wf(),
        rd0.rest() == args_bytes(b0.order, seq![ArgModel::Int32(x), ArgModel::Int32(y)]) + rest,
        parse_post(
            "scroll",
            event_kinds(Iface::Scroll, 2),
            event_slot(Iface::Scroll, 2),
            2,
            rd0,
            rd1,
            b0,
            b1,
            parse_model(r),
        ),
    ensures
        r matches Ok(ei::scroll::Event::ScrollDiscrete { x: v0, y: v1 }) && v0 == x && v1 == y,
        rd1.rest() == rest,
{
    let args = seq![ArgModel::Int32(x), ArgModel::Int32(y)];
    reveal_with_fuel(crate::arg::args_fds, 3);
    lemma_read_written("scroll", event_kinds(Iface::Scroll, 2), event_slot(Iface::Scroll, 2), 2, args, rd0, rd1, b0, b1, r, rest);
    let m = r->Ok_0;
    assert(m.wire_args()[0] == args[0]);
    assert(m.wire_args()[1] == args[1]);
}

/// `ei_scroll.scroll_stop`, as the server writes it: parsing `x`, `y`, `is_cancel`, in this order, gives
/// the event with each value in its own field.
pub proof fn law_ei_scroll_scroll_stop_read_back<F>(
    x: u32,
    y: u32,
    is_cancel: u32,
    rd0: Reader,
    rd1: Reader,
    b0: Backend<F>,
    b1: Backend<F>,
    r: Result<ei::scroll::Event, ParseError>,
    rest: Seq<u8>,
)
    requires
        event_slot(Iface::Scroll, 3) matches Some(s) ==> b0.peer_id_ok(slot_id(s, seq![ArgModel::Uint32(x), ArgModel::Uint32(y), ArgModel::Uint32(is_cancel)])),
        rd0.wf(),
        rd0.rest() == args_bytes(b0.order, seq![ArgModel::Uint32(x), ArgModel::Uint32(y), ArgModel::Uint32(is_cancel)]) + rest,
        parse_post(
            "scroll",
            event_kinds(Iface::Scroll, 3),
            event_slot(Iface::Scroll, 3),
            3,
            rd0,
            rd1,
            b0,
            b1,
            parse_model(r),
        ),
    ensures
        r matches Ok(ei::scroll::Event::ScrollStop { x: v0, y: v1, is_cancel: v2 }) && v0 == x && v1 == y && v2 == is_cancel,
        rd1.rest() == rest,
{
    let args = seq![ArgModel::Uint32(x), ArgModel::Uint32(y), ArgModel::Uint32(is_cancel)];
    reveal_with_fuel(crate::arg::args_fds, 4);
    lemma_read_written("scroll", event_kinds(Iface::Scroll, 3), event_slot(Iface::Scroll, 3), 3, args, rd0, rd1, b0, b1, r, rest);
    let m = r->Ok_0;
    assert(m.wire_args()[0] == args[0]);
    assert(m.wire_args()[1] == args[1]);
    assert(m.wire_args()[2] == args[2]);
}

/// `ei_button.destroyed`, as the server writes it: parsing `serial`, in this order, gives
/// the event with each value in its own field.
pub proof fn law_ei_button_destroyed_read_back<F>(
    serial: u32,
    rd0: Reader,
    rd1: Reader,
    b0: Backend<F>,
    b1: Backend<F>,
    r: Result<ei::button::Event, ParseError>,
    rest: Seq<u8>,
)
    requires
        event_slot(Iface::Button, 0) matches Some(s) ==> b0.peer_id_ok(slot_id(s, seq![ArgModel::Uint32(serial)])),
        rd0.wf(),
        rd0.rest() == args_bytes(b0.order, seq![ArgModel::Uint32(serial)]) + rest,
        parse_post(
            "button",
            event_kinds(Iface::Button, 0),
            event_slot(Iface::Button, 0),
            0,
            rd0,
            rd1,
            b0,
            b1,
            parse_model(r),
        ),
    ensures
        r matches Ok(ei::button::Event::Destroyed { serial: v0 }) && v0 == serial,
        rd1.rest() == rest,
{
    let args = seq![ArgModel::Uint32(serial)];
    reveal_with_fuel(crate::arg::args_fds, 2);
    lemma_read_written("button", event_kinds(Iface::Button, 0), event_slot(Iface::Button, 0), 0, args, rd0, rd1, b0, b1, r, rest);
    let m = r->Ok_0;
    assert(m.wire_args()[0] == args[0]);
}

/// `ei_button.button`, as the server writes it: parsing `button`, `state`, in this order, gives
/// the event with each value in its own field.
pub proof fn law_ei_button_button_read_back<F>(
    button: u32,
    state: ButtonState,
    rd0: Reader,
    rd1: Reader,
    b0: Backend<F>,
    b1: Backend<F>,
    r: Result<ei::button::Event, ParseError>,
    rest: Seq<u8>,
)
    requires
        event_slot(Iface::Button, 1) matches Some(s) ==> b0.peer_id_ok(slot_id(s, seq![ArgModel::Uint32(button), ArgModel::Uint32(state.spec_to_u32())])),
        rd0.wf(),
        rd0.rest() == args_bytes(b0.order, seq![ArgModel::Uint32(button), ArgModel::Uint32(state.spec_to_u32())]) + rest,
        parse_post(
            "button",
            event_kinds(Iface::Button, 1),
            event_slot(Iface::Button, 1),
            1,
            rd0,
            rd1,
            b0,
            b1,
            parse_model(r),
        ),
    ensures
        r matches Ok(ei::button::Event::Button { button: v0, state: v1 }) && v0 == button && v1 == state,
        rd1.rest() == rest,
{
    let args = seq![ArgModel::Uint32(button), ArgModel::Uint32(state.spec_to_u32())];
    reveal_with_fuel(crate::arg::args_fds, 3);
    lemma_read_written("button", event_kinds(Iface::Button, 1), event_slot(Iface::Button, 1), 1, args, rd0, rd1, b0, b1, r, rest);
    let m = r->Ok_0;
    assert(m.wire_args()[0] == args[0]);
    assert(m.wire_args()[1] == args[1]);
}

/// `ei_keyboard.destroyed`, as the server writes it: parsing `serial`, in this order, gives
/// the event with each value in its own field.
pub proof fn law_ei_keyboard_destroyed_read_back<F>(
    serial: u32,
    rd0: Reader,
    rd1: Reader,
    b0: Backend<F>,
    b1: Backend<F>,
    r: Result<ei::keyboard::Event<F>, ParseError>,
    rest: Seq<u8>,
)
    requires
        event_slot(Iface::Keyboard, 0) matches Some(s) ==> b0.peer_id_ok(slot_id(s, seq![ArgModel::Uint32(serial)])),
        rd0.wf(),
        rd0.rest() == args_bytes(b0.order, seq![ArgModel::Uint32(serial)]) + rest,
        parse_post(
            "keyboard",
            event_kinds(Iface::Keyboard, 0),
            event_slot(Iface::Keyboard, 0),
            0,
            rd0,
            rd1,
            b0,
            b1,
            parse_model(r),
        ),
    ensures
        r matches Ok(ei::keyboard::Event::Destroyed { serial: v0 }) && v0 == serial,
        rd1.rest() == rest,
{
    let args = seq![ArgModel::Uint32(serial)];
    reveal_with_fuel(crate::arg::args_fds, 2);
    lemma_read_written("keyboard", event_kinds(Iface::Keyboard, 0), event_slot(Iface::Keyboard, 0), 0, args, rd0, rd1, b0, b1, r, rest);
    let m = r->Ok_0;
    assert(m.wire_args()[0] == args[0]);
}

/// `ei_keyboard.keymap`, as the server writes it: parsing `keymap_type`, `size`, `keymap`, in this order, gives
/// the event with each value in its own field.
pub proof fn law_ei_keyboard_keymap_read_back<F>(
    keymap_type: KeymapType,
    size: u32,
    rd0: Reader,
    rd1: Reader,
    b0: Backend<F>,
    b1: Backend<F>,
    r: Result<ei::keyboard::Event<F>, ParseError>,
    rest: Seq<u8>,
)
    requires
        b0.read_fds@.len() >= 1,
        event_slot(Iface::Keyboard, 1) matches Some(s) ==> b0.peer_id_ok(slot_id(s, seq![ArgModel::Uint32(keymap_type.spec_to_u32()), ArgModel::Uint32(size), ArgModel::Fd])),
        rd0.wf(),
        rd0.rest() == args_bytes(b0.order, seq![ArgModel::Uint32(keymap_type.spec_to_u32()), ArgModel::Uint32(size), ArgModel::Fd]) + rest,
        parse_post(
            "keyboard",
            event_kinds(Iface::Keyboard, 1),
            event_slot(Iface::Keyboard, 1),
            1,
            rd0,
            rd1,
            b0,
            b1,
            parse_model(r),
        ),
    ensures
        r matches Ok(ei::keyboard::Event::Keymap { keymap_type: v0, size: v1, keymap: v2 }) && v0 == keymap_type && v1 == size,
        rd1.rest() == rest,
{
    let args = seq![ArgModel::Uint32(keymap_type.spec_to_u32()), ArgModel::Uint32(size), ArgModel::Fd];
    reveal_with_fuel(crate::arg::args_fds, 4);
    lemma_read_written("keyboard", event_kinds(Iface::Keyboard, 1), event_slot(Iface::Keyboard, 1), 1, args, rd0, rd1, b0, b1, r, rest);
    let m = r->Ok_0;
    assert(m.wire_args()[0] == args[0]);
    assert(m.wire_args()[1] == args[1]);
    assert(m.wire_args()[2] == args[2]);
}

/// `ei_keyboard.key`, as the server writes it: parsing `key`, `state`, in this order, gives
/// the event with each value in its own field.
pub proof fn law_ei_keyboard_key_read_back<F>(
    key: u32,
    state: KeyState,
    rd0: Reader,
    rd1: Reader,
    b0: Backend<F>,
    b1: Backend<F>,
    r: Result<ei::keyboard::Event<F>, ParseError>,
    rest: Seq<u8>,
)
    requires
        event_slot(Iface::Keyboard, 2) matches Some(s) ==> b0.peer_id_ok(slot_id(s, seq![ArgModel::Uint32(key), ArgModel::Uint32(state.spec_to_u32())])),
        rd0.wf(),
        rd0.rest() == args_bytes(b0.order, seq![ArgModel::Uint32(key), ArgModel::Uint32(state.spec_to_u32())]) + rest,
        parse_post(
            "keyboard",
            event_kinds(Iface::Keyboard, 2),
            event_slot(Iface::Keyboard, 2),
            2,
            rd0,
            rd1,
            b0,
            b1,
            parse_model(r),
        ),
    ensures
        r matches Ok(ei::keyboard::Event::Key { key: v0, state: v1 }) && v0 == key && v1 == state,
        rd1.rest() == rest,
{
    let args = seq![ArgModel::Uint32(key), ArgModel::Uint32(state.spec_to_u32())];
    reveal_with_fuel(crate::arg::args_fds, 3);
    lemma_read_written("keyboard", event_kinds(Iface::Keyboard, 2), event_slot(Iface::Keyboard, 2), 2, args, rd0, rd1, b0, b1, r, rest);
    let m = r->Ok_0;
    assert(m.wire_args()[0] == args[0]);
    assert(m.wire_args()[1] == args[1]);
}

/// `ei_keyboard.modifiers`, as the server writes it: parsing `serial`, `depressed`, `locked`, `latched`, `group`, in this order, gives
/// the event with each value in its own field.
pub proof fn law_ei_keyboard_modifiers_read_back<F>(
    serial: u32,
    depressed: u32,
    locked: u32,
    latched: u32,
    group: u32,
    rd0: Reader,
    rd1: Reader,
    b0: Backend<F>,
    b1: Backend<F>,
    r: Result<ei::keyboard::Event<F>, ParseError>,
    rest: Seq<u8>,
)
    requires
        event_slot(Iface::Keyboard, 3) matches Some(s) ==> b0.peer_id_ok(slot_id(s, seq![ArgModel::Uint32(serial), ArgModel::Uint32(depressed), ArgModel::Uint32(locked), ArgModel::Uint32(latched), ArgModel::Uint32(group)])),
        rd0.wf(),
        rd0.rest() == args_bytes(b0.order, seq![ArgModel::Uint32(serial), ArgModel::Uint32(depressed), ArgModel::Uint32(locked), ArgModel::Uint32(latched), ArgModel::Uint32(group)]) + rest,
        parse_post(
            "keyboard",
            event_kinds(Iface::Keyboard, 3),
            event_slot(Iface::Keyboard, 3),
            3,
            rd0,
            rd1,
            b0,
            b1,
            parse_model(r),
        ),
    ensures
        r matches Ok(ei::keyboard::Event::Modifiers { serial: v0, depressed: v1, locked: v2, latched: v3, group: v4 }) && v0 == serial && v1 == depressed && v2 == locked && v3 == latched && v4 == group,
        rd1.rest() == rest,
{
    let args = seq![ArgModel::Uint32(serial), ArgModel::Uint32(depressed), ArgModel::Uint32(locked), ArgModel::Uint32(latched), ArgModel::Uint32(group)];
    reveal_with_fuel(crate::arg::args_fds, 6);
    lemma_read_written("keyboard", event_kinds(Iface::Keyboard, 3), event_slot(Iface::Keyboard, 3), 3, args, rd0, rd1, b0, b1, r, rest);
    let m = r->Ok_0;
    assert(m.wire_args()[0] == args[0]);
    assert(m.wire_args()[1] == args[1]);
    assert(m.wire_args()[2] == args[2]);
    assert(m.wire_args()[3] == args[3]);
    assert(m.wire_args()[4] == args[4]);
}

/// `ei_touchscreen.destroyed`, as the server writes it: parsing `serial`, in this order, gives
/// the event with each value in its own field.
pub proof fn law_ei_touchscreen_destroyed_read_back<F>(
    serial: u32,
    rd0: Reader,
    rd1: Reader,
    b0: Backend<F>,
    b1: Backend<F>,
    r: Result<ei::touchscreen::Event, ParseError>,
    rest: Seq<u8>,
)
    requires
        event_slot(Iface::Touchscreen, 0) matches Some(s) ==> b0.peer_id_ok(slot_id(s, seq![ArgModel::Uint32(serial)])),
        rd0.wf(),
        rd0.rest() == args_bytes(b0.order, seq![ArgModel::Uint32(serial)]) + rest,
        parse_post(
            "touchscreen",
            event_kinds(Iface::Touchscreen, 0),
            event_slot(Iface::Touchscreen, 0),
            0,
            rd0,
            rd1,
            b0,
            b1,
            parse_model(r),
        ),
    ensures
        r matches Ok(ei::touchscreen::Event::Destroyed { serial: v0 }) && v0 == serial,
        rd1.rest() == rest,
{
    let args = seq![ArgModel::Uint32(serial)];
    reveal_with_fuel(crate::arg::args_fds, 2);
    lemma_read_written("touchscreen", event_kinds(Iface::Touchscreen, 0), event_slot(Iface::Touchscreen, 0), 0, args, rd0, rd1, b0, b1, r, rest);
    let m = r->Ok_0;
    assert(m.wire_args()[0] == args[0]);
}

/// `ei_touchscreen.down`, as the server writes it: parsing `touchid`, `x`, `y`, in this order, gives
/// the event with each value in its own field.
pub proof fn law_ei_touchscreen_down_read_back<F>(
    touchid: u32,
    x: u32,
    y: u32,
    rd0: Reader,
    rd1: Reader,
    b0: Backend<F>,
    b1: Backend<F>,
    r: Result<ei::touchscreen::Event, ParseError>,
    rest: Seq<u8>,
)
    requires
        event_slot(Iface::Touchscreen, 1) matches Some(s) ==> b0.peer_id_ok(slot_id(s, seq![ArgModel::Uint32(touchid), ArgModel::Float(x), ArgModel::Float(y)])),
        rd0.wf(),
        rd0.rest() == args_bytes(b0.order, seq![ArgModel::Uint32(touchid), ArgModel::Float(x), ArgModel::Float(y)]) + rest,
        parse_post(
            "touchscreen",
            event_kinds(Iface::Touchscreen, 1),
            event_slot(Iface::Touchscreen, 1),
            1,
            rd0,
            rd1,
            b0,
            b1,
            parse_model(r),
        ),
    ensures
        r matches Ok(ei::touchscreen::Event::Down { touchid: v0, x: v1, y: v2 }) && v0 == touchid && v1 == x && v2 == y,
        rd1.rest() == rest,
{
    let args = seq![ArgModel::Uint32(touchid), ArgModel::Float(x), ArgModel::Float(y)];
    reveal_with_fuel(crate::arg::args_fds, 4);
    lemma_read_written("touchscreen", event_kinds(Iface::Touchscreen, 1), event_slot(Iface::Touchscreen, 1), 1, args, rd0, rd1, b0, b1, r, rest);
    let m = r->Ok_0;
    assert(m.wire_args()[0] == args[0]);
    assert(m.wire_args()[1] == args[1]);
    assert(m.wire_args()[2] == args[2]);
}

/// `ei_touchscreen.motion`, as the server writes it: parsing `touchid`, `x`, `y`, in this order, gives
/// the event with each value in its own field.
pub proof fn law_ei_touchscreen_motion_read_back<F>(
    touchid: u32,
    x: u32,
    y: u32,
    rd0: Reader,
    rd1: Reader,
    b0: Backend<F>,
    b1: Backend<F>,
    r: Result<ei::touchscreen::Event, ParseError>,
    rest: Seq<u8>,
)
    requires
        event_slot(Iface::Touchscreen, 2) matches Some(s) ==> b0.peer_id_ok(slot_id(s, seq![ArgModel::Uint32(touchid), ArgModel::Float(x), ArgModel::Float(y)])),
        rd0.wf(),
        rd0.rest() == args_bytes(b0.order, seq![ArgModel::Uint32(touchid), ArgModel::Float(x), ArgModel::Float(y)]) + rest,
        parse_post(
            "touchscreen",
            event_kinds(Iface::Touchscreen, 2),
            event_slot(Iface::Touchscreen, 2),
            2,
            rd0,
            rd1,
            b0,
            b1,
            parse_model(r),
        ),
    ensures
        r matches Ok(ei::touchscreen::Event::Motion { touchid: v0, x: v1, y: v2 }) && v0 == touchid && v1 == x && v2 == y,
        rd1.rest() == rest,
{
    let args = seq![ArgModel::Uint32(touchid), ArgModel::Float(x), ArgModel::Float(y)];
    reveal_with_fuel(crate::arg::args_fds, 4);
    lemma_read_written("touchscreen", event_kinds(Iface::Touchscreen, 2), event_slot(Iface::Touchscreen, 2), 2, args, rd0, rd1, b0, b1, r, rest);
    let m = r->Ok_0;
    assert(m.wire_args()[0] == args[0]);
    assert(m.wire_args()[1] == args[1]);
    assert(m.wire_args()[2] == args[2]);
}

/// `ei_touchscreen.up`, as the server writes it: parsing `touchid`, in this order, gives
/// the event with each value in its own field.
pub proof fn law_ei_touchscreen_up_read_back<F>(
    touchid: u32,
    rd0: Reader,
    rd1: Reader,
    b0: Backend<F>,
    b1: Backend<F>,
    r: Result<ei::touchscreen::Event, ParseError>,
    rest: Seq<u8>,
)
    requires
        event_slot(Iface::Touchscreen, 3) matches Some(s) ==> b0.peer_id_ok(slot_id(s, seq![ArgModel::Uint32(touchid)])),
        rd0.wf(),
        rd0.rest() == args_bytes(b0.order, seq![ArgModel::Uint32(touchid)]) + rest,
        parse_post(
            "touchscreen",
            event_kinds(Iface::Touchscreen, 3),
            event_slot(Iface::Touchscreen, 3),
            3,
            rd0,
            rd1,
            b0,
            b1,
            parse_model(r),
        ),
    ensures
        r matches Ok(ei::touchscreen::Event::Up { touchid: v0 }) && v0 == touchid,
        rd1.rest() == rest,
{
    let args = seq![ArgModel::Uint32(touchid)];
    reveal_with_fuel(crate::arg::args_fds, 2);
    lemma_read_written("touchscreen", event_kinds(Iface::Touchscreen, 3), event_slot(Iface::Touchscreen, 3), 3, args, rd0, rd1, b0, b1, r, rest);
    let m = r->Ok_0;
    assert(m.wire_args()[0] == args[0]);
}

/// `ei_touchscreen.cancel`, as the server writes it: parsing `touchid`, in this order, gives
/// the event with each value in its own field.
pub proof fn law_ei_touchscreen_cancel_read_back<F>(
    touchid: u32,
    rd0: Reader,
    rd1: Reader,
    b0: Backend<F>,
    b1: Backend<F>,
    r: Result<ei::touchscreen::Event, ParseError>,
    rest: Seq<u8>,
)
    requires
        event_slot(Iface::Touchscreen, 4) matches Some(s) ==> b0.peer_id_ok(slot_id(s, seq![ArgModel::Uint32(touchid)])),
        rd0.wf(),
        rd0.rest() == args_bytes(b0.order, seq![ArgModel::Uint32(touchid)]) + rest,
        parse_post(
            "touchscreen",
            event_kinds(Iface::Touchscreen, 4),
            event_slot(Iface::Touchscreen, 4),
            4,
            rd0,
            rd1,
            b0,
            b1,
            parse_model(r),
        ),
    ensures
        r matches Ok(ei::touchscreen::Event::Cancel { touchid: v0 }) && v0 == touchid,
        rd1.rest() == rest,
{
    let args = seq![ArgModel::Uint32(touchid)];
    reveal_with_fuel(crate::arg::args_fds, 2);
    lemma_read_written("touchscreen", event_kinds(Iface::Touchscreen, 4), event_slot(Iface::Touchscreen, 4), 4, args, rd0, rd1, b0, b1, r, rest);
    let m = r->Ok_0;
    assert(m.wire_args()[0] == args[0]);
}

/// `ei_handshake.handshake_version`, as the client writes it: parsing `version`, in this order, gives
/// the request with each value in its own field.
pub proof fn law_eis_handshake_handshake_version_read_back<F>(
    version: u32,
    rd0: Reader,
    rd1: Reader,
    b0: Backend<F>,
    b1: Backend<F>,
    r: Result<eis::handshake::Request, ParseError>,
    rest: Seq<u8>,
)
    requires
        request_slot(Iface::Handshake, 0) matches Some(s) ==> b0.peer_id_ok(slot_id(s, seq![ArgModel::Uint32(version)])),
        rd0.wf(),
        rd0.rest() == args_bytes(b0.order, seq![ArgModel::Uint32(version)]) + rest,
        parse_post(
            "handshake",
            request_kinds(Iface::Handshake, 0),
            request_slot(Iface::Handshake, 0),
            0,
            rd0,
            rd1,
            b0,
            b1,
            parse_model(r),
        ),
    ensures
        r matches Ok(eis::handshake::Request::HandshakeVersion { version: v0 }) && v0 == version,
        rd1.rest() == rest,
{
    let args = seq![ArgModel::Uint32(version)];
    reveal_with_fuel(crate::arg::args_fds, 2);
    lemma_read_written("handshake", request_kinds(Iface::Handshake, 0), request_slot(Iface::Handshake, 0), 0, args, rd0, rd1, b0, b1, r, rest);
    let m = r->Ok_0;
    assert(m.wire_args()[0] == args[0]);
}

/// `ei_handshake.context_type`, as the client writes it: parsing `context_type`, in this order, gives
/// the request with each value in its own field.
pub proof fn law_eis_handshake_context_type_read_back<F>(
    context_type: ContextType,
    rd0: Reader,
    rd1: Reader,
    b0: Backend<F>,
    b1: Backend<F>,
    r: Result<eis::handshake::Request, ParseError>,
    rest: Seq<u8>,
)
    requires
        request_slot(Iface::Handshake, 2) matches Some(s) ==> b0.peer_id_ok(slot_id(s, seq![ArgModel::Uint32(context_type.spec_to_u32())])),
        rd0.wf(),
        rd0.rest() == args_bytes(b0.order, seq![ArgModel::Uint32(context_type.spec_to_u32())]) + rest,
        parse_post(
            "handshake",
            request_kinds(Iface::Handshake, 2),
            request_slot(Iface::Handshake, 2),
            2,
            rd0,
            rd1,
            b0,
            b1,
            parse_model(r),
        ),
    ensures
        r matches Ok(eis::handshake::Request::ContextType { context_type: v0 }) && v0 == context_type,
        rd1.rest() == rest,
{
    let args = seq![ArgModel::Uint32(context_type.spec_to_u32())];
    reveal_with_fuel(crate::arg::args_fds, 2);
    lemma_read_written("handshake", request_kinds(Iface::Handshake, 2), request_slot(Iface::Handshake, 2), 2, args, rd0, rd1, b0, b1, r, rest);
    let m = r->Ok_0;
    assert(m.wire_args()[0] == args[0]);
}

/// `ei_handshake.name`, as the client writes it: parsing `name`, in this order, gives
/// the request with each value in its own field.
pub proof fn law_eis_handshake_name_read_back<F>(
    name: Seq<char>,
    rd0: Reader,
    rd1: Reader,
    b0: Backend<F>,
    b1: Backend<F>,
    r: Result<eis::handshake::Request, ParseError>,
    rest: Seq<u8>,
)
    requires
        encode_utf8(name).len() + 1 <= u32::MAX,
        request_slot(Iface::Handshake, 3) matches Some(s) ==> b0.peer_id_ok(slot_id(s, seq![ArgModel::String(Some(name))])),
        rd0.wf(),
        rd0.rest() == args_bytes(b0.order, seq![ArgModel::String(Some(name))]) + rest,
        parse_post(
            "handshake",
            request_kinds(Iface::Handshake, 3),
            request_slot(Iface::Handshake, 3),
            3,
            rd0,
            rd1,
            b0,
            b1,
            parse_model(r),
        ),
    ensures
        r matches Ok(eis::handshake::Request::Name { name: v0 }) && v0@ == name,
        rd1.rest() == rest,
{
    let args = seq![ArgModel::String(Some(name))];
    reveal_with_fuel(crate::arg::args_fds, 2);
    lemma_read_written("handshake", request_kinds(Iface::Handshake, 3), request_slot(Iface::Handshake, 3), 3, args, rd0, rd1, b0, b1, r, rest);
    let m = r->Ok_0;
    assert(m.wire_args()[0] == args[0]);
}

/// `ei_handshake.interface_version`, as the client writes it: parsing `name`, `version`, in this order, gives
/// the request with each value in its own field.
pub proof fn law_eis_handshake_interface_version_read_back<F>(
    name: Seq<char>,
    version: u32,
    rd0: Reader,
    rd1: Reader,
    b0: Backend<F>,
    b1: Backend<F>,
    r: Result<eis::handshake::Request, ParseError>,
    rest: Seq<u8>,
)
    requires
        encode_utf8(name).len() + 1 <= u32::MAX,
        request_slot(Iface::Handshake, 4) matches Some(s) ==> b0.peer_id_ok(slot_id(s, seq![ArgModel::String(Some(name)), ArgModel::Uint32(version)])),
        rd0.wf(),
        rd0.rest() == args_bytes(b0.order, seq![ArgModel::String(Some(name)), ArgModel::Uint32(version)]) + rest,
        parse_post(
            "handshake",
            request_kinds(Iface::Handshake, 4),
            request_slot(Iface::Handshake, 4),
            4,
            rd0,
            rd1,
            b0,
            b1,
            parse_model(r),
        ),
    ensures
        r matches Ok(eis::handshake::Request::InterfaceVersion { name: v0, version: v1 }) && v0@ == name && v1 == version,
        rd1.rest() == rest,
{
    let args = seq![ArgModel::String(Some(name)), ArgModel::Uint32(version)];
    reveal_with_fuel(crate::arg::args_fds, 3);
    lemma_read_written("handshake", request_kinds(Iface::Handshake, 4), request_slot(Iface::Handshake, 4), 4, args, rd0, rd1, b0, b1, r, rest);
    let m = r->Ok_0;
    assert(m.wire_args()[0] == args[0]);
    assert(m.wire_args()[1] == args[1]);
}

/// `ei_connection.sync`, as the client writes it: parsing `callback`, in this order, gives
/// the request with each value in its own field.
pub proof fn law_eis_connection_sync_read_back<F>(
    callback_id: u64,
    callback_version: u32,
    rd0: Reader,
    rd1: Reader,
    b0: Backend<F>,
    b1: Backend<F>,
    r: Result<eis::connection::Request, ParseError>,
    rest: Seq<u8>,
)
    requires
        request_slot(Iface::Connection, 0) matches Some(s) ==> b0.peer_id_ok(slot_id(s, seq![ArgModel::Uint64(callback_id), ArgModel::Uint32(callback_version)])),
        rd0.wf(),
        rd0.rest() == args_bytes(b0.order, seq![ArgModel::Uint64(callback_id), ArgModel::Uint32(callback_version)]) + rest,
        parse_post(
            "connection",
            request_kinds(Iface::Connection, 0),
            request_slot(Iface::Connection, 0),
            0,
            rd0,
            rd1,
            b0,
            b1,
            parse_model(r),
        ),
    ensures
        r matches Ok(eis::connection::Request::Sync { callback: v0 }) && v0.0.id == callback_id && v0.0.version == callback_version,
        rd1.rest() == rest,
{
    let args = seq![ArgModel::Uint64(callback_id), ArgModel::Uint32(callback_version)];
    reveal_with_fuel(crate::arg::args_fds, 3);
    lemma_read_written("connection", request_kinds(Iface::Connection, 0), request_slot(Iface::Connection, 0), 0, args, rd0, rd1, b0, b1, r, rest);
    let m = r->Ok_0;
    assert(m.wire_args()[0] == args[0]);
    assert(m.wire_args()[1] == args[1]);
}

/// `ei_pingpong.done`, as the client writes it: parsing `callback_data`, in this order, gives
/// the request with each value in its own field.
pub proof fn law_eis_pingpong_done_read_back<F>(
    callback_data: u64,
    rd0: Reader,
    rd1: Reader,
    b0: Backend<F>,
    b1: Backend<F>,
    r: Result<eis::pingpong::Request, ParseError>,
    rest: Seq<u8>,
)
    requires
        request_slot(Iface::Pingpong, 0) matches Some(s) ==> b0.peer_id_ok(slot_id(s, seq![ArgModel::Uint64(callback_data)])),
        rd0.wf(),
        rd0.rest() == args_bytes(b0.order, seq![ArgModel::Uint64(callback_data)]) + rest,
        parse_post(
            "pingpong",
            request_kinds(Iface::Pingpong, 0),
            request_slot(Iface::Pingpong, 0),
            0,
            rd0,
            rd1,
            b0,
            b1,
            parse_model(r),
        ),
    ensures
        r matches Ok(eis::pingpong::Request::Done { callback_data: v0 }) && v0 == callback_data,
        rd1.rest() == rest,
{
    let args = seq![ArgModel::Uint64(callback_data)];
    reveal_with_fuel(crate::arg::args_fds, 2);
    lemma_read_written("pingpong", request_kinds(Iface::Pingpong, 0), request_slot(Iface::Pingpong, 0), 0, args, rd0, rd1, b0, b1, r, rest);
    let m = r->Ok_0;
    assert(m.wire_args()[0] == args[0]);
}

/// `ei_seat.bind`, as the client writes it: parsing `capabilities`, in this order, gives
/// the request with each value in its own field.
pub proof fn law_eis_seat_bind_read_back<F>(
    capabilities: u64,
    rd0: Reader,
    rd1: Reader,
    b0: Backend<F>,
    b1: Backend<F>,
    r: Result<eis::seat::Request, ParseError>,
    rest: Seq<u8>,
)
    requires
        request_slot(Iface::Seat, 1) matches Some(s) ==> b0.peer_id_ok(slot_id(s, seq![ArgModel::Uint64(capabilities)])),
        rd0.wf(),
        rd0.rest() == args_bytes(b0.order, seq![ArgModel::Uint64(capabilities)]) + rest,
        parse_post(
            "seat",
            request_kinds(Iface::Seat, 1),
            request_slot(Iface::Seat, 1),
            1,
            rd0,
            rd1,
            b0,
            b1,
            parse_model(r),
        ),
    ensures
        r matches Ok(eis::seat::Request::Bind { capabilities: v0 }) && v0 == capabilities,
        rd1.rest() == rest,
{
    let args = seq![ArgModel::Uint64(capabilities)];
    reveal_with_fuel(crate::arg::args_fds, 2);
    lemma_read_written("seat", request_kinds(Iface::Seat, 1), request_slot(Iface::Seat, 1), 1, args, rd0, rd1, b0, b1, r, rest);
    let m = r->Ok_0;
    assert(m.wire_args()[0] == args[0]);
}

/// `ei_device.start_emulating`, as the client writes it: parsing `last_serial`, `sequence`, in this order, gives
/// the request with each value in its own field.
pub proof fn law_eis_device_start_emulating_read_back<F>(
    last_serial: u32,
    sequence: u32,
    rd0: Reader,
    rd1: Reader,
    b0: Backend<F>,
    b1: Backend<F>,
    r: Result<eis::device::Request, ParseError>,
    rest: Seq<u8>,
)
    requires
        request_slot(Iface::Device, 1) matches Some(s) ==> b0.peer_id_ok(slot_id(s, seq![ArgModel::Uint32(last_serial), ArgModel::Uint32(sequence)])),
        rd0.wf(),
        rd0.rest() == args_bytes(b0.order, seq![ArgModel::Uint32(last_serial), ArgModel::Uint32(sequence)]) + rest,
        parse_post(
            "device",
            request_kinds(Iface::Device, 1),
            request_slot(Iface::Device, 1),
            1,
            rd0,
            rd1,
            b0,
            b1,
            parse_model(r),
        ),
    ensures
        r matches Ok(eis::device::Request::StartEmulating { last_serial: v0, sequence: v1 }) && v0 == last_serial && v1 == sequence,
        rd1.rest() == rest,
{
    let args = seq![ArgModel::Uint32(last_serial), ArgModel::Uint32(sequence)];
    reveal_with_fuel(crate::arg::args_fds, 3);
    lemma_read_written("device", request_kinds(Iface::Device, 1), request_slot(Iface::Device, 1), 1, args, rd0, rd1, b0, b1, r, rest);
    let m = r->Ok_0;
    assert(m.wire_args()[0] == args[0]);
    assert(m.wire_args()[1] == args[1]);
}

/// `ei_device.stop_emulating`, as the client writes it: parsing `last_serial`, in this order, gives
/// the request with each value in its own field.
pub proof fn law_eis_device_stop_emulating_read_back<F>(
    last_serial: u32,
    rd0: Reader,
    rd1: Reader,
    b0: Backend<F>,
    b1: Backend<F>,
    r: Result<eis::device::Request, ParseError>,
    rest: Seq<u8>,
)
    requires
        request_slot(Iface::Device, 2) matches Some(s) ==> b0.peer_id_ok(slot_id(s, seq![ArgModel::Uint32(last_serial)])),
        rd0.wf(),
        rd0.rest() == args_bytes(b0.order, seq![ArgModel::Uint32(last_serial)]) + rest,
        parse_post(
            "device",
            request_kinds(Iface::Device, 2),
            request_slot(Iface::Device, 2),
            2,
            rd0,
            rd1,
            b0,
            b1,
            parse_model(r),
        ),
    ensures
        r matches Ok(eis::device::Request::StopEmulating { last_serial: v0 }) && v0 == last_serial,
        rd1.rest() == rest,
{
    let args = seq![ArgModel::Uint32(last_serial)];
    reveal_with_fuel(crate::arg::args_fds, 2);
    lemma_read_written("device", request_kinds(Iface::Device, 2), request_slot(Iface::Device, 2), 2, args, rd0, rd1, b0, b1, r, rest);
    let m = r->Ok_0;
    assert(m.wire_args()[0] == args[0]);
}

/// `ei_device.frame`, as the client writes it: parsing `last_serial`, `timestamp`, in this order, gives
/// the request with each value in its own field.
pub proof fn law_eis_device_frame_read_back<F>(
    last_serial: u32,
    timestamp: u64,
    rd0: Reader,
    rd1: Reader,
    b0: Backend<F>,
    b1: Backend<F>,
    r: Result<eis::device::Request, ParseError>,
    rest: Seq<u8>,
)
    requires
        request_slot(Iface::Device, 3) matches Some(s) ==> b0.peer_id_ok(slot_id(s, seq![ArgModel::Uint32(last_serial), ArgModel::Uint64(timestamp)])),
        rd0.wf(),
        rd0.rest() == args_bytes(b0.order, seq![ArgModel::Uint32(last_serial), ArgModel::Uint64(timestamp)]) + rest,
        parse_post(
            "device",
            request_kinds(Iface::Device, 3),
            request_slot(Iface::Device, 3),
            3,
            rd0,
            rd1,
            b0,
            b1,
            parse_model(r),
        ),
    ensures
        r matches Ok(eis::device::Request::Frame { last_serial: v0, timestamp: v1 }) && v0 == last_serial && v1 == timestamp,
        rd1.rest() == rest,
{
    let args = seq![ArgModel::Uint32(last_serial), ArgModel::Uint64(timestamp)];
    reveal_with_fuel(crate::arg::args_fds, 3);
    lemma_read_written("device", request_kinds(Iface::Device, 3), request_slot(Iface::Device, 3), 3, args, rd0, rd1, b0, b1, r, rest);
    let m = r->Ok_0;
    assert(m.wire_args()[0] == args[0]);
    assert(m.wire_args()[1] == args[1]);
}

/// `ei_pointer.motion_relative`, as the client writes it: parsing `x`, `y`, in this order, gives
/// the request with each value in its own field.
pub proof fn law_eis_pointer_motion_relative_read_back<F>(
    x: u32,
    y: u32,
    rd0: Reader,
    rd1: Reader,
    b0: Backend<F>,
    b1: Backend<F>,
    r: Result<eis::pointer::Request, ParseError>,
    rest: Seq<u8>,
)
    requires
        request_slot(Iface::Pointer, 1) matches Some(s) ==> b0.peer_id_ok(slot_id(s, seq![ArgModel::Float(x), ArgModel::Float(y)])),
        rd0.wf(),
        rd0.rest() == args_bytes(b0.order, seq![ArgModel::Float(x), ArgModel::Float(y)]) + rest,
        parse_post(
            "pointer",
            request_kinds(Iface::Pointer, 1),
            request_slot(Iface::Pointer, 1),
            1,
            rd0,
            rd1,
            b0,
            b1,
            parse_model(r),
        ),
    ensures
        r matches Ok(eis::pointer::Request::MotionRelative { x: v0, y: v1 }) && v0 == x && v1 == y,
        rd1.rest() == rest,
{
    let args = seq![ArgModel::Float(x), ArgModel::Float(y)];
    reveal_with_fuel(crate::arg::args_fds, 3);
    lemma_read_written("pointer", request_kinds(Iface::Pointer, 1), request_slot(Iface::Pointer, 1), 1, args, rd0, rd1, b0, b1, r, rest);
    let m = r->Ok_0;
    assert(m.wire_args()[0] == args[0]);
    assert(m.wire_args()[1] == args[1]);
}

/// `ei_pointer_absolute.motion_absolute`, as the client writes it: parsing `x`, `y`, in this order, gives
/// the request with each value in its own field.
pub proof fn law_eis_pointer_absolute_motion_absolute_read_back<F>(
    x: u32,
    y: u32,
    rd0: Reader,
    rd1: Reader,
    b0: Backend<F>,
    b1: Backend<F>,
    r: Result<eis::pointer_absolute::Request, ParseError>,
    rest: Seq<u8>,
)
    requires
        request_slot(Iface::PointerAbsolute, 1) matches Some(s) ==> b0.peer_id_ok(slot_id(s, seq![ArgModel::Float(x), ArgModel::Float(y)])),
        rd0.wf(),
        rd0.rest() == args_bytes(b0.order, seq![ArgModel::Float(x), ArgModel::Float(y)]) + rest,
        parse_post(
            "pointer_absolute",
            request_kinds(Iface::PointerAbsolute, 1),
            request_slot(Iface::PointerAbsolute, 1),
            1,
            rd0,
            rd1,
            b0,
            b1,
            parse_model(r),
        ),
    ensures
        r matches Ok(eis::pointer_absolute::Request::MotionAbsolute { x: v0, y: v1 }) && v0 == x && v1 == y,
        rd1.rest() == rest,
{
    let args = seq![ArgModel::Float(x), ArgModel::Float(y)];
    reveal_with_fuel(crate::arg::args_fds, 3);
    lemma_read_written("pointer_absolute", request_kinds(Iface::PointerAbsolute, 1), request_slot(Iface::PointerAbsolute, 1), 1, args, rd0, rd1, b0, b1, r, rest);
    let m = r->Ok_0;
    assert(m.wire_args()[0] == args[0]);
    assert(m.wire_args()[1] == args[1]);
}

/// `ei_scroll.scroll`, as the client writes it: parsing `x`, `y`, in this order, gives
/// the request with each value in its own field.
pub proof fn law_eis_scroll_scroll_read_back<F>(
    x: u32,
    y: u32,
    rd0: Reader,
    rd1: Reader,
    b0: Backend<F>,
    b1: Backend<F>,
    r: Result<eis::scroll::Request, ParseError>,
    rest: Seq<u8>,
)
    requires
        request_slot(Iface::Scroll, 1) matches Some(s) ==> b0.peer_id_ok(slot_id(s, seq![ArgModel::Float(x), ArgModel::Float(y)])),
        rd0.wf(),
        rd0.rest() == args_bytes(b0.order, seq![ArgModel::Float(x), ArgModel::Float(y)]) + rest,
        parse_post(
            "scroll",
            request_kinds(Iface::Scroll, 1),
            request_slot(Iface::Scroll, 1),
            1,
            rd0,
            rd1,
            b0,
            b1,
            parse_model(r),
        ),
    ensures
        r matches Ok(eis::scroll::Request::Scroll { x: v0, y: v1 }) && v0 == x && v1 == y,
        rd1.rest() == rest,
{
    let args = seq![ArgModel::Float(x), ArgModel::Float(y)];
    reveal_with_fuel(crate::arg::args_fds, 3);
    lemma_read_written("scroll", request_kinds(Iface::Scroll, 1), request_slot(Iface::Scroll, 1), 1, args, rd0, rd1, b0, b1, r, rest);
    let m = r->Ok_0;
    assert(m.wire_args()[0] == args[0]);
    assert(m.wire_args()[1] == args[1]);
}

/// `ei_scroll.scroll_discrete`, as the client writes it: parsing `x`, `y`, in this order, gives
/// the request with each value in its own field.
pub proof fn law_eis_scroll_scroll_discrete_read_back<F>(
    x: i32,
    y: i32,
    rd0: Reader,
    rd1: Reader,
    b0: Backend<F>,
    b1: Backend<F>,
    r: Result<eis::scroll::Request, ParseError>,
    rest: Seq<u8>,
)
    requires
        request_slot(Iface::Scroll, 2) matches Some(s) ==> b0.peer_id_ok(slot_id(s, seq![ArgModel::Int32(x), ArgModel::Int32(y)])),
        rd0.wf(),
        rd0.rest() == args_bytes(b0.order, seq![ArgModel::Int32(x), ArgModel::Int32(y)]) + rest,
        parse_post(
            "scroll",
            request_kinds(Iface::Scroll, 2),
            request_slot(Iface::Scroll, 2),
            2,
            rd0,
            rd1,
            b0,
            b1,
            parse_model(r),
        ),
    ensures
        r matches Ok(eis::scroll::Request::ScrollDiscrete { x: v0, y: v1 }) && v0 == x && v1 == y,
        rd1.rest() == rest,
{
    let args = seq![ArgModel::Int32(x), ArgModel::Int32(y)];
    reveal_with_fuel(crate::arg::args_fds, 3);
    lemma_read_written("scroll", request_kinds(Iface::Scroll, 2), request_slot(Iface::Scroll, 2), 2, args, rd0, rd1, b0, b1, r, rest);
    let m = r->Ok_0;
    assert(m.wire_args()[0] == args[0]);
    assert(m.wire_args()[1] == args[1]);
}

/// `ei_scroll.scroll_stop`, as the client writes it: parsing `x`, `y`, `is_cancel`, in this order, gives
/// the request with each value in its own field.
pub proof fn law_eis_scroll_scroll_stop_read_back<F>(
    x: u32,
    y: u32,
    is_cancel: u32,
    rd0: Reader,
    rd1: Reader,
    b0: Backend<F>,
    b1: Backend<F>,
    r: Result<eis::scroll::Request, ParseError>,
    rest: Seq<u8>,
)
    requires
        request_slot(Iface::Scroll, 3) matches Some(s) ==> b0.peer_id_ok(slot_id(s, seq![ArgModel::Uint32(x), ArgModel::Uint32(y), ArgModel::Uint32(is_cancel)])),
        rd0.wf(),
        rd0.rest() == args_bytes(b0.order, seq![ArgModel::Uint32(x), ArgModel::Uint32(y), ArgModel::Uint32(is_cancel)]) + rest,
        parse_post(
            "scroll",
            request_kinds(Iface::Scroll, 3),
            request_slot(Iface::Scroll, 3),
            3,
            rd0,
            rd1,
            b0,
            b1,
            parse_model(r),
        ),
    ensures
        r matches Ok(eis::scroll::Request::ScrollStop { x: v0, y: v1, is_cancel: v2 }) && v0 == x && v1 == y && v2 == is_cancel,
        rd1.rest() == rest,
{
    let args = seq![ArgModel::Uint32(x), ArgModel::Uint32(y), ArgModel::Uint32(is_cancel)];
    reveal_with_fuel(crate::arg::args_fds, 4);
    lemma_read_written("scroll", request_kinds(Iface::Scroll, 3), request_slot(Iface::Scroll, 3), 3, args, rd0, rd1, b0, b1, r, rest);
    let m = r->Ok_0;
    assert(m.wire_args()[0] == args[0]);
    assert(m.wire_args()[1] == args[1]);
    assert(m.wire_args()[2] == args[2]);
}

/// `ei_button.button`, as the client writes it: parsing `button`, `state`, in this order, gives
/// the request with each value in its own field.
pub proof fn law_eis_button_button_read_back<F>(
    button: u32,
    state: ButtonState,
    rd0: Reader,
    rd1: Reader,
    b0: Backend<F>,
    b1: Backend<F>,
    r: Result<eis::button::Request, ParseError>,
    rest: Seq<u8>,
)
    requires
        request_slot(Iface::Button, 1) matches Some(s) ==> b0.peer_id_ok(slot_id(s, seq![ArgModel::Uint32(button), ArgModel::Uint32(state.spec_to_u32())])),
        rd0.wf(),
        rd0.rest() == args_bytes(b0.order, seq![ArgModel::Uint32(button), ArgModel::Uint32(state.spec_to_u32())]) + rest,
        parse_post(
            "button",
            request_kinds(Iface::Button, 1),
            request_slot(Iface::Button, 1),
            1,
            rd0,
            rd1,
            b0,
            b1,
            parse_model(r),
        ),
    ensures
        r matches Ok(eis::button::Request::Button { button: v0, state: v1 }) && v0 == button && v1 == state,
        rd1.rest() == rest,
{
    let args = seq![ArgModel::Uint32(button), ArgModel::Uint32(state.spec_to_u32())];
    reveal_with_fuel(crate::arg::args_fds, 3);
    lemma_read_written("button", request_kinds(Iface::Button, 1), request_slot(Iface::Button, 1), 1, args, rd0, rd1, b0, b1, r, rest);
    let m = r->Ok_0;
    assert(m.wire_args()[0] == args[0]);
    assert(m.wire_args()[1] == args[1]);
}

/// `ei_keyboard.key`, as the client writes it: parsing `key`, `state`, in this order, gives
/// the request with each value in its own field.
pub proof fn law_eis_keyboard_key_read_back<F>(
    key: u32,
    state: KeyState,
    rd0: Reader,
    rd1: Reader,
    b0: Backend<F>,
    b1: Backend<F>,
    r: Result<eis::keyboard::Request, ParseError>,
    rest: Seq<u8>,
)
    requires
        request_slot(Iface::Keyboard, 1) matches Some(s) ==> b0.peer_id_ok(slot_id(s, seq![ArgModel::Uint32(key), ArgModel::Uint32(state.spec_to_u32())])),
        rd0.wf(),
        rd0.rest() == args_bytes(b0.order, seq![ArgModel::Uint32(key), ArgModel::Uint32(state.spec_to_u32())]) + rest,
        parse_post(
            "keyboard",
            request_kinds(Iface::Keyboard, 1),
            request_slot(Iface::Keyboard, 1),
            1,
            rd0,
            rd1,
            b0,
            b1,
            parse_model(r),
        ),
    ensures
        r matches Ok(eis::keyboard::Request::Key { key: v0, state: v1 }) && v0 == key && v1 == state,
        rd1.rest() == rest,
{
    let args = seq![ArgModel::Uint32(key), ArgModel::Uint32(state.spec_to_u32())];
    reveal_with_fuel(crate::arg::args_fds, 3);
    lemma_read_written("keyboard", request_kinds(Iface::Keyboard, 1), request_slot(Iface::Keyboard, 1), 1, args, rd0, rd1, b0, b1, r, rest);
    let m = r->Ok_0;
    assert(m.wire_args()[0] == args[0]);
    assert(m.wire_args()[1] == args[1]);
}

/// `ei_touchscreen.down`, as the client writes it: parsing `touchid`, `x`, `y`, in this order, gives
/// the request with each value in its own field.
pub proof fn law_eis_touchscreen_down_read_back<F>(
    touchid: u32,
    x: u32,
    y: u32,
    rd0: Reader,
    rd1: Reader,
    b0: Backend<F>,
    b1: Backend<F>,
    r: Result<eis::touchscreen::Request, ParseError>,
    rest: Seq<u8>,
)
    requires
        request_slot(Iface::Touchscreen, 1) matches Some(s) ==> b0.peer_id_ok(slot_id(s, seq![ArgModel::Uint32(touchid), ArgModel::Float(x), ArgModel::Float(y)])),
        rd0.wf(),
        rd0.rest() == args_bytes(b0.order, seq![ArgModel::Uint32(touchid), ArgModel::Float(x), ArgModel::Float(y)]) + rest,
        parse_post(
            "touchscreen",
            request_kinds(Iface::Touchscreen, 1),
            request_slot(Iface::Touchscreen, 1),
            1,
            rd0,
            rd1,
            b0,
            b1,
            parse_model(r),
        ),
    ensures
        r matches Ok(eis::touchscreen::Request::Down { touchid: v0, x: v1, y: v2 }) && v0 == touchid && v1 == x && v2 == y,
        rd1.rest() == rest,
{
    let args = seq![ArgModel::Uint32(touchid), ArgModel::Float(x), ArgModel::Float(y)];
    reveal_with_fuel(crate::arg::args_fds, 4);
    lemma_read_written("touchscreen", request_kinds(Iface::Touchscreen, 1), request_slot(Iface::Touchscreen, 1), 1, args, rd0, rd1, b0, b1, r, rest);
    let m = r->Ok_0;
    assert(m.wire_args()[0] == args[0]);
    assert(m.wire_args()[1] == args[1]);
    assert(m.wire_args()[2] == args[2]);
}

/// `ei_touchscreen.motion`, as the client writes it: parsing `touchid`, `x`, `y`, in this order, gives
/// the request with each value in its own field.
pub proof fn law_eis_touchscreen_motion_read_back<F>(
    touchid: u32,
    x: u32,
    y: u32,
    rd0: Reader,
    rd1: Reader,
    b0: Backend<F>,
    b1: Backend<F>,
    r: Result<eis::touchscreen::Request, ParseError>,
    rest: Seq<u8>,
)
    requires
        request_slot(Iface::Touchscreen, 2) matches Some(s) ==> b0.peer_id_ok(slot_id(s, seq![ArgModel::Uint32(touchid), ArgModel::Float(x), ArgModel::Float(y)])),
        rd0.wf(),
        rd0.rest() == args_bytes(b0.order, seq![ArgModel::Uint32(touchid), ArgModel::Float(x), ArgModel::Float(y)]) + rest,
        parse_post(
            "touchscreen",
            request_kinds(Iface::Touchscreen, 2),
            request_slot(Iface::Touchscreen, 2),
            2,
            rd0,
            rd1,
            b0,
            b1,
            parse_model(r),
        ),
    ensures
        r matches Ok(eis::touchscreen::Request::Motion { touchid: v0, x: v1, y: v2 }) && v0 == touchid && v1 == x && v2 == y,
        rd1.rest() == rest,
{
    let args = seq![ArgModel::Uint32(touchid), ArgModel::Float(x), ArgModel::Float(y)];
    reveal_with_fuel(crate::arg::args_fds, 4);
    lemma_read_written("touchscreen", request_kinds(Iface::Touchscreen, 2), request_slot(Iface::Touchscreen, 2), 2, args, rd0, rd1, b0, b1, r, rest);
    let m = r->Ok_0;
    assert(m.wire_args()[0] == args[0]);
    assert(m.wire_args()[1] == args[1]);
    assert(m.wire_args()[2] == args[2]);
}

/// `ei_touchscreen.up`, as the client writes it: parsing `touchid`, in this order, gives
/// the request with each value in its own field.
pub proof fn law_eis_touchscreen_up_read_back<F>(
    touchid: u32,
    rd0: Reader,
    rd1: Reader,
    b0: Backend<F>,
    b1: Backend<F>,
    r: Result<eis::touchscreen::Request, ParseError>,
    rest: Seq<u8>,
)
    requires
        request_slot(Iface::Touchscreen, 3) matches Some(s) ==> b0.peer_id_ok(slot_id(s, seq![ArgModel::Uint32(touchid)])),
        rd0.wf(),
        rd0.rest() == args_bytes(b0.order, seq![ArgModel::Uint32(touchid)]) + rest,
        parse_post(
            "touchscreen",
            request_kinds(Iface::Touchscreen, 3),
            request_slot(Iface::Touchscreen, 3),
            3,
            rd0,
            rd1,
            b0,
            b1,
            parse_model(r),
        ),
    ensures
        r matches Ok(eis::touchscreen::Request::Up { touchid: v0 }) && v0 == touchid,
        rd1.rest() == rest,
{
    let args = seq![ArgModel::Uint32(touchid)];
    reveal_with_fuel(crate::arg::args_fds, 2);
    lemma_read_written("touchscreen", request_kinds(Iface::Touchscreen, 3), request_slot(Iface::Touchscreen, 3), 3, args, rd0, rd1, b0, b1, r, rest);
    let m = r->Ok_0;
    assert(m.wire_args()[0] == args[0]);
}

/// `ei_touchscreen.cancel`, as the client writes it: parsing `touchid`, in this order, gives
/// the request with each value in its own field.
pub proof fn law_eis_touchscreen_cancel_read_back<F>(
    touchid: u32,
    rd0: Reader,
    rd1: Reader,
    b0: Backend<F>,
    b1: Backend<F>,
    r: Result<eis::touchscreen::Request, ParseError>,
    rest: Seq<u8>,
)
    requires
        request_slot(Iface::Touchscreen, 4) matches Some(s) ==> b0.peer_id_ok(slot_id(s, seq![ArgModel::Uint32(touchid)])),
        rd0.wf(),
        rd0.rest() == args_bytes(b0.order, seq![ArgModel::Uint32(touchid)]) + rest,
        parse_post(
            "touchscreen",
            request_kinds(Iface::Touchscreen, 4),
            request_slot(Iface::Touchscreen, 4),
            4,
            rd0,
            rd1,
            b0,
            b1,
            parse_model(r),
        ),
    ensures
        r matches Ok(eis::touchscreen::Request::Cancel { touchid: v0 }) && v0 == touchid,
        rd1.rest() == rest,
{
    let args = seq![ArgModel::Uint32(touchid)];
    reveal_with_fuel(crate::arg::args_fds, 2);
    lemma_read_written("touchscreen", request_kinds(Iface::Touchscreen, 4), request_slot(Iface::Touchscreen, 4), 4, args, rd0, rd1, b0, b1, r, rest);
    let m = r->Ok_0;
    assert(m.wire_args()[0] == args[0]);
}

} // verus!
