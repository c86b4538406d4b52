use reis::arg::{Arg, ParseError};
use reis::backend::{Backend, ConnectionReadResult, Received, SERVER_ID_START};
use reis::capability::{Capabilities, DeviceCapability, InvalidBits, ALL_BITS};
use reis::codec::{ByteOrder, Header};
use reis::ei;
use reis::eis;
use reis::enums::{ButtonState, ContextType, DeviceType, DisconnectReason, KeyState, KeymapType};
use reis::event::{self, EiEvent, EiEventConverter, EventTime};
use reis::handshake::{find_interface, interfaces, InterfaceMap};
use reis::message::PendingRequestResult;
use reis::protocol::Iface;
use reis::proto::default_since;
use reis::request::micros;

#[test]
fn capabilities_from_bits() {
    assert!(matches!(Capabilities::from_bits(0x3f), Ok(c) if c.bits == 0x3f));
    assert!(matches!(Capabilities::from_bits(0x41), Err(InvalidBits { invalid: 0x40 })));
    assert_eq!(Capabilities::all().bits, ALL_BITS);
    assert_eq!(Capabilities::empty().bits, 0);
}

#[test]
fn capabilities_insert_contains_iter() {
    let mut c = Capabilities::empty();
    c.insert(DeviceCapability::Scroll);
    c.insert(DeviceCapability::Pointer);
    assert!(c.contains_capability(DeviceCapability::Scroll));
    assert!(!c.contains_capability(DeviceCapability::Button));
    assert_eq!(c.iter(), vec![DeviceCapability::Pointer, DeviceCapability::Scroll]);
    assert!(Capabilities::all().contains(c));
    assert!(!c.contains(Capabilities::all()));
    assert_eq!(DeviceCapability::Touch.bit(), 8);
    assert_eq!(DeviceCapability::Touch.interface_name(), "ei_touchscreen");
    assert_eq!(DeviceCapability::PointerAbsolute.interface_name(), "ei_pointer_absolute");
}

#[test]
fn enum_numbers_and_names() {
    assert_eq!(ContextType::Sender.to_u32(), 2);
    assert_eq!(ContextType::from_u32(1), Some(ContextType::Receiver));
    assert_eq!(ContextType::from_u32(3), None);
    assert_eq!(DisconnectReason::Transport.to_u32(), 5);
    assert_eq!(DisconnectReason::Transport.enum_name(), ("disconnect_reason", "transport"));
    assert_eq!(DeviceType::Physical.enum_name(), ("device_type", "physical"));
    assert_eq!(ButtonState::Press.enum_name(), ("button_state", "press"));
    assert_eq!(KeyState::Released.to_u32(), 0);
    assert_eq!(KeymapType::Xkb.enum_name(), ("keymap_type", "xkb"));
    assert_eq!(ContextType::Receiver.enum_name(), ("context_type", "receiver"));
}

#[test]
fn interface_names() {
    assert_eq!(Iface::from_name("ei_pointer_absolute"), Some(Iface::PointerAbsolute));
    assert_eq!(Iface::from_name("ei_pointer_absolut"), None);
    assert_eq!(Iface::Keyboard.name(), "ei_keyboard");
    assert_eq!(Iface::Keyboard.short_name(), "keyboard");
    assert_eq!(ei::Event::<i32>::op_name("ei_device", 1), Some("name"));
    assert_eq!(eis::Request::op_name("ei_seat", 1), Some("bind"));
    assert_eq!(eis::Request::op_name("ei_seat", 9), None);
    assert_eq!(eis::Request::op_name("ei_nothing", 0), None);
}

#[test]
fn supported_interfaces() {
    let all = interfaces();
    assert!(all.contains(&("ei_connection", 1)));
    assert!(!all.iter().any(|(n, _)| *n == "ei_handshake"));
    assert_eq!(all.len(), 11);
    assert_eq!(find_interface("ei_callback"), Some(("ei_callback", 1)));
    assert_eq!(find_interface("ei_nope"), None);
    for (name, version) in &all {
        assert_eq!(find_interface(name), Some((*name, *version)));
    }
}

#[test]
fn interface_map_keeps_the_last_version() {
    let mut m = InterfaceMap::new();
    m.insert("ei_pointer".to_string(), 1);
    m.insert("ei_seat".to_string(), 1);
    m.insert("ei_pointer".to_string(), 2);
    assert_eq!(m.len(), 2);
    assert_eq!(m.get("ei_pointer"), Some(2));
    assert!(m.contains_key("ei_seat"));
    assert!(!m.contains_key("ei_device"));
    let taken = m.take();
    assert_eq!(taken.len(), 2);
    assert_eq!(m.len(), 0);
}

#[test]
fn micros_of_a_timespec() {
    assert_eq!(micros(2, 500_000), 2_000_500);
    assert_eq!(micros(0, 999), 0);
    assert_eq!(micros(-1, 0), (-1_000_000i64) as u64);
}

#[test]
fn default_since_is_one() {
    assert_eq!(default_since(), 1);
}

#[test]
fn read_results() {
    assert!(ConnectionReadResult::EOF.is_eof());
    assert!(!ConnectionReadResult::Read(3).is_eof());
}

#[test]
fn backend_ids() {
    let mut c: Backend<i32> = Backend::new(true, ByteOrder::Little);
    let mut s: Backend<i32> = Backend::new(false, ByteOrder::Little);
    assert_eq!(c.next_id, 1);
    assert_eq!(s.next_id, SERVER_ID_START);
    let o = c.new_object("ei_callback".to_string(), 1);
    assert_eq!(o.id, 1);
    assert_eq!(c.next_id, 2);
    assert_eq!(c.new_id(), 2);
    assert_eq!(c.next_id, 3);
    assert_eq!(s.new_id(), SERVER_ID_START);
    assert!(c.has_object_for_id(1));
    assert!(o.is_alive(&c));
    c.remove_id(1);
    assert!(!o.is_alive(&c));
    assert!(matches!(c.new_peer_object(5, "ei_seat".to_string(), 1), Err(ParseError::InvalidId(5))));
    assert!(c.new_peer_object(SERVER_ID_START + 3, "ei_seat".to_string(), 1).is_ok());
    assert!(s.new_peer_object(2, "ei_seat".to_string(), 1).is_ok());
    assert!(matches!(s.new_peer_object(SERVER_ID_START, "ei_seat".to_string(), 1), Err(ParseError::InvalidId(_))));
}

#[test]
fn request_is_framed_with_a_header() {
    let mut b: Backend<i32> = Backend::new(true, ByteOrder::Little);
    b.request(0, 3, vec![Arg::Uint32(9), Arg::String(Some("x"))]);
    assert_eq!(b.write_buf.len(), 16 + 4 + 8);
    let mut h = [0u8; 16];
    h.copy_from_slice(&b.write_buf[..16]);
    assert_eq!(Header::parse(ByteOrder::Little, h), Header { object_id: 0, length: 28, opcode: 3 });
    b.written(10);
    assert_eq!(b.write_buf.len(), 18);
}

#[test]
fn short_header_length_is_reported() {
    let mut b: Backend<i32> = Backend::new(true, ByteOrder::Little);
    let h = Header { object_id: 0, length: 8, opcode: 0 };
    b.receive(&h.as_bytes(ByteOrder::Little), vec![]);
    assert!(matches!(b.take_frame(), Some(Received::HeaderLength(8))));
    assert_eq!(b.read_buf.len(), 16);
}

#[test]
fn message_for_unknown_object_is_skipped() {
    let mut b: Backend<i32> = Backend::new(true, ByteOrder::Little);
    let h = Header { object_id: 77, length: 20, opcode: 0 };
    let mut bytes = h.as_bytes(ByteOrder::Little);
    bytes.extend_from_slice(&[1, 2, 3, 4]);
    b.receive(&bytes, vec![]);
    assert!(matches!(b.take_frame(), Some(Received::InvalidObject(77))));
    assert!(b.read_buf.is_empty());
    assert!(b.take_frame().is_none());
}

#[test]
fn incomplete_message_waits() {
    let mut b: Backend<i32> = Backend::new(true, ByteOrder::Little);
    let h = Header { object_id: 0, length: 20, opcode: 0 };
    b.receive(&h.as_bytes(ByteOrder::Little), vec![]);
    assert!(b.take_frame().is_none());
    b.receive(&[1, 0, 0, 0], vec![]);
    assert!(matches!(b.take_frame(), Some(Received::Message { header, body, .. }) if header.length == 20 && body == vec![1, 0, 0, 0]));
}

#[test]
fn what_the_server_sends_the_client_receives() {
    let mut server: eis::Context<i32> = eis::Context::new();
    let mut client: ei::Context<i32> = ei::Context::new();
    let h = server.handshake();
    h.interface_version(&mut server.0, "ei_seat", 1);
    client.0.receive(&server.0.write_buf, vec![]);
    match client.pending_event() {
        Some(PendingRequestResult::Request(ei::Event::Handshake(p, ei::handshake::Event::InterfaceVersion { name, version }))) => {
            assert_eq!(p.0.id, 0);
            assert_eq!(name, "ei_seat");
            assert_eq!(version, 1);
        },
        _ => panic!("expected the interface version"),
    }
    assert!(client.pending_event().is_none());
}

#[test]
fn unknown_opcode_is_a_parse_error() {
    let mut client: ei::Context<i32> = ei::Context::new();
    let h = Header { object_id: 0, length: 16, opcode: 9 };
    client.0.receive(&h.as_bytes(reis::codec::host_byte_order()), vec![]);
    assert!(matches!(client.pending_event(), Some(PendingRequestResult::ParseError(ParseError::InvalidOpcode("handshake", 9)))));
}

#[test]
fn trailing_bytes_are_a_length_error() {
    let mut client: ei::Context<i32> = ei::Context::new();
    let o = reis::codec::host_byte_order();
    let h = Header { object_id: 0, length: 24, opcode: 0 };
    let mut bytes = h.as_bytes(o);
    let mut tail = Vec::new();
    reis::codec::put_u32(o, 1, &mut tail);
    reis::codec::put_u32(o, 0, &mut tail);
    bytes.extend_from_slice(&tail);
    client.0.receive(&bytes, vec![]);
    assert!(matches!(client.pending_event(), Some(PendingRequestResult::ParseError(ParseError::MessageLength(28, 24)))));
}

#[test]
fn event_args_are_the_wire_arguments() {
    let e: ei::seat::Event = ei::seat::Event::Capability { mask: 4, interface: "ei_keyboard".to_string() };
    let args: Vec<Arg<'_, i32>> = e.args();
    assert_eq!(args.len(), 2);
    assert!(matches!(args[0], Arg::Uint64(4)));
    assert!(matches!(args[1], Arg::String(Some("ei_keyboard"))));
    let k: ei::keyboard::Event<i32> = ei::keyboard::Event::Keymap { keymap_type: KeymapType::Xkb, size: 10, keymap: 3 };
    let args = k.args();
    assert!(matches!(args[0], Arg::Uint32(1)));
    assert!(matches!(args[2], Arg::Fd(&3)));
}

#[test]
fn pending_events_are_only_timed_ones() {
    let mut b: Backend<i32> = Backend::new(true, ByteOrder::Little);
    let mut conv: EiEventConverter<i32> = EiEventConverter::new(0);
    let obj = |id: u64, i: &str| reis::backend::Object { id, interface: i.to_string(), version: 1, client_side: true };
    conv.handle_event(ei::Event::Connection(ei::Connection(obj(1, "ei_connection")), ei::connection::Event::Seat { seat: ei::Seat(obj(2, "ei_seat")) }), &mut b).unwrap();
    conv.handle_event(ei::Event::Seat(ei::Seat(obj(2, "ei_seat")), ei::seat::Event::Done), &mut b).unwrap();
    conv.handle_event(ei::Event::Seat(ei::Seat(obj(2, "ei_seat")), ei::seat::Event::Device { device: ei::Device(obj(3, "ei_device")) }), &mut b).unwrap();
    conv.handle_event(ei::Event::Device(ei::Device(obj(3, "ei_device")), ei::device::Event::Interface { object: obj(4, "ei_button") }), &mut b).unwrap();
    conv.handle_event(ei::Event::Device(ei::Device(obj(3, "ei_device")), ei::device::Event::DeviceType { device_type: DeviceType::Virtual }), &mut b).unwrap();
    conv.handle_event(ei::Event::Device(ei::Device(obj(3, "ei_device")), ei::device::Event::Done), &mut b).unwrap();
    conv.handle_event(ei::Event::Button(ei::Button(obj(4, "ei_button")), ei::button::Event::Button { button: 272, state: ButtonState::Press }), &mut b).unwrap();
    conv.handle_event(ei::Event::Device(ei::Device(obj(3, "ei_device")), ei::device::Event::Paused { serial: 2 }), &mut b).unwrap();
    assert_eq!(conv.pending_events.len(), 1);
    assert!(conv.pending_events.iter().all(|e| e.is_timed()));
    conv.handle_event(ei::Event::Device(ei::Device(obj(3, "ei_device")), ei::device::Event::Frame { serial: 3, timestamp: 50 }), &mut b).unwrap();
    assert!(conv.pending_events.is_empty());
    let kinds: Vec<&'static str> = std::iter::from_fn(|| conv.next_event())
        .map(|e| match e {
            EiEvent::SeatAdded(_) => "seat",
            EiEvent::DeviceAdded(_) => "device",
            EiEvent::DevicePaused(_) => "paused",
            EiEvent::Button(b) => {
                assert_eq!(b.time(), 50);
                "button"
            },
            EiEvent::Frame(_) => "frame",
            _ => "other",
        })
        .collect();
    assert_eq!(kinds, vec!["seat", "device", "paused", "button", "frame"]);
    let _ = event::Error::NoDeviceType;
}
