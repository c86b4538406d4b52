use reis::backend::{Backend, Object};
use reis::capability::{Capabilities, DeviceCapability};
use reis::codec::ByteOrder;
use reis::ei;
use reis::eis;
use reis::enums::{ContextType, DeviceType};
use reis::error::Error;
use reis::event::{self, EiEvent, EiEventConverter};
use reis::handshake::{EiHandshaker, EisHandshakeResp, EisHandshaker, HandshakeResp};
use reis::message::PendingRequestResult;
use reis::request::{EisRequest, EisRequestConverter, RequestError, EIS_MAX_TOUCHES};

fn transfer(from: &mut Backend<i32>, to: &mut Backend<i32>) {
    let bytes = from.write_buf.clone();
    let fds = std::mem::take(&mut from.write_fds);
    to.receive(&bytes, fds);
    from.written(bytes.len());
}

fn handshake(
    client: &mut ei::Context<i32>,
    server: &mut eis::Context<i32>,
    name: &'static str,
    context_type: ContextType,
) -> (HandshakeResp, EisHandshakeResp) {
    let mut eis_hs = EisHandshaker::new(server, 7);
    transfer(&mut server.0, &mut client.0);
    let mut ei_hs = EiHandshaker::new(name, context_type);
    let ev = match client.pending_event() {
        Some(PendingRequestResult::Request(e)) => e,
        _ => panic!("no handshake version"),
    };
    assert!(matches!(ei_hs.handle_event(ev, &mut client.0), Ok(None)));
    transfer(&mut client.0, &mut server.0);
    let mut server_resp = None;
    while let Some(r) = server.pending_request() {
        let req = match r {
            PendingRequestResult::Request(q) => q,
            _ => panic!("bad request"),
        };
        if let Some(x) = eis_hs.handle_request(req, &mut server.0).unwrap() {
            server_resp = Some(x);
        }
    }
    let server_resp = server_resp.expect("server finished");
    transfer(&mut server.0, &mut client.0);
    let mut client_resp = None;
    while let Some(r) = client.pending_event() {
        let ev = match r {
            PendingRequestResult::Request(e) => e,
            _ => panic!("bad event"),
        };
        if let Some(x) = ei_hs.handle_event(ev, &mut client.0).unwrap() {
            client_resp = Some(x);
        }
    }
    (client_resp.expect("client finished"), server_resp)
}

fn pump_events(client: &mut ei::Context<i32>, conv: &mut EiEventConverter<i32>) {
    while let Some(r) = client.pending_event() {
        match r {
            PendingRequestResult::Request(ev) => conv.handle_event(ev, &mut client.0).unwrap(),
            _ => panic!("bad event"),
        }
    }
}

fn pump_requests(server: &mut eis::Context<i32>, conv: &mut EisRequestConverter) {
    while let Some(r) = server.pending_request() {
        match r {
            PendingRequestResult::Request(q) => conv.handle_request(q, &mut server.0).unwrap(),
            _ => panic!("bad request"),
        }
    }
}

fn obj(id: u64, interface: &str, version: u32) -> Object {
    Object { id, interface: interface.to_string(), version, client_side: true }
}

fn touch_setup(version_one: bool) -> (eis::Context<i32>, EisRequestConverter, eis::Touchscreen, reis::request::Seat) {
    let mut client: ei::Context<i32> = ei::Context::new();
    let mut server: eis::Context<i32> = eis::Context::new();
    let (_c, s) = handshake(&mut client, &mut server, "touch", ContextType::Sender);
    let mut reqs = EisRequestConverter::new(s, 1);
    let mut caps = Capabilities::empty();
    caps.insert(DeviceCapability::Touch);
    caps.insert(DeviceCapability::Pointer);
    let seat = reqs.connection.add_seat(&mut server.0, Some("s"), caps);
    let mut dcaps = Capabilities::empty();
    dcaps.insert(DeviceCapability::Touch);
    let device = seat.add_device(&mut reqs.connection, &mut server.0, Some("t"), DeviceType::Virtual, dcaps);
    let mut ts: eis::Touchscreen = device.interface().expect("touchscreen");
    if version_one {
        ts.0.version = 1;
    }
    (server, reqs, ts, seat)
}

fn touch(reqs: &mut EisRequestConverter, server: &mut eis::Context<i32>, ts: &eis::Touchscreen, r: eis::touchscreen::Request) -> Result<(), Error> {
    reqs.handle_request(eis::Request::Touchscreen(ts.clone(), r), &mut server.0)
}

#[test]
fn too_many_touches() {
    let (mut server, mut reqs, ts, _seat) = touch_setup(false);
    for id in 0..EIS_MAX_TOUCHES as u32 {
        touch(&mut reqs, &mut server, &ts, eis::touchscreen::Request::Down { touchid: id, x: 0, y: 0 }).unwrap();
    }
    let r = touch(&mut reqs, &mut server, &ts, eis::touchscreen::Request::Down { touchid: 100, x: 0, y: 0 });
    assert!(matches!(r, Err(Error::Request(RequestError::TooManyTouches))));
    touch(&mut reqs, &mut server, &ts, eis::touchscreen::Request::Up { touchid: 3 }).unwrap();
    touch(&mut reqs, &mut server, &ts, eis::touchscreen::Request::Down { touchid: 100, x: 0, y: 0 }).unwrap();
    assert_eq!(reqs.pending_requests.len(), EIS_MAX_TOUCHES + 2);
}

#[test]
fn duplicated_touch_down() {
    let (mut server, mut reqs, ts, _seat) = touch_setup(false);
    touch(&mut reqs, &mut server, &ts, eis::touchscreen::Request::Down { touchid: 5, x: 1, y: 2 }).unwrap();
    let r = touch(&mut reqs, &mut server, &ts, eis::touchscreen::Request::Down { touchid: 5, x: 1, y: 2 });
    assert!(matches!(r, Err(Error::Request(RequestError::DuplicatedTouchDown))));
    assert_eq!(reqs.pending_requests.len(), 1);
}

#[test]
fn motion_of_a_touch_that_is_up_is_ignored() {
    let (mut server, mut reqs, ts, _seat) = touch_setup(false);
    touch(&mut reqs, &mut server, &ts, eis::touchscreen::Request::Motion { touchid: 9, x: 1, y: 2 }).unwrap();
    touch(&mut reqs, &mut server, &ts, eis::touchscreen::Request::Up { touchid: 9 }).unwrap();
    assert!(reqs.pending_requests.is_empty());
    assert!(reqs.requests.is_empty());
}

#[test]
fn touch_cancel_needs_version_two() {
    let (mut server, mut reqs, ts, _seat) = touch_setup(true);
    touch(&mut reqs, &mut server, &ts, eis::touchscreen::Request::Down { touchid: 1, x: 0, y: 0 }).unwrap();
    let r = touch(&mut reqs, &mut server, &ts, eis::touchscreen::Request::Cancel { touchid: 1 });
    assert!(matches!(r, Err(Error::InvalidInterfaceVersion("ei_touchscreen", 1))));
}

#[test]
fn touch_cancel_frees_the_touch() {
    let (mut server, mut reqs, ts, _seat) = touch_setup(false);
    if ts.0.version < 2 {
        return;
    }
    touch(&mut reqs, &mut server, &ts, eis::touchscreen::Request::Down { touchid: 1, x: 0, y: 0 }).unwrap();
    touch(&mut reqs, &mut server, &ts, eis::touchscreen::Request::Cancel { touchid: 1 }).unwrap();
    touch(&mut reqs, &mut server, &ts, eis::touchscreen::Request::Down { touchid: 1, x: 0, y: 0 }).unwrap();
    assert_eq!(reqs.pending_requests.len(), 3);
}

#[test]
fn bind_outside_the_seat_capabilities() {
    let (mut server, mut reqs, _ts, seat) = touch_setup(false);
    let s = seat.eis_seat().clone();
    let r = reqs.handle_request(eis::Request::Seat(s.clone(), eis::seat::Request::Bind { capabilities: 0x40 }), &mut server.0);
    assert!(matches!(r, Err(Error::Request(RequestError::InvalidCapabilities))));
    let r = reqs.handle_request(eis::Request::Seat(s.clone(), eis::seat::Request::Bind { capabilities: 4 }), &mut server.0);
    assert!(matches!(r, Err(Error::Request(RequestError::InvalidCapabilities))));
    let r = reqs.handle_request(eis::Request::Seat(s, eis::seat::Request::Bind { capabilities: 8 | 1 }), &mut server.0);
    assert!(r.is_ok());
    match reqs.next_request() {
        Some(EisRequest::Bind(b)) => assert_eq!(b.capabilities.bits, 9),
        _ => panic!("expected a bind"),
    }
}

#[test]
fn handshake_request_after_handshake() {
    let (mut server, mut reqs, _ts, _seat) = touch_setup(false);
    let h = eis::Handshake(obj(0, "ei_handshake", 1));
    let r = reqs.handle_request(eis::Request::Handshake(h, eis::handshake::Request::Finish), &mut server.0);
    assert!(matches!(r, Err(Error::UnexpectedHandshakeEvent)));
}

#[test]
fn frame_for_a_device_with_nothing_waiting_is_dropped() {
    let (mut server, mut reqs, ts, _seat) = touch_setup(false);
    let dev = reqs.connection.devices[0].device.device().clone();
    reqs.handle_request(eis::Request::Device(dev.clone(), eis::device::Request::Frame { last_serial: 0, timestamp: 5 }), &mut server.0).unwrap();
    assert!(reqs.requests.is_empty());
    touch(&mut reqs, &mut server, &ts, eis::touchscreen::Request::Down { touchid: 1, x: 0, y: 0 }).unwrap();
    reqs.handle_request(eis::Request::Device(dev, eis::device::Request::Frame { last_serial: 0, timestamp: 6 }), &mut server.0).unwrap();
    match reqs.next_request() {
        Some(EisRequest::TouchDown(t)) => assert_eq!(t.time, 6),
        _ => panic!("expected a touch"),
    }
    assert!(matches!(reqs.next_request(), Some(EisRequest::Frame(_))));
}

fn client_backend() -> Backend<i32> {
    Backend::new(true, ByteOrder::Little)
}

fn seat_event(id: u64, e: ei::seat::Event) -> ei::Event<i32> {
    ei::Event::Seat(ei::Seat(obj(id, "ei_seat", 1)), e)
}

fn device_event(id: u64, e: ei::device::Event) -> ei::Event<i32> {
    ei::Event::Device(ei::Device(obj(id, "ei_device", 1)), e)
}

fn new_seat(conv: &mut EiEventConverter<i32>, b: &mut Backend<i32>, id: u64) {
    let c = ei::Connection(obj(1, "ei_connection", 1));
    conv.handle_event(ei::Event::Connection(c, ei::connection::Event::Seat { seat: ei::Seat(obj(id, "ei_seat", 1)) }), b).unwrap();
}

#[test]
fn client_seat_setup_and_errors() {
    let mut b = client_backend();
    let mut conv: EiEventConverter<i32> = EiEventConverter::new(0);
    let r = conv.handle_event(seat_event(10, ei::seat::Event::Name { name: "x".to_string() }), &mut b);
    assert!(matches!(r, Err(event::Error::SeatSetupEventAfterDone)));
    new_seat(&mut conv, &mut b, 10);
    conv.handle_event(seat_event(10, ei::seat::Event::Name { name: "x".to_string() }), &mut b).unwrap();
    let r = conv.handle_event(seat_event(10, ei::seat::Event::Device { device: ei::Device(obj(20, "ei_device", 1)) }), &mut b);
    assert!(matches!(r, Err(event::Error::SeatEventBeforeDone)));
    conv.handle_event(seat_event(10, ei::seat::Event::Done), &mut b).unwrap();
    match conv.next_event() {
        Some(EiEvent::SeatAdded(a)) => assert_eq!(a.seat.name(), Some("x")),
        _ => panic!("expected a seat"),
    }
    let r = conv.handle_event(seat_event(10, ei::seat::Event::Done), &mut b);
    assert!(matches!(r, Err(event::Error::SeatSetupEventAfterDone)));
    conv.handle_event(seat_event(10, ei::seat::Event::Destroyed { serial: 44 }), &mut b).unwrap();
    assert_eq!(conv.serial(), 44);
    assert!(matches!(conv.next_event(), Some(EiEvent::SeatRemoved(_))));
    assert!(conv.seats.is_empty());
}

#[test]
fn client_device_setup_and_errors() {
    let mut b = client_backend();
    let mut conv: EiEventConverter<i32> = EiEventConverter::new(0);
    new_seat(&mut conv, &mut b, 10);
    conv.handle_event(seat_event(10, ei::seat::Event::Done), &mut b).unwrap();
    assert!(matches!(conv.next_event(), Some(EiEvent::SeatAdded(_))));
    conv.handle_event(seat_event(10, ei::seat::Event::Device { device: ei::Device(obj(20, "ei_device", 1)) }), &mut b).unwrap();
    let r = conv.handle_event(device_event(21, ei::device::Event::Name { name: "d".to_string() }), &mut b);
    assert!(matches!(r, Err(event::Error::DeviceSetupEventAfterDone)));
    let r = conv.handle_event(device_event(20, ei::device::Event::Resumed { serial: 3 }), &mut b);
    assert!(matches!(r, Err(event::Error::DeviceEventBeforeDone)));
    assert_eq!(conv.serial(), 3);
    conv.handle_event(device_event(20, ei::device::Event::RegionMappingId { mapping_id: "m".to_string() }), &mut b).unwrap();
    conv.handle_event(device_event(20, ei::device::Event::Region { offset_x: 1, offset_y: 2, width: 3, hight: 4, scale: 1.0f32.to_bits() }), &mut b).unwrap();
    conv.handle_event(device_event(20, ei::device::Event::Dimensions { width: 640, height: 480 }), &mut b).unwrap();
    conv.handle_event(device_event(20, ei::device::Event::Interface { object: obj(30, "ei_pointer", 1) }), &mut b).unwrap();
    let r = conv.handle_event(device_event(20, ei::device::Event::Done), &mut b);
    assert!(matches!(r, Err(event::Error::NoDeviceType)));
    assert!(conv.pending_devices.is_empty());

    conv.handle_event(seat_event(10, ei::seat::Event::Device { device: ei::Device(obj(20, "ei_device", 1)) }), &mut b).unwrap();
    conv.handle_event(device_event(20, ei::device::Event::RegionMappingId { mapping_id: "m".to_string() }), &mut b).unwrap();
    conv.handle_event(device_event(20, ei::device::Event::Region { offset_x: 1, offset_y: 2, width: 3, hight: 4, scale: 1.0f32.to_bits() }), &mut b).unwrap();
    conv.handle_event(device_event(20, ei::device::Event::Dimensions { width: 640, height: 480 }), &mut b).unwrap();
    conv.handle_event(device_event(20, ei::device::Event::Interface { object: obj(30, "ei_pointer", 1) }), &mut b).unwrap();
    conv.handle_event(device_event(20, ei::device::Event::DeviceType { device_type: DeviceType::Physical }), &mut b).unwrap();
    conv.handle_event(device_event(20, ei::device::Event::Done), &mut b).unwrap();
    let d = match conv.next_event() {
        Some(EiEvent::DeviceAdded(a)) => a.device,
        _ => panic!("expected a device"),
    };
    assert_eq!(d.dimensions(), Some((640, 480)));
    assert_eq!(d.regions().len(), 1);
    assert_eq!(d.regions()[0].mapping_id.as_deref(), Some("m"));
    assert_eq!(d.regions()[0].height, 4);
    assert_eq!(d.device_type(), DeviceType::Physical);
    assert!(d.interface::<ei::Pointer>().is_some());

    let p = ei::Pointer(obj(30, "ei_pointer", 1));
    conv.handle_event(ei::Event::Pointer(p.clone(), ei::pointer::Event::MotionRelative { x: 1, y: 2 }), &mut b).unwrap();
    assert!(conv.next_event().is_none());
    conv.handle_event(device_event(20, ei::device::Event::Frame { serial: 8, timestamp: 77 }), &mut b).unwrap();
    match conv.next_event() {
        Some(EiEvent::PointerMotion(m)) => assert_eq!((m.time, m.dx, m.dy), (77, 1, 2)),
        _ => panic!("expected motion"),
    }
    match conv.next_event() {
        Some(EiEvent::Frame(f)) => assert_eq!((f.time, f.serial), (77, 8)),
        _ => panic!("expected a frame"),
    }
    conv.handle_event(ei::Event::Pointer(p.clone(), ei::pointer::Event::Destroyed { serial: 9 }), &mut b).unwrap();
    let r = conv.handle_event(ei::Event::Pointer(p, ei::pointer::Event::MotionRelative { x: 1, y: 2 }), &mut b);
    assert!(matches!(r, Err(event::Error::DeviceEventBeforeDone)));
    conv.handle_event(device_event(20, ei::device::Event::Destroyed { serial: 10 }), &mut b).unwrap();
    assert!(matches!(conv.next_event(), Some(EiEvent::DeviceRemoved(_))));
    assert_eq!(conv.serial(), 10);
}

#[test]
fn client_scroll_stop_or_cancel() {
    let mut b = client_backend();
    let mut conv: EiEventConverter<i32> = EiEventConverter::new(0);
    new_seat(&mut conv, &mut b, 10);
    conv.handle_event(seat_event(10, ei::seat::Event::Done), &mut b).unwrap();
    conv.handle_event(seat_event(10, ei::seat::Event::Device { device: ei::Device(obj(20, "ei_device", 1)) }), &mut b).unwrap();
    conv.handle_event(device_event(20, ei::device::Event::Interface { object: obj(31, "ei_scroll", 1) }), &mut b).unwrap();
    conv.handle_event(device_event(20, ei::device::Event::DeviceType { device_type: DeviceType::Virtual }), &mut b).unwrap();
    conv.handle_event(device_event(20, ei::device::Event::Done), &mut b).unwrap();
    let s = ei::Scroll(obj(31, "ei_scroll", 1));
    conv.handle_event(ei::Event::Scroll(s.clone(), ei::scroll::Event::ScrollStop { x: 1, y: 0, is_cancel: 1 }), &mut b).unwrap();
    conv.handle_event(ei::Event::Scroll(s, ei::scroll::Event::ScrollStop { x: 0, y: 1, is_cancel: 0 }), &mut b).unwrap();
    conv.handle_event(device_event(20, ei::device::Event::Frame { serial: 1, timestamp: 5 }), &mut b).unwrap();
    assert!(matches!(conv.next_event(), Some(EiEvent::SeatAdded(_))));
    assert!(matches!(conv.next_event(), Some(EiEvent::DeviceAdded(_))));
    assert!(matches!(conv.next_event(), Some(EiEvent::ScrollCancel(c)) if c.x && !c.y && c.time == 5));
    assert!(matches!(conv.next_event(), Some(EiEvent::ScrollStop(c)) if !c.x && c.y && c.time == 5));
}

#[test]
fn client_refuses_handshake_events_and_answers_pings() {
    let mut b = client_backend();
    let mut conv: EiEventConverter<i32> = EiEventConverter::new(0);
    let h = ei::Handshake(obj(0, "ei_handshake", 1));
    let r = conv.handle_event(ei::Event::Handshake(h, ei::handshake::Event::HandshakeVersion { version: 1 }), &mut b);
    assert!(matches!(r, Err(event::Error::UnexpectedHandshakeEvent)));
    let c = ei::Connection(obj(1, "ei_connection", 1));
    b.new_peer_object(0xff00_0000_0000_0005, "ei_pingpong".to_string(), 1).unwrap();
    let ping = ei::Pingpong(obj(0xff00_0000_0000_0005, "ei_pingpong", 1));
    conv.handle_event(ei::Event::Connection(c, ei::connection::Event::Ping { ping }), &mut b).unwrap();
    assert_eq!(b.write_buf.len(), 16 + 8);
    assert!(!b.has_object_for_id(0xff00_0000_0000_0005));
}

#[test]
fn an_object_announced_twice_is_kept_once() {
    let mut b = client_backend();
    let mut conv: EiEventConverter<i32> = EiEventConverter::new(0);
    new_seat(&mut conv, &mut b, 10);
    conv.handle_event(seat_event(10, ei::seat::Event::Name { name: "first".to_string() }), &mut b).unwrap();
    new_seat(&mut conv, &mut b, 10);
    assert_eq!(conv.pending_seats.len(), 1);
    assert!(conv.pending_seats[0].name.is_none());
    conv.handle_event(seat_event(10, ei::seat::Event::Done), &mut b).unwrap();
    new_seat(&mut conv, &mut b, 10);
    conv.handle_event(seat_event(10, ei::seat::Event::Done), &mut b).unwrap();
    assert_eq!(conv.seats.len(), 1);
    conv.handle_event(seat_event(10, ei::seat::Event::Device { device: ei::Device(obj(20, "ei_device", 1)) }), &mut b).unwrap();
    conv.handle_event(seat_event(10, ei::seat::Event::Device { device: ei::Device(obj(20, "ei_device", 1)) }), &mut b).unwrap();
    assert_eq!(conv.pending_devices.len(), 1);
}

#[test]
fn unknown_capability_names_are_not_kept() {
    let mut b = client_backend();
    let mut conv: EiEventConverter<i32> = EiEventConverter::new(0);
    new_seat(&mut conv, &mut b, 10);
    conv.handle_event(seat_event(10, ei::seat::Event::Capability { mask: 2, interface: "ei_pointer".to_string() }), &mut b).unwrap();
    conv.handle_event(seat_event(10, ei::seat::Event::Capability { mask: 64, interface: "ei_other".to_string() }), &mut b).unwrap();
    assert_eq!(conv.pending_seats[0].capabilities.get(DeviceCapability::Pointer), Some(2));
    assert_eq!(conv.pending_seats[0].capabilities.get(DeviceCapability::Keyboard), None);
    conv.handle_event(seat_event(10, ei::seat::Event::Done), &mut b).unwrap();
    let seat = match conv.next_event() {
        Some(EiEvent::SeatAdded(a)) => a.seat,
        _ => panic!("expected a seat"),
    };
    let mut out = client_backend();
    seat.bind_capabilities(&mut out, &[DeviceCapability::Pointer, DeviceCapability::Keyboard]);
    assert_eq!(out.write_buf.len(), 16 + 8);
    assert_eq!(&out.write_buf[16..], &2u64.to_le_bytes());
}

#[test]
fn a_device_request_ends_the_waiting_group_with_a_frame() {
    let (mut server, mut reqs, ts, _seat) = touch_setup(false);
    let dev = reqs.connection.devices[0].device.device().clone();
    touch(&mut reqs, &mut server, &ts, eis::touchscreen::Request::Down { touchid: 1, x: 0, y: 0 }).unwrap();
    reqs.handle_request(eis::Request::Device(dev, eis::device::Request::StopEmulating { last_serial: 0 }), &mut server.0).unwrap();
    assert!(reqs.pending_requests.is_empty());
    let t = match reqs.next_request() {
        Some(EisRequest::TouchDown(d)) => d.time,
        _ => panic!("expected a touch"),
    };
    match reqs.next_request() {
        Some(EisRequest::Frame(f)) => assert_eq!(f.time, t),
        _ => panic!("expected a frame"),
    }
    assert!(matches!(reqs.next_request(), Some(EisRequest::DeviceStopEmulating(_))));
    assert!(t > 0);
}

#[test]
fn unknown_object_is_answered_with_invalid_object() {
    let (mut server, mut reqs, _ts, _seat) = touch_setup(false);
    server.0.written(server.0.write_buf.len());
    let r = reqs.handle_pending(PendingRequestResult::InvalidObject(99), &mut server.0);
    assert!(r.is_ok());
    assert_eq!(server.0.write_buf.len(), 16 + 4 + 8);
    let r = reqs.handle_pending(PendingRequestResult::ParseError(reis::arg::ParseError::NoFd), &mut server.0);
    assert!(matches!(r, Err(Error::Parse(reis::arg::ParseError::NoFd))));
}

#[test]
fn a_touch_stays_down_until_lifted() {
    let (mut server, mut reqs, ts, _seat) = touch_setup(false);
    touch(&mut reqs, &mut server, &ts, eis::touchscreen::Request::Down { touchid: 5, x: 1, y: 2 }).unwrap();
    touch(&mut reqs, &mut server, &ts, eis::touchscreen::Request::Motion { touchid: 5, x: 3, y: 4 }).unwrap();
    touch(&mut reqs, &mut server, &ts, eis::touchscreen::Request::Down { touchid: 6, x: 0, y: 0 }).unwrap();
    touch(&mut reqs, &mut server, &ts, eis::touchscreen::Request::Up { touchid: 6 }).unwrap();
    let before = reqs.pending_requests.len();
    let r = touch(&mut reqs, &mut server, &ts, eis::touchscreen::Request::Down { touchid: 5, x: 1, y: 2 });
    assert!(matches!(r, Err(Error::Request(RequestError::DuplicatedTouchDown))));
    assert_eq!(reqs.pending_requests.len(), before);
    touch(&mut reqs, &mut server, &ts, eis::touchscreen::Request::Up { touchid: 5 }).unwrap();
    touch(&mut reqs, &mut server, &ts, eis::touchscreen::Request::Down { touchid: 5, x: 1, y: 2 }).unwrap();
}

#[test]
fn a_new_object_goes_out_as_a_new_id() {
    let e = ei::seat::Event::Device { device: ei::Device(obj(20, "ei_device", 1)) };
    let args = e.args::<i32>();
    assert!(matches!(args[0], reis::arg::Arg::NewId(20)));
    assert!(matches!(args[1], reis::arg::Arg::Uint32(1)));
    let f = ei::device::Event::Frame { serial: 1, timestamp: 20 };
    assert!(matches!(f.args::<i32>()[1], reis::arg::Arg::Uint64(20)));
}

#[test]
fn new_client_handshaker_connects_with_no_interfaces() {
    let mut b = client_backend();
    let mut h = EiHandshaker::new("me", ContextType::Receiver);
    let hs = ei::Handshake(obj(0, "ei_handshake", 1));
    let c = ei::Connection(obj(5, "ei_connection", 1));
    let r = h.handle_event(ei::Event::Handshake(hs.clone(), ei::handshake::Event::Connection { serial: 3, connection: c.clone() }), &mut b);
    match r {
        Ok(Some(resp)) => {
            assert_eq!(resp.serial, 3);
            assert_eq!(resp.negotiated_interfaces.len(), 0);
        }
        _ => panic!("expected a response"),
    }
    assert!(b.write_buf.is_empty());
    h.handle_event(ei::Event::Handshake(hs.clone(), ei::handshake::Event::InterfaceVersion { name: "ei_seat".to_string(), version: 1 }), &mut b).unwrap();
    h.handle_event(ei::Event::Handshake(hs.clone(), ei::handshake::Event::InterfaceVersion { name: "ei_seat".to_string(), version: 2 }), &mut b).unwrap();
    match h.handle_event(ei::Event::Handshake(hs.clone(), ei::handshake::Event::Connection { serial: 4, connection: c.clone() }), &mut b) {
        Ok(Some(resp)) => assert_eq!(resp.negotiated_interfaces.get("ei_seat"), Some(2)),
        _ => panic!("expected a response"),
    }
    match h.handle_event(ei::Event::Handshake(hs, ei::handshake::Event::Connection { serial: 5, connection: c }), &mut b) {
        Ok(Some(resp)) => assert_eq!(resp.negotiated_interfaces.len(), 0),
        _ => panic!("expected a response"),
    }
}
