use reis::backend::Backend;
use reis::capability::{Capabilities, DeviceCapability};
use reis::ei;
use reis::eis;
use reis::enums::{ContextType, DeviceType};
use reis::event::{EiEvent, EiEventConverter};
use reis::handshake::{EiHandshaker, EisHandshakeResp, EisHandshaker, HandshakeResp};
use reis::message::PendingRequestResult;
use reis::request::{EisRequest, EisRequestConverter};

fn transfer(from: &mut Backend<i32>, to: &mut Backend<i32>) {
    let bytes = from.write_buf.clone();
    let fds = std::mem::take(&mut from.write_fds);
    to.receive(&bytes, fds);
    from.written(bytes.len());
}

fn handshake(
    client: &mut ei::Context<i32>,
    server: &mut eis::Context<i32>,
    name: &'static str,
    context_type: ContextType,
) -> (HandshakeResp, EisHandshakeResp) {
    let mut eis_hs = EisHandshaker::new(server, 7);
    transfer(&mut server.0, &mut client.0);
    let mut ei_hs = EiHandshaker::new(name, context_type);
    let ev = match client.pending_event() {
        Some(PendingRequestResult::Request(e)) => e,
        _ => panic!("no handshake version"),
    };
    assert!(matches!(ei_hs.handle_event(ev, &mut client.0), Ok(None)));
    transfer(&mut client.0, &mut server.0);
    let mut server_resp = None;
    while let Some(r) = server.pending_request() {
        let req = match r {
            PendingRequestResult::Request(q) => q,
            _ => panic!("bad request"),
        };
        if let Some(x) = eis_hs.handle_request(req, &mut server.0).unwrap() {
            server_resp = Some(x);
        }
    }
    let server_resp = server_resp.expect("server finished");
    transfer(&mut server.0, &mut client.0);
    let mut client_resp = None;
    while let Some(r) = client.pending_event() {
        let ev = match r {
            PendingRequestResult::Request(e) => e,
            _ => panic!("bad event"),
        };
        if let Some(x) = ei_hs.handle_event(ev, &mut client.0).unwrap() {
            client_resp = Some(x);
        }
    }
    (client_resp.expect("client finished"), server_resp)
}

fn pump_events(client: &mut ei::Context<i32>, conv: &mut EiEventConverter<i32>) {
    while let Some(r) = client.pending_event() {
        match r {
            PendingRequestResult::Request(ev) => conv.handle_event(ev, &mut client.0).unwrap(),
            _ => panic!("bad event"),
        }
    }
}

fn pump_requests(server: &mut eis::Context<i32>, conv: &mut EisRequestConverter) {
    while let Some(r) = server.pending_request() {
        match r {
            PendingRequestResult::Request(q) => conv.handle_request(q, &mut server.0).unwrap(),
            _ => panic!("bad request"),
        }
    }
}

#[test]
fn handshake_negotiates_and_connects() {
    let mut client: ei::Context<i32> = ei::Context::new();
    let mut server: eis::Context<i32> = eis::Context::new();
    let (c, s) = handshake(&mut client, &mut server, "test-client", ContextType::Sender);
    assert_eq!(s.name.as_deref(), Some("test-client"));
    assert_eq!(s.context_type, ContextType::Sender);
    assert!(s.negotiated_interfaces.contains_key("ei_connection"));
    assert!(s.negotiated_interfaces.contains_key("ei_pointer"));
    assert_eq!(s.negotiated_interfaces.get("ei_callback"), Some(1));
    assert_eq!(c.serial, 7);
    assert_eq!(c.connection.0.id, s.connection.0.id);
    assert_eq!(c.connection.0.interface, "ei_connection");
    assert_eq!(c.negotiated_interfaces.len(), s.negotiated_interfaces.len());
    assert!(client.0.write_buf.is_empty());
    assert!(server.0.write_buf.is_empty());
}

#[test]
fn server_refuses_handshake_without_connection_interface() {
    let mut server: eis::Context<i32> = eis::Context::new();
    let mut hs = EisHandshaker::new(&mut server, 0);
    server.0.written(server.0.write_buf.len());
    let h = server.handshake();
    let r = hs.handle_request(eis::Request::Handshake(h, eis::handshake::Request::Finish), &mut server.0);
    assert!(matches!(r, Err(reis::handshake::HandshakeError::MissingInterface)));
}

#[test]
fn server_refuses_duplicate_name() {
    let mut server: eis::Context<i32> = eis::Context::new();
    let mut hs = EisHandshaker::new(&mut server, 0);
    let h = server.handshake();
    let r = hs.handle_request(
        eis::Request::Handshake(h.clone(), eis::handshake::Request::Name { name: "a".to_string() }),
        &mut server.0,
    );
    assert!(matches!(r, Ok(None)));
    let r = hs.handle_request(
        eis::Request::Handshake(h, eis::handshake::Request::Name { name: "b".to_string() }),
        &mut server.0,
    );
    assert!(matches!(r, Err(reis::handshake::HandshakeError::DuplicateEvent)));
    assert_eq!(hs.name.as_deref(), Some("a"));
}

#[test]
fn server_caps_interface_versions() {
    let mut server: eis::Context<i32> = eis::Context::new();
    let mut hs = EisHandshaker::new(&mut server, 0);
    let h = server.handshake();
    let r = hs.handle_request(
        eis::Request::Handshake(
            h.clone(),
            eis::handshake::Request::InterfaceVersion { name: "ei_touchscreen".to_string(), version: 99 },
        ),
        &mut server.0,
    );
    assert!(matches!(r, Ok(None)));
    let r = hs.handle_request(
        eis::Request::Handshake(
            h,
            eis::handshake::Request::InterfaceVersion { name: "ei_nonsense".to_string(), version: 1 },
        ),
        &mut server.0,
    );
    assert!(matches!(r, Ok(None)));
    let v = hs.negotiated_interfaces.get("ei_touchscreen").unwrap();
    assert!(v >= 1 && v < 99);
    assert_eq!(hs.negotiated_interfaces.get("ei_nonsense"), None);
}

#[test]
fn seat_device_and_input_round_trip() {
    let mut client: ei::Context<i32> = ei::Context::new();
    let mut server: eis::Context<i32> = eis::Context::new();
    let (c, s) = handshake(&mut client, &mut server, "input", ContextType::Sender);
    let mut reqs = EisRequestConverter::new(s, 7);
    let mut events: EiEventConverter<i32> = EiEventConverter::new(c.serial);

    let seat = reqs.connection.add_seat(&mut server.0, Some("seat0"), Capabilities::all());
    transfer(&mut server.0, &mut client.0);
    pump_events(&mut client, &mut events);
    let client_seat = match events.next_event() {
        Some(EiEvent::SeatAdded(a)) => a.seat,
        other => panic!("expected a seat, got {:?}", other.is_some()),
    };
    assert_eq!(client_seat.name(), Some("seat0"));
    assert!(events.next_event().is_none());

    client_seat.bind_capabilities(&mut client.0, &[DeviceCapability::Pointer, DeviceCapability::Keyboard]);
    transfer(&mut client.0, &mut server.0);
    pump_requests(&mut server, &mut reqs);
    match reqs.next_request() {
        Some(EisRequest::Bind(b)) => {
            assert!(b.capabilities.contains_capability(DeviceCapability::Pointer));
            assert!(b.capabilities.contains_capability(DeviceCapability::Keyboard));
            assert!(!b.capabilities.contains_capability(DeviceCapability::Touch));
        },
        _ => panic!("expected a bind"),
    }

    let mut caps = Capabilities::empty();
    caps.insert(DeviceCapability::Pointer);
    let device = seat.add_device(&mut reqs.connection, &mut server.0, Some("mouse"), DeviceType::Virtual, caps);
    device.resumed(&mut reqs.connection, &mut server.0);
    transfer(&mut server.0, &mut client.0);
    pump_events(&mut client, &mut events);
    let client_device = match events.next_event() {
        Some(EiEvent::DeviceAdded(a)) => a.device,
        _ => panic!("expected a device"),
    };
    assert_eq!(client_device.name(), Some("mouse"));
    assert_eq!(client_device.device_type(), DeviceType::Virtual);
    let resumed_serial = match events.next_event() {
        Some(EiEvent::DeviceResumed(r)) => r.serial,
        _ => panic!("expected resumed"),
    };
    assert_eq!(resumed_serial, events.serial());
    assert_eq!(resumed_serial, reqs.connection.last_serial());

    let pointer: ei::Pointer = client_device.interface().expect("pointer interface");
    assert!(client_device.interface::<ei::Keyboard>().is_none());
    pointer.motion_relative(&mut client.0, 2.0f32.to_bits(), (-1.5f32).to_bits());
    client_device.device().frame(&mut client.0, events.serial(), 1234);
    transfer(&mut client.0, &mut server.0);
    pump_requests(&mut server, &mut reqs);
    match reqs.next_request() {
        Some(EisRequest::PointerMotion(m)) => {
            assert_eq!(m.time, 1234);
            assert_eq!(f32::from_bits(m.dx), 2.0);
            assert_eq!(f32::from_bits(m.dy), -1.5);
        },
        _ => panic!("expected motion"),
    }
    match reqs.next_request() {
        Some(EisRequest::Frame(f)) => assert_eq!(f.time, 1234),
        _ => panic!("expected frame"),
    }
    assert!(reqs.next_request().is_none());
}

#[test]
fn server_events_wait_for_their_frame() {
    let mut client: ei::Context<i32> = ei::Context::new();
    let mut server: eis::Context<i32> = eis::Context::new();
    let (c, s) = handshake(&mut client, &mut server, "recv", ContextType::Receiver);
    let mut reqs = EisRequestConverter::new(s, 1);
    let mut events: EiEventConverter<i32> = EiEventConverter::new(c.serial);
    let seat = reqs.connection.add_seat(&mut server.0, None, Capabilities::all());
    let mut caps = Capabilities::empty();
    caps.insert(DeviceCapability::Keyboard);
    let device = seat.add_device(&mut reqs.connection, &mut server.0, None, DeviceType::Physical, caps);
    let kb: eis::Keyboard = device.interface().expect("keyboard");
    kb.key(&mut server.0, 30, reis::enums::KeyState::Press);
    transfer(&mut server.0, &mut client.0);
    pump_events(&mut client, &mut events);
    assert!(matches!(events.next_event(), Some(EiEvent::SeatAdded(_))));
    assert!(matches!(events.next_event(), Some(EiEvent::DeviceAdded(_))));
    assert!(events.next_event().is_none());
    assert_eq!(events.pending_events.len(), 1);
    device.frame(&mut reqs.connection, &mut server.0, 99);
    transfer(&mut server.0, &mut client.0);
    pump_events(&mut client, &mut events);
    match events.next_event() {
        Some(EiEvent::KeyboardKey(k)) => {
            assert_eq!(k.key, 30);
            assert_eq!(k.time, 99);
        },
        _ => panic!("expected a key"),
    }
    assert!(matches!(events.next_event(), Some(EiEvent::Frame(_))));
    assert!(events.pending_events.is_empty());
}

#[test]
fn server_finish_reports_first_name_and_context_type() {
    let mut server: eis::Context<i32> = eis::Context::new();
    let mut hs = EisHandshaker::new(&mut server, 0);
    let h = server.handshake();
    let req = |r: eis::handshake::Request| eis::Request::Handshake(h.clone(), r);
    assert!(matches!(hs.handle_request(req(eis::handshake::Request::Name { name: "first".to_string() }), &mut server.0), Ok(None)));
    assert!(matches!(
        hs.handle_request(req(eis::handshake::Request::ContextType { context_type: ContextType::Sender }), &mut server.0),
        Ok(None)
    ));
    assert!(matches!(
        hs.handle_request(req(eis::handshake::Request::Name { name: "second".to_string() }), &mut server.0),
        Err(reis::handshake::HandshakeError::DuplicateEvent)
    ));
    assert!(matches!(
        hs.handle_request(req(eis::handshake::Request::ContextType { context_type: ContextType::Receiver }), &mut server.0),
        Err(reis::handshake::HandshakeError::DuplicateEvent)
    ));
    for (name, version) in [("ei_connection", 9), ("ei_pingpong", 1), ("ei_callback", 1), ("ei_unknown", 3), ("ei_pingpong", 0)] {
        let r = hs.handle_request(
            req(eis::handshake::Request::InterfaceVersion { name: name.to_string(), version }),
            &mut server.0,
        );
        assert!(matches!(r, Ok(None)));
    }
    let r = hs.handle_request(req(eis::handshake::Request::Finish), &mut server.0);
    match r {
        Ok(Some(resp)) => {
            assert_eq!(resp.name.as_deref(), Some("first"));
            assert_eq!(resp.context_type, ContextType::Sender);
            assert_eq!(resp.negotiated_interfaces.get("ei_connection"), Some(1));
            assert_eq!(resp.negotiated_interfaces.get("ei_pingpong"), Some(0));
            assert_eq!(resp.negotiated_interfaces.get("ei_callback"), Some(1));
            assert!(!resp.negotiated_interfaces.contains_key("ei_unknown"));
            assert_eq!(resp.negotiated_interfaces.len(), 3);
        }
        _ => panic!("handshake did not finish"),
    }
}
