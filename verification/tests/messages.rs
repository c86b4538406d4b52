use reis::arg::{Arg, ParseError};
use reis::error::Error;
use reis::event;
use reis::handshake::HandshakeError;
use reis::request::RequestError;

#[test]
fn handshake_error_messages() {
    assert_eq!(HandshakeError::InvalidObject(7).to_string(), "invalid object 7 during handshake");
    assert_eq!(HandshakeError::NonHandshakeEvent.to_string(), "non-handshake event during handshake");
    assert_eq!(HandshakeError::MissingInterface.to_string(), "missing required interface");
    assert_eq!(HandshakeError::DuplicateEvent.to_string(), "duplicate event during handshake");
}

#[test]
fn parse_error_messages() {
    assert_eq!(ParseError::InvalidOpcode("device", 13).to_string(), "opcode '13' invalid for interface 'device'");
    assert_eq!(ParseError::InvalidId(42).to_string(), "new object id '42' invalid");
    assert_eq!(ParseError::HeaderLength(8).to_string(), "header length 8 < 16");
    assert_eq!(ParseError::MessageLength(20, 24).to_string(), "message length didn't match header (20 != 24)");
    assert_eq!(ParseError::InvalidNull.to_string(), "NULL value for non-nullable argument");
    assert_eq!(ParseError::NoFd.to_string(), "expected fd");
}

#[test]
fn converter_error_messages() {
    assert_eq!(event::Error::NoDeviceType.to_string(), "no device");
    assert_eq!(event::Error::SeatSetupEventAfterDone.to_string(), "seat setup event after done");
    assert_eq!(RequestError::DuplicatedTouchDown.to_string(), "Touch down event for duplicated touch ID");
    assert_eq!(RequestError::TooManyTouches.to_string(), "Too many simultaneous touch events");
}

#[test]
fn library_error_messages() {
    assert_eq!(
        Error::Parse(ParseError::InvalidOpcode("device", 13)).to_string(),
        "parse error: opcode '13' invalid for interface 'device'"
    );
    assert_eq!(Error::Handshake(HandshakeError::DuplicateEvent).to_string(), "handshake error: duplicate event during handshake");
    assert_eq!(Error::Request(RequestError::InvalidCapabilities).to_string(), "request error: Invalid capabilities");
    assert_eq!(Error::Event(event::Error::DeviceEventBeforeDone).to_string(), "event error: device event before done");
    assert_eq!(Error::InvalidInterfaceVersion("ei_seat", 9).to_string(), "invalid version 9 for interface 'ei_seat'");
    assert_eq!(Error::UnexpectedHandshakeEvent.to_string(), "unexpected handshake event");
}

#[test]
fn argument_texts() {
    assert_eq!(Arg::<()>::NewId(255).text(), Some("new_id ff".to_string()));
    assert_eq!(Arg::<()>::Id(16).text(), Some("id 10".to_string()));
    assert_eq!(Arg::<()>::Int32(-5).text(), Some("-5".to_string()));
    assert_eq!(Arg::<()>::Uint32(0).text(), Some("0".to_string()));
    assert_eq!(Arg::<()>::Int64(i64::MIN).text(), Some("-9223372036854775808".to_string()));
    assert_eq!(Arg::<()>::Uint64(u64::MAX).text(), Some("18446744073709551615".to_string()));
    assert_eq!(Arg::<()>::String(None).text(), Some("None".to_string()));
    assert_eq!(Arg::<()>::Float(0).text(), None);
}
