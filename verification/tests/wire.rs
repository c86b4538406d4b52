use reis::arg::{read_arg, read_args, Arg, ArgValue, EnumKind, ParseError, Reader, WireKind};
use reis::codec::{get_u32, get_u64, host_byte_order, put_u32, put_u64, ByteOrder, Header, HEADER_LEN};
use std::collections::VecDeque;
use reis::backend::Backend;
use reis::ei::device::Event;

fn encode(o: ByteOrder, arg: Arg<'_, i32>) -> (Vec<u8>, Vec<i32>) {
    let mut buf = Vec::new();
    let mut fds = Vec::new();
    arg.write(o, &mut buf, &mut fds);
    (buf, fds)
}

#[test]
fn u32_in_both_orders() {
    let mut b = Vec::new();
    put_u32(ByteOrder::Little, 0x0102_0304, &mut b);
    assert_eq!(b, vec![4, 3, 2, 1]);
    assert_eq!(get_u32(ByteOrder::Little, &b, 0), 0x0102_0304);
    let mut b = Vec::new();
    put_u32(ByteOrder::Big, 0x0102_0304, &mut b);
    assert_eq!(b, vec![1, 2, 3, 4]);
    assert_eq!(get_u32(ByteOrder::Big, &b, 0), 0x0102_0304);
}

#[test]
fn u64_in_both_orders() {
    let mut b = vec![9u8];
    put_u64(ByteOrder::Little, 0x0102_0304_0506_0708, &mut b);
    assert_eq!(b, vec![9, 8, 7, 6, 5, 4, 3, 2, 1]);
    assert_eq!(get_u64(ByteOrder::Little, &b, 1), 0x0102_0304_0506_0708);
    let mut b = Vec::new();
    put_u64(ByteOrder::Big, 0x0102_0304_0506_0708, &mut b);
    assert_eq!(b, vec![1, 2, 3, 4, 5, 6, 7, 8]);
    assert_eq!(get_u64(ByteOrder::Big, &b, 0), 0x0102_0304_0506_0708);
}

#[test]
fn host_order_matches_the_machine() {
    let expected = if 1u16.to_ne_bytes()[0] == 1 { ByteOrder::Little } else { ByteOrder::Big };
    assert_eq!(host_byte_order(), expected);
}

#[test]
fn header_round_trip() {
    let h = Header { object_id: 0x1122_3344_5566_7788, length: 24, opcode: 3 };
    for o in [ByteOrder::Little, ByteOrder::Big] {
        let bytes = h.as_bytes(o);
        assert_eq!(bytes.len(), HEADER_LEN);
        let mut a = [0u8; 16];
        a.copy_from_slice(&bytes);
        assert_eq!(Header::parse(o, a), h);
    }
    let bytes = h.as_bytes(ByteOrder::Little);
    assert_eq!(&bytes[8..16], &[24, 0, 0, 0, 3, 0, 0, 0]);
}

#[test]
fn string_is_length_text_nul_and_padding() {
    let (b, fds) = encode(ByteOrder::Little, Arg::String(Some("ab")));
    assert_eq!(b, vec![3, 0, 0, 0, b'a', b'b', 0, 0]);
    assert!(fds.is_empty());
    let (b, _) = encode(ByteOrder::Little, Arg::String(Some("abc")));
    assert_eq!(b, vec![4, 0, 0, 0, b'a', b'b', b'c', 0]);
    let (b, _) = encode(ByteOrder::Little, Arg::String(Some("")));
    assert_eq!(b, vec![1, 0, 0, 0, 0, 0, 0, 0]);
}

#[test]
fn null_string_is_a_zero_length() {
    let (b, _) = encode(ByteOrder::Big, Arg::String(None));
    assert_eq!(b, vec![0, 0, 0, 0]);
}

#[test]
fn fd_goes_aside() {
    let (b, fds) = encode(ByteOrder::Little, Arg::Fd(7));
    assert!(b.is_empty());
    assert_eq!(fds, vec![7]);
}

#[test]
fn signed_and_float_bits() {
    let (b, _) = encode(ByteOrder::Little, Arg::Int32(-2));
    assert_eq!(b, vec![0xfe, 0xff, 0xff, 0xff]);
    let (b, _) = encode(ByteOrder::Little, Arg::Int64(-1));
    assert_eq!(b, vec![0xff; 8]);
    let (b, _) = encode(ByteOrder::Big, Arg::Float(1.5f32.to_bits()));
    assert_eq!(b, 1.5f32.to_bits().to_be_bytes().to_vec());
    let (b, _) = encode(ByteOrder::Little, Arg::NewId(5));
    assert_eq!(b, vec![5, 0, 0, 0, 0, 0, 0, 0]);
}

#[test]
fn read_back_what_was_written() {
    let o = ByteOrder::Little;
    let mut buf = Vec::new();
    let mut out_fds: Vec<i32> = Vec::new();
    Arg::Uint32(42).write(o, &mut buf, &mut out_fds);
    Arg::String(Some("héllo")).write(o, &mut buf, &mut out_fds);
    Arg::Int64(-9).write(o, &mut buf, &mut out_fds);
    Arg::String(None).write(o, &mut buf, &mut out_fds);
    Arg::Fd(3).write(o, &mut buf, &mut out_fds);
    let mut rd = Reader::new(buf);
    let mut fds: VecDeque<i32> = out_fds.into_iter().collect();
    let kinds = [WireKind::Uint32, WireKind::String, WireKind::Int64, WireKind::OptString, WireKind::Fd];
    let vals = match read_args(o, &kinds, &mut rd, &mut fds) {
        Ok(v) => v,
        Err(e) => panic!("{:?}", e),
    };
    assert_eq!(rd.remaining(), 0);
    assert!(fds.is_empty());
    assert_eq!(vals.len(), 5);
    assert!(matches!(vals[0], ArgValue::Uint32(42)));
    assert!(matches!(&vals[1], ArgValue::String(Some(s)) if s == "héllo"));
    assert!(matches!(vals[2], ArgValue::Int64(-9)));
    assert!(matches!(vals[3], ArgValue::String(None)));
    assert!(matches!(vals[4], ArgValue::Fd(3)));
}

#[test]
fn short_body_ends_the_message() {
    let mut rd = Reader::new(vec![1, 2]);
    let mut fds: VecDeque<i32> = VecDeque::new();
    let r = read_arg(ByteOrder::Little, WireKind::Uint32, &mut rd, &mut fds);
    assert!(matches!(r, Err(ParseError::EndOfMessage)));
}

#[test]
fn missing_fd() {
    let mut rd = Reader::new(vec![]);
    let mut fds: VecDeque<i32> = VecDeque::new();
    let r = read_arg(ByteOrder::Little, WireKind::Fd, &mut rd, &mut fds);
    assert!(matches!(r, Err(ParseError::NoFd)));
}

#[test]
fn null_where_a_string_is_needed() {
    let mut rd = Reader::new(vec![0, 0, 0, 0]);
    let mut fds: VecDeque<i32> = VecDeque::new();
    let r = read_arg(ByteOrder::Little, WireKind::String, &mut rd, &mut fds);
    assert!(matches!(r, Err(ParseError::InvalidNull)));
}

#[test]
fn invalid_utf8_string() {
    let mut rd = Reader::new(vec![2, 0, 0, 0, 0xff, 0, 0, 0]);
    let mut fds: VecDeque<i32> = VecDeque::new();
    let r = read_arg(ByteOrder::Little, WireKind::String, &mut rd, &mut fds);
    assert!(matches!(r, Err(ParseError::Utf8(_))));
}

#[test]
fn enum_value_out_of_range() {
    let mut rd = Reader::new(vec![3, 0, 0, 0]);
    let mut fds: VecDeque<i32> = VecDeque::new();
    let r = read_arg(ByteOrder::Little, WireKind::Enum(EnumKind::ContextType), &mut rd, &mut fds);
    assert!(matches!(r, Err(ParseError::InvalidVariant("ContextType", 3))));
    let mut rd = Reader::new(vec![2, 0, 0, 0]);
    let r = read_arg(ByteOrder::Little, WireKind::Enum(EnumKind::ContextType), &mut rd, &mut fds);
    assert!(matches!(r, Ok(ArgValue::Uint32(2))));
}

#[test]
fn device_event_read_back() {
    let o = ByteOrder::Little;
    let events = vec![
        Event::Name { name: "pad".to_string() },
        Event::Region { offset_x: 1, offset_y: 2, width: 3, hight: 4, scale: 1.5f32.to_bits() },
        Event::Frame { serial: 9, timestamp: 1234567890123 },
        Event::Done,
    ];
    for e in events {
        let mut buf = Vec::new();
        let mut fds: Vec<i32> = Vec::new();
        let opcode = match &e {
            Event::Name { .. } => 1,
            Event::Region { .. } => 4,
            Event::Frame { .. } => 11,
            _ => 6,
        };
        for a in e.args::<i32>() {
            a.write(o, &mut buf, &mut fds);
        }
        buf.extend_from_slice(&[7, 7]);
        let mut rd = Reader::new(buf);
        let mut b: Backend<i32> = Backend::new(true, o);
        let back = Event::parse(opcode, &mut rd, &mut b).unwrap();
        assert_eq!(rd.remaining(), 2);
        match (e, back) {
            (Event::Name { name: a }, Event::Name { name: c }) => assert_eq!(a, c),
            (Event::Region { scale: a, width: w, .. }, Event::Region { scale: c, width: v, .. }) => assert_eq!((a, w), (c, v)),
            (Event::Frame { serial: a, timestamp: t }, Event::Frame { serial: c, timestamp: u }) => assert_eq!((a, t), (c, u)),
            (Event::Done, Event::Done) => {}
            _ => panic!("another event came back"),
        }
    }
    let mut rd = Reader::new(vec![]);
    let mut b: Backend<i32> = Backend::new(true, o);
    assert!(matches!(Event::parse(13, &mut rd, &mut b), Err(ParseError::InvalidOpcode("device", 13))));
}

#[test]
fn descriptors_are_taken_in_order() {
    let o = ByteOrder::Little;
    let mut buf = Vec::new();
    let mut out: Vec<i32> = Vec::new();
    Arg::Fd(3).write(o, &mut buf, &mut out);
    Arg::Uint32(1).write(o, &mut buf, &mut out);
    Arg::Fd(4).write(o, &mut buf, &mut out);
    let mut rd = Reader::new(buf);
    let mut fds: VecDeque<i32> = vec![3, 4, 5].into_iter().collect();
    let vals = read_args(o, &[WireKind::Fd, WireKind::Uint32, WireKind::Fd], &mut rd, &mut fds).unwrap();
    assert!(matches!(vals[0], ArgValue::Fd(3)));
    assert!(matches!(vals[2], ArgValue::Fd(4)));
    assert_eq!(fds.len(), 1);
    assert_eq!(fds[0], 5);
}

#[test]
fn string_length_is_padded_to_four() {
    let o = ByteOrder::Little;
    let (buf, _) = encode(o, Arg::String(Some("héllo")));
    assert_eq!(buf.len(), 4 + 8);
    let mut b2 = buf.clone();
    b2.extend_from_slice(&[9, 9, 9]);
    let mut rd = Reader::new(b2);
    let mut fds: VecDeque<i32> = VecDeque::new();
    assert!(matches!(read_arg(o, WireKind::OptString, &mut rd, &mut fds), Ok(ArgValue::String(Some(s))) if s == "héllo"));
    assert_eq!(rd.remaining(), 3);
    let mut rd = Reader::new(vec![0, 0, 0, 0, 1]);
    assert!(matches!(read_arg(o, WireKind::OptString, &mut rd, &mut fds), Ok(ArgValue::String(None))));
    assert_eq!(rd.remaining(), 1);
    let mut rd = Reader::new(vec![0, 0, 0, 0]);
    assert!(matches!(read_arg(o, WireKind::String, &mut rd, &mut fds), Err(ParseError::InvalidNull)));
}
