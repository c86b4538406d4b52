//! The interfaces of the protocol and, for each message, the kinds of its
//! arguments as its receiver reads them and the object it creates.
use crate::arg::{decode_args, ArgModel, EnumKind, ErrKind, ParseError, WireKind};
use crate::backend::{frame_of, Backend, Frame, Object, ObjectInfo};
use crate::codec::HEADER_LEN;
use crate::message::{created_ok, records_object, slot_id, Incoming, NewObjectSlot, PendingRequestResult, WireMessage};
use vstd::prelude::*;
use vstd::string::StringSliceAdditionalSpecFns;
use vstd::utf8::*;

verus! {

broadcast use {encode_utf8_valid_utf8, encode_utf8_decode_utf8};

/// The interfaces of the protocol.
#[derive(Clone, Copy, Debug, PartialEq, Eq, Hash, Structural)]
pub enum Iface {
    Handshake,
    Connection,
    Callback,
    Pingpong,
    Seat,
    Device,
    Pointer,
    PointerAbsolute,
    Scroll,
    Button,
    Keyboard,
    Touchscreen,
}

impl Iface {
    /// The interface's name on the wire, like `ei_device`.
    pub open spec fn spec_name(self) -> &'static str {
        match self {
            Iface::Handshake => "ei_handshake",
            Iface::Connection => "ei_connection",
            Iface::Callback => "ei_callback",
            Iface::Pingpong => "ei_pingpong",
            Iface::Seat => "ei_seat",
            Iface::Device => "ei_device",
            Iface::Pointer => "ei_pointer",
            Iface::PointerAbsolute => "ei_pointer_absolute",
            Iface::Scroll => "ei_scroll",
            Iface::Button => "ei_button",
            Iface::Keyboard => "ei_keyboard",
            Iface::Touchscreen => "ei_touchscreen",
        }
    }

    /// The interface's name in parse errors, like `device`.
    pub open spec fn spec_short_name(self) -> &'static str {
        match self {
            Iface::Handshake => "handshake",
            Iface::Connection => "connection",
            Iface::Callback => "callback",
            Iface::Pingpong => "pingpong",
            Iface::Seat => "seat",
            Iface::Device => "device",
            Iface::Pointer => "pointer",
            Iface::PointerAbsolute => "pointer_absolute",
            Iface::Scroll => "scroll",
            Iface::Button => "button",
            Iface::Keyboard => "keyboard",
            Iface::Touchscreen => "touchscreen",
        }
    }

    /// The interface named `s`, if any.
    pub open spec fn spec_from_name(s: Seq<char>) -> Option<Iface> {
        if s == "ei_handshake"@ {
            Some(Iface::Handshake)
        }
        else if s == "ei_connection"@ {
            Some(Iface::Connection)
        }
        else if s == "ei_callback"@ {
            Some(Iface::Callback)
        }
        else if s == "ei_pingpong"@ {
            Some(Iface::Pingpong)
        }
        else if s == "ei_seat"@ {
            Some(Iface::Seat)
        }
        else if s == "ei_device"@ {
            Some(Iface::Device)
        }
        else if s == "ei_pointer"@ {
            Some(Iface::Pointer)
        }
        else if s == "ei_pointer_absolute"@ {
            Some(Iface::PointerAbsolute)
        }
        else if s == "ei_scroll"@ {
            Some(Iface::Scroll)
        }
        else if s == "ei_button"@ {
            Some(Iface::Button)
        }
        else if s == "ei_keyboard"@ {
            Some(Iface::Keyboard)
        }
        else if s == "ei_touchscreen"@ {
            Some(Iface::Touchscreen)
        }
        else {
            None
        }
    }

    #[verifier::when_used_as_spec(spec_name)]
    pub fn name(self) -> (r: &'static str)
        ensures
            r == self.spec_name(),
    {
        match self {
            Iface::Handshake => "ei_handshake",
            Iface::Connection => "ei_connection",
            Iface::Callback => "ei_callback",
            Iface::Pingpong => "ei_pingpong",
            Iface::Seat => "ei_seat",
            Iface::Device => "ei_device",
            Iface::Pointer => "ei_pointer",
            Iface::PointerAbsolute => "ei_pointer_absolute",
            Iface::Scroll => "ei_scroll",
            Iface::Button => "ei_button",
            Iface::Keyboard => "ei_keyboard",
            Iface::Touchscreen => "ei_touchscreen",
        }
    }

    #[verifier::when_used_as_spec(spec_short_name)]
    pub fn short_name(self) -> (r: &'static str)
        ensures
            r == self.spec_short_name(),
    {
        match self {
            Iface::Handshake => "handshake",
            Iface::Connection => "connection",
            Iface::Callback => "callback",
            Iface::Pingpong => "pingpong",
            Iface::Seat => "seat",
            Iface::Device => "device",
            Iface::Pointer => "pointer",
            Iface::PointerAbsolute => "pointer_absolute",
            Iface::Scroll => "scroll",
            Iface::Button => "button",
            Iface::Keyboard => "keyboard",
            Iface::Touchscreen => "touchscreen",
        }
    }

    /// The interface named `s`, if any.
    pub fn from_name(s: &str) -> (r: Option<Iface>)
        ensures
            r == Self::spec_from_name(s@),
    {
        let b = s.as_bytes();
        if bytes_eq(b, "ei_handshake".as_bytes()) {
            proof {
                lemma_same_bytes(s@, "ei_handshake"@);
            }
            return Some(Iface::Handshake);
        }
        proof {
            lemma_same_bytes(s@, "ei_handshake"@);
        }
        if bytes_eq(b, "ei_connection".as_bytes()) {
            proof {
                lemma_same_bytes(s@, "ei_connection"@);
            }
            return Some(Iface::Connection);
        }
        proof {
            lemma_same_bytes(s@, "ei_connection"@);
        }
        if bytes_eq(b, "ei_callback".as_bytes()) {
            proof {
                lemma_same_bytes(s@, "ei_callback"@);
            }
            return Some(Iface::Callback);
        }
        proof {
            lemma_same_bytes(s@, "ei_callback"@);
        }
        if bytes_eq(b, "ei_pingpong".as_bytes()) {
            proof {
                lemma_same_bytes(s@, "ei_pingpong"@);
            }
            return Some(Iface::Pingpong);
        }
        proof {
            lemma_same_bytes(s@, "ei_pingpong"@);
        }
        if bytes_eq(b, "ei_seat".as_bytes()) {
            proof {
                lemma_same_bytes(s@, "ei_seat"@);
            }
            return Some(Iface::Seat);
        }
        proof {
            lemma_same_bytes(s@, "ei_seat"@);
        }
        if bytes_eq(b, "ei_device".as_bytes()) {
            proof {
                lemma_same_bytes(s@, "ei_device"@);
            }
            return Some(Iface::Device);
        }
        proof {
            lemma_same_bytes(s@, "ei_device"@);
        }
        if bytes_eq(b, "ei_pointer".as_bytes()) {
            proof {
                lemma_same_bytes(s@, "ei_pointer"@);
            }
            return Some(Iface::Pointer);
        }
        proof {
            lemma_same_bytes(s@, "ei_pointer"@);
        }
        if bytes_eq(b, "ei_pointer_absolute".as_bytes()) {
            proof {
                lemma_same_bytes(s@, "ei_pointer_absolute"@);
            }
            return Some(Iface::PointerAbsolute);
        }
        proof {
            lemma_same_bytes(s@, "ei_pointer_absolute"@);
        }
        if bytes_eq(b, "ei_scroll".as_bytes()) {
            proof {
                lemma_same_bytes(s@, "ei_scroll"@);
            }
            return Some(Iface::Scroll);
        }
        proof {
            lemma_same_bytes(s@, "ei_scroll"@);
        }
        if bytes_eq(b, "ei_button".as_bytes()) {
            proof {
                lemma_same_bytes(s@, "ei_button"@);
            }
            return Some(Iface::Button);
        }
        proof {
            lemma_same_bytes(s@, "ei_button"@);
        }
        if bytes_eq(b, "ei_keyboard".as_bytes()) {
            proof {
                lemma_same_bytes(s@, "ei_keyboard"@);
            }
            return Some(Iface::Keyboard);
        }
        proof {
            lemma_same_bytes(s@, "ei_keyboard"@);
        }
        if bytes_eq(b, "ei_touchscreen".as_bytes()) {
            proof {
                lemma_same_bytes(s@, "ei_touchscreen"@);
            }
            return Some(Iface::Touchscreen);
        }
        proof {
            lemma_same_bytes(s@, "ei_touchscreen"@);
        }
        None
    }
}

/// Interface names are short.
pub proof fn lemma_name_len(i: Iface)
    ensures
        i.spec_name()@.len() <= 32,
{
    match i {
        Iface::Handshake => {
            reveal_strlit("ei_handshake");
        },
        Iface::Connection => {
            reveal_strlit("ei_connection");
        },
        Iface::Callback => {
            reveal_strlit("ei_callback");
        },
        Iface::Pingpong => {
            reveal_strlit("ei_pingpong");
        },
        Iface::Seat => {
            reveal_strlit("ei_seat");
        },
        Iface::Device => {
            reveal_strlit("ei_device");
        },
        Iface::Pointer => {
            reveal_strlit("ei_pointer");
        },
        Iface::PointerAbsolute => {
            reveal_strlit("ei_pointer_absolute");
        },
        Iface::Scroll => {
            reveal_strlit("ei_scroll");
        },
        Iface::Button => {
            reveal_strlit("ei_button");
        },
        Iface::Keyboard => {
            reveal_strlit("ei_keyboard");
        },
        Iface::Touchscreen => {
            reveal_strlit("ei_touchscreen");
        },
    }
}

/// Each interface is the one its name names.
pub proof fn lemma_name_roundtrip(i: Iface)
    ensures
        Iface::spec_from_name(i.spec_name()@) == Some(i),
{
    match i {
        Iface::Handshake => {
            reveal_strlit("ei_handshake");
        },
        Iface::Connection => {
            reveal_strlit("ei_connection");
            reveal_strlit("ei_handshake");
            assert("ei_connection"@.len() != "ei_handshake"@.len());
        },
        Iface::Callback => {
            reveal_strlit("ei_callback");
            reveal_strlit("ei_handshake");
            assert("ei_callback"@.len() != "ei_handshake"@.len());
            reveal_strlit("ei_connection");
            assert("ei_callback"@.len() != "ei_connection"@.len());
        },
        Iface::Pingpong => {
            reveal_strlit("ei_pingpong");
            reveal_strlit("ei_handshake");
            assert("ei_pingpong"@.len() != "ei_handshake"@.len());
            reveal_strlit("ei_connection");
            assert("ei_pingpong"@.len() != "ei_connection"@.len());
            reveal_strlit("ei_callback");
            assert("ei_pingpong"@[3] != "ei_callback"@[3]);
        },
        Iface::Seat => {
            reveal_strlit("ei_seat");
            reveal_strlit("ei_handshake");
            assert("ei_seat"@.len() != "ei_handshake"@.len());
            reveal_strlit("ei_connection");
            assert("ei_seat"@.len() != "ei_connection"@.len());
            reveal_strlit("ei_callback");
            assert("ei_seat"@.len() != "ei_callback"@.len());
            reveal_strlit("ei_pingpong");
            assert("ei_seat"@.len() != "ei_pingpong"@.len());
        },
        Iface::Device => {
            reveal_strlit("ei_device");
            reveal_strlit("ei_handshake");
            assert("ei_device"@.len() != "ei_handshake"@.len());
            reveal_strlit("ei_connection");
            assert("ei_device"@.len() != "ei_connection"@.len());
            reveal_strlit("ei_callback");
            assert("ei_device"@.len() != "ei_callback"@.len());
            reveal_strlit("ei_pingpong");
            assert("ei_device"@.len() != "ei_pingpong"@.len());
            reveal_strlit("ei_seat");
            assert("ei_device"@.len() != "ei_seat"@.len());
        },
        Iface::Pointer => {
            reveal_strlit("ei_pointer");
            reveal_strlit("ei_handshake");
            assert("ei_pointer"@.len() != "ei_handshake"@.len());
            reveal_strlit("ei_connection");
            assert("ei_pointer"@.len() != "ei_connection"@.len());
            reveal_strlit("ei_callback");
            assert("ei_pointer"@.len() != "ei_callback"@.len());
            reveal_strlit("ei_pingpong");
            assert("ei_pointer"@.len() != "ei_pingpong"@.len());
            reveal_strlit("ei_seat");
            assert("ei_pointer"@.len() != "ei_seat"@.len());
            reveal_strlit("ei_device");
            assert("ei_pointer"@.len() != "ei_device"@.len());
        },
        Iface::PointerAbsolute => {
            reveal_strlit("ei_pointer_absolute");
            reveal_strlit("ei_handshake");
            assert("ei_pointer_absolute"@.len() != "ei_handshake"@.len());
            reveal_strlit("ei_connection");
            assert("ei_pointer_absolute"@.len() != "ei_connection"@.len());
            reveal_strlit("ei_callback");
            assert("ei_pointer_absolute"@.len() != "ei_callback"@.len());
            reveal_strlit("ei_pingpong");
            assert("ei_pointer_absolute"@.len() != "ei_pingpong"@.len());
            reveal_strlit("ei_seat");
            assert("ei_pointer_absolute"@.len() != "ei_seat"@.len());
            reveal_strlit("ei_device");
            assert("ei_pointer_absolute"@.len() != "ei_device"@.len());
            reveal_strlit("ei_pointer");
            assert("ei_pointer_absolute"@.len() != "ei_pointer"@.len());
        },
        Iface::Scroll => {
            reveal_strlit("ei_scroll");
            reveal_strlit("ei_handshake");
            assert("ei_scroll"@.len() != "ei_handshake"@.len());
            reveal_strlit("ei_connection");
            assert("ei_scroll"@.len() != "ei_connection"@.len());
            reveal_strlit("ei_callback");
            assert("ei_scroll"@.len() != "ei_callback"@.len());
            reveal_strlit("ei_pingpong");
            assert("ei_scroll"@.len() != "ei_pingpong"@.len());
            reveal_strlit("ei_seat");
            assert("ei_scroll"@.len() != "ei_seat"@.len());
            reveal_strlit("ei_device");
            assert("ei_scroll"@[3] != "ei_device"@[3]);
            reveal_strlit("ei_pointer");
            assert("ei_scroll"@.len() != "ei_pointer"@.len());
            reveal_strlit("ei_pointer_absolute");
            assert("ei_scroll"@.len() != "ei_pointer_absolute"@.len());
        },
        Iface::Button => {
            reveal_strlit("ei_button");
            reveal_strlit("ei_handshake");
            assert("ei_button"@.len() != "ei_handshake"@.len());
            reveal_strlit("ei_connection");
            assert("ei_button"@.len() != "ei_connection"@.len());
            reveal_strlit("ei_callback");
            assert("ei_button"@.len() != "ei_callback"@.len());
            reveal_strlit("ei_pingpong");
            assert("ei_button"@.len() != "ei_pingpong"@.len());
            reveal_strlit("ei_seat");
            assert("ei_button"@.len() != "ei_seat"@.len());
            reveal_strlit("ei_device");
            assert("ei_button"@[3] != "ei_device"@[3]);
            reveal_strlit("ei_pointer");
            assert("ei_button"@.len() != "ei_pointer"@.len());
            reveal_strlit("ei_pointer_absolute");
            assert("ei_button"@.len() != "ei_pointer_absolute"@.len());
            reveal_strlit("ei_scroll");
            assert("ei_button"@[3] != "ei_scroll"@[3]);
        },
        Iface::Keyboard => {
            reveal_strlit("ei_keyboard");
            reveal_strlit("ei_handshake");
            assert("ei_keyboard"@.len() != "ei_handshake"@.len());
            reveal_strlit("ei_connection");
            assert("ei_keyboard"@.len() != "ei_connection"@.len());
            reveal_strlit("ei_callback");
            assert("ei_keyboard"@[3] != "ei_callback"@[3]);
            reveal_strlit("ei_pingpong");
            assert("ei_keyboard"@[3] != "ei_pingpong"@[3]);
            reveal_strlit("ei_seat");
            assert("ei_keyboard"@.len() != "ei_seat"@.len());
            reveal_strlit("ei_device");
            assert("ei_keyboard"@.len() != "ei_device"@.len());
            reveal_strlit("ei_pointer");
            assert("ei_keyboard"@.len() != "ei_pointer"@.len());
            reveal_strlit("ei_pointer_absolute");
            assert("ei_keyboard"@.len() != "ei_pointer_absolute"@.len());
            reveal_strlit("ei_scroll");
            assert("ei_keyboard"@.len() != "ei_scroll"@.len());
            reveal_strlit("ei_button");
            assert("ei_keyboard"@.len() != "ei_button"@.len());
        },
        Iface::Touchscreen => {
            reveal_strlit("ei_touchscreen");
            reveal_strlit("ei_handshake");
            assert("ei_touchscreen"@.len() != "ei_handshake"@.len());
            reveal_strlit("ei_connection");
            assert("ei_touchscreen"@.len() != "ei_connection"@.len());
            reveal_strlit("ei_callback");
            assert("ei_touchscreen"@.len() != "ei_callback"@.len());
            reveal_strlit("ei_pingpong");
            assert("ei_touchscreen"@.len() != "ei_pingpong"@.len());
            reveal_strlit("ei_seat");
            assert("ei_touchscreen"@.len() != "ei_seat"@.len());
            reveal_strlit("ei_device");
            assert("ei_touchscreen"@.len() != "ei_device"@.len());
            reveal_strlit("ei_pointer");
            assert("ei_touchscreen"@.len() != "ei_pointer"@.len());
            reveal_strlit("ei_pointer_absolute");
            assert("ei_touchscreen"@.len() != "ei_pointer_absolute"@.len());
            reveal_strlit("ei_scroll");
            assert("ei_touchscreen"@.len() != "ei_scroll"@.len());
            reveal_strlit("ei_button");
            assert("ei_touchscreen"@.len() != "ei_button"@.len());
            reveal_strlit("ei_keyboard");
            assert("ei_touchscreen"@.len() != "ei_keyboard"@.len());
        },
    }
}
/// A string's UTF-8 encoding takes at most four bytes per character.
pub proof fn lemma_encode_len(s: Seq<char>)
    ensures
        encode_utf8(s).len() <= 4 * s.len(),
    decreases s.len(),
{
    if s.len() > 0 {
        lemma_encode_len(s.drop_first());
    }
}

/// Whether two byte slices hold the same bytes.
pub fn bytes_eq(a: &[u8], b: &[u8]) -> (r: bool)
    ensures
        r == (a@ == b@),
{
    if a.len() != b.len() {
        return false;
    }
    let mut i: usize = 0;
    while i < a.len()
        invariant
            a@.len() == b@.len(),
            i <= a@.len(),
            forall|j: int| 0 <= j < i ==> a@[j] == b@[j],
        decreases a@.len() - i,
    {
        if a[i] != b[i] {
            return false;
        }
        i = i + 1;
    }
    assert(a@ =~= b@);
    true
}

/// Two strings are equal exactly when their UTF-8 bytes are.
pub proof fn lemma_same_bytes(x: Seq<char>, y: Seq<char>)
    ensures
        (encode_utf8(x) == encode_utf8(y)) == (x == y),
{
    if encode_utf8(x) == encode_utf8(y) {
        assert(decode_utf8(encode_utf8(x)) == x);
        assert(decode_utf8(encode_utf8(y)) == y);
    }
}

/// Which end of the connection this is.
#[derive(Clone, Copy, Debug, PartialEq, Eq, Structural)]
pub enum Side {
    /// The ei client: it sends requests and receives events.
    Client,
    /// The EIS server: it sends events and receives requests.
    Server,
}

/// Kinds of the arguments of request `op` of interface `i`, as its receiver reads them.
pub open spec fn request_kinds(i: Iface, op: u32) -> Option<Seq<WireKind>> {
    match i {
        Iface::Handshake => match op {
            0 => Some(seq![WireKind::Uint32]),
            1 => Some(Seq::empty()),
            2 => Some(seq![WireKind::Enum(EnumKind::ContextType)]),
            3 => Some(seq![WireKind::String]),
            4 => Some(seq![WireKind::String, WireKind::Uint32]),
            _ => None,
        },
        Iface::Connection => match op {
            0 => Some(seq![WireKind::Uint64, WireKind::Uint32]),
            1 => Some(Seq::empty()),
            _ => None,
        },
        Iface::Callback => match op {
            _ => None,
        },
        Iface::Pingpong => match op {
            0 => Some(seq![WireKind::Uint64]),
            _ => None,
        },
        Iface::Seat => match op {
            0 => Some(Seq::empty()),
            1 => Some(seq![WireKind::Uint64]),
            _ => None,
        },
        Iface::Device => match op {
            0 => Some(Seq::empty()),
            1 => Some(seq![WireKind::Uint32, WireKind::Uint32]),
            2 => Some(seq![WireKind::Uint32]),
            3 => Some(seq![WireKind::Uint32, WireKind::Uint64]),
            _ => None,
        },
        Iface::Pointer => match op {
            0 => Some(Seq::empty()),
            1 => Some(seq![WireKind::Float, WireKind::Float]),
            _ => None,
        },
        Iface::PointerAbsolute => match op {
            0 => Some(Seq::empty()),
            1 => Some(seq![WireKind::Float, WireKind::Float]),
            _ => None,
        },
        Iface::Scroll => match op {
            0 => Some(Seq::empty()),
            1 => Some(seq![WireKind::Float, WireKind::Float]),
            2 => Some(seq![WireKind::Int32, WireKind::Int32]),
            3 => Some(seq![WireKind::Uint32, WireKind::Uint32, WireKind::Uint32]),
            _ => None,
        },
        Iface::Button => match op {
            0 => Some(Seq::empty()),
            1 => Some(seq![WireKind::Uint32, WireKind::Enum(EnumKind::ButtonState)]),
            _ => None,
        },
        Iface::Keyboard => match op {
            0 => Some(Seq::empty()),
            1 => Some(seq![WireKind::Uint32, WireKind::Enum(EnumKind::KeyState)]),
            _ => None,
        },
        Iface::Touchscreen => match op {
            0 => Some(Seq::empty()),
            1 => Some(seq![WireKind::Uint32, WireKind::Float, WireKind::Float]),
            2 => Some(seq![WireKind::Uint32, WireKind::Float, WireKind::Float]),
            3 => Some(seq![WireKind::Uint32]),
            4 => Some(seq![WireKind::Uint32]),
            _ => None,
        },
    }
}

/// Kinds of the arguments of event `op` of interface `i`, as its receiver reads them.
pub open spec fn event_kinds(i: Iface, op: u32) -> Option<Seq<WireKind>> {
    match i {
        Iface::Handshake => match op {
            0 => Some(seq![WireKind::Uint32]),
            1 => Some(seq![WireKind::String, WireKind::Uint32]),
            2 => Some(seq![WireKind::Uint32, WireKind::Uint64, WireKind::Uint32]),
            _ => None,
        },
        Iface::Connection => match op {
            0 => Some(seq![WireKind::Uint32, WireKind::Enum(EnumKind::DisconnectReason), WireKind::String]),
            1 => Some(seq![WireKind::Uint64, WireKind::Uint32]),
            2 => Some(seq![WireKind::Uint32, WireKind::Uint64]),
            3 => Some(seq![WireKind::Uint64, WireKind::Uint32]),
            _ => None,
        },
        Iface::Callback => match op {
            0 => Some(seq![WireKind::Uint64]),
            _ => None,
        },
        Iface::Pingpong => match op {
            _ => None,
        },
        Iface::Seat => match op {
            0 => Some(seq![WireKind::Uint32]),
            1 => Some(seq![WireKind::String]),
            2 => Some(seq![WireKind::Uint64, WireKind::String]),
            3 => Some(Seq::empty()),
            4 => Some(seq![WireKind::Uint64, WireKind::Uint32]),
            _ => None,
        },
        Iface::Device => match op {
            0 => Some(seq![WireKind::Uint32]),
            1 => Some(seq![WireKind::String]),
            2 => Some(seq![WireKind::Enum(EnumKind::DeviceType)]),
            3 => Some(seq![WireKind::Uint32, WireKind::Uint32]),
            4 => Some(seq![WireKind::Uint32, WireKind::Uint32, WireKind::Uint32, WireKind::Uint32, WireKind::Float]),
            5 => Some(seq![WireKind::Uint64, WireKind::String, WireKind::Uint32]),
            6 => Some(Seq::empty()),
            7 => Some(seq![WireKind::Uint32]),
            8 => Some(seq![WireKind::Uint32]),
            9 => Some(seq![WireKind::Uint32, WireKind::Uint32]),
            10 => Some(seq![WireKind::Uint32]),
            11 => Some(seq![WireKind::Uint32, WireKind::Uint64]),
            12 => Some(seq![WireKind::String]),
            _ => None,
        },
        Iface::Pointer => match op {
            0 => Some(seq![WireKind::Uint32]),
            1 => Some(seq![WireKind::Float, WireKind::Float]),
            _ => None,
        },
        Iface::PointerAbsolute => match op {
            0 => Some(seq![WireKind::Uint32]),
            1 => Some(seq![WireKind::Float, WireKind::Float]),
            _ => None,
        },
        Iface::Scroll => match op {
            0 => Some(seq![WireKind::Uint32]),
            1 => Some(seq![WireKind::Float, WireKind::Float]),
            2 => Some(seq![WireKind::Int32, WireKind::Int32]),
            3 => Some(seq![WireKind::Uint32, WireKind::Uint32, WireKind::Uint32]),
            _ => None,
        },
        Iface::Button => match op {
            0 => Some(seq![WireKind::Uint32]),
            1 => Some(seq![WireKind::Uint32, WireKind::Enum(EnumKind::ButtonState)]),
            _ => None,
        },
        Iface::Keyboard => match op {
            0 => Some(seq![WireKind::Uint32]),
            1 => Some(seq![WireKind::Enum(EnumKind::KeymapType), WireKind::Uint32, WireKind::Fd]),
            2 => Some(seq![WireKind::Uint32, WireKind::Enum(EnumKind::KeyState)]),
            3 => Some(seq![WireKind::Uint32, WireKind::Uint32, WireKind::Uint32, WireKind::Uint32, WireKind::Uint32]),
            _ => None,
        },
        Iface::Touchscreen => match op {
            0 => Some(seq![WireKind::Uint32]),
            1 => Some(seq![WireKind::Uint32, WireKind::Float, WireKind::Float]),
            2 => Some(seq![WireKind::Uint32, WireKind::Float, WireKind::Float]),
            3 => Some(seq![WireKind::Uint32]),
            4 => Some(seq![WireKind::Uint32]),
            _ => None,
        },
    }
}

/// The object that request `op` of interface `i` creates, if any.
pub open spec fn request_slot(i: Iface, op: u32) -> Option<NewObjectSlot> {
    match i {
        Iface::Handshake => None,
        Iface::Connection => match op {
            0 => Some(NewObjectSlot::Fixed { interface: "ei_callback", id_index: 0, version_index: 1 }),
            _ => None,
        },
        Iface::Callback => None,
        Iface::Pingpong => None,
        Iface::Seat => None,
        Iface::Device => None,
        Iface::Pointer => None,
        Iface::PointerAbsolute => None,
        Iface::Scroll => None,
        Iface::Button => None,
        Iface::Keyboard => None,
        Iface::Touchscreen => None,
    }
}

/// The object that event `op` of interface `i` creates, if any.
pub open spec fn event_slot(i: Iface, op: u32) -> Option<NewObjectSlot> {
    match i {
        Iface::Handshake => match op {
            2 => Some(NewObjectSlot::Fixed { interface: "ei_connection", id_index: 1, version_index: 2 }),
            _ => None,
        },
        Iface::Connection => match op {
            1 => Some(NewObjectSlot::Fixed { interface: "ei_seat", id_index: 0, version_index: 1 }),
            3 => Some(NewObjectSlot::Fixed { interface: "ei_pingpong", id_index: 0, version_index: 1 }),
            _ => None,
        },
        Iface::Callback => None,
        Iface::Pingpong => None,
        Iface::Seat => match op {
            4 => Some(NewObjectSlot::Fixed { interface: "ei_device", id_index: 0, version_index: 1 }),
            _ => None,
        },
        Iface::Device => match op {
            5 => Some(NewObjectSlot::Named { id_index: 0, name_index: 1, version_index: 2 }),
            _ => None,
        },
        Iface::Pointer => None,
        Iface::PointerAbsolute => None,
        Iface::Scroll => None,
        Iface::Button => None,
        Iface::Keyboard => None,
        Iface::Touchscreen => None,
    }
}

/// Kinds of the arguments of incoming message `op` of interface `i`.
pub open spec fn incoming_kinds(side: Side, i: Iface, op: u32) -> Option<Seq<WireKind>> {
    match side {
        Side::Client => event_kinds(i, op),
        Side::Server => request_kinds(i, op),
    }
}

/// The object that incoming message `op` of interface `i` creates, if any.
pub open spec fn incoming_slot(side: Side, i: Iface, op: u32) -> Option<NewObjectSlot> {
    match side {
        Side::Client => event_slot(i, op),
        Side::Server => request_slot(i, op),
    }
}

/// What receiving one message did: the object it was for, its opcode and
/// its arguments; or an error; or a message for an unknown object.
pub enum Outcome {
    /// The object, the opcode, the arguments and the object the message created.
    Message(Object, u32, Seq<ArgModel>, Option<Object>),
    Error(ErrKind),
    InvalidObject(u64),
}

/// The model of what taking a message returned.
pub open spec fn pending_model<T: Incoming>(r: Option<PendingRequestResult<T>>) -> Option<Outcome> {
    match r {
        None => None,
        Some(PendingRequestResult::Request(m)) => Some(
            Outcome::Message(m.target(), m.wire_opcode(), m.wire_args(), m.wire_created()),
        ),
        Some(PendingRequestResult::ParseError(e)) => Some(Outcome::Error(e.kind())),
        Some(PendingRequestResult::InvalidObject(id)) => Some(Outcome::InvalidObject(id)),
    }
}

/// The state parts that receiving never changes.
pub open spec fn receive_frame<F>(b0: Backend<F>, b1: Backend<F>) -> bool {
    &&& b1.order == b0.order
    &&& b1.client == b0.client
    &&& b1.next_id == b0.next_id
    &&& b1.write_buf == b0.write_buf
    &&& b1.write_fds == b0.write_fds
}

/// No object and no descriptor was taken.
pub open spec fn objects_kept<F>(b0: Backend<F>, b1: Backend<F>) -> bool {
    &&& b1.objects == b0.objects
    &&& b1.next_peer_id == b0.next_peer_id
}

/// The outcome of a message whose arguments took `nb` of the `body_len`
/// bytes of its body: the message if they took all of them, else an error.
pub open spec fn complete_or_too_long(
    length: u32,
    body_len: nat,
    nb: nat,
    obj: Object,
    opcode: u32,
    vals: Seq<ArgModel>,
    slot: Option<NewObjectSlot>,
    r: Option<Outcome>,
) -> bool {
    if nb == body_len {
        r matches Some(Outcome::Message(o, op, v, c)) && o == obj && op == opcode && v == vals
            && created_ok(c, slot, vals, obj.client_side)
    } else {
        r == Some(Outcome::Error(ErrKind::MessageLength(length.wrapping_add((body_len - nb) as u32), length)))
    }
}

/// What taking one message from the read buffer of `b0`, on side `side`,
/// does: `b1` is the state after and `r` what was received.
pub open spec fn receive_post<F>(side: Side, b0: Backend<F>, b1: Backend<F>, r: Option<Outcome>) -> bool {
    match frame_of(b0.order, b0.read_buf@, b0.objects@) {
        Frame::Incomplete => r is None && b1 == b0,
        Frame::HeaderLength(l) => r == Some(Outcome::Error(ErrKind::HeaderLength(l))) && b1 == b0,
        Frame::InvalidObject(h) => {
            &&& r == Some(Outcome::InvalidObject(h.object_id))
            &&& receive_frame(b0, b1)
            &&& objects_kept(b0, b1)
            &&& b1.read_fds == b0.read_fds
            &&& b1.read_buf@ == b0.read_buf@.skip(h.length as int)
        },
        Frame::Message(h) => {
            let body = b0.read_buf@.subrange(HEADER_LEN as int, h.length as int);
            let info = b0.objects@[h.object_id];
            let obj = Object {
                id: h.object_id,
                interface: info.interface,
                version: info.version,
                client_side: b0.client,
            };
            &&& receive_frame(b0, b1)
            &&& b1.read_buf@ == b0.read_buf@.skip(h.length as int)
            &&& match Iface::spec_from_name(info.interface@) {
                None => {
                    &&& r == Some(Outcome::Error(ErrKind::InvalidInterface(info.interface@)))
                    &&& objects_kept(b0, b1)
                    &&& b1.read_fds == b0.read_fds
                },
                Some(i) => match incoming_kinds(side, i, h.opcode) {
                    None => {
                        &&& r == Some(Outcome::Error(ErrKind::InvalidOpcode(i.spec_short_name(), h.opcode)))
                        &&& objects_kept(b0, b1)
                        &&& b1.read_fds == b0.read_fds
                    },
                    Some(ks) => match decode_args(b0.order, ks, body, b0.read_fds@.len()) {
                        Err((e, nf)) => {
                            &&& r == Some(Outcome::Error(e))
                            &&& objects_kept(b0, b1)
                            &&& b1.read_fds@ == b0.read_fds@.skip(nf as int)
                        },
                        Ok((vals, nb, nf)) => {
                            &&& b1.read_fds@ == b0.read_fds@.skip(nf as int)
                            &&& match incoming_slot(side, i, h.opcode) {
                                Some(s) => if !b0.peer_id_ok(slot_id(s, vals)) {
                                    &&& r == Some(Outcome::Error(ErrKind::InvalidId(slot_id(s, vals))))
                                    &&& objects_kept(b0, b1)
                                } else {
                                    &&& records_object(b0, b1, s, vals)
                                    &&& complete_or_too_long(h.length, body.len(), nb, obj, h.opcode, vals, Some(s), r)
                                },
                                None => {
                                    &&& objects_kept(b0, b1)
                                    &&& complete_or_too_long(h.length, body.len(), nb, obj, h.opcode, vals, None, r)
                                },
                            }
                        },
                    },
                },
            }
        },
    }
}

/// Trait for interface proxies.
pub trait Interface: Sized {
    /// The interface this proxy is for.
    spec fn spec_iface() -> Iface;

    /// The highest version of the interface this proxy supports.
    spec fn spec_max_version() -> u32;

    /// Whether the proxy is for the client side.
    spec fn spec_client_side() -> bool;

    /// The object behind the proxy.
    spec fn spec_object(&self) -> Object;

    fn iface() -> (r: Iface)
        ensures
            r == Self::spec_iface(),
    ;

    /// The name of the interface, like `ei_device`.
    fn interface_name() -> (r: &'static str)
        ensures
            r == Self::spec_iface().spec_name(),
    ;

    /// The version of the interface this proxy supports.
    fn max_version() -> (r: u32)
        ensures
            r == Self::spec_max_version(),
    ;

    /// Whether this proxy is used on the client side.
    fn client_side() -> (r: bool)
        ensures
            r == Self::spec_client_side(),
    ;

    /// Returns a proxy for the object without checking its interface.
    fn new_unchecked(object: Object) -> (r: Self)
        ensures
            r.spec_object() == object,
    ;

    /// Returns the object behind the proxy.
    fn as_object(&self) -> (r: &Object)
        ensures
            *r == self.spec_object(),
    ;
}

impl Object {
    /// Returns an interface proxy if the object's interface and side match it.
    pub fn downcast<T: Interface>(self) -> (r: Option<T>)
        ensures
            r is Some <==> (self.client_side == T::spec_client_side() && self.interface@
                == T::spec_iface().spec_name()@),
            r matches Some(t) ==> t.spec_object() == self,
    {
        let same_name = bytes_eq(self.interface.as_str().as_bytes(), T::interface_name().as_bytes());
        proof {
            lemma_same_bytes(self.interface@, T::spec_iface().spec_name()@);
        }
        if self.client_side == T::client_side() && same_name {
            Some(T::new_unchecked(self))
        } else {
            None
        }
    }

    /// Returns an interface proxy without checking the object's interface.
    pub fn downcast_unchecked<T: Interface>(self) -> (r: T)
        ensures
            r.spec_object() == self,
    {
        T::new_unchecked(self)
    }
}

} // verus!
