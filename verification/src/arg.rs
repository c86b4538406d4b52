//! Arguments of requests and events: their encoding on the wire and their
//! decoding from a message body.
use crate::codec::{
    get_u32, get_u64, lemma_i32_bits, lemma_i64_bits, lemma_u32_roundtrip, lemma_u64_roundtrip, put_u32,
    put_u64, u32_bytes, u32_value, u64_bytes, u64_value, ByteOrder,
};
use crate::text::{digits, push_digits, push_signed, signed_decimal};
use std::collections::VecDeque;
use vstd::string::StringExecFns;
use vstd::prelude::*;
use vstd::utf8::*;

verus! {

broadcast use {encode_utf8_valid_utf8, encode_utf8_decode_utf8};

/// `std::string::FromUtf8Error`, carried through unread.
#[verifier::external_type_specification]
#[verifier::external_body]
pub struct ExFromUtf8Error(std::string::FromUtf8Error);

/// Wire format parse error.
#[derive(Debug)]
pub enum ParseError {
    /// End of message while parsing argument.
    EndOfMessage,
    /// Invalid UTF-8 string in message.
    Utf8(std::string::FromUtf8Error),
    /// Invalid object ID.
    InvalidId(u64),
    /// Expected file descriptor.
    NoFd,
    /// Invalid opcode for interface.
    InvalidOpcode(&'static str, u32),
    /// Invalid variant for enum.
    InvalidVariant(&'static str, u32),
    /// Unknown interface.
    InvalidInterface(String),
    /// Message header is too short.
    HeaderLength(u32),
    /// Message length didn't match header.
    MessageLength(u32, u32),
    /// NULL for non-nullable argument
    InvalidNull,
}

/// What a parse error says, with the UTF-8 error's details left out.
pub enum ErrKind {
    EndOfMessage,
    Utf8,
    InvalidId(u64),
    NoFd,
    InvalidOpcode(&'static str, u32),
    InvalidVariant(&'static str, u32),
    InvalidInterface(Seq<char>),
    HeaderLength(u32),
    MessageLength(u32, u32),
    InvalidNull,
}

impl ParseError {
    pub open spec fn kind(&self) -> ErrKind {
        match self {
            ParseError::EndOfMessage => ErrKind::EndOfMessage,
            ParseError::Utf8(_) => ErrKind::Utf8,
            ParseError::InvalidId(id) => ErrKind::InvalidId(*id),
            ParseError::NoFd => ErrKind::NoFd,
            ParseError::InvalidOpcode(i, op) => ErrKind::InvalidOpcode(*i, *op),
            ParseError::InvalidVariant(e, v) => ErrKind::InvalidVariant(*e, *v),
            ParseError::InvalidInterface(s) => ErrKind::InvalidInterface(s@),
            ParseError::HeaderLength(l) => ErrKind::HeaderLength(*l),
            ParseError::MessageLength(a, b) => ErrKind::MessageLength(*a, *b),
            ParseError::InvalidNull => ErrKind::InvalidNull,
        }
    }
}

/// The start of the message of a UTF-8 error, which the error's own text
/// follows.
pub open spec fn utf8_prefix() -> Seq<char> {
    "invalid UTF-8 string in message: "@
}

impl ParseError {
    /// The message of the error; for a UTF-8 error, only its start.
    pub open spec fn spec_message(&self) -> Seq<char> {
        match self {
            ParseError::EndOfMessage => "found end of message while parsing argument"@,
            ParseError::Utf8(_) => utf8_prefix(),
            ParseError::InvalidId(id) => "new object id '"@ + digits(*id as nat, 10) + "' invalid"@,
            ParseError::NoFd => "expected fd"@,
            ParseError::InvalidOpcode(i, op) => "opcode '"@ + digits(*op as nat, 10) + "' invalid for interface '"@ + i@
                + "'"@,
            ParseError::InvalidVariant(e, v) => "variant '"@ + digits(*v as nat, 10) + "' invalid for enum '"@ + e@
                + "'"@,
            ParseError::InvalidInterface(i) => "unknown interface '"@ + i@ + "'"@,
            ParseError::HeaderLength(l) => "header length "@ + digits(*l as nat, 10) + " < 16"@,
            ParseError::MessageLength(a, b) => "message length didn't match header ("@ + digits(*a as nat, 10)
                + " != "@ + digits(*b as nat, 10) + ")"@,
            ParseError::InvalidNull => "NULL value for non-nullable argument"@,
        }
    }

    /// Whether `t` is a message of the error: its message, or for a UTF-8
    /// error, its start followed by the text of the UTF-8 error.
    pub open spec fn is_message(&self, t: Seq<char>) -> bool {
        match self {
            ParseError::Utf8(_) => exists|u: Seq<char>| t == utf8_prefix() + u,
            _ => t == self.spec_message(),
        }
    }

    /// Returns the message of the error.
    pub fn to_string(&self) -> (r: String)
        ensures
            self.is_message(r@),
    {
        let mut s = String::new();
        match self {
            ParseError::EndOfMessage => s.append("found end of message while parsing argument"),
            ParseError::Utf8(e) => {
                s.append("invalid UTF-8 string in message: ");
                let t = e.to_string();
                s.append(t.as_str());
                assert(s@ =~= utf8_prefix() + t@);
            },
            ParseError::InvalidId(id) => {
                s.append("new object id '");
                push_digits(&mut s, *id, 10);
                s.append("' invalid");
            },
            ParseError::NoFd => s.append("expected fd"),
            ParseError::InvalidOpcode(i, op) => {
                s.append("opcode '");
                push_digits(&mut s, *op as u64, 10);
                s.append("' invalid for interface '");
                s.append(i);
                s.append("'");
            },
            ParseError::InvalidVariant(e, v) => {
                s.append("variant '");
                push_digits(&mut s, *v as u64, 10);
                s.append("' invalid for enum '");
                s.append(e);
                s.append("'");
            },
            ParseError::InvalidInterface(i) => {
                s.append("unknown interface '");
                s.append(i.as_str());
                s.append("'");
            },
            ParseError::HeaderLength(l) => {
                s.append("header length ");
                push_digits(&mut s, *l as u64, 10);
                s.append(" < 16");
            },
            ParseError::MessageLength(a, b) => {
                s.append("message length didn't match header (");
                push_digits(&mut s, *a as u64, 10);
                s.append(" != ");
                push_digits(&mut s, *b as u64, 10);
                s.append(")");
            },
            ParseError::InvalidNull => s.append("NULL value for non-nullable argument"),
        }
        s
    }
}

/// The protocol's enumerations, as argument kinds.
#[derive(Clone, Copy, Debug, PartialEq, Eq, Structural)]
pub enum EnumKind {
    ContextType,
    DisconnectReason,
    DeviceType,
    ButtonState,
    KeyState,
    KeymapType,
}

impl EnumKind {
    /// Name of the enum in parse errors.
    pub open spec fn spec_name(self) -> &'static str {
        match self {
            EnumKind::ContextType => "ContextType",
            EnumKind::DisconnectReason => "DisconnectReason",
            EnumKind::DeviceType => "DeviceType",
            EnumKind::ButtonState => "ButtonState",
            EnumKind::KeyState => "KeyState",
            EnumKind::KeymapType => "KeymapType",
        }
    }

    /// Whether `v` is the number of a variant of this enum.
    pub open spec fn spec_valid(self, v: u32) -> bool {
        match self {
            EnumKind::ContextType => 1 <= v <= 2,
            EnumKind::DisconnectReason => v <= 5,
            EnumKind::DeviceType => 1 <= v <= 2,
            EnumKind::ButtonState => v <= 1,
            EnumKind::KeyState => v <= 1,
            EnumKind::KeymapType => v == 1,
        }
    }

    #[verifier::when_used_as_spec(spec_name)]
    pub fn name(self) -> (r: &'static str)
        ensures
            r == self.spec_name(),
    {
        match self {
            EnumKind::ContextType => "ContextType",
            EnumKind::DisconnectReason => "DisconnectReason",
            EnumKind::DeviceType => "DeviceType",
            EnumKind::ButtonState => "ButtonState",
            EnumKind::KeyState => "KeyState",
            EnumKind::KeymapType => "KeymapType",
        }
    }

    #[verifier::when_used_as_spec(spec_valid)]
    pub fn valid(self, v: u32) -> (r: bool)
        ensures
            r == self.spec_valid(v),
    {
        match self {
            EnumKind::ContextType => 1 <= v && v <= 2,
            EnumKind::DisconnectReason => v <= 5,
            EnumKind::DeviceType => 1 <= v && v <= 2,
            EnumKind::ButtonState => v <= 1,
            EnumKind::KeyState => v <= 1,
            EnumKind::KeymapType => v == 1,
        }
    }
}

/// The kind of an argument as a receiver expects it.
#[derive(Clone, Copy, Debug, PartialEq, Eq, Structural)]
pub enum WireKind {
    Uint32,
    Int32,
    Uint64,
    Int64,
    Float,
    Fd,
    /// A string that must not be NULL.
    String,
    /// A string that may be NULL.
    OptString,
    /// A `u32` that must name a variant of the enum.
    Enum(EnumKind),
}

/// The content of an argument as it travels on the wire. Object and new
/// object IDs travel as `Uint64`; floats travel as their bits.
pub enum ArgModel {
    Uint32(u32),
    Int32(i32),
    Uint64(u64),
    Int64(i64),
    Float(u32),
    Fd,
    String(Option<Seq<char>>),
}

/// An argument to send in a request or an event.
pub enum Arg<'a, F> {
    Uint32(u32),
    Int32(i32),
    Uint64(u64),
    Int64(i64),
    /// A float, given by its bits.
    Float(u32),
    Fd(F),
    String(Option<&'a str>),
    NewId(u64),
    Id(u64),
}

/// An argument read from a message.
pub enum ArgValue<F> {
    Uint32(u32),
    Int32(i32),
    Uint64(u64),
    Int64(i64),
    /// A float, given by its bits.
    Float(u32),
    Fd(F),
    String(Option<String>),
}

impl<'a, F> Arg<'a, F> {
    pub open spec fn model(&self) -> ArgModel {
        match self {
            Arg::Uint32(x) => ArgModel::Uint32(*x),
            Arg::Int32(x) => ArgModel::Int32(*x),
            Arg::Uint64(x) => ArgModel::Uint64(*x),
            Arg::Int64(x) => ArgModel::Int64(*x),
            Arg::Float(x) => ArgModel::Float(*x),
            Arg::Fd(_) => ArgModel::Fd,
            Arg::String(None) => ArgModel::String(None),
            Arg::String(Some(s)) => ArgModel::String(Some(s@)),
            Arg::NewId(x) => ArgModel::Uint64(*x),
            Arg::Id(x) => ArgModel::Uint64(*x),
        }
    }

    /// The file descriptor this argument carries, if any.
    pub open spec fn fd_seq(&self) -> Seq<F> {
        match self {
            Arg::Fd(f) => seq![*f],
            _ => Seq::empty(),
        }
    }
}

impl<F> ArgValue<F> {
    pub open spec fn model(&self) -> ArgModel {
        match self {
            ArgValue::Uint32(x) => ArgModel::Uint32(*x),
            ArgValue::Int32(x) => ArgModel::Int32(*x),
            ArgValue::Uint64(x) => ArgModel::Uint64(*x),
            ArgValue::Int64(x) => ArgModel::Int64(*x),
            ArgValue::Float(x) => ArgModel::Float(*x),
            ArgValue::Fd(_) => ArgModel::Fd,
            ArgValue::String(None) => ArgModel::String(None),
            ArgValue::String(Some(s)) => ArgModel::String(Some(s@)),
        }
    }
}

impl<'a, F> Arg<'a, F> {
    /// The text of the argument, where this library writes it: integers in
    /// decimal, new and other object IDs in hexadecimal after `new_id ` and
    /// `id `, and a NULL string as `None`. Floats, descriptors and strings
    /// have none.
    pub open spec fn spec_text(&self) -> Option<Seq<char>> {
        match self {
            Arg::Uint32(x) => Some(digits(*x as nat, 10)),
            Arg::Int32(x) => Some(signed_decimal(*x as int)),
            Arg::Uint64(x) => Some(digits(*x as nat, 10)),
            Arg::Int64(x) => Some(signed_decimal(*x as int)),
            Arg::NewId(x) => Some("new_id "@ + digits(*x as nat, 16)),
            Arg::Id(x) => Some("id "@ + digits(*x as nat, 16)),
            Arg::String(None) => Some("None"@),
            _ => None,
        }
    }

    /// Returns the text of the argument, where this library writes it.
    pub fn text(&self) -> (r: Option<String>)
        ensures
            match r {
                Some(t) => self.spec_text() == Some(t@),
                None => self.spec_text() is None,
            },
    {
        let mut s = String::new();
        proof {
            assert(s@ == Seq::<char>::empty());
        }
        match self {
            Arg::Uint32(x) => push_digits(&mut s, *x as u64, 10),
            Arg::Int32(x) => push_signed(&mut s, *x as i64),
            Arg::Uint64(x) => push_digits(&mut s, *x, 10),
            Arg::Int64(x) => push_signed(&mut s, *x),
            Arg::NewId(x) => {
                s.append("new_id ");
                push_digits(&mut s, *x, 16);
            },
            Arg::Id(x) => {
                s.append("id ");
                push_digits(&mut s, *x, 16);
            },
            Arg::String(None) => s.append("None"),
            _ => return None,
        }
        proof {
            assert(self.spec_text() == Some(s@));
        }
        Some(s)
    }
}

/// Models of a sequence of arguments to send.
pub open spec fn args_model<'a, F>(args: Seq<Arg<'a, F>>) -> Seq<ArgModel> {
    args.map_values(|a: Arg<'a, F>| a.model())
}

/// Argument `i` of `args` is the ID of a new object exactly where `at` is
/// `Some(i)`, and none is the ID of an existing object.
pub open spec fn new_id_only_at<'a, F>(args: Seq<Arg<'a, F>>, at: Option<int>) -> bool {
    forall|i: int| 0 <= i < args.len() ==> ((#[trigger] args[i] is NewId) <==> at == Some(i)) && !(args[i] is Id)
}

/// The descriptors among `vals`, in order.
pub open spec fn values_fds<F>(vals: Seq<ArgValue<F>>) -> Seq<F>
    decreases vals.len(),
{
    if vals.len() == 0 {
        Seq::empty()
    } else {
        let front = values_fds(vals.drop_last());
        match vals.last() {
            ArgValue::Fd(x) => front.push(x),
            _ => front,
        }
    }
}

/// Models of a sequence of arguments read.
pub open spec fn values_model<F>(vals: Seq<ArgValue<F>>) -> Seq<ArgModel> {
    vals.map_values(|a: ArgValue<F>| a.model())
}

// ---------------------------------------------------------------------------
// Encoding
// ---------------------------------------------------------------------------

/// Number of NUL bytes that pad a string of `len` bytes (NUL included) to a
/// multiple of four.
pub open spec fn pad_len(len: nat) -> nat {
    if len % 4 == 0 {
        0
    } else {
        (4 - len % 4) as nat
    }
}

/// `n` zero bytes.
pub open spec fn zeros(n: nat) -> Seq<u8> {
    Seq::new(n, |i: int| 0u8)
}

/// Whether an argument can be written: a string's length with its NUL must
/// fit in a `u32`.
pub open spec fn arg_writable(a: ArgModel) -> bool {
    match a {
        ArgModel::String(Some(s)) => encode_utf8(s).len() + 1 <= u32::MAX,
        _ => true,
    }
}

/// The bytes that encode an argument. A string is its length with the NUL
/// (zero for NULL), its UTF-8 bytes, a NUL and padding to four bytes.
pub open spec fn arg_bytes(o: ByteOrder, a: ArgModel) -> Seq<u8> {
    match a {
        ArgModel::Uint32(x) => u32_bytes(o, x),
        ArgModel::Int32(x) => u32_bytes(o, x as u32),
        ArgModel::Uint64(x) => u64_bytes(o, x),
        ArgModel::Int64(x) => u64_bytes(o, x as u64),
        ArgModel::Float(x) => u32_bytes(o, x),
        ArgModel::Fd => Seq::empty(),
        ArgModel::String(None) => u32_bytes(o, 0),
        ArgModel::String(Some(s)) => {
            let b = encode_utf8(s);
            u32_bytes(o, (b.len() + 1) as u32) + b + seq![0u8] + zeros(pad_len(b.len() + 1))
        },
    }
}

/// Number of file descriptors an argument carries.
pub open spec fn arg_fds(a: ArgModel) -> nat {
    match a {
        ArgModel::Fd => 1,
        _ => 0,
    }
}

/// The bytes of a sequence of arguments.
pub open spec fn args_bytes(o: ByteOrder, args: Seq<ArgModel>) -> Seq<u8>
    decreases args.len(),
{
    if args.len() == 0 {
        Seq::empty()
    } else {
        arg_bytes(o, args[0]) + args_bytes(o, args.drop_first())
    }
}

/// Whether every argument can be written.
pub open spec fn args_writable(args: Seq<ArgModel>) -> bool {
    forall|i: int| 0 <= i < args.len() ==> arg_writable(#[trigger] args[i])
}

impl<'a, F> Arg<'a, F> {
    /// Appends the encoding of this argument; a file descriptor goes to `fds`.
    pub fn write(self, o: ByteOrder, buf: &mut Vec<u8>, fds: &mut Vec<F>)
        requires
            arg_writable(self.model()),
        ensures
            final(buf)@ == old(buf)@ + arg_bytes(o, self.model()),
            final(fds)@ == old(fds)@ + self.fd_seq(),
    {
        let ghost m = self.model();
        match self {
            Arg::Uint32(x) => put_u32(o, x, buf),
            Arg::Int32(x) => put_u32(o, #[verifier::truncate] (x as u32), buf),
            Arg::Uint64(x) => put_u64(o, x, buf),
            Arg::NewId(x) => put_u64(o, x, buf),
            Arg::Id(x) => put_u64(o, x, buf),
            Arg::Int64(x) => put_u64(o, #[verifier::truncate] (x as u64), buf),
            Arg::Float(x) => put_u32(o, x, buf),
            Arg::Fd(fd) => {
                fds.push(fd);
            },
            Arg::String(None) => put_u32(o, 0, buf),
            Arg::String(Some(s)) => {
                let bytes = s.as_bytes();
                let len = bytes.len() as u32 + 1;
                put_u32(o, len, buf);
                buf.extend_from_slice(bytes);
                buf.push(0u8);
                let ghost before_pad = buf@;
                if len % 4 != 0 {
                    let pad = 4 - len % 4;
                    let mut i: u32 = 0;
                    while i < pad
                        invariant
                            i <= pad,
                            pad == 4 - len % 4,
                            buf@ == before_pad + zeros(i as nat),
                        decreases pad - i,
                    {
                        buf.push(0u8);
                        i = i + 1;
                        assert(buf@ =~= before_pad + zeros(i as nat));
                    }
                    assert(pad_len(len as nat) == pad);
                } else {
                    assert(buf@ =~= before_pad + zeros(0));
                }
                assert(buf@ =~= old(buf)@ + arg_bytes(o, m));
            },
        }
    }
}

// ---------------------------------------------------------------------------
// Decoding
// ---------------------------------------------------------------------------

/// Result of decoding: the argument, the bytes and the file descriptors it
/// used; or the error and the file descriptors used before it.
pub type DecodeOne = Result<(ArgModel, nat, nat), ErrKind>;

/// How a string of the given kind decodes from `s`.
pub open spec fn decode_string(o: ByteOrder, nullable: bool, s: Seq<u8>) -> DecodeOne {
    if s.len() < 4 {
        Err(ErrKind::EndOfMessage)
    } else {
        let len = u32_value(o, s);
        if len == 0 {
            if nullable {
                Ok((ArgModel::String(None), 4nat, 0nat))
            } else {
                Err(ErrKind::InvalidNull)
            }
        } else if s.len() - 4 < len - 1 {
            Err(ErrKind::EndOfMessage)
        } else if !valid_utf8(s.subrange(4, 4 + len - 1)) {
            Err(ErrKind::Utf8)
        } else if s.len() < 4 + len + pad_len(len as nat) {
            Err(ErrKind::EndOfMessage)
        } else {
            Ok(
                (
                    ArgModel::String(Some(decode_utf8(s.subrange(4, 4 + len - 1)))),
                    (4 + len + pad_len(len as nat)) as nat,
                    0nat,
                ),
            )
        }
    }
}

/// How one argument of kind `k` decodes from `s` with `nfds` descriptors at hand.
#[verifier::opaque]
pub open spec fn decode_arg(o: ByteOrder, k: WireKind, s: Seq<u8>, nfds: nat) -> DecodeOne {
    match k {
        WireKind::Uint32 => if s.len() < 4 {
            Err(ErrKind::EndOfMessage)
        } else {
            Ok((ArgModel::Uint32(u32_value(o, s)), 4nat, 0nat))
        },
        WireKind::Int32 => if s.len() < 4 {
            Err(ErrKind::EndOfMessage)
        } else {
            Ok((ArgModel::Int32(u32_value(o, s) as i32), 4nat, 0nat))
        },
        WireKind::Uint64 => if s.len() < 8 {
            Err(ErrKind::EndOfMessage)
        } else {
            Ok((ArgModel::Uint64(u64_value(o, s)), 8nat, 0nat))
        },
        WireKind::Int64 => if s.len() < 8 {
            Err(ErrKind::EndOfMessage)
        } else {
            Ok((ArgModel::Int64(u64_value(o, s) as i64), 8nat, 0nat))
        },
        WireKind::Float => if s.len() < 4 {
            Err(ErrKind::EndOfMessage)
        } else {
            Ok((ArgModel::Float(u32_value(o, s)), 4nat, 0nat))
        },
        WireKind::Fd => if nfds == 0 {
            Err(ErrKind::NoFd)
        } else {
            Ok((ArgModel::Fd, 0nat, 1nat))
        },
        WireKind::String => decode_string(o, false, s),
        WireKind::OptString => decode_string(o, true, s),
        WireKind::Enum(e) => if s.len() < 4 {
            Err(ErrKind::EndOfMessage)
        } else if !e.spec_valid(u32_value(o, s)) {
            Err(ErrKind::InvalidVariant(e.spec_name(), u32_value(o, s)))
        } else {
            Ok((ArgModel::Uint32(u32_value(o, s)), 4nat, 0nat))
        },
    }
}

/// Result of decoding a sequence of arguments: the arguments, the bytes and
/// descriptors used; or the error with the descriptors used before it.
pub type DecodeMany = Result<(Seq<ArgModel>, nat, nat), (ErrKind, nat)>;

/// How arguments of the kinds `ks` decode from `s` with `nfds` descriptors.
pub open spec fn decode_args(o: ByteOrder, ks: Seq<WireKind>, s: Seq<u8>, nfds: nat) -> DecodeMany
    decreases ks.len(),
{
    if ks.len() == 0 {
        Ok((Seq::empty(), 0nat, 0nat))
    } else {
        match decode_arg(o, ks[0], s, nfds) {
            Err(e) => Err((e, 0nat)),
            Ok((v, nb, nf)) => match decode_args(o, ks.drop_first(), s.skip(nb as int), (nfds - nf) as nat) {
                Err((e, f)) => Err((e, nf + f)),
                Ok((vs, nb2, nf2)) => Ok((seq![v] + vs, nb + nb2, nf + nf2)),
            },
        }
    }
}

/// A message body with a read position.
pub struct Reader {
    pub bytes: Vec<u8>,
    pub pos: usize,
}

impl Reader {
    pub open spec fn wf(&self) -> bool {
        self.pos <= self.bytes@.len()
    }

    /// The bytes not read yet.
    pub open spec fn rest(&self) -> Seq<u8> {
        self.bytes@.skip(self.pos as int)
    }

    pub fn new(bytes: Vec<u8>) -> (r: Reader)
        ensures
            r.wf(),
            r.rest() == bytes@,
            r.bytes@ == bytes@,
    {
        let r = Reader { bytes, pos: 0 };
        assert(r.rest() =~= r.bytes@);
        r
    }

    /// Number of bytes not read yet.
    pub fn remaining(&self) -> (n: usize)
        requires
            self.wf(),
        ensures
            n == self.rest().len(),
            n == self.bytes@.len() - self.pos,
            self.bytes@.len() <= usize::MAX,
    {
        self.bytes.len() - self.pos
    }
}

/// `String::from_utf8`: the contract claims that the conversion succeeds
/// exactly on valid UTF-8 and then holds the decoded characters.
#[verifier::external_body]
fn string_from_utf8(bytes: Vec<u8>) -> (r: Result<String, std::string::FromUtf8Error>)
    ensures
        r is Ok <==> valid_utf8(bytes@),
        r matches Ok(s) ==> s@ == decode_utf8(bytes@),
{
    String::from_utf8(bytes)
}

/// Copies `n` bytes from position `pos`.
fn copy_bytes(bytes: &Vec<u8>, pos: usize, n: usize) -> (r: Vec<u8>)
    requires
        pos + n <= bytes@.len(),
    ensures
        r@ == bytes@.subrange(pos as int, pos + n),
{
    let mut r: Vec<u8> = Vec::new();
    let mut i: usize = 0;
    let total = bytes.len();
    while i < n
        invariant
            i <= n,
            total == bytes@.len(),
            pos + n <= bytes@.len(),
            r@ == bytes@.subrange(pos as int, pos + i),
        decreases n - i,
    {
        r.push(bytes[pos + i]);
        i = i + 1;
        assert(r@ =~= bytes@.subrange(pos as int, pos + i));
    }
    r
}

/// Reads a string, which may be NULL if `nullable`.
fn read_string(o: ByteOrder, nullable: bool, rd: &mut Reader) -> (r: Result<Option<String>, ParseError>)
    requires
        old(rd).wf(),
    ensures
        final(rd).wf(),
        final(rd).bytes == old(rd).bytes,
        match decode_string(o, nullable, old(rd).rest()) {
            Ok((m, nb, _)) => r is Ok && ArgValue::<()>::String(r->Ok_0).model() == m && final(rd).pos == old(rd).pos + nb,
            Err(e) => r matches Err(pe) && pe.kind() == e,
        },
{
    let ghost s = rd.rest();
    if rd.remaining() < 4 {
        return Err(ParseError::EndOfMessage);
    }
    let len = get_u32(o, rd.bytes.as_slice(), rd.pos);
    if len == 0 {
        if nullable {
            rd.pos = rd.pos + 4;
            return Ok(None);
        } else {
            return Err(ParseError::InvalidNull);
        }
    }
    if rd.remaining() - 4 < (len - 1) as usize {
        return Err(ParseError::EndOfMessage);
    }
    let n = (len - 1) as usize;
    let body = copy_bytes(&rd.bytes, rd.pos + 4, n);
    assert(body@ =~= s.subrange(4, 4 + len - 1));
    let string = match string_from_utf8(body) {
        Ok(st) => st,
        Err(e) => return Err(ParseError::Utf8(e)),
    };
    let pad: usize = if len % 4 == 0 { 0 } else { (4 - len % 4) as usize };
    assert(pad == pad_len(len as nat));
    if rd.remaining() - 4 < n + 1 + pad {
        return Err(ParseError::EndOfMessage);
    }
    rd.pos = rd.pos + 4 + n + 1 + pad;
    Ok(Some(string))
}

/// Reads one argument of kind `k`; a descriptor comes from the front of `fds`.
pub fn read_arg<F>(o: ByteOrder, k: WireKind, rd: &mut Reader, fds: &mut VecDeque<F>) -> (r: Result<ArgValue<F>, ParseError>)
    requires
        old(rd).wf(),
    ensures
        final(rd).wf(),
        final(rd).bytes == old(rd).bytes,
        match decode_arg(o, k, old(rd).rest(), old(fds)@.len()) {
            Ok((m, nb, nf)) => r matches Ok(v) && v.model() == m && final(rd).pos == old(rd).pos + nb
                && final(fds)@ == old(fds)@.skip(nf as int),
            Err(e) => r matches Err(pe) && pe.kind() == e && final(fds)@ == old(fds)@,
        },
        r matches Ok(ArgValue::Fd(x)) ==> old(fds)@.len() > 0 && x == old(fds)@[0] && final(fds)@ == old(fds)@.skip(1),
        r matches Ok(v) ==> (v is Fd || final(fds)@ == old(fds)@),
{
    reveal(decode_arg);
    match k {
        WireKind::Fd => {
            match fds.pop_front() {
                Some(fd) => {
                    assert(fds@ =~= old(fds)@.skip(1));
                    Ok(ArgValue::Fd(fd))
                },
                None => Err(ParseError::NoFd),
            }
        },
        WireKind::String => {
            let s = read_string(o, false, rd)?;
            assert(fds@ =~= old(fds)@.skip(0));
            Ok(ArgValue::String(s))
        },
        WireKind::OptString => {
            let s = read_string(o, true, rd)?;
            assert(fds@ =~= old(fds)@.skip(0));
            Ok(ArgValue::String(s))
        },
        WireKind::Uint64 | WireKind::Int64 => {
            if rd.remaining() < 8 {
                return Err(ParseError::EndOfMessage);
            }
            let x = get_u64(o, rd.bytes.as_slice(), rd.pos);
            rd.pos = rd.pos + 8;
            assert(fds@ =~= old(fds)@.skip(0));
            match k {
                WireKind::Uint64 => Ok(ArgValue::Uint64(x)),
                _ => Ok(ArgValue::Int64(#[verifier::truncate] (x as i64))),
            }
        },
        _ => {
            if rd.remaining() < 4 {
                return Err(ParseError::EndOfMessage);
            }
            let x = get_u32(o, rd.bytes.as_slice(), rd.pos);
            assert(fds@ =~= old(fds)@.skip(0));
            match k {
                WireKind::Enum(e) => {
                    if !e.valid(x) {
                        return Err(ParseError::InvalidVariant(e.name(), x));
                    }
                    rd.pos = rd.pos + 4;
                    Ok(ArgValue::Uint32(x))
                },
                WireKind::Int32 => {
                    rd.pos = rd.pos + 4;
                    Ok(ArgValue::Int32(#[verifier::truncate] (x as i32)))
                },
                WireKind::Float => {
                    rd.pos = rd.pos + 4;
                    Ok(ArgValue::Float(x))
                },
                _ => {
                    rd.pos = rd.pos + 4;
                    Ok(ArgValue::Uint32(x))
                },
            }
        },
    }
}


/// Puts already decoded arguments in front of a decoding result.
pub open spec fn prepend_decoded(p: Seq<ArgModel>, b: nat, f: nat, r: DecodeMany) -> DecodeMany {
    match r {
        Ok((vs, nb, nf)) => Ok((p + vs, b + nb, f + nf)),
        Err((e, g)) => Err((e, f + g)),
    }
}

proof fn lemma_prepend_step(p: Seq<ArgModel>, b: nat, f: nat, v: ArgModel, nb: nat, nf: nat, r: DecodeMany)
    ensures
        prepend_decoded(p, b, f, prepend_decoded(seq![v], nb, nf, r)) == prepend_decoded(
            p.push(v),
            b + nb,
            f + nf,
            r,
        ),
{
    match r {
        Ok((vs, nb2, nf2)) => {
            assert(p + (seq![v] + vs) =~= p.push(v) + vs);
        },
        Err(_) => {},
    }
}

/// A decoded argument uses no more bytes or descriptors than there are.
pub proof fn lemma_decode_arg_bounds(o: ByteOrder, k: WireKind, s: Seq<u8>, n: nat)
    ensures
        decode_arg(o, k, s, n) matches Ok((_, nb, nf)) ==> nb <= s.len() && nf <= n,
{
    reveal(decode_arg);
}

proof fn lemma_read_step(
    o: ByteOrder,
    ks: Seq<WireKind>,
    rest: Seq<u8>,
    n: nat,
    p: Seq<ArgModel>,
    b: nat,
    f: nat,
    d: DecodeMany,
)
    requires
        ks.len() > 0,
        d == prepend_decoded(p, b, f, decode_args(o, ks, rest, n)),
    ensures
        match decode_arg(o, ks[0], rest, n) {
            Ok((m, nb, nf)) => d == prepend_decoded(
                p.push(m),
                b + nb,
                f + nf,
                decode_args(o, ks.drop_first(), rest.skip(nb as int), (n - nf) as nat),
            ),
            Err(e) => d == Err::<(Seq<ArgModel>, nat, nat), (ErrKind, nat)>((e, f)),
        },
{
    match decode_arg(o, ks[0], rest, n) {
        Ok((m, nb, nf)) => {
            lemma_prepend_step(p, b, f, m, nb, nf, decode_args(o, ks.drop_first(), rest.skip(nb as int), (n - nf) as nat));
        },
        Err(e) => {},
    }
}

/// Reads arguments of the kinds `ks`, in order.
pub fn read_args<F>(o: ByteOrder, ks: &[WireKind], rd: &mut Reader, fds: &mut VecDeque<F>) -> (r: Result<Vec<ArgValue<F>>, ParseError>)
    requires
        old(rd).wf(),
    ensures
        final(rd).wf(),
        final(rd).bytes == old(rd).bytes,
        match decode_args(o, ks@, old(rd).rest(), old(fds)@.len()) {
            Ok((ms, nb, nf)) => r matches Ok(vs) && values_model(vs@) == ms && final(rd).pos == old(rd).pos + nb
                && final(fds)@ == old(fds)@.skip(nf as int) && values_fds(vs@) == old(fds)@.take(nf as int),
            Err((e, nf)) => r matches Err(pe) && pe.kind() == e && final(fds)@ == old(fds)@.skip(nf as int),
        },
{
    let ghost s0 = rd.rest();
    let ghost pos0 = rd.pos;
    let ghost fds0 = fds@;
    let ghost d = decode_args(o, ks@, s0, fds0.len());
    let mut vs: Vec<ArgValue<F>> = Vec::new();
    let mut i: usize = 0;
    proof {
        assert(ks@.skip(0) =~= ks@);
        assert(fds0.skip(0) =~= fds0);
        assert(fds0.take(0) =~= Seq::<F>::empty());
        assert(values_model(vs@) =~= Seq::<ArgModel>::empty());
        match d {
            Ok((a, _, _)) => {
                assert(Seq::<ArgModel>::empty() + a =~= a);
            },
            Err(_) => {},
        }
    }
    while i < ks.len()
        invariant
            i <= ks@.len(),
            rd.wf(),
            rd.bytes == old(rd).bytes,
            pos0 == old(rd).pos,
            s0 == old(rd).rest(),
            fds0 == old(fds)@,
            d == decode_args(o, ks@, s0, fds0.len()),
            rd.pos >= pos0,
            fds@.len() <= fds0.len(),
            fds@ == fds0.skip(fds0.len() - fds@.len()),
            values_fds(vs@) == fds0.take(fds0.len() - fds@.len()),
            d == prepend_decoded(
                values_model(vs@),
                (rd.pos - pos0) as nat,
                (fds0.len() - fds@.len()) as nat,
                decode_args(o, ks@.skip(i as int), rd.rest(), fds@.len()),
            ),
        decreases ks@.len() - i,
    {
        let ghost rest_before = rd.rest();
        let ghost fds_before = fds@;
        let ghost pos_before = rd.pos;
        let ghost tail = ks@.skip(i as int);
        proof {
            assert(tail[0] == ks@[i as int]);
            assert(tail.drop_first() =~= ks@.skip(i + 1));
            lemma_decode_arg_bounds(o, ks@[i as int], rest_before, fds_before.len());
            lemma_read_step(o, tail, rest_before, fds_before.len(), values_model(vs@), (pos_before - pos0) as nat, (fds0.len() - fds_before.len()) as nat, d);
        }
        let k = ks[i];
        match read_arg(o, k, rd, fds) {
            Ok(v) => {
                let ghost old_vs = vs@;
                vs.push(v);
                proof {
                    assert(vs@.drop_last() =~= old_vs);
                    if v is Fd {
                        assert(fds0.take(fds0.len() - fds@.len()) =~= fds0.take(fds0.len() - fds_before.len()).push(fds_before[0]));
                    } else {
                        assert(values_fds(vs@) == values_fds(old_vs));
                    }
                    assert(values_model(vs@) =~= values_model(old_vs).push(v.model()));
                    assert(rd.rest() =~= rest_before.skip(rd.pos - pos_before));
                    assert(fds@ =~= fds0.skip(fds0.len() - fds@.len()));
                }
            },
            Err(e) => {
                return Err(e);
            },
        }
        i = i + 1;
    }
    proof {
        assert(ks@.skip(i as int) =~= Seq::<WireKind>::empty());
        match d {
            Ok((a, _, _)) => {
                assert(values_model(vs@) + Seq::<ArgModel>::empty() =~= values_model(vs@));
            },
            Err(_) => {},
        }
    }
    Ok(vs)
}


// ---------------------------------------------------------------------------
// Taking decoded arguments apart
// ---------------------------------------------------------------------------

/// `vals` starts with an argument of kind `k`, and the rest match `ks`.
pub open spec fn starts_with<F>(k: WireKind, ks: Seq<WireKind>, vals: Seq<ArgValue<F>>) -> bool {
    kinds_accept(seq![k] + ks, values_model(vals))
}

proof fn lemma_take_first<F>(k: WireKind, ks: Seq<WireKind>, vals: Seq<ArgValue<F>>)
    requires
        starts_with(k, ks, vals),
    ensures
        vals.len() == ks.len() + 1,
        kind_accepts(k, vals[0].model()),
        values_model(vals)[0] == vals[0].model(),
        kinds_accept(ks, values_model(vals.drop_first())),
        values_model(vals.drop_first()) == values_model(vals).drop_first(),
{
    let all = seq![k] + ks;
    assert(all[0] == k);
    assert(values_model(vals.drop_first()) =~= values_model(vals).drop_first());
    assert forall|i: int| 0 <= i < ks.len() implies kind_accepts(#[trigger] ks[i], values_model(vals.drop_first())[i]) by {
        assert(all[i + 1] == ks[i]);
        assert(kind_accepts(all[i + 1], values_model(vals)[i + 1]));
    }
}

/// Takes the first argument, a `u32` or the number of an enum's variant.
pub fn take_u32<F>(vals: &mut Vec<ArgValue<F>>, Ghost(k): Ghost<WireKind>, Ghost(ks): Ghost<Seq<WireKind>>) -> (x: u32)
    requires
        k == WireKind::Uint32 || k is Enum,
        starts_with(k, ks, old(vals)@),
    ensures
        kinds_accept(ks, values_model(final(vals)@)),
        values_model(old(vals)@) == seq![ArgModel::Uint32(x)] + values_model(final(vals)@),
        k matches WireKind::Enum(e) ==> e.spec_valid(x),
{
    proof {
        lemma_take_first(k, ks, old(vals)@);
    }
    let v = vals.remove(0);
    proof {
        assert(vals@ =~= old(vals)@.drop_first());
        assert(values_model(old(vals)@) =~= seq![v.model()] + values_model(vals@));
    }
    match v {
        ArgValue::Uint32(x) => x,
        _ => vstd::pervasive::unreached(),
    }
}

/// Takes the first argument, an `i32`.
pub fn take_i32<F>(vals: &mut Vec<ArgValue<F>>, Ghost(ks): Ghost<Seq<WireKind>>) -> (x: i32)
    requires
        starts_with(WireKind::Int32, ks, old(vals)@),
    ensures
        kinds_accept(ks, values_model(final(vals)@)),
        values_model(old(vals)@) == seq![ArgModel::Int32(x)] + values_model(final(vals)@),
{
    proof {
        lemma_take_first(WireKind::Int32, ks, old(vals)@);
    }
    let v = vals.remove(0);
    proof {
        assert(vals@ =~= old(vals)@.drop_first());
        assert(values_model(old(vals)@) =~= seq![v.model()] + values_model(vals@));
    }
    match v {
        ArgValue::Int32(x) => x,
        _ => vstd::pervasive::unreached(),
    }
}

/// Takes the first argument, a `u64`.
pub fn take_u64<F>(vals: &mut Vec<ArgValue<F>>, Ghost(ks): Ghost<Seq<WireKind>>) -> (x: u64)
    requires
        starts_with(WireKind::Uint64, ks, old(vals)@),
    ensures
        kinds_accept(ks, values_model(final(vals)@)),
        values_model(old(vals)@) == seq![ArgModel::Uint64(x)] + values_model(final(vals)@),
{
    proof {
        lemma_take_first(WireKind::Uint64, ks, old(vals)@);
    }
    let v = vals.remove(0);
    proof {
        assert(vals@ =~= old(vals)@.drop_first());
        assert(values_model(old(vals)@) =~= seq![v.model()] + values_model(vals@));
    }
    match v {
        ArgValue::Uint64(x) => x,
        _ => vstd::pervasive::unreached(),
    }
}

/// Takes the first argument, an `i64`.
pub fn take_i64<F>(vals: &mut Vec<ArgValue<F>>, Ghost(ks): Ghost<Seq<WireKind>>) -> (x: i64)
    requires
        starts_with(WireKind::Int64, ks, old(vals)@),
    ensures
        kinds_accept(ks, values_model(final(vals)@)),
        values_model(old(vals)@) == seq![ArgModel::Int64(x)] + values_model(final(vals)@),
{
    proof {
        lemma_take_first(WireKind::Int64, ks, old(vals)@);
    }
    let v = vals.remove(0);
    proof {
        assert(vals@ =~= old(vals)@.drop_first());
        assert(values_model(old(vals)@) =~= seq![v.model()] + values_model(vals@));
    }
    match v {
        ArgValue::Int64(x) => x,
        _ => vstd::pervasive::unreached(),
    }
}

/// Takes the first argument, a float given by its bits.
pub fn take_float<F>(vals: &mut Vec<ArgValue<F>>, Ghost(ks): Ghost<Seq<WireKind>>) -> (x: u32)
    requires
        starts_with(WireKind::Float, ks, old(vals)@),
    ensures
        kinds_accept(ks, values_model(final(vals)@)),
        values_model(old(vals)@) == seq![ArgModel::Float(x)] + values_model(final(vals)@),
{
    proof {
        lemma_take_first(WireKind::Float, ks, old(vals)@);
    }
    let v = vals.remove(0);
    proof {
        assert(vals@ =~= old(vals)@.drop_first());
        assert(values_model(old(vals)@) =~= seq![v.model()] + values_model(vals@));
    }
    match v {
        ArgValue::Float(x) => x,
        _ => vstd::pervasive::unreached(),
    }
}

/// Takes the first argument, a file descriptor.
pub fn take_fd<F>(vals: &mut Vec<ArgValue<F>>, Ghost(ks): Ghost<Seq<WireKind>>) -> (x: F)
    requires
        starts_with(WireKind::Fd, ks, old(vals)@),
    ensures
        kinds_accept(ks, values_model(final(vals)@)),
        values_model(old(vals)@) == seq![ArgModel::Fd] + values_model(final(vals)@),
        old(vals)@[0] == ArgValue::Fd(x),
{
    proof {
        lemma_take_first(WireKind::Fd, ks, old(vals)@);
    }
    let v = vals.remove(0);
    proof {
        assert(vals@ =~= old(vals)@.drop_first());
        assert(values_model(old(vals)@) =~= seq![v.model()] + values_model(vals@));
    }
    match v {
        ArgValue::Fd(x) => x,
        _ => vstd::pervasive::unreached(),
    }
}

/// Takes the first argument, a string that is not NULL.
pub fn take_string<F>(vals: &mut Vec<ArgValue<F>>, Ghost(ks): Ghost<Seq<WireKind>>) -> (x: String)
    requires
        starts_with(WireKind::String, ks, old(vals)@),
    ensures
        kinds_accept(ks, values_model(final(vals)@)),
        values_model(old(vals)@) == seq![ArgModel::String(Some(x@))] + values_model(final(vals)@),
{
    proof {
        lemma_take_first(WireKind::String, ks, old(vals)@);
    }
    let v = vals.remove(0);
    proof {
        assert(vals@ =~= old(vals)@.drop_first());
        assert(values_model(old(vals)@) =~= seq![v.model()] + values_model(vals@));
    }
    match v {
        ArgValue::String(Some(x)) => x,
        _ => vstd::pervasive::unreached(),
    }
}

/// Takes the first argument, a string that may be NULL.
pub fn take_opt_string<F>(vals: &mut Vec<ArgValue<F>>, Ghost(ks): Ghost<Seq<WireKind>>) -> (x: Option<String>)
    requires
        starts_with(WireKind::OptString, ks, old(vals)@),
    ensures
        kinds_accept(ks, values_model(final(vals)@)),
        values_model(old(vals)@) == seq![ArgModel::String(match x { Some(s) => Some(s@), None => None })]
            + values_model(final(vals)@),
{
    proof {
        lemma_take_first(WireKind::OptString, ks, old(vals)@);
    }
    let v = vals.remove(0);
    proof {
        assert(vals@ =~= old(vals)@.drop_first());
        assert(values_model(old(vals)@) =~= seq![v.model()] + values_model(vals@));
    }
    match v {
        ArgValue::String(x) => x,
        _ => vstd::pervasive::unreached(),
    }
}

// ---------------------------------------------------------------------------
// Round trip
// ---------------------------------------------------------------------------

/// Whether argument `a` is one a receiver expecting kind `k` accepts.
pub open spec fn kind_accepts(k: WireKind, a: ArgModel) -> bool {
    match (k, a) {
        (WireKind::Uint32, ArgModel::Uint32(_)) => true,
        (WireKind::Int32, ArgModel::Int32(_)) => true,
        (WireKind::Uint64, ArgModel::Uint64(_)) => true,
        (WireKind::Int64, ArgModel::Int64(_)) => true,
        (WireKind::Float, ArgModel::Float(_)) => true,
        (WireKind::Fd, ArgModel::Fd) => true,
        (WireKind::String, ArgModel::String(Some(_))) => true,
        (WireKind::OptString, ArgModel::String(_)) => true,
        (WireKind::Enum(e), ArgModel::Uint32(v)) => e.spec_valid(v),
        _ => false,
    }
}

/// Number of file descriptors a sequence of arguments carries.
pub open spec fn args_fds(args: Seq<ArgModel>) -> nat
    decreases args.len(),
{
    if args.len() == 0 {
        0
    } else {
        arg_fds(args[0]) + args_fds(args.drop_first())
    }
}

/// Whether arguments `args` are, one by one, accepted by the kinds `ks`.
pub open spec fn kinds_accept(ks: Seq<WireKind>, args: Seq<ArgModel>) -> bool {
    &&& ks.len() == args.len()
    &&& forall|i: int| 0 <= i < ks.len() ==> kind_accepts(#[trigger] ks[i], args[i])
}

/// An argument written and read back with a kind that accepts it is the same
/// argument, and the reader uses exactly the bytes and descriptors written.
pub proof fn lemma_arg_roundtrip(o: ByteOrder, k: WireKind, a: ArgModel, rest: Seq<u8>, n: nat)
    requires
        kind_accepts(k, a),
        arg_writable(a),
        n >= arg_fds(a),
    ensures
        decode_arg(o, k, arg_bytes(o, a) + rest, n) == Ok::<(ArgModel, nat, nat), ErrKind>(
            (a, arg_bytes(o, a).len(), arg_fds(a)),
        ),
{
    reveal(decode_arg);
    let s = arg_bytes(o, a) + rest;
    match a {
        ArgModel::Uint32(x) => {
            lemma_u32_roundtrip(o, x, rest);
        },
        ArgModel::Int32(x) => {
            lemma_u32_roundtrip(o, x as u32, rest);
            lemma_i32_bits(x);
        },
        ArgModel::Uint64(x) => {
            lemma_u64_roundtrip(o, x, rest);
        },
        ArgModel::Int64(x) => {
            lemma_u64_roundtrip(o, x as u64, rest);
            lemma_i64_bits(x);
        },
        ArgModel::Float(x) => {
            lemma_u32_roundtrip(o, x, rest);
        },
        ArgModel::Fd => {},
        ArgModel::String(None) => {
            lemma_u32_roundtrip(o, 0, rest);
        },
        ArgModel::String(Some(st)) => {
            let b = encode_utf8(st);
            let len = (b.len() + 1) as u32;
            let tail = b + seq![0u8] + zeros(pad_len(b.len() + 1));
            lemma_u32_roundtrip(o, len, tail + rest);
            assert(s =~= u32_bytes(o, len) + (tail + rest));
            assert(s.subrange(4, 4 + len - 1) =~= b);
        },
    }
}

/// Arguments written one after the other and read back with kinds that
/// accept them are the same arguments, using exactly the bytes and
/// A string written is read back: as an optional or a required string, the
/// bytes of a string `s` read as `s`, taking the four bytes of its length
/// and its UTF-8 bytes with the NUL, padded to a multiple of four, and no
/// descriptor; what follows stays. A zero length reads as no string where
/// one is optional, taking four bytes, and is refused as
/// [`ParseError::InvalidNull`] where one is required.
pub proof fn law_string_read_back(o: ByteOrder, s: Seq<char>, rest: Seq<u8>, n: nat)
    requires
        encode_utf8(s).len() + 1 <= u32::MAX,
    ensures
        ({
            let w = arg_bytes(o, ArgModel::String(Some(s)));
            let len = encode_utf8(s).len() + 1;
            &&& w.len() == 4 + 4 * ((len + 3) / 4)
            &&& decode_arg(o, WireKind::OptString, w + rest, n) == Ok::<(ArgModel, nat, nat), ErrKind>(
                (ArgModel::String(Some(s)), w.len(), 0),
            )
            &&& decode_arg(o, WireKind::String, w + rest, n) == Ok::<(ArgModel, nat, nat), ErrKind>(
                (ArgModel::String(Some(s)), w.len(), 0),
            )
        }),
        decode_arg(o, WireKind::OptString, u32_bytes(o, 0) + rest, n) == Ok::<(ArgModel, nat, nat), ErrKind>(
            (ArgModel::String(None), 4, 0),
        ),
        decode_arg(o, WireKind::String, u32_bytes(o, 0) + rest, n) == Err::<(ArgModel, nat, nat), ErrKind>(
            ErrKind::InvalidNull,
        ),
{
    let a = ArgModel::String(Some(s));
    lemma_arg_roundtrip(o, WireKind::OptString, a, rest, n);
    lemma_arg_roundtrip(o, WireKind::String, a, rest, n);
    lemma_u32_roundtrip(o, 0, rest);
    reveal(decode_arg);
    let len = encode_utf8(s).len() + 1;
    let b = encode_utf8(s);
    lemma_u32_roundtrip(o, len as u32, b + seq![0u8] + zeros(pad_len(len as nat)));
    assert(zeros(pad_len(len as nat)).len() == pad_len(len as nat));
    assert(len + pad_len(len as nat) == 4 * ((len + 3) / 4)) by {
        let q = len / 4;
        let r = len % 4;
        assert(len == 4 * q + r && 0 <= r < 4) by (nonlinear_arith)
            requires
                len >= 1,
                q == len / 4,
                r == len % 4,
        ;
        if r == 0 {
            assert((len + 3) / 4 == q) by (nonlinear_arith)
                requires len == 4 * q, q >= 0;
        } else {
            assert((len + 3) / 4 == q + 1) by (nonlinear_arith)
                requires len == 4 * q + r, 1 <= r < 4, q >= 0;
        }
    }
}

/// descriptors written.
pub proof fn lemma_args_roundtrip(o: ByteOrder, ks: Seq<WireKind>, args: Seq<ArgModel>, rest: Seq<u8>, n: nat)
    requires
        kinds_accept(ks, args),
        args_writable(args),
        n >= args_fds(args),
    ensures
        decode_args(o, ks, args_bytes(o, args) + rest, n) == Ok::<(Seq<ArgModel>, nat, nat), (ErrKind, nat)>(
            (args, args_bytes(o, args).len(), args_fds(args)),
        ),
    decreases args.len(),
{
    if args.len() > 0 {
        let a = args[0];
        let tail_args = args.drop_first();
        assert(kind_accepts(ks[0], args[0]));
        assert(arg_writable(args[0]));
        assert(kinds_accept(ks.drop_first(), tail_args)) by {
            assert forall|i: int| 0 <= i < ks.drop_first().len() implies kind_accepts(
                #[trigger] ks.drop_first()[i],
                tail_args[i],
            ) by {
                assert(kind_accepts(ks[i + 1], args[i + 1]));
            }
        }
        assert(args_writable(tail_args)) by {
            assert forall|i: int| 0 <= i < tail_args.len() implies arg_writable(#[trigger] tail_args[i]) by {
                assert(arg_writable(args[i + 1]));
            }
        }
        let tb = args_bytes(o, tail_args) + rest;
        let s = args_bytes(o, args) + rest;
        assert(s =~= arg_bytes(o, a) + tb);
        lemma_arg_roundtrip(o, ks[0], a, tb, n);
        assert(s.skip(arg_bytes(o, a).len() as int) =~= tb);
        lemma_args_roundtrip(o, ks.drop_first(), tail_args, rest, (n - arg_fds(a)) as nat);
        assert(seq![a] + tail_args =~= args);
        assert(args_bytes(o, args).len() == arg_bytes(o, a).len() + args_bytes(o, tail_args).len());
    } else {
        assert(args =~= Seq::<ArgModel>::empty());
        assert(ks =~= Seq::<WireKind>::empty());
        assert(args_bytes(o, args) + rest =~= rest);
    }
}

} // verus!
