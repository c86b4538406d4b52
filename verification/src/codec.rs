//! Fixed-width integer encoding in the host byte order, and the 16-byte
//! message header of the EI wire protocol.
use vstd::prelude::*;

verus! {

/// Byte order of the integers on the wire. The protocol uses the host order.
#[derive(Clone, Copy, Debug, PartialEq, Eq, Structural)]
pub enum ByteOrder {
    Little,
    Big,
}

/// `u16::to_ne_bytes` on the value 1: the two bytes in host order.
/// The contract claims only that one of the two possible orders comes out.
#[verifier::external_body]
fn one_in_host_order() -> (r: [u8; 2])
    ensures
        (r@ =~= seq![1u8, 0u8]) || (r@ =~= seq![0u8, 1u8]),
{
    1u16.to_ne_bytes()
}

/// Returns the byte order of the machine this runs on.
pub fn host_byte_order() -> (r: ByteOrder)
    ensures
        r == ByteOrder::Little || r == ByteOrder::Big,
{
    let bytes = one_in_host_order();
    if bytes[0] == 1u8 {
        ByteOrder::Little
    } else {
        ByteOrder::Big
    }
}

// ---------------------------------------------------------------------------
// Specifications
// ---------------------------------------------------------------------------

/// Little-endian bytes of a `u32`.
pub open spec fn le_bytes_u32(x: u32) -> Seq<u8> {
    seq![(x & 0xff) as u8, ((x >> 8u32) & 0xff) as u8, ((x >> 16u32) & 0xff) as u8, ((x >> 24u32) & 0xff) as u8]
}

/// Little-endian bytes of a `u64`.
pub open spec fn le_bytes_u64(x: u64) -> Seq<u8> {
    seq![
        (x & 0xff) as u8,
        ((x >> 8u64) & 0xff) as u8,
        ((x >> 16u64) & 0xff) as u8,
        ((x >> 24u64) & 0xff) as u8,
        ((x >> 32u64) & 0xff) as u8,
        ((x >> 40u64) & 0xff) as u8,
        ((x >> 48u64) & 0xff) as u8,
        ((x >> 56u64) & 0xff) as u8,
    ]
}

/// The value of four little-endian bytes.
pub open spec fn le_value_u32(b0: u8, b1: u8, b2: u8, b3: u8) -> u32 {
    (b0 as u32) | ((b1 as u32) << 8u32) | ((b2 as u32) << 16u32) | ((b3 as u32) << 24u32)
}

/// The value of eight little-endian bytes.
pub open spec fn le_value_u64(b: Seq<u8>) -> u64 {
    (b[0] as u64) | ((b[1] as u64) << 8u64) | ((b[2] as u64) << 16u64) | ((b[3] as u64) << 24u64)
        | ((b[4] as u64) << 32u64) | ((b[5] as u64) << 40u64) | ((b[6] as u64) << 48u64)
        | ((b[7] as u64) << 56u64)
}

/// Bytes of a `u32` in the given order.
pub open spec fn u32_bytes(o: ByteOrder, x: u32) -> Seq<u8> {
    match o {
        ByteOrder::Little => le_bytes_u32(x),
        ByteOrder::Big => le_bytes_u32(x).reverse(),
    }
}

/// Bytes of a `u64` in the given order.
pub open spec fn u64_bytes(o: ByteOrder, x: u64) -> Seq<u8> {
    match o {
        ByteOrder::Little => le_bytes_u64(x),
        ByteOrder::Big => le_bytes_u64(x).reverse(),
    }
}

/// The `u32` held by the first four bytes of `s`, in the given order.
pub open spec fn u32_value(o: ByteOrder, s: Seq<u8>) -> u32 {
    match o {
        ByteOrder::Little => le_value_u32(s[0], s[1], s[2], s[3]),
        ByteOrder::Big => le_value_u32(s[3], s[2], s[1], s[0]),
    }
}

/// The `u64` held by the first eight bytes of `s`, in the given order.
pub open spec fn u64_value(o: ByteOrder, s: Seq<u8>) -> u64 {
    match o {
        ByteOrder::Little => le_value_u64(s.take(8)),
        ByteOrder::Big => le_value_u64(s.take(8).reverse()),
    }
}

// ---------------------------------------------------------------------------
// Lemmas
// ---------------------------------------------------------------------------

proof fn lemma_le_u32_roundtrip(x: u32)
    ensures
        le_value_u32(
            (x & 0xff) as u8,
            ((x >> 8u32) & 0xff) as u8,
            ((x >> 16u32) & 0xff) as u8,
            ((x >> 24u32) & 0xff) as u8,
        ) == x,
{
    assert(((x & 0xff) as u8) as u32 == x & 0xff) by (bit_vector);
    assert((((x >> 8u32) & 0xff) as u8) as u32 == (x >> 8u32) & 0xff) by (bit_vector);
    assert((((x >> 16u32) & 0xff) as u8) as u32 == (x >> 16u32) & 0xff) by (bit_vector);
    assert((((x >> 24u32) & 0xff) as u8) as u32 == (x >> 24u32) & 0xff) by (bit_vector);
    assert(((x & 0xff) | (((x >> 8u32) & 0xff) << 8u32) | (((x >> 16u32) & 0xff) << 16u32) | (((x
        >> 24u32) & 0xff) << 24u32)) == x) by (bit_vector);
}

proof fn lemma_le_u32_bytes_of_value(b0: u8, b1: u8, b2: u8, b3: u8)
    ensures
        le_bytes_u32(le_value_u32(b0, b1, b2, b3)) =~= seq![b0, b1, b2, b3],
{
    let x = le_value_u32(b0, b1, b2, b3);
    assert(((x & 0xff) as u8) == b0 && (((x >> 8u32) & 0xff) as u8) == b1 && (((x >> 16u32) & 0xff)
        as u8) == b2 && (((x >> 24u32) & 0xff) as u8) == b3) by (bit_vector)
        requires
            x == (b0 as u32) | ((b1 as u32) << 8u32) | ((b2 as u32) << 16u32) | ((b3 as u32)
                << 24u32),
    ;
}

proof fn lemma_le_u64_roundtrip(x: u64)
    ensures
        le_value_u64(le_bytes_u64(x)) == x,
{
    let b = le_bytes_u64(x);
    let b0 = (x & 0xff) as u8;
    let b1 = ((x >> 8u64) & 0xff) as u8;
    let b2 = ((x >> 16u64) & 0xff) as u8;
    let b3 = ((x >> 24u64) & 0xff) as u8;
    let b4 = ((x >> 32u64) & 0xff) as u8;
    let b5 = ((x >> 40u64) & 0xff) as u8;
    let b6 = ((x >> 48u64) & 0xff) as u8;
    let b7 = ((x >> 56u64) & 0xff) as u8;
    assert(b[0] == b0 && b[1] == b1 && b[2] == b2 && b[3] == b3 && b[4] == b4 && b[5] == b5 && b[6]
        == b6 && b[7] == b7);
    assert((b0 as u64) | ((b1 as u64) << 8u64) | ((b2 as u64) << 16u64) | ((b3 as u64) << 24u64)
        | ((b4 as u64) << 32u64) | ((b5 as u64) << 40u64) | ((b6 as u64) << 48u64) | ((b7 as u64)
        << 56u64) == x) by (bit_vector)
        requires
            b0 == (x & 0xff) as u8,
            b1 == ((x >> 8u64) & 0xff) as u8,
            b2 == ((x >> 16u64) & 0xff) as u8,
            b3 == ((x >> 24u64) & 0xff) as u8,
            b4 == ((x >> 32u64) & 0xff) as u8,
            b5 == ((x >> 40u64) & 0xff) as u8,
            b6 == ((x >> 48u64) & 0xff) as u8,
            b7 == ((x >> 56u64) & 0xff) as u8,
    ;
}

proof fn lemma_le_u64_bytes_of_value(s: Seq<u8>)
    requires
        s.len() == 8,
    ensures
        le_bytes_u64(le_value_u64(s)) =~= s,
{
    let x = le_value_u64(s);
    let (b0, b1, b2, b3, b4, b5, b6, b7) = (s[0], s[1], s[2], s[3], s[4], s[5], s[6], s[7]);
    assert(((x & 0xff) as u8) == b0 && (((x >> 8u64) & 0xff) as u8) == b1 && (((x >> 16u64) & 0xff)
        as u8) == b2 && (((x >> 24u64) & 0xff) as u8) == b3 && (((x >> 32u64) & 0xff) as u8) == b4
        && (((x >> 40u64) & 0xff) as u8) == b5 && (((x >> 48u64) & 0xff) as u8) == b6 && (((x
        >> 56u64) & 0xff) as u8) == b7) by (bit_vector)
        requires
            x == (b0 as u64) | ((b1 as u64) << 8u64) | ((b2 as u64) << 16u64) | ((b3 as u64)
                << 24u64) | ((b4 as u64) << 32u64) | ((b5 as u64) << 40u64) | ((b6 as u64)
                << 48u64) | ((b7 as u64) << 56u64),
    ;
}

/// Decoding the four bytes written for a `u32` gives the value back.
pub proof fn lemma_u32_roundtrip(o: ByteOrder, x: u32, rest: Seq<u8>)
    ensures
        u32_bytes(o, x).len() == 4,
        u32_value(o, u32_bytes(o, x) + rest) == x,
{
    lemma_le_u32_roundtrip(x);
}

/// Writing the `u32` decoded from four bytes gives those bytes back.
pub proof fn lemma_u32_bytes_of_value(o: ByteOrder, s: Seq<u8>)
    requires
        s.len() >= 4,
    ensures
        u32_bytes(o, u32_value(o, s)) =~= s.take(4),
{
    match o {
        ByteOrder::Little => lemma_le_u32_bytes_of_value(s[0], s[1], s[2], s[3]),
        ByteOrder::Big => lemma_le_u32_bytes_of_value(s[3], s[2], s[1], s[0]),
    }
}

/// Decoding the eight bytes written for a `u64` gives the value back.
pub proof fn lemma_u64_roundtrip(o: ByteOrder, x: u64, rest: Seq<u8>)
    ensures
        u64_bytes(o, x).len() == 8,
        u64_value(o, u64_bytes(o, x) + rest) == x,
{
    lemma_le_u64_roundtrip(x);
    let b = u64_bytes(o, x);
    assert((b + rest).take(8) =~= b);
    match o {
        ByteOrder::Little => {},
        ByteOrder::Big => {
            assert(b.reverse() =~= le_bytes_u64(x));
        },
    }
}

/// Writing the `u64` decoded from eight bytes gives those bytes back.
pub proof fn lemma_u64_bytes_of_value(o: ByteOrder, s: Seq<u8>)
    requires
        s.len() >= 8,
    ensures
        u64_bytes(o, u64_value(o, s)) =~= s.take(8),
{
    match o {
        ByteOrder::Little => lemma_le_u64_bytes_of_value(s.take(8)),
        ByteOrder::Big => {
            lemma_le_u64_bytes_of_value(s.take(8).reverse());
            assert(s.take(8).reverse().reverse() =~= s.take(8));
        },
    }
}

/// The bit pattern of an `i32` survives the trip through `u32`.
pub proof fn lemma_i32_bits(x: i32)
    ensures
        (x as u32) as i32 == x,
{
    assert((x as u32) as i32 == x) by (bit_vector);
}

/// The bit pattern of an `i64` survives the trip through `u64`.
pub proof fn lemma_i64_bits(x: i64)
    ensures
        (x as u64) as i64 == x,
{
    assert((x as u64) as i64 == x) by (bit_vector);
}

// ---------------------------------------------------------------------------
// Executable encoding and decoding
// ---------------------------------------------------------------------------

/// Appends the bytes of `x` in order `o`.
pub fn put_u32(o: ByteOrder, x: u32, buf: &mut Vec<u8>)
    ensures
        final(buf)@ == old(buf)@ + u32_bytes(o, x),
{
    let b0 = (x & 0xff) as u8;
    let b1 = ((x >> 8u32) & 0xff) as u8;
    let b2 = ((x >> 16u32) & 0xff) as u8;
    let b3 = ((x >> 24u32) & 0xff) as u8;
    match o {
        ByteOrder::Little => {
            buf.push(b0);
            buf.push(b1);
            buf.push(b2);
            buf.push(b3);
        },
        ByteOrder::Big => {
            buf.push(b3);
            buf.push(b2);
            buf.push(b1);
            buf.push(b0);
        },
    }
    assert(final(buf)@ =~= old(buf)@ + u32_bytes(o, x));
}

/// Appends the bytes of `x` in order `o`.
pub fn put_u64(o: ByteOrder, x: u64, buf: &mut Vec<u8>)
    ensures
        final(buf)@ == old(buf)@ + u64_bytes(o, x),
{
    let b0 = (x & 0xff) as u8;
    let b1 = ((x >> 8u64) & 0xff) as u8;
    let b2 = ((x >> 16u64) & 0xff) as u8;
    let b3 = ((x >> 24u64) & 0xff) as u8;
    let b4 = ((x >> 32u64) & 0xff) as u8;
    let b5 = ((x >> 40u64) & 0xff) as u8;
    let b6 = ((x >> 48u64) & 0xff) as u8;
    let b7 = ((x >> 56u64) & 0xff) as u8;
    match o {
        ByteOrder::Little => {
            buf.push(b0);
            buf.push(b1);
            buf.push(b2);
            buf.push(b3);
            buf.push(b4);
            buf.push(b5);
            buf.push(b6);
            buf.push(b7);
        },
        ByteOrder::Big => {
            buf.push(b7);
            buf.push(b6);
            buf.push(b5);
            buf.push(b4);
            buf.push(b3);
            buf.push(b2);
            buf.push(b1);
            buf.push(b0);
        },
    }
    assert(final(buf)@ =~= old(buf)@ + u64_bytes(o, x));
}

/// Reads the `u32` at `pos`.
pub fn get_u32(o: ByteOrder, bytes: &[u8], pos: usize) -> (r: u32)
    requires
        pos + 4 <= bytes@.len(),
    ensures
        r == u32_value(o, bytes@.skip(pos as int)),
{
    let b0 = bytes[pos] as u32;
    let b1 = bytes[pos + 1] as u32;
    let b2 = bytes[pos + 2] as u32;
    let b3 = bytes[pos + 3] as u32;
    match o {
        ByteOrder::Little => b0 | (b1 << 8u32) | (b2 << 16u32) | (b3 << 24u32),
        ByteOrder::Big => b3 | (b2 << 8u32) | (b1 << 16u32) | (b0 << 24u32),
    }
}

/// Reads the `u64` at `pos`.
pub fn get_u64(o: ByteOrder, bytes: &[u8], pos: usize) -> (r: u64)
    requires
        pos + 8 <= bytes@.len(),
    ensures
        r == u64_value(o, bytes@.skip(pos as int)),
{
    let ghost s = bytes@.skip(pos as int).take(8);
    let b0 = bytes[pos] as u64;
    let b1 = bytes[pos + 1] as u64;
    let b2 = bytes[pos + 2] as u64;
    let b3 = bytes[pos + 3] as u64;
    let b4 = bytes[pos + 4] as u64;
    let b5 = bytes[pos + 5] as u64;
    let b6 = bytes[pos + 6] as u64;
    let b7 = bytes[pos + 7] as u64;
    match o {
        ByteOrder::Little => {
            b0 | (b1 << 8u64) | (b2 << 16u64) | (b3 << 24u64) | (b4 << 32u64) | (b5 << 40u64) | (b6
                << 48u64) | (b7 << 56u64)
        },
        ByteOrder::Big => {
            assert(s.reverse()[0] == s[7] && s.reverse()[1] == s[6] && s.reverse()[2] == s[5]
                && s.reverse()[3] == s[4] && s.reverse()[4] == s[3] && s.reverse()[5] == s[2]
                && s.reverse()[6] == s[1] && s.reverse()[7] == s[0]);
            b7 | (b6 << 8u64) | (b5 << 16u64) | (b4 << 24u64) | (b3 << 32u64) | (b2 << 40u64) | (b1
                << 48u64) | (b0 << 56u64)
        },
    }
}

// ---------------------------------------------------------------------------
// Message header
// ---------------------------------------------------------------------------

/// Size in bytes of a message header.
pub const HEADER_LEN: usize = 16;

/// Header of a message: the object it is addressed to, its total length in
/// bytes (header included) and its opcode.
#[derive(Clone, Copy, Debug, PartialEq, Eq, Structural)]
pub struct Header {
    pub object_id: u64,
    pub length: u32,
    pub opcode: u32,
}

/// The 16 bytes of a header.
pub open spec fn header_bytes(o: ByteOrder, h: Header) -> Seq<u8> {
    u64_bytes(o, h.object_id) + u32_bytes(o, h.length) + u32_bytes(o, h.opcode)
}

/// The header held by the first 16 bytes of `s`.
pub open spec fn header_value(o: ByteOrder, s: Seq<u8>) -> Header {
    Header {
        object_id: u64_value(o, s),
        length: u32_value(o, s.skip(8)),
        opcode: u32_value(o, s.skip(12)),
    }
}

impl Header {
    /// Reads a header from its 16 bytes.
    pub fn parse(o: ByteOrder, bytes: [u8; 16]) -> (h: Header)
        ensures
            h == header_value(o, bytes@),
    {
        let s = bytes.as_slice();
        let object_id = get_u64(o, s, 0);
        let length = get_u32(o, s, 8);
        let opcode = get_u32(o, s, 12);
        assert(bytes@.skip(0) =~= bytes@);
        Header { object_id, length, opcode }
    }

    /// The 16 bytes of this header.
    pub fn as_bytes(&self, o: ByteOrder) -> (v: Vec<u8>)
        ensures
            v@ == header_bytes(o, *self),
    {
        let mut v: Vec<u8> = Vec::new();
        put_u64(o, self.object_id, &mut v);
        put_u32(o, self.length, &mut v);
        put_u32(o, self.opcode, &mut v);
        assert(v@ =~= header_bytes(o, *self));
        v
    }
}

/// A header written and read back is the same header.
pub proof fn lemma_header_roundtrip(o: ByteOrder, h: Header, rest: Seq<u8>)
    ensures
        header_bytes(o, h).len() == 16,
        header_value(o, header_bytes(o, h) + rest) == h,
{
    let a = u64_bytes(o, h.object_id);
    let b = u32_bytes(o, h.length);
    let c = u32_bytes(o, h.opcode);
    lemma_u64_roundtrip(o, h.object_id, b + c + rest);
    lemma_u32_roundtrip(o, h.length, c + rest);
    lemma_u32_roundtrip(o, h.opcode, rest);
    let s = header_bytes(o, h) + rest;
    assert(s =~= a + (b + c + rest));
    assert(s.skip(8) =~= b + (c + rest));
    assert(s.skip(12) =~= c + rest);
}

/// Any 16 bytes read as a header and written again are the same bytes.
pub proof fn lemma_header_bytes_of_value(o: ByteOrder, s: Seq<u8>)
    requires
        s.len() >= 16,
    ensures
        header_bytes(o, header_value(o, s)) =~= s.take(16),
{
    lemma_u64_bytes_of_value(o, s);
    lemma_u32_bytes_of_value(o, s.skip(8));
    lemma_u32_bytes_of_value(o, s.skip(12));
    assert(s.take(16) =~= s.take(8) + s.skip(8).take(4) + s.skip(12).take(4));
}

} // verus!
