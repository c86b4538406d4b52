//! Device capabilities and sets of them, as bits of a `u64`.
use crate::protocol::Iface;
use vstd::prelude::*;

verus! {

/// A capability of a device, offered through an interface of its own.
#[derive(Clone, Copy, Debug, PartialEq, Eq, Hash, Structural)]
pub enum DeviceCapability {
    Pointer,
    PointerAbsolute,
    Keyboard,
    Touch,
    Scroll,
    Button,
}

/// All capabilities, in the order of their bits.
pub open spec fn all_capabilities() -> Seq<DeviceCapability> {
    seq![
        DeviceCapability::Pointer,
        DeviceCapability::PointerAbsolute,
        DeviceCapability::Keyboard,
        DeviceCapability::Touch,
        DeviceCapability::Scroll,
        DeviceCapability::Button,
    ]
}

/// The bits that name capabilities.
pub const ALL_BITS: u64 = 0x3f;

impl DeviceCapability {
    /// The position of the capability's bit.
    pub open spec fn index(self) -> nat {
        match self {
            DeviceCapability::Pointer => 0,
            DeviceCapability::PointerAbsolute => 1,
            DeviceCapability::Keyboard => 2,
            DeviceCapability::Touch => 3,
            DeviceCapability::Scroll => 4,
            DeviceCapability::Button => 5,
        }
    }

    pub open spec fn spec_bit(self) -> u64 {
        match self {
            DeviceCapability::Pointer => 1,
            DeviceCapability::PointerAbsolute => 2,
            DeviceCapability::Keyboard => 4,
            DeviceCapability::Touch => 8,
            DeviceCapability::Scroll => 16,
            DeviceCapability::Button => 32,
        }
    }

    /// The capability's bit; as a server controls its meaning, this is also
    /// the mask it announces for the capability.
    #[verifier::when_used_as_spec(spec_bit)]
    pub fn bit(self) -> (r: u64)
        ensures
            r == self.spec_bit(),
    {
        match self {
            DeviceCapability::Pointer => 1,
            DeviceCapability::PointerAbsolute => 2,
            DeviceCapability::Keyboard => 4,
            DeviceCapability::Touch => 8,
            DeviceCapability::Scroll => 16,
            DeviceCapability::Button => 32,
        }
    }

    /// The interface that offers the capability.
    pub open spec fn spec_iface(self) -> Iface {
        match self {
            DeviceCapability::Pointer => Iface::Pointer,
            DeviceCapability::PointerAbsolute => Iface::PointerAbsolute,
            DeviceCapability::Keyboard => Iface::Keyboard,
            DeviceCapability::Touch => Iface::Touchscreen,
            DeviceCapability::Scroll => Iface::Scroll,
            DeviceCapability::Button => Iface::Button,
        }
    }

    /// Returns the interface that offers the capability.
    #[verifier::when_used_as_spec(spec_iface)]
    pub fn iface(self) -> (r: Iface)
        ensures
            r == self.spec_iface(),
    {
        match self {
            DeviceCapability::Pointer => Iface::Pointer,
            DeviceCapability::PointerAbsolute => Iface::PointerAbsolute,
            DeviceCapability::Keyboard => Iface::Keyboard,
            DeviceCapability::Touch => Iface::Touchscreen,
            DeviceCapability::Scroll => Iface::Scroll,
            DeviceCapability::Button => Iface::Button,
        }
    }

    /// Returns the name of the interface that offers the capability, like
    /// `ei_pointer`.
    pub fn interface_name(self) -> (r: &'static str)
        ensures
            r == self.spec_iface().spec_name(),
    {
        self.iface().name()
    }
}

/// The capability whose interface is `i`, if any.
pub open spec fn capability_of(i: Iface) -> Option<DeviceCapability> {
    match i {
        Iface::Pointer => Some(DeviceCapability::Pointer),
        Iface::PointerAbsolute => Some(DeviceCapability::PointerAbsolute),
        Iface::Keyboard => Some(DeviceCapability::Keyboard),
        Iface::Touchscreen => Some(DeviceCapability::Touch),
        Iface::Scroll => Some(DeviceCapability::Scroll),
        Iface::Button => Some(DeviceCapability::Button),
        _ => None,
    }
}

/// Returns the capability whose interface is `i`, if any.
pub fn capability_of_iface(i: Iface) -> (r: Option<DeviceCapability>)
    ensures
        r == capability_of(i),
{
    match i {
        Iface::Pointer => Some(DeviceCapability::Pointer),
        Iface::PointerAbsolute => Some(DeviceCapability::PointerAbsolute),
        Iface::Keyboard => Some(DeviceCapability::Keyboard),
        Iface::Touchscreen => Some(DeviceCapability::Touch),
        Iface::Scroll => Some(DeviceCapability::Scroll),
        Iface::Button => Some(DeviceCapability::Button),
        _ => None,
    }
}

/// Every capability is among all capabilities.
pub proof fn lemma_in_all(c: DeviceCapability)
    ensures
        all_capabilities().contains(c),
        all_capabilities()[c.index() as int] == c,
{
    let l = all_capabilities();
    assert(l[c.index() as int] == c);
}

/// The capabilities are distinct.
pub proof fn lemma_all_distinct(j: int, k: int)
    requires
        0 <= j < k < 6,
    ensures
        all_capabilities()[j] != all_capabilities()[k],
{
}

/// The set of all capabilities lists all capabilities.
pub proof fn lemma_all_list()
    ensures
        (Capabilities { bits: ALL_BITS }).list() == all_capabilities(),
{
    let s = Capabilities { bits: ALL_BITS };
    assert forall|c: DeviceCapability| #[trigger] s.has(c) by {
        assert(0x3fu64 & 1 != 0 && 0x3fu64 & 2 != 0 && 0x3fu64 & 4 != 0 && 0x3fu64 & 8 != 0 && 0x3fu64 & 16 != 0
            && 0x3fu64 & 32 != 0) by (bit_vector);
    }
    let l = all_capabilities();
    let p = |c: DeviceCapability| s.has(c);
    assert(l.filter(p) =~= l) by {
        reveal_with_fuel(Seq::filter, 7);
        assert(l.drop_last().drop_last().drop_last().drop_last().drop_last().drop_last() =~= Seq::<DeviceCapability>::empty());
    }
}

/// The capability whose interface is named `name`, if any.
pub open spec fn capability_of_name(name: Seq<char>) -> Option<DeviceCapability> {
    match Iface::spec_from_name(name) {
        Some(i) => capability_of(i),
        None => None,
    }
}

/// A capability's interface name names that capability.
pub proof fn lemma_capability_name(c: DeviceCapability)
    ensures
        capability_of_name(c.spec_iface().spec_name()@) == Some(c),
{
    crate::protocol::lemma_name_roundtrip(c.spec_iface());
}

/// A set of capabilities, as their bits.
#[derive(Clone, Copy, Debug, PartialEq, Eq, Structural)]
pub struct Capabilities {
    pub bits: u64,
}

/// Why bits could not be read as capabilities: these bits name none.
#[derive(Clone, Copy, Debug, PartialEq, Eq, Structural)]
pub struct InvalidBits {
    pub invalid: u64,
}

impl Capabilities {
    /// Only bits of capabilities are set.
    pub open spec fn wf(self) -> bool {
        self.bits & !ALL_BITS == 0
    }

    /// Whether the set holds `c`.
    pub open spec fn has(self, c: DeviceCapability) -> bool {
        self.bits & c.spec_bit() != 0
    }

    /// The capabilities of the set, in the order of their bits.
    pub open spec fn list(self) -> Seq<DeviceCapability> {
        all_capabilities().filter(|c: DeviceCapability| self.has(c))
    }

    /// The empty set.
    pub fn empty() -> (r: Capabilities)
        ensures
            r.wf(),
            forall|c: DeviceCapability| !(#[trigger] r.has(c)),
    {
        let r = Capabilities { bits: 0 };
        assert forall|c: DeviceCapability| !(#[trigger] r.has(c)) by {
            let b = c.spec_bit();
            assert(0u64 & b == 0) by (bit_vector);
        }
        assert(0u64 & !0x3fu64 == 0) by (bit_vector);
        r
    }

    /// The set of all capabilities.
    pub fn all() -> (r: Capabilities)
        ensures
            r.bits == ALL_BITS,
            r.wf(),
            forall|c: DeviceCapability| #[trigger] r.has(c),
    {
        let r = Capabilities { bits: ALL_BITS };
        assert forall|c: DeviceCapability| #[trigger] r.has(c) by {
            assert(0x3fu64 & 1 != 0 && 0x3fu64 & 2 != 0 && 0x3fu64 & 4 != 0 && 0x3fu64 & 8 != 0 && 0x3fu64 & 16 != 0
                && 0x3fu64 & 32 != 0) by (bit_vector);
        }
        assert(0x3fu64 & !0x3fu64 == 0) by (bit_vector);
        r
    }

    /// Reads bits as capabilities; fails if a bit names none.
    pub fn from_bits(bits: u64) -> (r: Result<Capabilities, InvalidBits>)
        ensures
            match r {
                Ok(c) => c.bits == bits && c.wf(),
                Err(e) => bits & !ALL_BITS != 0 && e.invalid == bits & !ALL_BITS,
            },
    {
        let truncated = bits & ALL_BITS;
        if truncated == bits {
            assert(bits & 0x3f == bits ==> bits & !0x3fu64 == 0) by (bit_vector);
            Ok(Capabilities { bits })
        } else {
            assert(bits & 0x3f != bits ==> bits & !0x3fu64 != 0) by (bit_vector);
            assert(bits & !(bits & 0x3f) == bits & !0x3fu64) by (bit_vector);
            Err(InvalidBits { invalid: bits & !truncated })
        }
    }

    /// Whether every capability of `other` is in this set.
    pub fn contains(self, other: Capabilities) -> (r: bool)
        requires
            other.wf(),
        ensures
            r == (forall|c: DeviceCapability| #[trigger] other.has(c) ==> self.has(c)),
    {
        let r = self.bits & other.bits == other.bits;
        let s = self.bits;
        let o = other.bits;
        if r {
            assert forall|c: DeviceCapability| #[trigger] other.has(c) implies self.has(c) by {
                let b = c.spec_bit();
                assert(s & o == o && o & b != 0 ==> s & b != 0) by (bit_vector);
            }
        } else {
            assert(s & o != o && o & !0x3fu64 == 0 ==> (o & 1 != 0 && s & 1 == 0) || (o & 2 != 0 && s & 2 == 0) || (o
                & 4 != 0 && s & 4 == 0) || (o & 8 != 0 && s & 8 == 0) || (o & 16 != 0 && s & 16 == 0) || (o & 32 != 0 && s
                & 32 == 0)) by (bit_vector);
            if o & 1 != 0 && s & 1 == 0 {
                assert(other.has(DeviceCapability::Pointer));
            } else if o & 2 != 0 && s & 2 == 0 {
                assert(other.has(DeviceCapability::PointerAbsolute));
            } else if o & 4 != 0 && s & 4 == 0 {
                assert(other.has(DeviceCapability::Keyboard));
            } else if o & 8 != 0 && s & 8 == 0 {
                assert(other.has(DeviceCapability::Touch));
            } else if o & 16 != 0 && s & 16 == 0 {
                assert(other.has(DeviceCapability::Scroll));
            } else {
                assert(other.has(DeviceCapability::Button));
            }
        }
        r
    }

    /// Whether the set holds `c`.
    pub fn contains_capability(self, c: DeviceCapability) -> (r: bool)
        ensures
            r == self.has(c),
    {
        self.bits & c.bit() != 0
    }

    /// Adds a capability to the set.
    pub fn insert(&mut self, c: DeviceCapability)
        requires
            old(self).wf(),
        ensures
            final(self).wf(),
            forall|d: DeviceCapability| #[trigger] final(self).has(d) == (old(self).has(d) || d == c),
    {
        let s = self.bits;
        let b = c.bit();
        self.bits = s | b;
        assert forall|d: DeviceCapability| #[trigger] self.has(d) == (old(self).has(d) || d == c) by {
            let e = d.spec_bit();
            assert((s | b) & e != 0 <==> (s & e != 0 || b & e != 0)) by (bit_vector);
            if d != c {
                assert(b & e == 0) by {
                    match (c, d) {
                        (DeviceCapability::Pointer, _) | (DeviceCapability::PointerAbsolute, _) | (DeviceCapability::Keyboard, _)
                        | (DeviceCapability::Touch, _) | (DeviceCapability::Scroll, _) | (DeviceCapability::Button, _) => {
                            assert(1u64 & 2 == 0 && 1u64 & 4 == 0 && 1u64 & 8 == 0 && 1u64 & 16 == 0 && 1u64 & 32 == 0
                                && 2u64 & 1 == 0 && 2u64 & 4 == 0 && 2u64 & 8 == 0 && 2u64 & 16 == 0 && 2u64 & 32 == 0
                                && 4u64 & 1 == 0 && 4u64 & 2 == 0 && 4u64 & 8 == 0 && 4u64 & 16 == 0 && 4u64 & 32 == 0
                                && 8u64 & 1 == 0 && 8u64 & 2 == 0 && 8u64 & 4 == 0 && 8u64 & 16 == 0 && 8u64 & 32 == 0
                                && 16u64 & 1 == 0 && 16u64 & 2 == 0 && 16u64 & 4 == 0 && 16u64 & 8 == 0 && 16u64 & 32
                                == 0 && 32u64 & 1 == 0 && 32u64 & 2 == 0 && 32u64 & 4 == 0 && 32u64 & 8 == 0 && 32u64
                                & 16 == 0) by (bit_vector);
                        },
                    }
                }
            } else {
                assert(b & b != 0) by {
                    assert(1u64 & 1 != 0 && 2u64 & 2 != 0 && 4u64 & 4 != 0 && 8u64 & 8 != 0 && 16u64 & 16 != 0 && 32u64
                        & 32 != 0) by (bit_vector);
                }
            }
        }
        assert(s & !0x3fu64 == 0 && b <= 32 && (b == 1 || b == 2 || b == 4 || b == 8 || b == 16 || b == 32) ==> (s | b)
            & !0x3fu64 == 0) by (bit_vector);
    }

    /// Returns the capabilities of the set, in the order of their bits.
    pub fn iter(self) -> (r: Vec<DeviceCapability>)
        ensures
            r@ == self.list(),
    {
        let all = vec![
            DeviceCapability::Pointer,
            DeviceCapability::PointerAbsolute,
            DeviceCapability::Keyboard,
            DeviceCapability::Touch,
            DeviceCapability::Scroll,
            DeviceCapability::Button,
        ];
        assert(all@ =~= all_capabilities());
        let mut r: Vec<DeviceCapability> = Vec::new();
        let mut i: usize = 0;
        while i < all.len()
            invariant
                all@ == all_capabilities(),
                i <= all@.len(),
                r@ == all@.take(i as int).filter(|c: DeviceCapability| self.has(c)),
            decreases all@.len() - i,
        {
            let c = all[i];
            proof {
                assert(all@.take(i + 1) =~= all@.take(i as int).push(c));
                all@.take(i as int).lemma_filter_push(c, |c: DeviceCapability| self.has(c));
            }
            if self.contains_capability(c) {
                r.push(c);
            }
            i = i + 1;
        }
        assert(all@.take(6) =~= all@);
        r
    }
}

} // verus!
