//! The handshake that starts a connection: the client announces itself and
//! the interfaces it supports, the server answers with the versions it
//! negotiated and the connection object.
use crate::arg::ArgModel;
use crate::backend::{Backend, Object};
use crate::ei;
use crate::eis;
use crate::enums::ContextType;
use crate::backend::message_bytes;
use crate::message::{
    lemma_sent_none, lemma_sent_one_more, messages_bytes, same_but_writes, sent, sent_all, str_fits, MessageModel,
};
use crate::protocol::{bytes_eq, lemma_encode_len, lemma_name_len, lemma_same_bytes, Iface, Interface};
use vstd::prelude::*;
use vstd::string::StringExecFns;
use crate::text::{digits, push_digits};

verus! {

/// The interfaces this library supports besides `ei_handshake`, in the
/// order the client announces them.
pub open spec fn spec_interfaces() -> Seq<Iface> {
    seq![
        Iface::Connection,
        Iface::Callback,
        Iface::Pingpong,
        Iface::Seat,
        Iface::Device,
        Iface::Pointer,
        Iface::PointerAbsolute,
        Iface::Scroll,
        Iface::Button,
        Iface::Keyboard,
        Iface::Touchscreen,
    ]
}

/// The version of an interface that the client proxies support.
pub open spec fn client_version(i: Iface) -> u32 {
    match i {
        Iface::Device => 2,
        _ => 1,
    }
}

/// Returns the version of an interface that the client proxies support.
pub fn client_version_of(i: Iface) -> (r: u32)
    ensures
        r == client_version(i),
{
    match i {
        Iface::Handshake => ei::Handshake::max_version(),
        Iface::Connection => ei::Connection::max_version(),
        Iface::Callback => ei::Callback::max_version(),
        Iface::Pingpong => ei::Pingpong::max_version(),
        Iface::Seat => ei::Seat::max_version(),
        Iface::Device => ei::Device::max_version(),
        Iface::Pointer => ei::Pointer::max_version(),
        Iface::PointerAbsolute => ei::PointerAbsolute::max_version(),
        Iface::Scroll => ei::Scroll::max_version(),
        Iface::Button => ei::Button::max_version(),
        Iface::Keyboard => ei::Keyboard::max_version(),
        Iface::Touchscreen => ei::Touchscreen::max_version(),
    }
}

/// Returns the interfaces this library supports besides `ei_handshake`,
/// with their versions.
pub fn interfaces() -> (r: Vec<(&'static str, u32)>)
    ensures
        r@.len() == spec_interfaces().len(),
        forall|k: int|
            0 <= k < r@.len() ==> (#[trigger] r@[k]).0 == spec_interfaces()[k].spec_name() && r@[k].1
                == client_version(spec_interfaces()[k]),
{
    let list = vec![
        Iface::Connection,
        Iface::Callback,
        Iface::Pingpong,
        Iface::Seat,
        Iface::Device,
        Iface::Pointer,
        Iface::PointerAbsolute,
        Iface::Scroll,
        Iface::Button,
        Iface::Keyboard,
        Iface::Touchscreen,
    ];
    assert(list@ =~= spec_interfaces());
    let mut r: Vec<(&'static str, u32)> = Vec::new();
    let mut k: usize = 0;
    while k < list.len()
        invariant
            list@ == spec_interfaces(),
            k <= list@.len(),
            r@.len() == k,
            forall|j: int|
                0 <= j < k ==> (#[trigger] r@[j]).0 == spec_interfaces()[j].spec_name() && r@[j].1 == client_version(
                    spec_interfaces()[j],
                ),
        decreases list@.len() - k,
    {
        let i = list[k];
        r.push((i.name(), client_version_of(i)));
        k = k + 1;
    }
    r
}

/// The supported interface named `name`, if any.
pub open spec fn spec_find_interface(name: Seq<char>) -> Option<Iface> {
    match Iface::spec_from_name(name) {
        Some(Iface::Handshake) => None,
        r => r,
    }
}

/// The supported interface named `name`, if any, with its name and version.
pub fn find_interface(name: &str) -> (r: Option<(&'static str, u32)>)
    ensures
        match spec_find_interface(name@) {
            Some(i) => r == Some((i.spec_name(), client_version(i))),
            None => r is None,
        },
{
    match Iface::from_name(name) {
        Some(Iface::Handshake) => None,
        Some(i) => Some((i.name(), client_version_of(i))),
        None => None,
    }
}

/// Interface names with versions, each name at most once, kept in the order
/// they were first inserted.
pub struct InterfaceMap {
    entries: Vec<(String, u32)>,
    map: Ghost<Map<Seq<char>, u32>>,
}

impl View for InterfaceMap {
    type V = Map<Seq<char>, u32>;

    closed spec fn view(&self) -> Map<Seq<char>, u32> {
        self.map@
    }
}

impl InterfaceMap {
    /// The entries, in order.
    pub closed spec fn order(&self) -> Seq<(Seq<char>, u32)> {
        self.entries@.map_values(|e: (String, u32)| (e.0@, e.1))
    }

    /// The names are distinct, and the map holds exactly the entries.
    pub closed spec fn wf(&self) -> bool {
        &&& forall|i: int, j: int|
            0 <= i < j < self.entries@.len() ==> (#[trigger] self.entries@[i]).0@ != (#[trigger] self.entries@[j]).0@
        &&& forall|i: int|
            0 <= i < self.entries@.len() ==> self.map@.contains_key((#[trigger] self.entries@[i]).0@)
                && self.map@[self.entries@[i].0@] == self.entries@[i].1
        &&& forall|k: Seq<char>|
            #[trigger] self.map@.contains_key(k) ==> exists|i: int|
                0 <= i < self.entries@.len() && (#[trigger] self.entries@[i]).0@ == k
    }

    /// The names in the map are those of the entries, and each has its
    /// entry's version.
    pub proof fn lemma_order(&self)
        requires
            self.wf(),
        ensures
            forall|i: int|
                0 <= i < self.order().len() ==> self@.contains_key((#[trigger] self.order()[i]).0) && self@[self.order()[i].0]
                    == self.order()[i].1,
            forall|k: Seq<char>|
                #[trigger] self@.contains_key(k) ==> exists|i: int| 0 <= i < self.order().len() && (#[trigger] self.order()[i]).0 == k,
            forall|i: int, j: int| 0 <= i < j < self.order().len() ==> (#[trigger] self.order()[i]).0 != (#[trigger] self.order()[j]).0,
    {
        assert forall|k: Seq<char>| #[trigger] self@.contains_key(k) implies exists|i: int|
            0 <= i < self.order().len() && (#[trigger] self.order()[i]).0 == k by {
            let i = choose|i: int| 0 <= i < self.entries@.len() && (#[trigger] self.entries@[i]).0@ == k;
            assert(self.order()[i].0 == k);
        }
        assert forall|i: int, j: int| 0 <= i < j < self.order().len() implies (#[trigger] self.order()[i]).0 != (
        #[trigger] self.order()[j]).0 by {
            assert(self.entries@[i].0@ != self.entries@[j].0@);
        }
    }

    /// Creates an empty map.
    pub fn new() -> (r: Self)
        ensures
            r.wf(),
            r@ == Map::<Seq<char>, u32>::empty(),
            r.order() == Seq::<(Seq<char>, u32)>::empty(),
    {
        let r = InterfaceMap { entries: Vec::new(), map: Ghost(Map::empty()) };
        assert(r.order() =~= Seq::<(Seq<char>, u32)>::empty());
        r
    }

    fn index_of(&self, name: &str) -> (r: Option<usize>)
        ensures
            match r {
                Some(i) => i < self.entries@.len() && self.entries@[i as int].0@ == name@,
                None => forall|i: int| 0 <= i < self.entries@.len() ==> (#[trigger] self.entries@[i]).0@ != name@,
            },
    {
        let mut i: usize = 0;
        while i < self.entries.len()
            invariant
                i <= self.entries@.len(),
                forall|j: int| 0 <= j < i ==> (#[trigger] self.entries@[j]).0@ != name@,
            decreases self.entries@.len() - i,
        {
            let same = bytes_eq(self.entries[i].0.as_str().as_bytes(), name.as_bytes());
            proof {
                lemma_same_bytes(self.entries@[i as int].0@, name@);
            }
            if same {
                return Some(i);
            }
            i = i + 1;
        }
        None
    }

    /// Sets the version of `name`. A new name goes after the others.
    pub fn insert(&mut self, name: String, version: u32)
        requires
            old(self).wf(),
        ensures
            final(self).wf(),
            final(self)@ == old(self)@.insert(name@, version),
            old(self)@.contains_key(name@) ==> exists|i: int|
                0 <= i < old(self).order().len() && old(self).order()[i].0 == name@ && final(self).order()
                    == old(self).order().update(i, (name@, version)),
            !old(self)@.contains_key(name@) ==> final(self).order() == old(self).order().push((name@, version)),
    {
        let ghost key = name@;
        let ghost m = self.map@.insert(key, version);
        match self.index_of(name.as_str()) {
            Some(i) => {
                let mut entries = Vec::new();
                std::mem::swap(&mut entries, &mut self.entries);
                let ghost before = entries@;
                entries.set(i, (name, version));
                proof {
                    assert(entries@ =~= before.update(i as int, (entries@[i as int].0, version)));
                }
                *self = InterfaceMap { entries, map: Ghost(m) };
                proof {
                    assert(old(self).map@.contains_key(key));
                    assert(self.order() =~= old(self).order().update(i as int, (key, version)));
                    assert forall|k: Seq<char>| #[trigger] self.map@.contains_key(k) implies exists|j: int|
                        0 <= j < self.entries@.len() && (#[trigger] self.entries@[j]).0@ == k by {
                        if k == key {
                            assert(self.entries@[i as int].0@ == k);
                        } else {
                            assert(old(self).map@.contains_key(k));
                            let j = choose|j: int| 0 <= j < before.len() && (#[trigger] before[j]).0@ == k;
                            assert(self.entries@[j].0@ == k);
                        }
                    }
                }
            },
            None => {
                let mut entries = Vec::new();
                std::mem::swap(&mut entries, &mut self.entries);
                let ghost before = entries@;
                entries.push((name, version));
                *self = InterfaceMap { entries, map: Ghost(m) };
                proof {
                    assert(!old(self).map@.contains_key(key)) by {
                        if old(self).map@.contains_key(key) {
                            let j = choose|j: int| 0 <= j < before.len() && (#[trigger] before[j]).0@ == key;
                            assert(before[j].0@ != key);
                        }
                    }
                    assert(self.order() =~= old(self).order().push((key, version)));
                    assert forall|k: Seq<char>| #[trigger] self.map@.contains_key(k) implies exists|j: int|
                        0 <= j < self.entries@.len() && (#[trigger] self.entries@[j]).0@ == k by {
                        if k == key {
                            assert(self.entries@[before.len() as int].0@ == k);
                        } else {
                            assert(old(self).map@.contains_key(k));
                            let j = choose|j: int| 0 <= j < before.len() && (#[trigger] before[j]).0@ == k;
                            assert(self.entries@[j].0@ == k);
                        }
                    }
                }
            },
        }
    }

    /// Returns the version of `name`, if the map has it.
    pub fn get(&self, name: &str) -> (r: Option<u32>)
        requires
            self.wf(),
        ensures
            r == (if self@.contains_key(name@) { Some(self@[name@]) } else { None::<u32> }),
    {
        match self.index_of(name) {
            Some(i) => Some(self.entries[i].1),
            None => {
                proof {
                    if self.map@.contains_key(name@) {
                        let j = choose|j: int| 0 <= j < self.entries@.len() && (#[trigger] self.entries@[j]).0@ == name@;
                        assert(self.entries@[j].0@ != name@);
                    }
                }
                None
            },
        }
    }

    /// Returns `true` if the map has `name`.
    pub fn contains_key(&self, name: &str) -> (r: bool)
        requires
            self.wf(),
        ensures
            r == self@.contains_key(name@),
    {
        self.get(name).is_some()
    }

    /// Returns the number of entries.
    pub fn len(&self) -> (r: usize)
        ensures
            r == self.order().len(),
    {
        self.entries.len()
    }

    /// Returns the entry at position `i`, in insertion order.
    pub fn entry(&self, i: usize) -> (r: (&str, u32))
        requires
            i < self.order().len(),
        ensures
            r.0@ == self.order()[i as int].0,
            r.1 == self.order()[i as int].1,
    {
        (self.entries[i].0.as_str(), self.entries[i].1)
    }

    /// Takes the contents, leaving the map empty.
    pub fn take(&mut self) -> (r: InterfaceMap)
        ensures
            r == *old(self),
            final(self).wf(),
            final(self)@ == Map::<Seq<char>, u32>::empty(),
            final(self).order() == Seq::<(Seq<char>, u32)>::empty(),
    {
        let mut r = InterfaceMap::new();
        std::mem::swap(&mut r, self);
        r
    }
}

/// Handshake response on the client side.
pub struct HandshakeResp {
    /// Global `ei_connection` singleton object.
    pub connection: ei::Connection,
    /// Serial number of `ei_handshake.connection`.
    pub serial: u32,
    /// Interfaces along with their versions negotiated in the handshake.
    pub negotiated_interfaces: InterfaceMap,
}

/// Error during handshake.
#[derive(Debug)]
pub enum HandshakeError {
    /// Invalid object ID.
    InvalidObject(u64),
    /// Non-handshake event.
    NonHandshakeEvent,
    /// Missing required interface.
    MissingInterface,
    /// Duplicate event.
    DuplicateEvent,
}

impl HandshakeError {
    /// The message of the error.
    pub open spec fn spec_message(&self) -> Seq<char> {
        match self {
            HandshakeError::InvalidObject(id) => "invalid object "@ + digits(*id as nat, 10) + " during handshake"@,
            HandshakeError::NonHandshakeEvent => "non-handshake event during handshake"@,
            HandshakeError::MissingInterface => "missing required interface"@,
            HandshakeError::DuplicateEvent => "duplicate event during handshake"@,
        }
    }

    /// Returns the message of the error.
    pub fn to_string(&self) -> (r: String)
        ensures
            r@ == self.spec_message(),
    {
        match self {
            HandshakeError::InvalidObject(id) => {
                let mut s = String::from_str("invalid object ");
                push_digits(&mut s, *id, 10);
                s.append(" during handshake");
                s
            },
            HandshakeError::NonHandshakeEvent => String::from_str("non-handshake event during handshake"),
            HandshakeError::MissingInterface => String::from_str("missing required interface"),
            HandshakeError::DuplicateEvent => String::from_str("duplicate event during handshake"),
        }
    }
}

/// The messages the client sends on `ei_handshake` object `id` once the
/// server announced its handshake version: its own version 1, its name, its
/// context type, each supported interface with its version, and `finish`.
pub open spec fn client_hello(id: u64, name: Seq<char>, context_type: ContextType) -> Seq<MessageModel> {
    seq![
        (id, 0u32, seq![ArgModel::Uint32(1)]),
        (id, 3u32, seq![ArgModel::String(Some(name))]),
        (id, 2u32, seq![ArgModel::Uint32(context_type.spec_to_u32())]),
    ] + spec_interfaces().map_values(
        |i: Iface| (id, 4u32, seq![ArgModel::String(Some(i.spec_name()@)), ArgModel::Uint32(client_version(i))]),
    ) + seq![(id, 1u32, Seq::<ArgModel>::empty())]
}

/// Implementation of the EI protocol handshake on the client side.
pub struct EiHandshaker<'a> {
    pub name: &'a str,
    pub context_type: ContextType,
    pub negotiated_interfaces: InterfaceMap,
}

/// What the client's handshaker does with `event`: `o` and `ob` are the
/// handshaker and the backend before, `n` and `nb` after, and `r` the
/// result.
pub open spec fn ei_handshake_post<'a, F>(
    o: EiHandshaker<'a>,
    n: EiHandshaker<'a>,
    ob: Backend<F>,
    nb: Backend<F>,
    event: ei::Event<F>,
    r: Result<Option<HandshakeResp>, HandshakeError>,
) -> bool {
    match event {
        ei::Event::Handshake(h, ei::handshake::Event::HandshakeVersion { .. }) => {
            &&& r matches Ok(None)
            &&& sent_all(ob, nb, client_hello(h.0.id, o.name@, o.context_type))
            &&& n.negotiated_interfaces == o.negotiated_interfaces
        },
        ei::Event::Handshake(_, ei::handshake::Event::InterfaceVersion { name, version }) => {
            &&& r matches Ok(None)
            &&& nb == ob
            &&& n.negotiated_interfaces@ == o.negotiated_interfaces@.insert(name@, version)
        },
        ei::Event::Handshake(_, ei::handshake::Event::Connection { serial, connection }) => {
            &&& r matches Ok(Some(resp)) && resp.connection == connection && resp.serial == serial
                && resp.negotiated_interfaces == o.negotiated_interfaces
            &&& nb == ob
            &&& n.negotiated_interfaces@ == Map::<Seq<char>, u32>::empty()
        },
        _ => {
            &&& r matches Err(HandshakeError::NonHandshakeEvent)
            &&& nb == ob
            &&& n.negotiated_interfaces == o.negotiated_interfaces
        },
    }
}

impl<'a> EiHandshaker<'a> {
    /// Creates a client-side handshaker.
    pub fn new(name: &'a str, context_type: ContextType) -> (r: Self)
        ensures
            r.name == name,
            r.context_type == context_type,
            r.negotiated_interfaces.wf(),
            r.negotiated_interfaces@ == Map::<Seq<char>, u32>::empty(),
    {
        EiHandshaker { name, context_type, negotiated_interfaces: InterfaceMap::new() }
    }

    /// Handles the given event, possibly returning a filled handshake
    /// response. Messages the client answers with are queued in `backend`,
    /// to be flushed by the caller. The errors returned are protocol
    /// violations.
    pub fn handle_event<F>(&mut self, event: ei::Event<F>, backend: &mut Backend<F>) -> (r: Result<
        Option<HandshakeResp>,
        HandshakeError,
    >)
        requires
            str_fits(old(self).name),
            old(self).negotiated_interfaces.wf(),
        ensures
            final(self).name == old(self).name,
            final(self).context_type == old(self).context_type,
            final(self).negotiated_interfaces.wf(),
            ei_handshake_post(*old(self), *final(self), *old(backend), *final(backend), event, r),
    {
        let (handshake, event) = match event {
            ei::Event::Handshake(handshake, event) => (handshake, event),
            _ => {
                return Err(HandshakeError::NonHandshakeEvent);
            },
        };
        match event {
            ei::handshake::Event::HandshakeVersion { version: _ } => {
                let ghost b0 = *backend;
                let ghost id = handshake.0.id;
                proof {
                    lemma_sent_none(b0);
                }
                handshake.handshake_version(backend, 1);
                proof {
                    lemma_sent_one_more(b0, b0, *backend, Seq::empty(), id, 0, seq![ArgModel::Uint32(1)]);
                }
                let ghost b1 = *backend;
                handshake.name(backend, self.name);
                proof {
                    lemma_sent_one_more(b0, b1, *backend, seq![(id, 0u32, seq![ArgModel::Uint32(1)])], id, 3, seq![ArgModel::String(Some(self.name@))]);
                    assert(seq![(id, 0u32, seq![ArgModel::Uint32(1)])].push((id, 3u32, seq![ArgModel::String(Some(self.name@))]))
                        =~= seq![(id, 0u32, seq![ArgModel::Uint32(1)]), (id, 3u32, seq![ArgModel::String(Some(self.name@))])]);
                }
                let ghost b2 = *backend;
                handshake.context_type(backend, self.context_type);
                proof {
                    lemma_sent_one_more(
                        b0,
                        b2,
                        *backend,
                        seq![(id, 0u32, seq![ArgModel::Uint32(1)]), (id, 3u32, seq![ArgModel::String(Some(self.name@))])],
                        id,
                        2,
                        seq![ArgModel::Uint32(self.context_type.spec_to_u32())],
                    );
                }
                let ghost hello = seq![
                    (id, 0u32, seq![ArgModel::Uint32(1)]),
                    (id, 3u32, seq![ArgModel::String(Some(self.name@))]),
                    (id, 2u32, seq![ArgModel::Uint32(self.context_type.spec_to_u32())]),
                ];
                let ghost ifmsgs = spec_interfaces().map_values(
                    |i: Iface| (id, 4u32, seq![ArgModel::String(Some(i.spec_name()@)), ArgModel::Uint32(client_version(i))]),
                );
                proof {
                    assert(seq![
                        (id, 0u32, seq![ArgModel::Uint32(1)]),
                        (id, 3u32, seq![ArgModel::String(Some(self.name@))]),
                    ].push((id, 2u32, seq![ArgModel::Uint32(self.context_type.spec_to_u32())])) =~= hello);
                    assert(hello + ifmsgs.take(0) =~= hello);
                }
                let list = interfaces();
                let mut k: usize = 0;
                while k < list.len()
                    invariant
                        list@.len() == spec_interfaces().len(),
                        forall|j: int|
                            0 <= j < list@.len() ==> (#[trigger] list@[j]).0 == spec_interfaces()[j].spec_name()
                                && list@[j].1 == client_version(spec_interfaces()[j]),
                        k <= list@.len(),
                        handshake.0.id == id,
                        ifmsgs.len() == spec_interfaces().len(),
                        ifmsgs == spec_interfaces().map_values(
                            |i: Iface| (id, 4u32, seq![ArgModel::String(Some(i.spec_name()@)), ArgModel::Uint32(client_version(i))]),
                        ),
                        sent_all(b0, *backend, hello + ifmsgs.take(k as int)),
                    decreases list@.len() - k,
                {
                    let (iname, iversion) = list[k];
                    let ghost bk = *backend;
                    proof {
                        lemma_name_len(spec_interfaces()[k as int]);
                        lemma_encode_len(iname@);
                    }
                    handshake.interface_version(backend, iname, iversion);
                    proof {
                        lemma_sent_one_more(
                            b0,
                            bk,
                            *backend,
                            hello + ifmsgs.take(k as int),
                            id,
                            4,
                            seq![ArgModel::String(Some(iname@)), ArgModel::Uint32(iversion)],
                        );
                        assert(ifmsgs[k as int] == (id, 4u32, seq![ArgModel::String(Some(iname@)), ArgModel::Uint32(iversion)]));
                        assert((hello + ifmsgs.take(k as int)).push(ifmsgs[k as int]) =~= hello + ifmsgs.take(k + 1));
                    }
                    k = k + 1;
                }
                let ghost bf = *backend;
                handshake.finish(backend);
                proof {
                    assert(ifmsgs.take(list@.len() as int) =~= ifmsgs);
                    lemma_sent_one_more(b0, bf, *backend, hello + ifmsgs, id, 1, Seq::empty());
                    assert((hello + ifmsgs).push((id, 1u32, Seq::<ArgModel>::empty())) =~= client_hello(
                        id,
                        self.name@,
                        self.context_type,
                    ));
                }
                Ok(None)
            },
            ei::handshake::Event::InterfaceVersion { name, version } => {
                self.negotiated_interfaces.insert(name, version);
                Ok(None)
            },
            ei::handshake::Event::Connection { serial, connection } => {
                let negotiated_interfaces = self.negotiated_interfaces.take();
                Ok(Some(HandshakeResp { connection, serial, negotiated_interfaces }))
            },
        }
    }
}

/// Handshake response on the server side.
pub struct EisHandshakeResp {
    /// Global `ei_connection` singleton object.
    pub connection: eis::Connection,
    /// Name of client.
    pub name: Option<String>,
    /// Context type of connection.
    pub context_type: ContextType,
    /// Interfaces along with their versions negotiated in the handshake.
    pub negotiated_interfaces: InterfaceMap,
}

/// Every name in `m` is that of a supported interface.
pub open spec fn only_supported(m: Map<Seq<char>, u32>) -> bool {
    forall|k: Seq<char>| #[trigger] m.contains_key(k) ==> spec_find_interface(k) is Some
}

/// Every version in `m` is at most the version this library supports of
/// the interface.
pub open spec fn versions_capped(m: Map<Seq<char>, u32>) -> bool {
    forall|k: Seq<char>|
        #[trigger] m.contains_key(k) ==> (spec_find_interface(k) matches Some(i) && m[k] <= client_version(i))
}

/// A name that names an interface is that interface's name.
pub proof fn lemma_from_name(s: Seq<char>)
    ensures
        Iface::spec_from_name(s) matches Some(i) ==> s == i.spec_name()@,
{
}

/// The messages the server sends on `ei_handshake` object `id` when the
/// handshake finishes: each negotiated interface with its version.
pub open spec fn server_versions(id: u64, negotiated: Seq<(Seq<char>, u32)>) -> Seq<MessageModel> {
    negotiated.map_values(|e: (Seq<char>, u32)| (id, 1u32, seq![ArgModel::String(Some(e.0)), ArgModel::Uint32(e.1)]))
}

/// `new` is `old` after queueing `msgs`, then creating the `ei_connection`
/// object, version 1, with the next ID, announcing it with `serial` on the
/// handshake object `hid`, and forgetting the handshake object.
pub open spec fn connection_sent<F>(old: Backend<F>, new: Backend<F>, msgs: Seq<MessageModel>, hid: u64, serial: u32) -> bool {
    let nid = old.next_id;
    &&& new.order == old.order
    &&& new.client == old.client
    &&& new.next_id == nid + 1
    &&& new.next_peer_id == old.next_peer_id
    &&& new.read_buf == old.read_buf
    &&& new.read_fds == old.read_fds
    &&& new.write_buf@ == old.write_buf@ + messages_bytes(old.order, msgs) + message_bytes(
        old.order,
        hid,
        2,
        seq![ArgModel::Uint32(serial), ArgModel::Uint64(nid), ArgModel::Uint32(1)],
    )
    &&& new.write_fds@ == old.write_fds@
    &&& !new.objects@.contains_key(hid)
    &&& nid != hid ==> new.objects@.contains_key(nid) && new.objects@[nid].interface@ == "ei_connection"@
        && new.objects@[nid].version == 1
    &&& new.objects@.remove(nid).remove(hid) == old.objects@.remove(nid).remove(hid)
}

/// Implementation of the EI protocol handshake on the server side.
pub struct EisHandshaker {
    pub name: Option<String>,
    pub context_type: Option<ContextType>,
    pub negotiated_interfaces: InterfaceMap,
    pub initial_serial: u32,
}

/// What the server's handshaker does with `request`: `o` and `ob` are the
/// handshaker and the backend before, `n` and `nb` after, and `r` the
/// result.
pub open spec fn eis_handshake_post<F>(
    o: EisHandshaker,
    n: EisHandshaker,
    ob: Backend<F>,
    nb: Backend<F>,
    request: eis::Request,
    r: Result<Option<EisHandshakeResp>, HandshakeError>,
) -> bool {
    match request {
        eis::Request::Handshake(_, eis::handshake::Request::HandshakeVersion { .. }) => {
            &&& r matches Ok(None)
            &&& nb == ob
            &&& n == o
        },
        eis::Request::Handshake(_, eis::handshake::Request::Name { name }) => {
            &&& nb == ob
            &&& n.context_type == o.context_type
            &&& n.negotiated_interfaces == o.negotiated_interfaces
            &&& if o.name is Some {
                r matches Err(HandshakeError::DuplicateEvent) && n.name == o.name
            } else {
                r matches Ok(None) && n.name == Some(name)
            }
        },
        eis::Request::Handshake(_, eis::handshake::Request::ContextType { context_type }) => {
            &&& nb == ob
            &&& n.name == o.name
            &&& n.negotiated_interfaces == o.negotiated_interfaces
            &&& if o.context_type is Some {
                r matches Err(HandshakeError::DuplicateEvent) && n.context_type == o.context_type
            } else {
                r matches Ok(None) && n.context_type == Some(context_type)
            }
        },
        eis::Request::Handshake(_, eis::handshake::Request::InterfaceVersion { name, version }) => {
            &&& r matches Ok(None)
            &&& nb == ob
            &&& n.name == o.name
            &&& n.context_type == o.context_type
            &&& match spec_find_interface(name@) {
                Some(i) => n.negotiated_interfaces@ == o.negotiated_interfaces@.insert(
                    i.spec_name()@,
                    if version < client_version(i) { version } else { client_version(i) },
                ),
                None => n.negotiated_interfaces == o.negotiated_interfaces,
            }
        },
        eis::Request::Handshake(h, eis::handshake::Request::Finish) => {
            let msgs = server_versions(h.0.id, o.negotiated_interfaces.order());
            let m = o.negotiated_interfaces@;
            &&& n.name == o.name
            &&& n.context_type == o.context_type
            &&& if m.contains_key("ei_connection"@) && m.contains_key("ei_pingpong"@) && m.contains_key(
                "ei_callback"@,
            ) {
                &&& r matches Ok(Some(resp)) && resp.connection.0.id == ob.next_id
                    && resp.connection.0.interface@ == "ei_connection"@ && resp.connection.0.version == 1
                    && resp.connection.0.client_side == ob.client && resp.name == o.name
                    && resp.context_type == (match o.context_type {
                    Some(c) => c,
                    None => ContextType::Receiver,
                }) && resp.negotiated_interfaces == o.negotiated_interfaces
                &&& connection_sent(ob, nb, msgs, h.0.id, o.initial_serial)
                &&& n.negotiated_interfaces@ == Map::<Seq<char>, u32>::empty()
            } else {
                &&& r matches Err(HandshakeError::MissingInterface)
                &&& sent_all(ob, nb, msgs)
                &&& n.negotiated_interfaces == o.negotiated_interfaces
            }
        },
        _ => {
            &&& r matches Err(HandshakeError::NonHandshakeEvent)
            &&& nb == ob
            &&& n == o
        },
    }
}

impl EisHandshaker {
    /// The negotiated interfaces are well formed and all supported, at
    /// versions this library supports.
    pub open spec fn wf(&self) -> bool {
        &&& self.negotiated_interfaces.wf()
        &&& only_supported(self.negotiated_interfaces@)
        &&& versions_capped(self.negotiated_interfaces@)
    }

    /// Creates a server-side handshaker, queueing the server's handshake
    /// version, 1, to be flushed by the caller.
    pub fn new<F>(context: &mut eis::Context<F>, initial_serial: u32) -> (r: Self)
        requires
            old(context).0.objects@.contains_key(0),
        ensures
            r.wf(),
            r.initial_serial == initial_serial,
            r.name is None,
            r.context_type is None,
            r.negotiated_interfaces@ == Map::<Seq<char>, u32>::empty(),
            sent(old(context).0, final(context).0, 0, 0, seq![ArgModel::Uint32(1)], Seq::empty()),
    {
        let handshake = context.handshake();
        handshake.handshake_version(&mut context.0, 1);
        EisHandshaker { initial_serial, name: None, context_type: None, negotiated_interfaces: InterfaceMap::new() }
    }

    /// Handles the given request, possibly returning a filled handshake
    /// response. Messages the server answers with are queued in `backend`,
    /// to be flushed by the caller. The errors returned are protocol
    /// violations.
    pub fn handle_request<F>(&mut self, request: eis::Request, backend: &mut Backend<F>) -> (r: Result<
        Option<EisHandshakeResp>,
        HandshakeError,
    >)
        requires
            old(self).wf(),
            request matches eis::Request::Handshake(_, eis::handshake::Request::Finish) ==> old(backend).next_id < u64::MAX,
        ensures
            final(self).wf(),
            final(self).initial_serial == old(self).initial_serial,
            eis_handshake_post(*old(self), *final(self), *old(backend), *final(backend), request, r),
    {
        let (handshake, request) = match request {
            eis::Request::Handshake(handshake, request) => (handshake, request),
            _ => {
                return Err(HandshakeError::NonHandshakeEvent);
            },
        };
        match request {
            eis::handshake::Request::HandshakeVersion { version: _ } => {},
            eis::handshake::Request::Name { name } => {
                if self.name.is_some() {
                    return Err(HandshakeError::DuplicateEvent);
                }
                self.name = Some(name);
            },
            eis::handshake::Request::ContextType { context_type } => {
                if self.context_type.is_some() {
                    return Err(HandshakeError::DuplicateEvent);
                }
                self.context_type = Some(context_type);
            },
            eis::handshake::Request::InterfaceVersion { name, version } => {
                if let Some((interface, server_version)) = find_interface(name.as_str()) {
                    let v = if version < server_version { version } else { server_version };
                    proof {
                        lemma_from_name(interface@);
                    }
                    self.negotiated_interfaces.insert(interface.to_owned(), v);
                    proof {
                        assert forall|k: Seq<char>| #[trigger] self.negotiated_interfaces@.contains_key(k) implies spec_find_interface(
                            k,
                        ) is Some by {
                            if k != interface@ {
                                assert(old(self).negotiated_interfaces@.contains_key(k));
                            }
                        }
                    }
                }
            },
            eis::handshake::Request::Finish => {
                return self.finish(handshake, backend);
            },
        }
        Ok(None)
    }

    fn finish<F>(&mut self, handshake: eis::Handshake, backend: &mut Backend<F>) -> (r: Result<
        Option<EisHandshakeResp>,
        HandshakeError,
    >)
        requires
            old(self).wf(),
            old(backend).next_id < u64::MAX,
        ensures
            final(self).wf(),
            final(self).initial_serial == old(self).initial_serial,
            final(self).name == old(self).name,
            final(self).context_type == old(self).context_type,
            ({
                let msgs = server_versions(handshake.0.id, old(self).negotiated_interfaces.order());
                let m = old(self).negotiated_interfaces@;
                if m.contains_key("ei_connection"@) && m.contains_key("ei_pingpong"@) && m.contains_key("ei_callback"@) {
                    &&& r matches Ok(Some(resp)) && resp.connection.0.id == old(backend).next_id
                        && resp.connection.0.interface@ == "ei_connection"@ && resp.connection.0.version == 1
                        && resp.connection.0.client_side == old(backend).client && resp.name == old(self).name
                        && resp.context_type == (match old(self).context_type {
                        Some(c) => c,
                        None => ContextType::Receiver,
                    }) && resp.negotiated_interfaces == old(self).negotiated_interfaces
                    &&& connection_sent(*old(backend), *final(backend), msgs, handshake.0.id, old(self).initial_serial)
                    &&& final(self).negotiated_interfaces@ == Map::<Seq<char>, u32>::empty()
                } else {
                    &&& r matches Err(HandshakeError::MissingInterface)
                    &&& sent_all(*old(backend), *final(backend), msgs)
                    &&& final(self).negotiated_interfaces == old(self).negotiated_interfaces
                }
            }),
    {
        let ghost b0 = *backend;
        let ghost id = handshake.0.id;
        let ghost order = self.negotiated_interfaces.order();
        let ghost msgs = server_versions(id, order);
        proof {
            lemma_sent_none(b0);
            self.negotiated_interfaces.lemma_order();
            assert(msgs.take(0) =~= Seq::<MessageModel>::empty());
        }
        let n = self.negotiated_interfaces.len();
        let mut k: usize = 0;
        while k < n
            invariant
                self == old(self),
                self.wf(),
                n == order.len(),
                order == self.negotiated_interfaces.order(),
                msgs == server_versions(id, order),
                handshake.0.id == id,
                k <= n,
                sent_all(b0, *backend, msgs.take(k as int)),
                forall|i: int|
                    0 <= i < order.len() ==> self.negotiated_interfaces@.contains_key((#[trigger] order[i]).0),
            decreases n - k,
        {
            let (name, version) = self.negotiated_interfaces.entry(k);
            let ghost bk = *backend;
            proof {
                assert(self.negotiated_interfaces@.contains_key(order[k as int].0));
                let i = spec_find_interface(name@)->Some_0;
                lemma_from_name(name@);
                lemma_name_len(i);
                lemma_encode_len(name@);
            }
            handshake.interface_version(backend, name, version);
            proof {
                lemma_sent_one_more(b0, bk, *backend, msgs.take(k as int), id, 1, seq![ArgModel::String(Some(name@)), ArgModel::Uint32(version)]);
                assert(msgs.take(k as int).push(msgs[k as int]) =~= msgs.take(k + 1));
            }
            k = k + 1;
        }
        proof {
            assert(msgs.take(n as int) =~= msgs);
        }
        if !self.negotiated_interfaces.contains_key("ei_connection") || !self.negotiated_interfaces.contains_key(
            "ei_pingpong",
        ) || !self.negotiated_interfaces.contains_key("ei_callback") {
            return Err(HandshakeError::MissingInterface);
        }
        let ghost bm = *backend;
        let connection = handshake.connection(backend, self.initial_serial, 1);
        proof {
            assert(backend.write_buf@ =~= b0.write_buf@ + messages_bytes(b0.order, msgs) + crate::backend::message_bytes(
                b0.order,
                id,
                2,
                seq![ArgModel::Uint32(self.initial_serial), ArgModel::Uint64(b0.next_id), ArgModel::Uint32(1)],
            ));
            assert(backend.write_fds@ =~= b0.write_fds@);
        }
        let context_type = match self.context_type {
            Some(c) => c,
            None => ContextType::Receiver,
        };
        let name = match &self.name {
            Some(n) => Some(n.clone()),
            None => None,
        };
        let negotiated_interfaces = self.negotiated_interfaces.take();
        Ok(Some(EisHandshakeResp { connection, name, context_type, negotiated_interfaces }))
    }
}

/// Step `i` of a run of the server's handshaker: `hs[i]` and `bs[i]` become
/// `hs[i + 1]` and `bs[i + 1]` on request `reqs[i]`, which returns `rs[i]`.
pub open spec fn eis_step<F>(
    hs: Seq<EisHandshaker>,
    bs: Seq<Backend<F>>,
    reqs: Seq<eis::Request>,
    rs: Seq<Result<Option<EisHandshakeResp>, HandshakeError>>,
    i: int,
) -> bool {
    eis_handshake_post(hs[i], hs[i + 1], bs[i], bs[i + 1], reqs[i], rs[i])
}

/// `reqs` handled one after the other by the server's handshaker, through
/// the states `hs` and backends `bs`, with the results `rs`.
pub open spec fn eis_run<F>(
    hs: Seq<EisHandshaker>,
    bs: Seq<Backend<F>>,
    reqs: Seq<eis::Request>,
    rs: Seq<Result<Option<EisHandshakeResp>, HandshakeError>>,
) -> bool {
    &&& hs.len() == reqs.len() + 1
    &&& bs.len() == reqs.len() + 1
    &&& rs.len() == reqs.len()
    &&& forall|i: int| 0 <= i < reqs.len() ==> #[trigger] eis_step(hs, bs, reqs, rs, i)
}

proof fn lemma_name_kept<F>(
    hs: Seq<EisHandshaker>,
    bs: Seq<Backend<F>>,
    reqs: Seq<eis::Request>,
    rs: Seq<Result<Option<EisHandshakeResp>, HandshakeError>>,
    j: int,
    i: int,
)
    requires
        eis_run(hs, bs, reqs, rs),
        0 <= j < i <= reqs.len(),
        hs[j + 1].name is Some,
    ensures
        hs[i].name == hs[j + 1].name,
    decreases i - j,
{
    if i > j + 1 {
        lemma_name_kept(hs, bs, reqs, rs, j, i - 1);
        assert(eis_step(hs, bs, reqs, rs, i - 1));
    }
}

proof fn lemma_context_type_kept<F>(
    hs: Seq<EisHandshaker>,
    bs: Seq<Backend<F>>,
    reqs: Seq<eis::Request>,
    rs: Seq<Result<Option<EisHandshakeResp>, HandshakeError>>,
    j: int,
    i: int,
)
    requires
        eis_run(hs, bs, reqs, rs),
        0 <= j < i <= reqs.len(),
        hs[j + 1].context_type is Some,
    ensures
        hs[i].context_type == hs[j + 1].context_type,
    decreases i - j,
{
    if i > j + 1 {
        lemma_context_type_kept(hs, bs, reqs, rs, j, i - 1);
        assert(eis_step(hs, bs, reqs, rs, i - 1));
    }
}

/// `r` is a `name` request on a handshake object.
pub open spec fn is_name_request(r: eis::Request) -> bool {
    r matches eis::Request::Handshake(_, eis::handshake::Request::Name { .. })
}

/// `r` is a `context_type` request on a handshake object.
pub open spec fn is_context_type_request(r: eis::Request) -> bool {
    r matches eis::Request::Handshake(_, eis::handshake::Request::ContextType { .. })
}

/// `r` is a `finish` request on a handshake object.
pub open spec fn is_finish_request(r: eis::Request) -> bool {
    r matches eis::Request::Handshake(_, eis::handshake::Request::Finish)
}

/// The first name a client gives is kept: once a `name` request was
/// accepted, every later `name` request is refused as a duplicate, the
/// handshaker keeps the first name, and a successful `finish` reports it.
pub proof fn law_first_name_wins<F>(
    hs: Seq<EisHandshaker>,
    bs: Seq<Backend<F>>,
    reqs: Seq<eis::Request>,
    rs: Seq<Result<Option<EisHandshakeResp>, HandshakeError>>,
    j: int,
    first: String,
)
    requires
        eis_run(hs, bs, reqs, rs),
        0 <= j < reqs.len(),
        reqs[j] matches eis::Request::Handshake(_, eis::handshake::Request::Name { name }) && name == first,
        rs[j] matches Ok(None),
    ensures
        forall|i: int| j < i <= reqs.len() ==> (#[trigger] hs[i]).name == Some(first),
        forall|i: int|
            j < i < reqs.len() && is_name_request(reqs[i])
                ==> (#[trigger] rs[i]) == Err::<Option<EisHandshakeResp>, HandshakeError>(HandshakeError::DuplicateEvent),
        forall|i: int|
            j < i < reqs.len() && is_finish_request(reqs[i])
                ==> ((#[trigger] rs[i]) matches Ok(Some(resp)) ==> resp.name == Some(first)),
{
    assert(eis_step(hs, bs, reqs, rs, j));
    assert forall|i: int| j < i <= reqs.len() implies (#[trigger] hs[i]).name == Some(first) by {
        lemma_name_kept(hs, bs, reqs, rs, j, i);
    }
    assert forall|i: int|
        j < i < reqs.len() && is_name_request(reqs[i])
            implies (#[trigger] rs[i]) == Err::<Option<EisHandshakeResp>, HandshakeError>(HandshakeError::DuplicateEvent) by {
        lemma_name_kept(hs, bs, reqs, rs, j, i);
        assert(eis_step(hs, bs, reqs, rs, i));
    }
    assert forall|i: int|
        j < i < reqs.len() && is_finish_request(reqs[i])
            implies ((#[trigger] rs[i]) matches Ok(Some(resp)) ==> resp.name == Some(first)) by {
        lemma_name_kept(hs, bs, reqs, rs, j, i);
        assert(eis_step(hs, bs, reqs, rs, i));
    }
}

/// The first context type a client gives is kept: once a `context_type`
/// request was accepted, every later one is refused as a duplicate, the
/// handshaker keeps the first context type, and a successful `finish`
/// reports it.
pub proof fn law_first_context_type_wins<F>(
    hs: Seq<EisHandshaker>,
    bs: Seq<Backend<F>>,
    reqs: Seq<eis::Request>,
    rs: Seq<Result<Option<EisHandshakeResp>, HandshakeError>>,
    j: int,
    first: ContextType,
)
    requires
        eis_run(hs, bs, reqs, rs),
        0 <= j < reqs.len(),
        reqs[j] matches eis::Request::Handshake(_, eis::handshake::Request::ContextType { context_type })
            && context_type == first,
        rs[j] matches Ok(None),
    ensures
        forall|i: int| j < i <= reqs.len() ==> (#[trigger] hs[i]).context_type == Some(first),
        forall|i: int|
            j < i < reqs.len() && is_context_type_request(reqs[i]) ==> (#[trigger] rs[i]) == Err::<Option<EisHandshakeResp>, HandshakeError>(HandshakeError::DuplicateEvent),
        forall|i: int|
            j < i < reqs.len() && is_finish_request(reqs[i])
                ==> ((#[trigger] rs[i]) matches Ok(Some(resp)) ==> resp.context_type == first),
{
    assert(eis_step(hs, bs, reqs, rs, j));
    assert forall|i: int| j < i <= reqs.len() implies (#[trigger] hs[i]).context_type == Some(first) by {
        lemma_context_type_kept(hs, bs, reqs, rs, j, i);
    }
    assert forall|i: int|
        j < i < reqs.len() && is_context_type_request(reqs[i])
            implies (#[trigger] rs[i]) == Err::<Option<EisHandshakeResp>, HandshakeError>(HandshakeError::DuplicateEvent) by {
        lemma_context_type_kept(hs, bs, reqs, rs, j, i);
        assert(eis_step(hs, bs, reqs, rs, i));
    }
    assert forall|i: int|
        j < i < reqs.len() && is_finish_request(reqs[i])
            implies ((#[trigger] rs[i]) matches Ok(Some(resp)) ==> resp.context_type == first) by {
        lemma_context_type_kept(hs, bs, reqs, rs, j, i);
        assert(eis_step(hs, bs, reqs, rs, i));
    }
}

/// The versions the `interface_version` requests among `reqs` negotiate,
/// in turn: each interface this library supports at the lower of the
/// client's version and its own, the last request for an interface
/// winning; names of unsupported interfaces are ignored.
pub open spec fn negotiated_by(reqs: Seq<eis::Request>) -> Map<Seq<char>, u32>
    decreases reqs.len(),
{
    if reqs.len() == 0 {
        Map::empty()
    } else {
        let m = negotiated_by(reqs.drop_last());
        match reqs.last() {
            eis::Request::Handshake(_, eis::handshake::Request::InterfaceVersion { name, version }) => {
                match spec_find_interface(name@) {
                    Some(i) => m.insert(
                        i.spec_name()@,
                        if version < client_version(i) { version } else { client_version(i) },
                    ),
                    None => m,
                }
            },
            _ => m,
        }
    }
}

proof fn lemma_negotiated_so_far<F>(
    hs: Seq<EisHandshaker>,
    bs: Seq<Backend<F>>,
    reqs: Seq<eis::Request>,
    rs: Seq<Result<Option<EisHandshakeResp>, HandshakeError>>,
    i: int,
)
    requires
        eis_run(hs, bs, reqs, rs),
        0 <= i <= reqs.len(),
        hs[0].negotiated_interfaces@ == Map::<Seq<char>, u32>::empty(),
        forall|k: int| 0 <= k < i ==> !((#[trigger] rs[k]) matches Ok(Some(_))),
    ensures
        hs[i].negotiated_interfaces@ == negotiated_by(reqs.take(i)),
    decreases i,
{
    if i > 0 {
        lemma_negotiated_so_far(hs, bs, reqs, rs, i - 1);
        assert(eis_step(hs, bs, reqs, rs, i - 1));
        assert(!(rs[i - 1] matches Ok(Some(_))));
        assert(reqs.take(i).drop_last() =~= reqs.take(i - 1));
        assert(reqs.take(i).last() == reqs[i - 1]);
    } else {
        assert(reqs.take(0).len() == 0);
    }
}

/// What a successful `finish` reports as negotiated is what the
/// `interface_version` requests before it negotiated (see
/// [`negotiated_by`]), and `finish` succeeds exactly when those include
/// `ei_connection`, `ei_pingpong` and `ei_callback`.
pub proof fn law_negotiated_versions<F>(
    hs: Seq<EisHandshaker>,
    bs: Seq<Backend<F>>,
    reqs: Seq<eis::Request>,
    rs: Seq<Result<Option<EisHandshakeResp>, HandshakeError>>,
    k: int,
)
    requires
        eis_run(hs, bs, reqs, rs),
        0 <= k < reqs.len(),
        hs[0].negotiated_interfaces@ == Map::<Seq<char>, u32>::empty(),
        forall|i: int| 0 <= i < k ==> !((#[trigger] rs[i]) matches Ok(Some(_))),
        reqs[k] matches eis::Request::Handshake(_, eis::handshake::Request::Finish),
    ensures
        ({
            let m = negotiated_by(reqs.take(k));
            &&& (rs[k] is Ok && rs[k]->Ok_0 is Some) <==> (m.contains_key("ei_connection"@) && m.contains_key(
                "ei_pingpong"@,
            ) && m.contains_key("ei_callback"@))
            &&& rs[k] matches Ok(Some(resp)) ==> resp.negotiated_interfaces@ == m
        }),
{
    lemma_negotiated_so_far(hs, bs, reqs, rs, k);
    assert(eis_step(hs, bs, reqs, rs, k));
}

/// Step `i` of a run of the client's handshaker: `hs[i]` and `bs[i]` become
/// `hs[i + 1]` and `bs[i + 1]` on event `evs[i]`, which returns `rs[i]`.
pub open spec fn ei_step<'a, F>(
    hs: Seq<EiHandshaker<'a>>,
    bs: Seq<Backend<F>>,
    evs: Seq<ei::Event<F>>,
    rs: Seq<Result<Option<HandshakeResp>, HandshakeError>>,
    i: int,
) -> bool {
    ei_handshake_post(hs[i], hs[i + 1], bs[i], bs[i + 1], evs[i], rs[i])
}

/// `evs` handled one after the other by the client's handshaker, through
/// the states `hs` and backends `bs`, with the results `rs`.
pub open spec fn ei_run<'a, F>(
    hs: Seq<EiHandshaker<'a>>,
    bs: Seq<Backend<F>>,
    evs: Seq<ei::Event<F>>,
    rs: Seq<Result<Option<HandshakeResp>, HandshakeError>>,
) -> bool {
    &&& hs.len() == evs.len() + 1
    &&& bs.len() == evs.len() + 1
    &&& rs.len() == evs.len()
    &&& forall|i: int| 0 <= i < evs.len() ==> #[trigger] ei_step(hs, bs, evs, rs, i)
}

/// The versions the server's `interface_version` events among `evs`
/// announce, the last one for a name winning.
pub open spec fn announced_by<F>(evs: Seq<ei::Event<F>>) -> Map<Seq<char>, u32>
    decreases evs.len(),
{
    if evs.len() == 0 {
        Map::empty()
    } else {
        let m = announced_by(evs.drop_last());
        match evs.last() {
            ei::Event::Handshake(_, ei::handshake::Event::InterfaceVersion { name, version }) => m.insert(
                name@,
                version,
            ),
            _ => m,
        }
    }
}

proof fn lemma_announced_so_far<'a, F>(
    hs: Seq<EiHandshaker<'a>>,
    bs: Seq<Backend<F>>,
    evs: Seq<ei::Event<F>>,
    rs: Seq<Result<Option<HandshakeResp>, HandshakeError>>,
    i: int,
)
    requires
        ei_run(hs, bs, evs, rs),
        0 <= i <= evs.len(),
        hs[0].negotiated_interfaces@ == Map::<Seq<char>, u32>::empty(),
        forall|k: int|
            0 <= k < i ==> !((#[trigger] evs[k]) matches ei::Event::Handshake(
                _,
                ei::handshake::Event::Connection { .. },
            )),
    ensures
        hs[i].negotiated_interfaces@ == announced_by(evs.take(i)),
    decreases i,
{
    if i > 0 {
        lemma_announced_so_far(hs, bs, evs, rs, i - 1);
        assert(ei_step(hs, bs, evs, rs, i - 1));
        assert(!(evs[i - 1] matches ei::Event::Handshake(_, ei::handshake::Event::Connection { .. })));
        assert(evs.take(i).drop_last() =~= evs.take(i - 1));
        assert(evs.take(i).last() == evs[i - 1]);
    } else {
        assert(evs.take(0).len() == 0);
    }
}

/// The `connection` event ends the client's handshake: it reports the
/// connection object and serial it carries, with the versions that the
/// `interface_version` events before it announced (see [`announced_by`]).
pub proof fn law_announced_versions<'a, F>(
    hs: Seq<EiHandshaker<'a>>,
    bs: Seq<Backend<F>>,
    evs: Seq<ei::Event<F>>,
    rs: Seq<Result<Option<HandshakeResp>, HandshakeError>>,
    k: int,
)
    requires
        ei_run(hs, bs, evs, rs),
        0 <= k < evs.len(),
        hs[0].negotiated_interfaces@ == Map::<Seq<char>, u32>::empty(),
        forall|i: int|
            0 <= i < k ==> !((#[trigger] evs[i]) matches ei::Event::Handshake(
                _,
                ei::handshake::Event::Connection { .. },
            )),
        evs[k] matches ei::Event::Handshake(_, ei::handshake::Event::Connection { .. }),
    ensures
        evs[k] matches ei::Event::Handshake(_, ei::handshake::Event::Connection { serial, connection })
            && rs[k] matches Ok(Some(resp)) && resp.serial == serial && resp.connection == connection
            && resp.negotiated_interfaces@ == announced_by(evs.take(k)),
        hs[k + 1].negotiated_interfaces@ == Map::<Seq<char>, u32>::empty(),
        k + 1 < evs.len() && is_connection_event(evs[k + 1]) ==> (rs[k + 1] is Ok && rs[k + 1]->Ok_0 is Some
            && rs[k + 1]->Ok_0->Some_0.negotiated_interfaces@ == Map::<Seq<char>, u32>::empty()),
{
    lemma_announced_so_far(hs, bs, evs, rs, k);
    assert(ei_step(hs, bs, evs, rs, k));
    if k + 1 < evs.len() {
        assert(ei_step(hs, bs, evs, rs, k + 1));
    }
}

/// `e` is the `connection` event of a handshake object.
pub open spec fn is_connection_event<F>(e: ei::Event<F>) -> bool {
    e matches ei::Event::Handshake(_, ei::handshake::Event::Connection { .. })
}

/// A new client handshaker has sent nothing and recorded no interface: a
/// `connection` event right away reports no negotiated interface, and the
/// server's `handshake_version` is answered with the client's version, its
/// name, its context type, the interfaces it supports and `finish`. `h` is
/// the handshaker [`EiHandshaker::new`] gives for `name` and
/// `context_type`.
pub proof fn law_new_client_handshaker<'a, F>(
    name: &'a str,
    context_type: ContextType,
    h: EiHandshaker<'a>,
    n: EiHandshaker<'a>,
    ob: Backend<F>,
    nb: Backend<F>,
    e: ei::Event<F>,
    r: Result<Option<HandshakeResp>, HandshakeError>,
)
    requires
        h.name == name,
        h.context_type == context_type,
        h.negotiated_interfaces@ == Map::<Seq<char>, u32>::empty(),
        ei_handshake_post(h, n, ob, nb, e, r),
    ensures
        e matches ei::Event::Handshake(_, ei::handshake::Event::Connection { serial, connection }) ==> (r matches Ok(
            Some(resp),
        ) && resp.serial == serial && resp.connection == connection && resp.negotiated_interfaces@ == Map::<
            Seq<char>,
            u32,
        >::empty()),
        e matches ei::Event::Handshake(hs, ei::handshake::Event::HandshakeVersion { .. }) ==> (r matches Ok(None)
            && sent_all(ob, nb, client_hello(hs.0.id, name@, context_type))),
{
}

/// The version negotiated for an interface is the lower of the client's
/// and this library's: it is at most each of them and equal to one.
pub proof fn law_negotiated_version_is_lower<F>(
    o: EisHandshaker,
    n: EisHandshaker,
    ob: Backend<F>,
    nb: Backend<F>,
    h: eis::Handshake,
    name: String,
    version: u32,
    r: Result<Option<EisHandshakeResp>, HandshakeError>,
)
    requires
        eis_handshake_post(
            o,
            n,
            ob,
            nb,
            eis::Request::Handshake(h, eis::handshake::Request::InterfaceVersion { name, version }),
            r,
        ),
    ensures
        spec_find_interface(name@) matches Some(i) ==> {
            let v = n.negotiated_interfaces@[i.spec_name()@];
            &&& r is Ok
            &&& n.negotiated_interfaces@.contains_key(i.spec_name()@)
            &&& v <= version && v <= client_version(i)
            &&& v == version || v == client_version(i)
        },
        spec_find_interface(name@) is None ==> n.negotiated_interfaces == o.negotiated_interfaces,
{
}

} // verus!
