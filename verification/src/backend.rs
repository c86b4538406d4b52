//! State of one end of a connection: the objects it knows, the IDs it hands
//! out, and the bytes and file descriptors waiting to be read or sent.
//!
//! The socket itself is driven by the caller: received bytes are handed to
//! [`Backend::receive`], and the bytes of [`Backend::write_buf`] are sent and
//! then dropped with [`Backend::written`].
use crate::arg::{
    args_bytes, args_model, args_writable, decode_args, kinds_accept, read_args, values_model, Arg,
    ArgModel, ArgValue, ParseError, Reader, WireKind,
};
use crate::codec::{header_bytes, header_value, ByteOrder, Header, HEADER_LEN};
use std::collections::{HashMap, VecDeque};
use vstd::prelude::*;

verus! {

broadcast use vstd::std_specs::hash::group_hash_axioms;

/// First ID of the range of IDs the server allocates.
pub const SERVER_ID_START: u64 = 0xff00_0000_0000_0000;

/// What a connection tracks of an object: its interface and version.
#[derive(Debug)]
pub struct ObjectInfo {
    pub interface: String,
    pub version: u32,
}

impl Clone for ObjectInfo {
    fn clone(&self) -> (r: Self)
        ensures
            r == *self,
    {
        ObjectInfo { interface: self.interface.clone(), version: self.version }
    }
}

/// Representation of an object: the information needed to send requests
/// and events for it.
#[derive(Debug)]
pub struct Object {
    pub id: u64,
    pub interface: String,
    pub version: u32,
    pub client_side: bool,
}

impl Clone for Object {
    fn clone(&self) -> (r: Self)
        ensures
            r == *self,
    {
        Object {
            id: self.id,
            interface: self.interface.clone(),
            version: self.version,
            client_side: self.client_side,
        }
    }
}

impl Object {
    /// Returns the object's ID.
    pub fn id(&self) -> (r: u64)
        ensures
            r == self.id,
    {
        self.id
    }

    /// Returns the tracked interface name, like `ei_device`.
    pub fn interface(&self) -> (r: &str)
        ensures
            r@ == self.interface@,
    {
        self.interface.as_str()
    }

    /// Returns the version of the interface of this object.
    pub fn version(&self) -> (r: u32)
        ensures
            r == self.version,
    {
        self.version
    }

    /// Returns `true` if the connection still has this object.
    pub fn is_alive<F>(&self, backend: &Backend<F>) -> (r: bool)
        ensures
            r == backend.objects@.contains_key(self.id),
    {
        backend.has_object_for_id(self.id)
    }

    /// Returns an argument that references this object.
    pub fn as_arg<'a, F>(&self) -> (r: Arg<'a, F>)
        ensures
            r == Arg::<'a, F>::Id(self.id),
    {
        Arg::Id(self.id)
    }
}

/// The bytes of a whole message: its header, then its arguments.
pub open spec fn message_bytes(o: ByteOrder, object_id: u64, opcode: u32, args: Seq<ArgModel>) -> Seq<u8> {
    header_bytes(
        o,
        Header { object_id, length: (HEADER_LEN + args_bytes(o, args).len()) as u32, opcode },
    ) + args_bytes(o, args)
}

/// Whether a message with these arguments can be written: each argument can,
/// and the length fits in the header.
pub open spec fn message_writable(o: ByteOrder, args: Seq<ArgModel>) -> bool {
    &&& args_writable(args)
    &&& HEADER_LEN + args_bytes(o, args).len() <= u32::MAX
}

/// The file descriptors that a sequence of arguments carries, in order.
pub open spec fn args_fd_values<'a, F>(args: Seq<Arg<'a, F>>) -> Seq<F>
    decreases args.len(),
{
    if args.len() == 0 {
        Seq::empty()
    } else {
        args[0].fd_seq() + args_fd_values(args.drop_first())
    }
}

/// What the read buffer holds at its front.
pub enum Frame {
    /// Not enough bytes for a whole message yet.
    Incomplete,
    /// The header gives a length shorter than a header.
    HeaderLength(u32),
    /// A message for an object the connection does not know.
    InvalidObject(Header),
    /// A message for a known object; its body follows the header.
    Message(Header),
}

/// How the front of the read buffer `buf` frames, given the known objects.
pub open spec fn frame_of(o: ByteOrder, buf: Seq<u8>, objects: Map<u64, ObjectInfo>) -> Frame {
    if buf.len() < HEADER_LEN {
        Frame::Incomplete
    } else {
        let h = header_value(o, buf);
        if buf.len() < h.length {
            Frame::Incomplete
        } else if h.length < HEADER_LEN {
            Frame::HeaderLength(h.length)
        } else if !objects.contains_key(h.object_id) {
            Frame::InvalidObject(h)
        } else {
            Frame::Message(h)
        }
    }
}

/// What reading from a connection gave.
#[derive(Clone, Copy, Debug, PartialEq, Eq, Structural)]
pub enum ConnectionReadResult {
    /// This many bytes were read.
    Read(usize),
    /// The peer closed the connection.
    EOF,
}

impl ConnectionReadResult {
    /// Returns `true` if the peer closed the connection.
    pub fn is_eof(&self) -> (r: bool)
        ensures
            r == (*self is EOF),
    {
        match self {
            ConnectionReadResult::EOF => true,
            ConnectionReadResult::Read(_) => false,
        }
    }
}

/// A message taken from the read buffer.
pub enum Received {
    HeaderLength(u32),
    InvalidObject(u64),
    Message { header: Header, info: ObjectInfo, body: Vec<u8> },
}

/// One end of a connection.
pub struct Backend<F> {
    /// Byte order of integers on the wire.
    pub order: ByteOrder,
    /// Whether this is the client end.
    pub client: bool,
    /// Next ID this end allocates.
    pub next_id: u64,
    /// Lowest ID the peer may allocate next.
    pub next_peer_id: u64,
    /// Objects this end knows, by ID.
    pub objects: HashMap<u64, ObjectInfo>,
    /// Received bytes not consumed yet.
    pub read_buf: Vec<u8>,
    /// Received file descriptors not consumed yet.
    pub read_fds: VecDeque<F>,
    /// Bytes waiting to be sent.
    pub write_buf: Vec<u8>,
    /// File descriptors waiting to be sent with the next bytes.
    pub write_fds: Vec<F>,
}

impl<F> Backend<F> {
    /// Whether this is the state of a fresh connection on the given side:
    /// only the `ei_handshake` object, version 1, with ID 0; the client
    /// allocates IDs from 1 and the server from [`SERVER_ID_START`], each
    /// expecting the other's range; nothing buffered.
    pub open spec fn is_fresh(&self, client: bool) -> bool {
        &&& self.client == client
        &&& self.next_id == (if client { 1 } else { SERVER_ID_START })
        &&& self.next_peer_id == (if client { SERVER_ID_START } else { 1 })
        &&& self.objects@.dom() =~= set![0u64]
        &&& self.objects@[0].interface@ == "ei_handshake"@
        &&& self.objects@[0].version == 1
        &&& self.read_buf@.len() == 0
        &&& self.read_fds@.len() == 0
        &&& self.write_buf@.len() == 0
        &&& self.write_fds@.len() == 0
    }

    /// Creates the state of a fresh connection. The client allocates IDs
    /// from 1 and the server from [`SERVER_ID_START`]; each expects the
    /// other's range. The `ei_handshake` object has ID 0.
    pub fn new(client: bool, order: ByteOrder) -> (b: Backend<F>)
        ensures
            b.order == order,
            b.is_fresh(client),
    {
        let next_id = if client { 1 } else { SERVER_ID_START };
        let next_peer_id = if client { SERVER_ID_START } else { 1 };
        let mut objects: HashMap<u64, ObjectInfo> = HashMap::new();
        objects.insert(0, ObjectInfo { interface: "ei_handshake".to_owned(), version: 1 });
        Backend {
            order,
            client,
            next_id,
            next_peer_id,
            objects,
            read_buf: Vec::new(),
            read_fds: VecDeque::new(),
            write_buf: Vec::new(),
            write_fds: Vec::new(),
        }
    }

    /// Allocates the next ID of this end.
    pub fn new_id(&mut self) -> (id: u64)
        requires
            old(self).next_id < u64::MAX,
        ensures
            id == old(self).next_id,
            *final(self) == (Backend { next_id: (id + 1) as u64, ..*old(self) }),
    {
        let id = self.next_id;
        self.next_id = self.next_id + 1;
        id
    }

    /// Allocates an ID for a new object created by this end and records it.
    pub fn new_object(&mut self, interface: String, version: u32) -> (obj: Object)
        requires
            old(self).next_id < u64::MAX,
        ensures
            obj.id == old(self).next_id,
            obj.interface@ == interface@,
            obj.version == version,
            obj.client_side == old(self).client,
            final(self).next_id == old(self).next_id + 1,
            final(self).objects@ == old(self).objects@.insert(
                obj.id,
                ObjectInfo { interface, version },
            ),
            final(self).order == old(self).order,
            final(self).client == old(self).client,
            final(self).next_peer_id == old(self).next_peer_id,
            final(self).read_buf == old(self).read_buf,
            final(self).read_fds == old(self).read_fds,
            final(self).write_buf == old(self).write_buf,
            final(self).write_fds == old(self).write_fds,
    {
        let id = self.new_id();
        let obj = Object { id, interface: interface.clone(), version, client_side: self.client };
        self.objects.insert(id, ObjectInfo { interface, version });
        obj
    }

    /// Whether the peer may create an object with this ID now: it must not
    /// be below the peer's next ID, and a client may not use the server's
    /// range.
    pub open spec fn peer_id_ok(&self, id: u64) -> bool {
        !(id < self.next_peer_id || (!self.client && id >= SERVER_ID_START))
    }

    /// Records an object created by the peer.
    pub fn new_peer_object(&mut self, id: u64, interface: String, version: u32) -> (r: Result<Object, ParseError>)
        ensures
            final(self).order == old(self).order,
            final(self).client == old(self).client,
            final(self).next_id == old(self).next_id,
            final(self).read_buf == old(self).read_buf,
            final(self).read_fds == old(self).read_fds,
            final(self).write_buf == old(self).write_buf,
            final(self).write_fds == old(self).write_fds,
            old(self).peer_id_ok(id) ==> {
                &&& r matches Ok(obj) && obj.id == id && obj.interface@ == interface@
                    && obj.version == version && obj.client_side == old(self).client
                &&& final(self).next_peer_id == id.wrapping_add(1)
                &&& final(self).objects@ == old(self).objects@.insert(
                    id,
                    ObjectInfo { interface, version },
                )
            },
            !old(self).peer_id_ok(id) ==> {
                &&& r matches Err(e) && e.kind() == crate::arg::ErrKind::InvalidId(id)
                &&& final(self).next_peer_id == old(self).next_peer_id
                &&& final(self).objects == old(self).objects
            },
    {
        if id < self.next_peer_id || (!self.client && id >= SERVER_ID_START) {
            return Err(ParseError::InvalidId(id));
        }
        self.next_peer_id = id.wrapping_add(1);
        let obj = Object { id, interface: interface.clone(), version, client_side: self.client };
        self.objects.insert(id, ObjectInfo { interface, version });
        Ok(obj)
    }

    /// Forgets an object.
    pub fn remove_id(&mut self, id: u64)
        ensures
            final(self).objects@ == old(self).objects@.remove(id),
            final(self).order == old(self).order,
            final(self).client == old(self).client,
            final(self).next_id == old(self).next_id,
            final(self).next_peer_id == old(self).next_peer_id,
            final(self).read_buf == old(self).read_buf,
            final(self).read_fds == old(self).read_fds,
            final(self).write_buf == old(self).write_buf,
            final(self).write_fds == old(self).write_fds,
    {
        self.objects.remove(&id);
    }

    /// Returns the object with this ID, if the connection knows it.
    pub fn object_for_id(&self, id: u64) -> (r: Option<Object>)
        ensures
            match r {
                Some(obj) => self.objects@.contains_key(id) && obj.id == id
                    && obj.interface@ == self.objects@[id].interface@
                    && obj.version == self.objects@[id].version
                    && obj.client_side == self.client,
                None => !self.objects@.contains_key(id),
            },
    {
        match self.objects.get(&id) {
            Some(info) => Some(
                Object {
                    id,
                    interface: info.interface.clone(),
                    version: info.version,
                    client_side: self.client,
                },
            ),
            None => None,
        }
    }

    /// Returns `true` if the connection knows an object with this ID.
    pub fn has_object_for_id(&self, id: u64) -> (r: bool)
        ensures
            r == self.objects@.contains_key(id),
    {
        self.objects.contains_key(&id)
    }

    /// Queues a message for `object_id`: a header, then the arguments. File
    /// descriptors among the arguments are queued to go with it.
    pub fn request<'a>(&mut self, object_id: u64, opcode: u32, args: Vec<Arg<'a, F>>)
        requires
            message_writable(old(self).order, args_model(args@)),
        ensures
            final(self).write_buf@ == old(self).write_buf@ + message_bytes(
                old(self).order,
                object_id,
                opcode,
                args_model(args@),
            ),
            final(self).write_fds@ == old(self).write_fds@ + args_fd_values(args@),
            final(self).order == old(self).order,
            final(self).client == old(self).client,
            final(self).next_id == old(self).next_id,
            final(self).next_peer_id == old(self).next_peer_id,
            final(self).objects == old(self).objects,
            final(self).read_buf == old(self).read_buf,
            final(self).read_fds == old(self).read_fds,
    {
        let o = self.order;
        let ghost models = args_model(args@);
        let ghost all_args = args@;
        let mut body: Vec<u8> = Vec::new();
        let mut fds: Vec<F> = Vec::new();
        let mut rest = args;
        let ghost n = all_args.len();
        let total = rest.len();
        let mut i: usize = 0;
        while rest.len() > 0
            invariant
                n == all_args.len(),
                total == n,
                rest@.len() + i == n,
                rest@ == all_args.skip(i as int),
                models == args_model(all_args),
                body@ == args_bytes(o, models.take(i as int)),
                fds@ == args_fd_values(all_args.take(i as int)),
                args_writable(models),
            decreases rest@.len(),
        {
            let ghost before = body@;
            let ghost fds_before = fds@;
            proof {
                assert(rest@[0] == all_args[i as int]);
            }
            let arg = rest.remove(0);
            proof {
                assert(arg == all_args[i as int]);
                assert(models[i as int] == arg.model());
            }
            arg.write(o, &mut body, &mut fds);
            proof {
                lemma_args_bytes_push(o, models.take(i as int), models[i as int]);
                assert(models.take(i + 1) =~= models.take(i as int).push(models[i as int]));
                lemma_fd_values_push(all_args.take(i as int), all_args[i as int]);
                assert(all_args.take(i + 1) =~= all_args.take(i as int).push(all_args[i as int]));
                assert(rest@ =~= all_args.skip(i + 1));
            }
            i = i + 1;
        }
        proof {
            assert(models.take(n as int) =~= models);
            assert(all_args.take(n as int) =~= all_args);
        }
        let header = Header { object_id, length: (HEADER_LEN + body.len()) as u32, opcode };
        let hb = header.as_bytes(o);
        self.write_buf.extend_from_slice(hb.as_slice());
        self.write_buf.extend_from_slice(body.as_slice());
        self.write_fds.append(&mut fds);
        assert(self.write_buf@ =~= old(self).write_buf@ + message_bytes(o, object_id, opcode, models));
    }

    /// Appends received bytes and file descriptors to the read buffers.
    pub fn receive(&mut self, bytes: &[u8], fds: Vec<F>)
        ensures
            final(self).read_buf@ == old(self).read_buf@ + bytes@,
            final(self).read_fds@ == old(self).read_fds@ + fds@,
            final(self).order == old(self).order,
            final(self).client == old(self).client,
            final(self).next_id == old(self).next_id,
            final(self).next_peer_id == old(self).next_peer_id,
            final(self).objects == old(self).objects,
            final(self).write_buf == old(self).write_buf,
            final(self).write_fds == old(self).write_fds,
    {
        self.read_buf.extend_from_slice(bytes);
        let mut fds = fds;
        let ghost all = fds@;
        let ghost start = self.read_fds@;
        while fds.len() > 0
            invariant
                fds@.len() <= all.len(),
                self.read_fds@ == start + all.take(all.len() - fds@.len()),
                fds@ == all.skip(all.len() - fds@.len()),
                self.read_buf@ == old(self).read_buf@ + bytes@,
                self.order == old(self).order,
                self.client == old(self).client,
                self.next_id == old(self).next_id,
                self.next_peer_id == old(self).next_peer_id,
                self.objects == old(self).objects,
                self.write_buf == old(self).write_buf,
                self.write_fds == old(self).write_fds,
            decreases fds@.len(),
        {
            let ghost k = all.len() - fds@.len();
            let fd = fds.remove(0);
            proof {
                assert(fd == all[k]);
            }
            self.read_fds.push_back(fd);
            proof {
                assert(all.take(k + 1) =~= all.take(k).push(all[k]));
                assert(fds@ =~= all.skip(k + 1));
            }
        }
        proof {
            assert(all.take(all.len() as int) =~= all);
        }
    }

    /// Drops the first `n` bytes of the write buffer once they were sent,
    /// with the queued descriptors, which went with them.
    pub fn written(&mut self, n: usize)
        requires
            n <= old(self).write_buf@.len(),
        ensures
            final(self).write_buf@ == old(self).write_buf@.skip(n as int),
            final(self).write_fds@.len() == 0,
            final(self).order == old(self).order,
            final(self).client == old(self).client,
            final(self).next_id == old(self).next_id,
            final(self).next_peer_id == old(self).next_peer_id,
            final(self).objects == old(self).objects,
            final(self).read_buf == old(self).read_buf,
            final(self).read_fds == old(self).read_fds,
    {
        let rest = self.write_buf.split_off(n);
        self.write_buf = rest;
        self.write_fds.clear();
    }

    /// Reads arguments of the kinds `ks` from a message body, taking file
    /// descriptors from the front of the received ones.
    pub fn read_args(&mut self, ks: &[WireKind], rd: &mut Reader) -> (r: Result<Vec<ArgValue<F>>, ParseError>)
        requires
            old(rd).wf(),
        ensures
            final(rd).wf(),
            final(rd).bytes == old(rd).bytes,
            final(self).order == old(self).order,
            final(self).client == old(self).client,
            final(self).next_id == old(self).next_id,
            final(self).next_peer_id == old(self).next_peer_id,
            final(self).objects == old(self).objects,
            final(self).read_buf == old(self).read_buf,
            final(self).write_buf == old(self).write_buf,
            final(self).write_fds == old(self).write_fds,
            match decode_args(old(self).order, ks@, old(rd).rest(), old(self).read_fds@.len()) {
                Ok((ms, nb, nf)) => r matches Ok(vs) && values_model(vs@) == ms && final(rd).pos == old(rd).pos + nb
                    && final(self).read_fds@ == old(self).read_fds@.skip(nf as int) && kinds_accept(ks@, ms),
                Err((e, nf)) => r matches Err(pe) && pe.kind() == e && final(self).read_fds@ == old(self).read_fds@.skip(nf as int),
            },
    {
        proof {
            crate::message::lemma_decode_accepts(self.order, ks@, rd.rest(), self.read_fds@.len());
        }
        let o = self.order;
        read_args(o, ks, rd, &mut self.read_fds)
    }

    /// Takes the message at the front of the read buffer, if a whole one is
    /// there. A message for an unknown object is dropped and reported; a
    /// header with a length below 16 is reported and left in place.
    pub fn take_frame(&mut self) -> (r: Option<Received>)
        ensures
            final(self).order == old(self).order,
            final(self).client == old(self).client,
            final(self).next_id == old(self).next_id,
            final(self).next_peer_id == old(self).next_peer_id,
            final(self).objects == old(self).objects,
            final(self).read_fds == old(self).read_fds,
            final(self).write_buf == old(self).write_buf,
            final(self).write_fds == old(self).write_fds,
            match frame_of(old(self).order, old(self).read_buf@, old(self).objects@) {
                Frame::Incomplete => r is None && final(self).read_buf == old(self).read_buf,
                Frame::HeaderLength(l) => r == Some(Received::HeaderLength(l))
                    && final(self).read_buf == old(self).read_buf,
                Frame::InvalidObject(h) => r == Some(Received::InvalidObject(h.object_id))
                    && final(self).read_buf@ == old(self).read_buf@.skip(h.length as int),
                Frame::Message(h) => r matches Some(Received::Message { header, info, body }) && header
                    == h && info == old(self).objects@[h.object_id] && body@ == old(self).read_buf@.subrange(
                    HEADER_LEN as int,
                    h.length as int,
                ) && final(self).read_buf@ == old(self).read_buf@.skip(h.length as int),
            },
    {
        if self.read_buf.len() < HEADER_LEN {
            return None;
        }
        let mut hb: [u8; 16] = [0u8; 16];
        let mut i: usize = 0;
        while i < 16
            invariant
                i <= 16,
                self.read_buf@.len() >= 16,
                forall|j: int| 0 <= j < i ==> hb@[j] == self.read_buf@[j],
                self == old(self),
            decreases 16 - i,
        {
            hb[i] = self.read_buf[i];
            i = i + 1;
        }
        let header = Header::parse(self.order, hb);
        proof {
            assert(hb@ =~= self.read_buf@.take(16));
            lemma_header_prefix(self.order, self.read_buf@);
        }
        let len = header.length as usize;
        if self.read_buf.len() < len {
            return None;
        }
        if len < HEADER_LEN {
            return Some(Received::HeaderLength(header.length));
        }
        let mut msg = self.read_buf.split_off(len);
        std::mem::swap(&mut msg, &mut self.read_buf);
        proof {
            assert(self.read_buf@ =~= old(self).read_buf@.skip(len as int));
        }
        match self.objects.get(&header.object_id) {
            Some(info) => {
                let mut m = msg;
                let body = m.split_off(HEADER_LEN);
                proof {
                    assert(body@ =~= old(self).read_buf@.subrange(HEADER_LEN as int, len as int));
                }
                Some(Received::Message { header, info: info.clone(), body })
            },
            None => Some(Received::InvalidObject(header.object_id)),
        }
    }
}

proof fn lemma_header_prefix(o: ByteOrder, s: Seq<u8>)
    requires
        s.len() >= 16,
    ensures
        header_value(o, s.take(16)) == header_value(o, s),
{
    assert(s.take(16).take(8) =~= s.take(8));
    assert(s.take(16).skip(8).take(4) =~= s.skip(8).take(4));
    assert(s.take(16).skip(12).take(4) =~= s.skip(12).take(4));
    let a = s.take(16);
    assert(a[0] == s[0] && a[1] == s[1] && a[2] == s[2] && a[3] == s[3]);
    assert(a.skip(8)[0] == s.skip(8)[0] && a.skip(8)[1] == s.skip(8)[1] && a.skip(8)[2] == s.skip(8)[2] && a.skip(8)[3] == s.skip(8)[3]);
    assert(a.skip(12)[0] == s.skip(12)[0] && a.skip(12)[1] == s.skip(12)[1] && a.skip(12)[2] == s.skip(12)[2] && a.skip(12)[3] == s.skip(12)[3]);
}

proof fn lemma_args_bytes_push(o: ByteOrder, args: Seq<ArgModel>, a: ArgModel)
    ensures
        args_bytes(o, args.push(a)) == args_bytes(o, args) + crate::arg::arg_bytes(o, a),
    decreases args.len(),
{
    if args.len() == 0 {
        let t = args.push(a).drop_first();
        assert(t =~= Seq::<ArgModel>::empty());
        assert(args_bytes(o, t) == Seq::<u8>::empty());
        assert(args.push(a)[0] == a);
        assert(args_bytes(o, args) =~= Seq::<u8>::empty());
        assert(args_bytes(o, args.push(a)) =~= crate::arg::arg_bytes(o, a) + Seq::<u8>::empty());
    } else {
        lemma_args_bytes_push(o, args.drop_first(), a);
        assert(args.push(a).drop_first() =~= args.drop_first().push(a));
        assert(args_bytes(o, args.push(a)) =~= args_bytes(o, args) + crate::arg::arg_bytes(o, a));
    }
}

proof fn lemma_fd_values_push<'a, F>(args: Seq<Arg<'a, F>>, a: Arg<'a, F>)
    ensures
        args_fd_values(args.push(a)) == args_fd_values(args) + args_fd_values(seq![a]),
        args_fd_values(seq![a]) == a.fd_seq(),
    decreases args.len(),
{
    assert(seq![a].drop_first() =~= Seq::<Arg<'a, F>>::empty());
    assert(args_fd_values(seq![a].drop_first()) == Seq::<F>::empty());
    assert(args_fd_values(seq![a]) =~= a.fd_seq());
    if args.len() == 0 {
        assert(args.push(a) =~= seq![a]);
        assert(args_fd_values(args) =~= Seq::<F>::empty());
        assert(args_fd_values(args.push(a)) =~= args_fd_values(args) + args_fd_values(seq![a]));
    } else {
        lemma_fd_values_push(args.drop_first(), a);
        assert(args.push(a).drop_first() =~= args.drop_first().push(a));
        assert(args_fd_values(args.push(a)) =~= args_fd_values(args) + args_fd_values(seq![a]));
    }
}

} // verus!
