//! What sending and receiving a message does to a connection's state.
use crate::arg::{
    arg_bytes, args_bytes, args_writable, decode_args, kind_accepts, kinds_accept, ArgModel, ErrKind,
    ParseError, Reader, WireKind,
};
use crate::backend::{message_bytes, message_writable, Backend, Object, ObjectInfo};
use crate::codec::ByteOrder;
use vstd::prelude::*;
use vstd::string::StringSliceAdditionalSpecFns;
use vstd::utf8::*;

verus! {

/// Pending message result.
#[derive(Debug)]
pub enum PendingRequestResult<T> {
    /// The message. Either an event or a request.
    Request(T),
    /// Wire format parse error.
    ParseError(ParseError),
    /// Invalid object ID.
    InvalidObject(u64),
}

/// `new` equals `old` but for the write buffers.
pub open spec fn same_but_writes<F>(old: Backend<F>, new: Backend<F>) -> bool {
    &&& new.order == old.order
    &&& new.client == old.client
    &&& new.next_id == old.next_id
    &&& new.next_peer_id == old.next_peer_id
    &&& new.objects == old.objects
    &&& new.read_buf == old.read_buf
    &&& new.read_fds == old.read_fds
}

/// `new` is `old` after queueing the message `opcode(args)` for `id`, with
/// the descriptors `fds`.
pub open spec fn sent<F>(old: Backend<F>, new: Backend<F>, id: u64, opcode: u32, args: Seq<ArgModel>, fds: Seq<F>) -> bool {
    &&& same_but_writes(old, new)
    &&& new.write_buf@ == old.write_buf@ + message_bytes(old.order, id, opcode, args)
    &&& new.write_fds@ == old.write_fds@ + fds
}

/// Where the interface and version of an object created by a message are.
pub enum NewObjectSlot {
    /// The object's interface is fixed by the protocol.
    Fixed { interface: &'static str, id_index: int, version_index: int },
    /// The object's interface name is one of the message's arguments.
    Named { id_index: int, name_index: int, version_index: int },
}

/// The ID of the object a message creates, read from its arguments.
pub open spec fn slot_id(slot: NewObjectSlot, vals: Seq<ArgModel>) -> u64 {
    let i = match slot {
        NewObjectSlot::Fixed { id_index, .. } => id_index,
        NewObjectSlot::Named { id_index, .. } => id_index,
    };
    match vals[i] {
        ArgModel::Uint64(x) => x,
        _ => 0,
    }
}

/// The version of the object a message creates.
pub open spec fn slot_version(slot: NewObjectSlot, vals: Seq<ArgModel>) -> u32 {
    let i = match slot {
        NewObjectSlot::Fixed { version_index, .. } => version_index,
        NewObjectSlot::Named { version_index, .. } => version_index,
    };
    match vals[i] {
        ArgModel::Uint32(x) => x,
        _ => 0,
    }
}

/// The interface name of the object a message creates.
pub open spec fn slot_interface(slot: NewObjectSlot, vals: Seq<ArgModel>) -> Seq<char> {
    match slot {
        NewObjectSlot::Fixed { interface, .. } => interface@,
        NewObjectSlot::Named { name_index, .. } => match vals[name_index] {
            ArgModel::String(Some(s)) => s,
            _ => Seq::empty(),
        },
    }
}

/// `new` records the object described by `slot` and `vals`.
pub open spec fn records_object<F>(old: Backend<F>, new: Backend<F>, slot: NewObjectSlot, vals: Seq<ArgModel>) -> bool {
    let id = slot_id(slot, vals);
    &&& new.next_peer_id == id.wrapping_add(1)
    &&& new.objects@.contains_key(id)
    &&& new.objects@[id].interface@ == slot_interface(slot, vals)
    &&& new.objects@[id].version == slot_version(slot, vals)
    &&& new.objects@.remove(id) == old.objects@.remove(id)
}

/// The state parts that parsing a message never changes.
pub open spec fn parse_frame<F>(old: Backend<F>, new: Backend<F>) -> bool {
    &&& new.order == old.order
    &&& new.client == old.client
    &&& new.next_id == old.next_id
    &&& new.read_buf == old.read_buf
    &&& new.write_buf == old.write_buf
    &&& new.write_fds == old.write_fds
}

/// What a parsed message carries: its opcode, its arguments as they were on
/// the wire, and the object it created, if any.
pub trait WireMessage {
    spec fn wire_opcode(&self) -> u32;

    spec fn wire_args(&self) -> Seq<ArgModel>;

    spec fn wire_created(&self) -> Option<Object>;

    /// Where among the arguments the ID of the object the message creates
    /// stands, if it creates one.
    spec fn wire_new_id_at(&self) -> Option<int>;
}

/// A received message: a [`WireMessage`] for a known object.
pub trait Incoming: WireMessage {
    /// The object the message is for.
    spec fn target(&self) -> Object;
}

/// The model of a parse result: the message's opcode, arguments and
/// created object, or the kind of the error.
pub open spec fn parse_model<T: WireMessage>(r: Result<T, ParseError>) -> Result<(u32, Seq<ArgModel>, Option<Object>), ErrKind> {
    match r {
        Ok(m) => Ok((m.wire_opcode(), m.wire_args(), m.wire_created())),
        Err(e) => Err(e.kind()),
    }
}

/// `created` is the object described by `slot` and `vals`, on the side
/// given by `client`, or `None` where the message creates none.
pub open spec fn created_ok(created: Option<Object>, slot: Option<NewObjectSlot>, vals: Seq<ArgModel>, client: bool) -> bool {
    match slot {
        None => created is None,
        Some(s) => created matches Some(o) && o.id == slot_id(s, vals) && o.interface@ == slot_interface(s, vals)
            && o.version == slot_version(s, vals) && o.client_side == client,
    }
}

/// What parsing the body of a message with `opcode` for interface `iface`
/// does, where `kinds` are the argument kinds of that opcode (`None` for
/// an unknown opcode) and `slot` says which object the message creates, if
/// any. `r` is the model of the result: the message's opcode, arguments and
/// created object, or an error.
pub open spec fn parse_post<F>(
    iface: &'static str,
    kinds: Option<Seq<WireKind>>,
    slot: Option<NewObjectSlot>,
    opcode: u32,
    rd0: Reader,
    rd1: Reader,
    b0: Backend<F>,
    b1: Backend<F>,
    r: Result<(u32, Seq<ArgModel>, Option<Object>), ErrKind>,
) -> bool {
    &&& rd1.wf()
    &&& rd1.bytes == rd0.bytes
    &&& parse_frame(b0, b1)
    &&& match kinds {
        None => {
            &&& r == Err::<(u32, Seq<ArgModel>, Option<Object>), ErrKind>(ErrKind::InvalidOpcode(iface, opcode))
            &&& b1.read_fds == b0.read_fds
            &&& b1.objects == b0.objects
            &&& b1.next_peer_id == b0.next_peer_id
        },
        Some(ks) => match decode_args(b0.order, ks, rd0.rest(), b0.read_fds@.len()) {
            Err((e, nf)) => {
                &&& r == Err::<(u32, Seq<ArgModel>, Option<Object>), ErrKind>(e)
                &&& b1.read_fds@ == b0.read_fds@.skip(nf as int)
                &&& b1.objects == b0.objects
                &&& b1.next_peer_id == b0.next_peer_id
            },
            Ok((vals, nb, nf)) => {
                &&& rd1.pos == rd0.pos + nb
                &&& b1.read_fds@ == b0.read_fds@.skip(nf as int)
                &&& match slot {
                    None => {
                        &&& r matches Ok((op, v, c)) && op == opcode && v == vals && c is None
                        &&& b1.objects == b0.objects
                        &&& b1.next_peer_id == b0.next_peer_id
                    },
                    Some(s) => if b0.peer_id_ok(slot_id(s, vals)) {
                        &&& r matches Ok((op, v, c)) && op == opcode && v == vals && created_ok(c, slot, vals, b0.client)
                        &&& records_object(b0, b1, s, vals)
                    } else {
                        &&& r == Err::<(u32, Seq<ArgModel>, Option<Object>), ErrKind>(ErrKind::InvalidId(slot_id(s, vals)))
                        &&& b1.objects == b0.objects
                        &&& b1.next_peer_id == b0.next_peer_id
                    },
                }
            },
        },
    }
}

/// A decoding that succeeds yields one argument per kind, each accepted by
/// its kind.
pub proof fn lemma_decode_accepts(o: ByteOrder, ks: Seq<WireKind>, s: Seq<u8>, n: nat)
    ensures
        decode_args(o, ks, s, n) matches Ok((vals, _, _)) ==> kinds_accept(ks, vals),
    decreases ks.len(),
{
    reveal(crate::arg::decode_arg);
    if ks.len() > 0 {
        match crate::arg::decode_arg(o, ks[0], s, n) {
            Ok((v, nb, nf)) => {
                lemma_decode_accepts(o, ks.drop_first(), s.skip(nb as int), (n - nf) as nat);
                match decode_args(o, ks.drop_first(), s.skip(nb as int), (n - nf) as nat) {
                    Ok((vs, _, _)) => {
                        let all = seq![v] + vs;
                        assert forall|i: int| 0 <= i < ks.len() implies kind_accepts(#[trigger] ks[i], all[i]) by {
                            if i > 0 {
                                assert(ks[i] == ks.drop_first()[i - 1]);
                                assert(all[i] == vs[i - 1]);
                            }
                        }
                    },
                    Err(_) => {},
                }
            },
            Err(_) => {},
        }
    }
}


/// Longest string, in bytes, that a message may carry.
pub const MAX_STRING_LEN: usize = 0xffff_ff00;

/// Whether a string is short enough to be sent.
pub open spec fn str_fits(s: &str) -> bool {
    s.spec_bytes().len() <= MAX_STRING_LEN
}

/// Whether a string that may be NULL is short enough to be sent.
pub open spec fn opt_str_fits(s: Option<&str>) -> bool {
    match s {
        Some(x) => str_fits(x),
        None => true,
    }
}

/// The characters of a string that may be NULL.
pub open spec fn opt_str_view(s: Option<&str>) -> Option<Seq<char>> {
    match s {
        Some(x) => Some(x@),
        None => None,
    }
}

/// The characters of an owned string that may be NULL.
pub open spec fn opt_string_view(s: Option<String>) -> Option<Seq<char>> {
    match s {
        Some(x) => Some(x@),
        None => None,
    }
}

/// An upper bound on the bytes one argument takes.
pub open spec fn arg_size_bound(a: ArgModel) -> nat {
    match a {
        ArgModel::String(Some(s)) => encode_utf8(s).len() + 8,
        _ => 8,
    }
}

/// An upper bound on the bytes a sequence of arguments takes.
pub open spec fn args_size_bound(args: Seq<ArgModel>) -> nat
    decreases args.len(),
{
    if args.len() == 0 {
        0
    } else {
        arg_size_bound(args[0]) + args_size_bound(args.drop_first())
    }
}

proof fn lemma_args_size(o: ByteOrder, args: Seq<ArgModel>)
    requires
        args_size_bound(args) <= u32::MAX,
    ensures
        args_bytes(o, args).len() <= args_size_bound(args),
        args_writable(args),
    decreases args.len(),
{
    if args.len() > 0 {
        lemma_args_size(o, args.drop_first());
        let a = args[0];
        match a {
            ArgModel::String(Some(st)) => {
                assert(arg_bytes(o, a).len() <= encode_utf8(st).len() + 8);
            },
            _ => {},
        }
        assert forall|i: int| 0 <= i < args.len() implies crate::arg::arg_writable(#[trigger] args[i]) by {
            if i > 0 {
                assert(args[i] == args.drop_first()[i - 1]);
            }
        }
    }
}

/// A message whose arguments' size bound fits in a header's length can be
/// written.
pub proof fn lemma_message_writable(o: ByteOrder, args: Seq<ArgModel>)
    requires
        16 + args_size_bound(args) <= u32::MAX,
    ensures
        message_writable(o, args),
{
    lemma_args_size(o, args);
}


/// `new` is `old` after queueing the message `opcode(args)` for `id` and
/// forgetting the object `id`.
pub open spec fn sent_destroying<F>(
    old: Backend<F>,
    new: Backend<F>,
    id: u64,
    opcode: u32,
    args: Seq<ArgModel>,
    fds: Seq<F>,
) -> bool {
    &&& new.order == old.order
    &&& new.client == old.client
    &&& new.next_id == old.next_id
    &&& new.next_peer_id == old.next_peer_id
    &&& new.read_buf == old.read_buf
    &&& new.read_fds == old.read_fds
    &&& new.objects@ == old.objects@.remove(id)
    &&& new.write_buf@ == old.write_buf@ + message_bytes(old.order, id, opcode, args)
    &&& new.write_fds@ == old.write_fds@ + fds
}

/// `new` is `old` after creating object `old.next_id` with interface `name`
/// and `version`, queueing the message `opcode(args)` for `id`, and, if
/// `destroys`, forgetting the object `id`.
pub open spec fn sent_creating<F>(
    old: Backend<F>,
    new: Backend<F>,
    id: u64,
    opcode: u32,
    args: Seq<ArgModel>,
    fds: Seq<F>,
    name: Seq<char>,
    version: u32,
    destroys: bool,
) -> bool {
    let nid = old.next_id;
    &&& new.order == old.order
    &&& new.client == old.client
    &&& new.next_id == old.next_id + 1
    &&& new.next_peer_id == old.next_peer_id
    &&& new.read_buf == old.read_buf
    &&& new.read_fds == old.read_fds
    &&& new.write_buf@ == old.write_buf@ + message_bytes(old.order, id, opcode, args)
    &&& new.write_fds@ == old.write_fds@ + fds
    &&& if destroys {
        &&& !new.objects@.contains_key(id)
        &&& nid != id ==> new.objects@.contains_key(nid) && new.objects@[nid].interface@ == name
            && new.objects@[nid].version == version
        &&& new.objects@.remove(nid).remove(id) == old.objects@.remove(nid).remove(id)
    } else {
        &&& new.objects@.contains_key(nid)
        &&& new.objects@[nid].interface@ == name
        &&& new.objects@[nid].version == version
        &&& new.objects@.remove(nid) == old.objects@.remove(nid)
    }
}

} // verus!

verus! {

/// A message to send: the object it is for, its opcode and its arguments.
pub type MessageModel = (u64, u32, Seq<ArgModel>);

/// The bytes of a sequence of messages, one after the other.
pub open spec fn messages_bytes(o: ByteOrder, msgs: Seq<MessageModel>) -> Seq<u8>
    decreases msgs.len(),
{
    if msgs.len() == 0 {
        Seq::empty()
    } else {
        let m = msgs.last();
        messages_bytes(o, msgs.drop_last()) + message_bytes(o, m.0, m.1, m.2)
    }
}

/// `new` is `old` after queueing the messages `msgs`, in order, with no
/// file descriptors.
pub open spec fn sent_all<F>(old: Backend<F>, new: Backend<F>, msgs: Seq<MessageModel>) -> bool {
    &&& same_but_writes(old, new)
    &&& new.write_buf@ == old.write_buf@ + messages_bytes(old.order, msgs)
    &&& new.write_fds@ == old.write_fds@
}

/// Queueing nothing leaves the state as it is.
pub proof fn lemma_sent_none<F>(b: Backend<F>)
    ensures
        sent_all(b, b, Seq::empty()),
{
    assert(b.write_buf@ + Seq::<u8>::empty() =~= b.write_buf@);
}

/// Queueing one more message extends the messages queued.
pub proof fn lemma_sent_one_more<F>(b0: Backend<F>, b1: Backend<F>, b2: Backend<F>, msgs: Seq<MessageModel>, id: u64, opcode: u32, args: Seq<ArgModel>)
    requires
        sent_all(b0, b1, msgs),
        sent(b1, b2, id, opcode, args, Seq::empty()),
    ensures
        sent_all(b0, b2, msgs.push((id, opcode, args))),
{
    let all = msgs.push((id, opcode, args));
    assert(all.drop_last() =~= msgs);
    assert(b2.write_fds@ =~= b0.write_fds@);
    assert(b2.write_buf@ =~= b0.write_buf@ + messages_bytes(b0.order, all));
}

} // verus!

verus! {

/// The bytes of one message.
pub proof fn lemma_messages_one(o: ByteOrder, id: u64, opcode: u32, args: Seq<ArgModel>)
    ensures
        messages_bytes(o, seq![(id, opcode, args)]) == message_bytes(o, id, opcode, args),
{
    let one = seq![(id, opcode, args)];
    assert(one.drop_last() =~= Seq::<MessageModel>::empty());
    assert(one.last() == (id, opcode, args));
    assert(messages_bytes(o, Seq::<MessageModel>::empty()) =~= Seq::<u8>::empty());
    assert(messages_bytes(o, one) =~= message_bytes(o, id, opcode, args));
}

/// `new` is `old` after queueing the messages `msgs`, in order, with no file
/// descriptors; the objects and the next ID are left to other clauses.
pub open spec fn wrote<F>(old: Backend<F>, new: Backend<F>, msgs: Seq<MessageModel>) -> bool {
    &&& new.order == old.order
    &&& new.client == old.client
    &&& new.next_peer_id == old.next_peer_id
    &&& new.read_buf == old.read_buf
    &&& new.read_fds == old.read_fds
    &&& new.write_buf@ == old.write_buf@ + messages_bytes(old.order, msgs)
    &&& new.write_fds@ == old.write_fds@
}

/// Writing nothing leaves the buffers as they are.
pub proof fn lemma_wrote_none<F>(b: Backend<F>)
    ensures
        wrote(b, b, Seq::empty()),
{
    assert(b.write_buf@ + Seq::<u8>::empty() =~= b.write_buf@);
}

/// Writing one more message extends the messages written.
pub proof fn lemma_wrote_more<F>(b0: Backend<F>, b1: Backend<F>, b2: Backend<F>, msgs: Seq<MessageModel>, id: u64, opcode: u32, args: Seq<ArgModel>)
    requires
        wrote(b0, b1, msgs),
        wrote(b1, b2, seq![(id, opcode, args)]),
    ensures
        wrote(b0, b2, msgs.push((id, opcode, args))),
{
    let all = msgs.push((id, opcode, args));
    let one = seq![(id, opcode, args)];
    lemma_messages_one(b1.order, id, opcode, args);
    assert(all.drop_last() =~= msgs);
    assert(b2.write_buf@ =~= b0.write_buf@ + messages_bytes(b0.order, all));
}

/// Writing `a` and then `b` writes `a + b`.
pub proof fn lemma_wrote_concat<F>(b0: Backend<F>, b1: Backend<F>, b2: Backend<F>, a: Seq<MessageModel>, b: Seq<MessageModel>)
    requires
        wrote(b0, b1, a),
        wrote(b1, b2, b),
    ensures
        wrote(b0, b2, a + b),
    decreases b.len(),
{
    if b.len() == 0 {
        assert(a + b =~= a);
        assert(b2.write_buf@ =~= b1.write_buf@);
    } else {
        let m = b.last();
        assert(b.drop_last().push(m) =~= b);
        assert((a + b).drop_last() =~= a + b.drop_last());
        assert(b2.write_buf@ == b1.write_buf@ + messages_bytes(b1.order, b.drop_last()) + message_bytes(b1.order, m.0, m.1, m.2));
        assert(b0.write_buf@ + messages_bytes(b0.order, a + b) =~= b0.write_buf@ + messages_bytes(b0.order, a) + messages_bytes(
            b0.order,
            b,
        )) by {
            lemma_messages_concat(b0.order, a, b);
        }
    }
}

/// The bytes of `a + b` are those of `a`, then those of `b`.
pub proof fn lemma_messages_concat(o: ByteOrder, a: Seq<MessageModel>, b: Seq<MessageModel>)
    ensures
        messages_bytes(o, a + b) == messages_bytes(o, a) + messages_bytes(o, b),
    decreases b.len(),
{
    if b.len() == 0 {
        assert(a + b =~= a);
        assert(messages_bytes(o, a) + Seq::<u8>::empty() =~= messages_bytes(o, a));
    } else {
        assert((a + b).drop_last() =~= a + b.drop_last());
        assert((a + b).last() == b.last());
        lemma_messages_concat(o, a, b.drop_last());
        let m = b.last();
        assert(messages_bytes(o, a + b) =~= messages_bytes(o, a) + messages_bytes(o, b));
    }
}

/// A message queued by [`sent`] is written.
pub proof fn lemma_sent_wrote<F>(b0: Backend<F>, b1: Backend<F>, id: u64, opcode: u32, args: Seq<ArgModel>)
    requires
        sent(b0, b1, id, opcode, args, Seq::empty()) || sent_destroying(b0, b1, id, opcode, args, Seq::empty()),
    ensures
        wrote(b0, b1, seq![(id, opcode, args)]),
{
    let one = seq![(id, opcode, args)];
    lemma_messages_one(b0.order, id, opcode, args);
    assert(b1.write_fds@ =~= b0.write_fds@);
}

/// A message queued by [`sent_creating`] is written.
pub proof fn lemma_created_wrote<F>(
    b0: Backend<F>,
    b1: Backend<F>,
    id: u64,
    opcode: u32,
    args: Seq<ArgModel>,
    name: Seq<char>,
    version: u32,
    destroys: bool,
)
    requires
        sent_creating(b0, b1, id, opcode, args, Seq::empty(), name, version, destroys),
    ensures
        wrote(b0, b1, seq![(id, opcode, args)]),
{
    let one = seq![(id, opcode, args)];
    lemma_messages_one(b0.order, id, opcode, args);
    assert(b1.write_fds@ =~= b0.write_fds@);
}

} // verus!
