//! The `ei_callback` interface on the server side.
use crate::arg::{
    args_model, new_id_only_at, take_float, take_fd, take_i32, take_i64, take_opt_string, take_string, take_u32, take_u64,
    values_model, Arg, ArgModel, EnumKind, ParseError, Reader, WireKind,
};
use crate::backend::{args_fd_values, Backend, Object};
use crate::enums::{ButtonState, ContextType, DeviceType, DisconnectReason, KeyState, KeymapType};
use crate::message::{
    args_size_bound, lemma_message_writable, opt_str_fits, opt_str_view, parse_model, parse_post, sent,
    sent_creating, sent_destroying, str_fits, WireMessage,
};
use crate::protocol::{event_kinds, event_slot, lemma_encode_len, lemma_name_len, request_kinds, request_slot, Iface, Interface};
use vstd::prelude::*;

verus! {

/// Proxy for an `ei_callback` object on the server side.
#[derive(Debug)]
pub struct Callback(pub Object);

impl Clone for Callback {
    fn clone(&self) -> (r: Self)
        ensures
            r == *self,
    {
        Callback(self.0.clone())
    }
}

impl Interface for Callback {
    open spec fn spec_iface() -> Iface {
        Iface::Callback
    }

    open spec fn spec_max_version() -> u32 {
        1
    }

    open spec fn spec_client_side() -> bool {
        false
    }

    open spec fn spec_object(&self) -> Object {
        self.0
    }

    fn iface() -> (r: Iface) {
        Iface::Callback
    }

    fn interface_name() -> (r: &'static str) {
        "ei_callback"
    }

    fn max_version() -> (r: u32) {
        1
    }

    fn client_side() -> (r: bool) {
        false
    }

    fn new_unchecked(object: Object) -> (r: Self) {
        Callback(object)
    }

    fn as_object(&self) -> (r: &Object) {
        &self.0
    }
}

impl Callback {
    /// Returns the version of the object's interface.
    pub fn version(&self) -> (r: u32)
        ensures
            r == self.0.version,
    {
        self.0.version
    }

    /// Returns `true` if the connection still has this object.
    pub fn is_alive<F>(&self, backend: &Backend<F>) -> (r: bool)
        ensures
            r == backend.objects@.contains_key(self.0.id),
    {
        self.0.is_alive(backend)
    }

    /// Sends the `ei_callback.done` event, then forgets the object.
    pub fn done<F>(&self, backend: &mut Backend<F>, callback_data: u64)
        ensures
            sent_destroying(*old(backend), *final(backend), self.0.id, 0, seq![ArgModel::Uint64(callback_data)], Seq::<F>::empty()),
    {
        let args = vec![Arg::Uint64(callback_data)];
        let ghost a = args@;
        proof {
            assert(args_model(a) =~= seq![ArgModel::Uint64(callback_data)]);
            reveal_with_fuel(args_size_bound, 2);
            lemma_message_writable(backend.order, args_model(a));
        }
        backend.request(self.0.id, 0, args);
        backend.remove_id(self.0.id);
        proof {
            reveal_with_fuel(args_fd_values, 2);
            assert(args_fd_values(a) =~= Seq::<F>::empty());
        }
    }
}

} // verus!
