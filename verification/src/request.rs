//! High-level server-side wrappers for common objects and their requests.
use crate::arg::ArgModel;
use crate::backend::{Backend, Object};
use crate::capability::{all_capabilities, capability_of, capability_of_iface, Capabilities, DeviceCapability, ALL_BITS};
use crate::eis;
use crate::enums::{ButtonState, ContextType, DeviceType, DisconnectReason, KeyState};
use crate::error::Error;
use crate::handshake::EisHandshakeResp;
use crate::message::{lemma_wrote_concat, lemma_wrote_none, sent, sent_creating, sent_destroying, wrote, MessageModel, PendingRequestResult};
use crate::protocol::Interface;
use crate::search::{first_index, lemma_first_index, lemma_first_index_in, lemma_first_index_same, lemma_no_index};
use std::collections::{HashSet, VecDeque};
use vstd::prelude::*;
use vstd::string::StringExecFns;

verus! {

broadcast use vstd::std_specs::hash::group_hash_axioms;

/// Most touches a device may have down at once, as in libei.
pub const EIS_MAX_TOUCHES: usize = 16;

/// Protocol errors of the client.
#[derive(Clone, Copy, Debug, PartialEq, Eq, Structural)]
pub enum RequestError {
    /// Invalid capabilities in `ei_seat.bind`.
    InvalidCapabilities,
    /// Touch down event for a touch ID that is already down.
    DuplicatedTouchDown,
    /// Too many simultaneous touches.
    TooManyTouches,
}

impl RequestError {
    /// The message of the error.
    pub open spec fn spec_message(&self) -> Seq<char> {
        match self {
            RequestError::InvalidCapabilities => "Invalid capabilities"@,
            RequestError::DuplicatedTouchDown => "Touch down event for duplicated touch ID"@,
            RequestError::TooManyTouches => "Too many simultaneous touch events"@,
        }
    }

    /// Returns the message of the error.
    pub fn to_string(&self) -> (r: String)
        ensures
            r@ == self.spec_message(),
    {
        String::from_str(match self {
            RequestError::InvalidCapabilities => "Invalid capabilities",
            RequestError::DuplicatedTouchDown => "Touch down event for duplicated touch ID",
            RequestError::TooManyTouches => "Too many simultaneous touch events",
        })
    }
}

// ---------------------------------------------------------------------------
// Clock
// ---------------------------------------------------------------------------

/// `rustix::time::clock_gettime(ClockId::Monotonic)`: the seconds and
/// nanoseconds of the monotonic clock. Nothing is claimed of the values,
/// which depend on the time of the call.
#[verifier::external_body]
fn monotonic_clock() -> (r: (i64, i64)) {
    let t = rustix::time::clock_gettime(rustix::time::ClockId::Monotonic);
    (t.tv_sec, t.tv_nsec)
}

/// Microseconds of a time given in seconds and nanoseconds, as the bits of
/// two's complement, wrapping on overflow.
pub open spec fn spec_micros(sec: u64, nsec: u64) -> u64 {
    ((sec * 1_000_000 + nsec / 1000) % 0x1_0000_0000_0000_0000) as u64
}

/// Returns the microseconds of a time given in seconds and nanoseconds,
/// wrapping on overflow.
pub fn micros(sec: i64, nsec: i64) -> (r: u64)
    ensures
        r == spec_micros(#[verifier::truncate] (sec as u64), #[verifier::truncate] (nsec as u64)),
{
    let s = #[verifier::truncate] (sec as u64);
    let n = #[verifier::truncate] (nsec as u64);
    let a = s.wrapping_mul(1_000_000);
    let r = a.wrapping_add(n / 1000);
    assert(((s as int * 1_000_000) % 0x1_0000_0000_0000_0000 + n / 1000) % 0x1_0000_0000_0000_0000 == ((s as int
        * 1_000_000 + n / 1000) % 0x1_0000_0000_0000_0000)) by (nonlinear_arith);
    r
}

/// Returns the time of the monotonic clock in microseconds.
pub fn eis_now() -> (r: u64) {
    let (sec, nsec) = monotonic_clock();
    micros(sec, nsec)
}

// ---------------------------------------------------------------------------
// Seats, devices and the connection
// ---------------------------------------------------------------------------

/// High-level server-side wrapper for `ei_seat`.
#[derive(Debug)]
pub struct Seat {
    /// The proxy for the `ei_seat` object.
    pub seat: eis::Seat,
    /// The seat's name, if it has one.
    pub name: Option<String>,
    /// The capabilities announced for the seat.
    pub advertised_capabilities: Capabilities,
}

impl Clone for Seat {
    fn clone(&self) -> (r: Self)
        ensures
            r == *self,
    {
        let name = match &self.name {
            Some(n) => Some(n.clone()),
            None => None,
        };
        Seat { seat: self.seat.clone(), name, advertised_capabilities: self.advertised_capabilities }
    }
}

impl Seat {
    /// Returns the proxy for the underlying `ei_seat` object.
    pub fn eis_seat(&self) -> (r: &eis::Seat)
        ensures
            *r == self.seat,
    {
        &self.seat
    }
}

/// The object held, if any, as a sequence.
pub open spec fn opt_seq(o: Option<Object>) -> Seq<Object> {
    match o {
        Some(x) => seq![x],
        None => Seq::empty(),
    }
}

/// The interface objects of a device, at most one per capability.
#[derive(Debug)]
pub struct Interfaces {
    pub pointer: Option<Object>,
    pub pointer_absolute: Option<Object>,
    pub keyboard: Option<Object>,
    pub touch: Option<Object>,
    pub scroll: Option<Object>,
    pub button: Option<Object>,
}

fn clone_object(o: &Option<Object>) -> (r: Option<Object>)
    ensures
        r == *o,
{
    match o {
        Some(x) => Some(x.clone()),
        None => None,
    }
}

impl Clone for Interfaces {
    fn clone(&self) -> (r: Self)
        ensures
            r == *self,
    {
        Interfaces {
            pointer: clone_object(&self.pointer),
            pointer_absolute: clone_object(&self.pointer_absolute),
            keyboard: clone_object(&self.keyboard),
            touch: clone_object(&self.touch),
            scroll: clone_object(&self.scroll),
            button: clone_object(&self.button),
        }
    }
}

impl Interfaces {
    /// The object for capability `c`, if any.
    pub open spec fn spec_get(self, c: DeviceCapability) -> Option<Object> {
        match c {
            DeviceCapability::Pointer => self.pointer,
            DeviceCapability::PointerAbsolute => self.pointer_absolute,
            DeviceCapability::Keyboard => self.keyboard,
            DeviceCapability::Touch => self.touch,
            DeviceCapability::Scroll => self.scroll,
            DeviceCapability::Button => self.button,
        }
    }

    /// The objects, in the order of the capabilities' bits.
    pub open spec fn list(self) -> Seq<Object> {
        opt_seq(self.pointer) + opt_seq(self.pointer_absolute) + opt_seq(self.keyboard) + opt_seq(self.touch)
            + opt_seq(self.scroll) + opt_seq(self.button)
    }

    /// Each object is for its capability's interface.
    pub open spec fn wf(self) -> bool {
        forall|c: DeviceCapability|
            #[trigger] self.spec_get(c) matches Some(o) ==> o.interface@ == c.spec_iface().spec_name()@
    }

    /// Whether one of the objects has ID `id`.
    pub open spec fn has_id(self, id: u64) -> bool {
        exists|c: DeviceCapability| #[trigger] self.spec_get(c) matches Some(o) && o.id == id
    }

    /// Returns `true` if one of the objects has ID `id`.
    pub fn contains_id(&self, id: u64) -> (r: bool)
        ensures
            r == self.has_id(id),
    {
        let caps = Capabilities::all().iter();
        let mut k: usize = 0;
        while k < caps.len()
            invariant
                caps@ == (Capabilities { bits: ALL_BITS }).list(),
                k <= caps@.len(),
                forall|j: int| 0 <= j < k ==> !(self.spec_get(#[trigger] caps@[j]) matches Some(o) && o.id == id),
            decreases caps@.len() - k,
        {
            match self.get(caps[k]) {
                Some(o) => {
                    if o.id == id {
                        return true;
                    }
                },
                None => {},
            }
            k = k + 1;
        }
        proof {
            crate::capability::lemma_all_list();
            assert forall|c: DeviceCapability| !(#[trigger] self.spec_get(c) matches Some(o) && o.id == id) by {
                crate::capability::lemma_in_all(c);
            }
        }
        false
    }

    /// No object.
    pub fn new() -> (r: Self)
        ensures
            forall|c: DeviceCapability| (#[trigger] r.spec_get(c)) is None,
    {
        Interfaces { pointer: None, pointer_absolute: None, keyboard: None, touch: None, scroll: None, button: None }
    }

    /// Returns the object for capability `c`, if any.
    pub fn get(&self, c: DeviceCapability) -> (r: Option<&Object>)
        ensures
            match r {
                Some(o) => self.spec_get(c) == Some(*o),
                None => self.spec_get(c) is None,
            },
    {
        match c {
            DeviceCapability::Pointer => self.pointer.as_ref(),
            DeviceCapability::PointerAbsolute => self.pointer_absolute.as_ref(),
            DeviceCapability::Keyboard => self.keyboard.as_ref(),
            DeviceCapability::Touch => self.touch.as_ref(),
            DeviceCapability::Scroll => self.scroll.as_ref(),
            DeviceCapability::Button => self.button.as_ref(),
        }
    }

    /// The objects with `o` for capability `c`.
    pub open spec fn spec_set(self, c: DeviceCapability, o: Object) -> Self {
        match c {
            DeviceCapability::Pointer => Interfaces { pointer: Some(o), ..self },
            DeviceCapability::PointerAbsolute => Interfaces { pointer_absolute: Some(o), ..self },
            DeviceCapability::Keyboard => Interfaces { keyboard: Some(o), ..self },
            DeviceCapability::Touch => Interfaces { touch: Some(o), ..self },
            DeviceCapability::Scroll => Interfaces { scroll: Some(o), ..self },
            DeviceCapability::Button => Interfaces { button: Some(o), ..self },
        }
    }

    /// Sets the object for capability `c`.
    pub fn set(&mut self, c: DeviceCapability, o: Object)
        ensures
            *final(self) == old(self).spec_set(c, o),
            final(self).spec_get(c) == Some(o),
            forall|d: DeviceCapability| d != c ==> #[trigger] final(self).spec_get(d) == old(self).spec_get(d),
    {
        match c {
            DeviceCapability::Pointer => self.pointer = Some(o),
            DeviceCapability::PointerAbsolute => self.pointer_absolute = Some(o),
            DeviceCapability::Keyboard => self.keyboard = Some(o),
            DeviceCapability::Touch => self.touch = Some(o),
            DeviceCapability::Scroll => self.scroll = Some(o),
            DeviceCapability::Button => self.button = Some(o),
        }
    }
}

/// High-level server-side wrapper for `ei_device`.
#[derive(Debug)]
pub struct Device {
    /// The proxy for the `ei_device` object.
    pub device: eis::Device,
    /// The seat the device belongs to.
    pub seat: Seat,
    /// The device's name, if it has one.
    pub name: Option<String>,
    /// The objects of the device's interfaces, one per capability.
    pub interfaces: Interfaces,
}

impl Clone for Device {
    fn clone(&self) -> (r: Self)
        ensures
            r == *self,
    {
        let name = match &self.name {
            Some(n) => Some(n.clone()),
            None => None,
        };
        Device { device: self.device.clone(), seat: self.seat.clone(), name, interfaces: self.interfaces.clone() }
    }
}

/// Whether `d` has an interface object with ID `id`.
pub open spec fn has_interface_id(d: Device, id: u64) -> bool {
    exists|c: DeviceCapability| #[trigger] d.interfaces.spec_get(c) matches Some(o) && o.id == id
}

impl Device {
    /// Returns the high-level [`Seat`] wrapper for this device.
    pub fn seat(&self) -> (r: &Seat)
        ensures
            *r == self.seat,
    {
        &self.seat
    }

    /// Returns the proxy for the underlying `ei_device` object.
    pub fn device(&self) -> (r: &eis::Device)
        ensures
            *r == self.device,
    {
        &self.device
    }

    /// Returns the name of the device.
    pub fn name(&self) -> (r: Option<&str>)
        ensures
            match r {
                Some(n) => self.name matches Some(m) && n@ == m@,
                None => self.name is None,
            },
    {
        match &self.name {
            Some(n) => Some(n.as_str()),
            None => None,
        }
    }

    /// Returns `true` if one of the device's interface objects has this ID.
    pub fn has_interface_id(&self, id: u64) -> (r: bool)
        ensures
            r == has_interface_id(*self, id),
    {
        let caps = Capabilities::all().iter();
        let mut k: usize = 0;
        while k < caps.len()
            invariant
                caps@ == (Capabilities { bits: ALL_BITS }).list(),
                k <= caps@.len(),
                forall|j: int| 0 <= j < k ==> !(self.interfaces.spec_get(#[trigger] caps@[j]) matches Some(o) && o.id == id),
            decreases caps@.len() - k,
        {
            match self.interfaces.get(caps[k]) {
                Some(o) => {
                    if o.id == id {
                        return true;
                    }
                },
                None => {},
            }
            k = k + 1;
        }
        proof {
            crate::capability::lemma_all_list();
            assert forall|c: DeviceCapability| !(#[trigger] self.interfaces.spec_get(c) matches Some(o) && o.id == id) by {
                crate::capability::lemma_in_all(c);
            }
        }
        false
    }

    /// Returns `true` if this device has an interface matching the provided
    /// capability.
    pub fn has_capability(&self, capability: DeviceCapability) -> (r: bool)
        ensures
            r == self.interfaces.spec_get(capability) is Some,
    {
        self.interfaces.get(capability).is_some()
    }

    /// Returns an interface proxy if it is implemented for this device.
    pub fn interface<T: DeviceInterface>(&self) -> (r: Option<T>)
        ensures
            match capability_of(T::spec_iface()) {
                Some(c) => match self.interfaces.spec_get(c) {
                    Some(o) => if o.client_side == T::spec_client_side() && o.interface@ == T::spec_iface().spec_name()@ {
                        r matches Some(t) && t.spec_object() == o
                    } else {
                        r is None
                    },
                    None => r is None,
                },
                None => r is None,
            },
    {
        match capability_of_iface(T::iface()) {
            Some(c) => match self.interfaces.get(c) {
                Some(o) => o.clone().downcast(),
                None => None,
            },
            None => None,
        }
    }
}

/// Marks the interfaces that devices can have.
pub trait DeviceInterface: Interface {}

impl DeviceInterface for eis::Pointer {}

impl DeviceInterface for eis::PointerAbsolute {}

impl DeviceInterface for eis::Scroll {}

impl DeviceInterface for eis::Button {}

impl DeviceInterface for eis::Keyboard {}

impl DeviceInterface for eis::Touchscreen {}

/// What a connection tracks of a device: the device and the touches down.
#[derive(Debug)]
pub struct DeviceState {
    pub device: Device,
    pub down_touch_ids: HashSet<u32>,
}

/// High-level server-side wrapper for `ei_connection`.
pub struct Connection {
    /// The outcome of the handshake.
    pub handshake_resp: EisHandshakeResp,
    /// The seats added, in order.
    pub seats: Vec<Seat>,
    /// The devices added, in order, with their touches.
    pub devices: Vec<DeviceState>,
    /// The last serial used in an event sent by the server.
    pub last_serial: u32,
    /// Whether the server sent `ei_connection.disconnected`.
    pub disconnected: bool,
}

impl Connection {
    pub open spec fn wf(&self) -> bool {
        self.handshake_resp.negotiated_interfaces.wf()
    }

    /// Index of the first seat whose object has ID `id`.
    pub open spec fn seat_index(&self, id: u64) -> Option<int> {
        first_index(self.seats@, |s: Seat| s.seat.0.id == id)
    }

    /// Index of the first device whose object has ID `id`.
    pub open spec fn device_index(&self, id: u64) -> Option<int> {
        first_index(self.devices@, |d: DeviceState| d.device.device.0.id == id)
    }

    /// Index of the first device with an interface object with ID `id`.
    pub open spec fn interface_device_index(&self, id: u64) -> Option<int> {
        first_index(self.devices@, |d: DeviceState| has_interface_id(d.device, id))
    }

    /// The device with an interface object with ID `id`, if any.
    pub open spec fn interface_device(&self, id: u64) -> Option<Device> {
        match self.interface_device_index(id) {
            Some(i) => Some(self.devices@[i].device),
            None => None,
        }
    }

    /// The version of an interface negotiated in the handshake, or 1.
    pub open spec fn version_or_1(&self, name: Seq<char>) -> u32 {
        let m = self.handshake_resp.negotiated_interfaces@;
        if m.contains_key(name) {
            m[name]
        } else {
            1
        }
    }

    fn find_seat(&self, id: u64) -> (r: Option<usize>)
        ensures
            match r {
                Some(i) => self.seat_index(id) == Some(i as int) && i < self.seats@.len(),
                None => self.seat_index(id) is None,
            },
    {
        let ghost p = |s: Seat| s.seat.0.id == id;
        let mut i: usize = 0;
        while i < self.seats.len()
            invariant
                i <= self.seats@.len(),
                p == (|s: Seat| s.seat.0.id == id),
                forall|j: int| 0 <= j < i ==> !p(#[trigger] self.seats@[j]),
            decreases self.seats@.len() - i,
        {
            if self.seats[i].seat.0.id == id {
                proof {
                    lemma_first_index(self.seats@, p, i as int);
                }
                return Some(i);
            }
            i = i + 1;
        }
        proof {
            lemma_no_index(self.seats@, p);
        }
        None
    }

    fn find_device(&self, id: u64) -> (r: Option<usize>)
        ensures
            match r {
                Some(i) => self.device_index(id) == Some(i as int) && i < self.devices@.len(),
                None => self.device_index(id) is None,
            },
    {
        let ghost p = |d: DeviceState| d.device.device.0.id == id;
        let mut i: usize = 0;
        while i < self.devices.len()
            invariant
                i <= self.devices@.len(),
                p == (|d: DeviceState| d.device.device.0.id == id),
                forall|j: int| 0 <= j < i ==> !p(#[trigger] self.devices@[j]),
            decreases self.devices@.len() - i,
        {
            if self.devices[i].device.device.0.id == id {
                proof {
                    lemma_first_index(self.devices@, p, i as int);
                }
                return Some(i);
            }
            i = i + 1;
        }
        proof {
            lemma_no_index(self.devices@, p);
        }
        None
    }

    fn find_interface_device(&self, id: u64) -> (r: Option<usize>)
        ensures
            match r {
                Some(i) => self.interface_device_index(id) == Some(i as int) && i < self.devices@.len(),
                None => self.interface_device_index(id) is None,
            },
    {
        let ghost p = |d: DeviceState| has_interface_id(d.device, id);
        let mut i: usize = 0;
        while i < self.devices.len()
            invariant
                i <= self.devices@.len(),
                p == (|d: DeviceState| has_interface_id(d.device, id)),
                forall|j: int| 0 <= j < i ==> !p(#[trigger] self.devices@[j]),
            decreases self.devices@.len() - i,
        {
            if self.devices[i].device.has_interface_id(id) {
                proof {
                    lemma_first_index(self.devices@, p, i as int);
                }
                return Some(i);
            }
            i = i + 1;
        }
        proof {
            lemma_no_index(self.devices@, p);
        }
        None
    }

    /// Returns the proxy for the underlying `ei_connection` object.
    pub fn connection(&self) -> (r: &eis::Connection)
        ensures
            *r == self.handshake_resp.connection,
    {
        &self.handshake_resp.connection
    }

    /// Returns the context type of this connection.
    pub fn context_type(&self) -> (r: ContextType)
        ensures
            r == self.handshake_resp.context_type,
    {
        self.handshake_resp.context_type
    }

    /// Returns the human-readable name of the client.
    pub fn name(&self) -> (r: Option<&str>)
        ensures
            match r {
                Some(n) => self.handshake_resp.name matches Some(m) && n@ == m@,
                None => self.handshake_resp.name is None,
            },
    {
        match &self.handshake_resp.name {
            Some(n) => Some(n.as_str()),
            None => None,
        }
    }

    /// Returns `true` if the connection has negotiated support for the named
    /// interface.
    pub fn has_interface(&self, interface: &str) -> (r: bool)
        requires
            self.wf(),
        ensures
            r == self.handshake_resp.negotiated_interfaces@.contains_key(interface@),
    {
        self.handshake_resp.negotiated_interfaces.contains_key(interface)
    }

    /// Returns the version of the named interface if it's supported on this
    /// connection.
    pub fn interface_version(&self, interface: &str) -> (r: Option<u32>)
        requires
            self.wf(),
        ensures
            r == (if self.handshake_resp.negotiated_interfaces@.contains_key(interface@) {
                Some(self.handshake_resp.negotiated_interfaces@[interface@])
            } else {
                None::<u32>
            }),
    {
        self.handshake_resp.negotiated_interfaces.get(interface)
    }

    /// Returns the last serial used in an event sent by the server.
    pub fn last_serial(&self) -> (r: u32)
        ensures
            r == self.last_serial,
    {
        self.last_serial
    }

    /// Increments the current serial, wrapping, and returns it.
    pub fn next_serial(&mut self) -> (r: u32)
        ensures
            r == old(self).last_serial.wrapping_add(1),
            *final(self) == (Connection { last_serial: r, ..*old(self) }),
    {
        let serial = self.last_serial.wrapping_add(1);
        self.last_serial = serial;
        serial
    }
}

// ---------------------------------------------------------------------------
// High-level requests
// ---------------------------------------------------------------------------

/// The high-level form of `ei_seat.bind`.
#[derive(Clone, Debug)]
pub struct Bind {
    /// High-level [`Seat`] wrapper.
    pub seat: Seat,
    /// Capabilities requested by the client.
    pub capabilities: Capabilities,
}

/// The high-level form of `ei_device.frame`.
#[derive(Clone, Debug)]
pub struct Frame {
    /// High-level [`Device`] wrapper.
    pub device: Device,
    /// Last serial sent by the EIS implementation.
    pub last_serial: u32,
    /// Timestamp in microseconds.
    pub time: u64,
}

/// The high-level form of `ei_device.start_emulating`.
#[derive(Clone, Debug)]
pub struct DeviceStartEmulating {
    /// High-level [`Device`] wrapper.
    pub device: Device,
    /// Last serial sent by the EIS implementation.
    pub last_serial: u32,
    /// The event's sequence number.
    pub sequence: u32,
}

/// The high-level form of `ei_device.stop_emulating`.
#[derive(Clone, Debug)]
pub struct DeviceStopEmulating {
    /// High-level [`Device`] wrapper.
    pub device: Device,
    /// Last serial sent by the EIS implementation.
    pub last_serial: u32,
}

/// The high-level form of `ei_pointer.motion_relative`.
#[derive(Clone, Debug)]
pub struct PointerMotion {
    /// High-level [`Device`] wrapper.
    pub device: Device,
    /// Timestamp in microseconds.
    pub time: u64,
    /// Relative motion on the X axis, as the bits of an `f32`.
    pub dx: u32,
    /// Relative motion on the Y axis, as the bits of an `f32`.
    pub dy: u32,
}

/// The high-level form of `ei_pointer_absolute.motion_absolute`.
#[derive(Clone, Debug)]
pub struct PointerMotionAbsolute {
    /// High-level [`Device`] wrapper.
    pub device: Device,
    /// Timestamp in microseconds.
    pub time: u64,
    /// Absolute position on the X axis, as the bits of an `f32`.
    pub dx_absolute: u32,
    /// Absolute position on the Y axis, as the bits of an `f32`.
    pub dy_absolute: u32,
}

/// The high-level form of `ei_button.button`.
#[derive(Clone, Debug)]
pub struct Button {
    /// High-level [`Device`] wrapper.
    pub device: Device,
    /// Timestamp in microseconds.
    pub time: u64,
    /// Button code, as in Linux's `input-event-codes.h`.
    pub button: u32,
    /// State of the button.
    pub state: ButtonState,
}

/// The high-level form of `ei_scroll.scroll`.
#[derive(Clone, Debug)]
pub struct ScrollDelta {
    /// High-level [`Device`] wrapper.
    pub device: Device,
    /// Timestamp in microseconds.
    pub time: u64,
    /// Motion on the X axis, as the bits of an `f32`.
    pub dx: u32,
    /// Motion on the Y axis, as the bits of an `f32`.
    pub dy: u32,
}

/// The high-level form of `ei_scroll.scroll_stop` when its `is_cancel` is
/// zero.
#[derive(Clone, Debug)]
pub struct ScrollStop {
    /// High-level [`Device`] wrapper.
    pub device: Device,
    /// Timestamp in microseconds.
    pub time: u64,
    /// Whether motion on the X axis stopped.
    pub x: bool,
    /// Whether motion on the Y axis stopped.
    pub y: bool,
}

/// The high-level form of `ei_scroll.scroll_stop` when its `is_cancel` is
/// nonzero.
#[derive(Clone, Debug)]
pub struct ScrollCancel {
    /// High-level [`Device`] wrapper.
    pub device: Device,
    /// Timestamp in microseconds.
    pub time: u64,
    /// Whether motion on the X axis was canceled.
    pub x: bool,
    /// Whether motion on the Y axis was canceled.
    pub y: bool,
}

/// The high-level form of `ei_scroll.scroll_discrete`.
#[derive(Clone, Debug)]
pub struct ScrollDiscrete {
    /// High-level [`Device`] wrapper.
    pub device: Device,
    /// Timestamp in microseconds.
    pub time: u64,
    /// Discrete motion on the X axis.
    pub discrete_dx: i32,
    /// Discrete motion on the Y axis.
    pub discrete_dy: i32,
}

/// The high-level form of `ei_keyboard.key`.
#[derive(Clone, Debug)]
pub struct KeyboardKey {
    /// High-level [`Device`] wrapper.
    pub device: Device,
    /// Timestamp in microseconds.
    pub time: u64,
    /// Key code (according to the current keymap, if any).
    pub key: u32,
    /// Logical key state.
    pub state: KeyState,
}

/// The high-level form of `ei_touchscreen.down`.
#[derive(Clone, Debug)]
pub struct TouchDown {
    /// High-level [`Device`] wrapper.
    pub device: Device,
    /// Timestamp in microseconds.
    pub time: u64,
    /// Unique touch ID, defined in this request.
    pub touch_id: u32,
    /// Absolute position on the X axis, as the bits of an `f32`.
    pub x: u32,
    /// Absolute position on the Y axis, as the bits of an `f32`.
    pub y: u32,
}

/// The high-level form of `ei_touchscreen.motion`.
#[derive(Clone, Debug)]
pub struct TouchMotion {
    /// High-level [`Device`] wrapper.
    pub device: Device,
    /// Timestamp in microseconds.
    pub time: u64,
    /// Unique touch ID, defined in [`TouchDown`].
    pub touch_id: u32,
    /// Absolute position on the X axis, as the bits of an `f32`.
    pub x: u32,
    /// Absolute position on the Y axis, as the bits of an `f32`.
    pub y: u32,
}

/// The high-level form of `ei_touchscreen.up`.
#[derive(Clone, Debug)]
pub struct TouchUp {
    /// High-level [`Device`] wrapper.
    pub device: Device,
    /// Timestamp in microseconds.
    pub time: u64,
    /// Unique touch ID, defined in [`TouchDown`]. It may be reused after this
    /// request.
    pub touch_id: u32,
}

/// The high-level form of `ei_touchscreen.cancel`.
#[derive(Clone, Debug)]
pub struct TouchCancel {
    /// High-level [`Device`] wrapper.
    pub device: Device,
    /// Timestamp in microseconds.
    pub time: u64,
    /// Unique touch ID, defined in [`TouchDown`].
    pub touch_id: u32,
}

/// All requests the high-level utilities give a server implementation to
/// handle.
#[derive(Clone, Debug)]
pub enum EisRequest {
    Disconnect,
    Bind(Bind),
    Frame(Frame),
    DeviceStartEmulating(DeviceStartEmulating),
    DeviceStopEmulating(DeviceStopEmulating),
    PointerMotion(PointerMotion),
    PointerMotionAbsolute(PointerMotionAbsolute),
    Button(Button),
    ScrollDelta(ScrollDelta),
    ScrollStop(ScrollStop),
    ScrollCancel(ScrollCancel),
    ScrollDiscrete(ScrollDiscrete),
    KeyboardKey(KeyboardKey),
    TouchDown(TouchDown),
    TouchUp(TouchUp),
    TouchMotion(TouchMotion),
    TouchCancel(TouchCancel),
}

impl EisRequest {
    /// Whether the request is grouped by frames and gets its time from the
    /// frame that ends its group.
    pub open spec fn spec_is_timed(self) -> bool {
        match self {
            EisRequest::PointerMotion(_) | EisRequest::PointerMotionAbsolute(_) | EisRequest::Button(_)
            | EisRequest::ScrollDelta(_) | EisRequest::ScrollStop(_) | EisRequest::ScrollCancel(_)
            | EisRequest::ScrollDiscrete(_) | EisRequest::KeyboardKey(_) | EisRequest::TouchDown(_)
            | EisRequest::TouchUp(_) | EisRequest::TouchMotion(_) | EisRequest::TouchCancel(_) => true,
            _ => false,
        }
    }

    /// The request with its time set to `t`, if it has one.
    pub open spec fn timed_at(self, t: u64) -> EisRequest {
        match self {
            EisRequest::PointerMotion(e) => EisRequest::PointerMotion(PointerMotion { time: t, ..e }),
            EisRequest::PointerMotionAbsolute(e) => EisRequest::PointerMotionAbsolute(PointerMotionAbsolute { time: t, ..e }),
            EisRequest::Button(e) => EisRequest::Button(Button { time: t, ..e }),
            EisRequest::ScrollDelta(e) => EisRequest::ScrollDelta(ScrollDelta { time: t, ..e }),
            EisRequest::ScrollStop(e) => EisRequest::ScrollStop(ScrollStop { time: t, ..e }),
            EisRequest::ScrollCancel(e) => EisRequest::ScrollCancel(ScrollCancel { time: t, ..e }),
            EisRequest::ScrollDiscrete(e) => EisRequest::ScrollDiscrete(ScrollDiscrete { time: t, ..e }),
            EisRequest::KeyboardKey(e) => EisRequest::KeyboardKey(KeyboardKey { time: t, ..e }),
            EisRequest::TouchDown(e) => EisRequest::TouchDown(TouchDown { time: t, ..e }),
            EisRequest::TouchUp(e) => EisRequest::TouchUp(TouchUp { time: t, ..e }),
            EisRequest::TouchMotion(e) => EisRequest::TouchMotion(TouchMotion { time: t, ..e }),
            EisRequest::TouchCancel(e) => EisRequest::TouchCancel(TouchCancel { time: t, ..e }),
            r => r,
        }
    }

    /// The device the request is for, if any.
    pub open spec fn spec_device(self) -> Option<Device> {
        match self {
            EisRequest::Frame(e) => Some(e.device),
            EisRequest::DeviceStartEmulating(e) => Some(e.device),
            EisRequest::DeviceStopEmulating(e) => Some(e.device),
            EisRequest::PointerMotion(e) => Some(e.device),
            EisRequest::PointerMotionAbsolute(e) => Some(e.device),
            EisRequest::Button(e) => Some(e.device),
            EisRequest::ScrollDelta(e) => Some(e.device),
            EisRequest::ScrollStop(e) => Some(e.device),
            EisRequest::ScrollCancel(e) => Some(e.device),
            EisRequest::ScrollDiscrete(e) => Some(e.device),
            EisRequest::KeyboardKey(e) => Some(e.device),
            EisRequest::TouchDown(e) => Some(e.device),
            EisRequest::TouchUp(e) => Some(e.device),
            EisRequest::TouchMotion(e) => Some(e.device),
            EisRequest::TouchCancel(e) => Some(e.device),
            EisRequest::Disconnect | EisRequest::Bind(_) => None,
        }
    }

    /// Returns `true` if the request is grouped by frames.
    pub fn is_timed(&self) -> (r: bool)
        ensures
            r == self.spec_is_timed(),
    {
        match self {
            EisRequest::PointerMotion(_) | EisRequest::PointerMotionAbsolute(_) | EisRequest::Button(_)
            | EisRequest::ScrollDelta(_) | EisRequest::ScrollStop(_) | EisRequest::ScrollCancel(_)
            | EisRequest::ScrollDiscrete(_) | EisRequest::KeyboardKey(_) | EisRequest::TouchDown(_)
            | EisRequest::TouchUp(_) | EisRequest::TouchMotion(_) | EisRequest::TouchCancel(_) => true,
            _ => false,
        }
    }

    /// Sets the time of a request that has one.
    pub fn set_time(&mut self, t: u64)
        ensures
            *final(self) == old(self).timed_at(t),
    {
        match self {
            EisRequest::PointerMotion(e) => e.time = t,
            EisRequest::PointerMotionAbsolute(e) => e.time = t,
            EisRequest::Button(e) => e.time = t,
            EisRequest::ScrollDelta(e) => e.time = t,
            EisRequest::ScrollStop(e) => e.time = t,
            EisRequest::ScrollCancel(e) => e.time = t,
            EisRequest::ScrollDiscrete(e) => e.time = t,
            EisRequest::KeyboardKey(e) => e.time = t,
            EisRequest::TouchDown(e) => e.time = t,
            EisRequest::TouchUp(e) => e.time = t,
            EisRequest::TouchMotion(e) => e.time = t,
            EisRequest::TouchCancel(e) => e.time = t,
            _ => {},
        }
    }

    /// Returns the high-level [`Device`] wrapper for this request, if
    /// applicable.
    pub fn device(&self) -> (r: Option<&Device>)
        ensures
            match r {
                Some(d) => self.spec_device() == Some(*d),
                None => self.spec_device() is None,
            },
    {
        match self {
            EisRequest::Frame(e) => Some(&e.device),
            EisRequest::DeviceStartEmulating(e) => Some(&e.device),
            EisRequest::DeviceStopEmulating(e) => Some(&e.device),
            EisRequest::PointerMotion(e) => Some(&e.device),
            EisRequest::PointerMotionAbsolute(e) => Some(&e.device),
            EisRequest::Button(e) => Some(&e.device),
            EisRequest::ScrollDelta(e) => Some(&e.device),
            EisRequest::ScrollStop(e) => Some(&e.device),
            EisRequest::ScrollCancel(e) => Some(&e.device),
            EisRequest::ScrollDiscrete(e) => Some(&e.device),
            EisRequest::KeyboardKey(e) => Some(&e.device),
            EisRequest::TouchDown(e) => Some(&e.device),
            EisRequest::TouchUp(e) => Some(&e.device),
            EisRequest::TouchMotion(e) => Some(&e.device),
            EisRequest::TouchCancel(e) => Some(&e.device),
            EisRequest::Disconnect | EisRequest::Bind(_) => None,
        }
    }
}

/// Requests that happen on a seat.
pub trait SeatEvent {
    /// Returns the high-level [`Seat`] wrapper for this request.
    fn seat(&self) -> &Seat;
}

/// Requests that happen on a device.
pub trait DeviceEvent: SeatEvent {
    /// Returns the high-level [`Device`] wrapper for this request.
    fn device(&self) -> &Device;
}

/// Requests with microsecond timestamps.
pub trait EventTime: DeviceEvent {
    /// Returns the timestamp in microseconds of `CLOCK_MONOTONIC`.
    fn time(&self) -> u64;
}

impl SeatEvent for Bind {
    fn seat(&self) -> (r: &Seat)
        ensures
            *r == self.seat,
    {
        &self.seat
    }
}

impl SeatEvent for Frame {
    fn seat(&self) -> (r: &Seat)
        ensures
            *r == self.device.seat,
    {
        &self.device.seat
    }
}

impl DeviceEvent for Frame {
    fn device(&self) -> (r: &Device)
        ensures
            *r == self.device,
    {
        &self.device
    }
}

impl EventTime for Frame {
    fn time(&self) -> (r: u64)
        ensures
            r == self.time,
    {
        self.time
    }
}

impl SeatEvent for DeviceStartEmulating {
    fn seat(&self) -> (r: &Seat)
        ensures
            *r == self.device.seat,
    {
        &self.device.seat
    }
}

impl DeviceEvent for DeviceStartEmulating {
    fn device(&self) -> (r: &Device)
        ensures
            *r == self.device,
    {
        &self.device
    }
}

impl SeatEvent for DeviceStopEmulating {
    fn seat(&self) -> (r: &Seat)
        ensures
            *r == self.device.seat,
    {
        &self.device.seat
    }
}

impl DeviceEvent for DeviceStopEmulating {
    fn device(&self) -> (r: &Device)
        ensures
            *r == self.device,
    {
        &self.device
    }
}

impl SeatEvent for PointerMotion {
    fn seat(&self) -> (r: &Seat)
        ensures
            *r == self.device.seat,
    {
        &self.device.seat
    }
}

impl DeviceEvent for PointerMotion {
    fn device(&self) -> (r: &Device)
        ensures
            *r == self.device,
    {
        &self.device
    }
}

impl EventTime for PointerMotion {
    fn time(&self) -> (r: u64)
        ensures
            r == self.time,
    {
        self.time
    }
}

impl SeatEvent for PointerMotionAbsolute {
    fn seat(&self) -> (r: &Seat)
        ensures
            *r == self.device.seat,
    {
        &self.device.seat
    }
}

impl DeviceEvent for PointerMotionAbsolute {
    fn device(&self) -> (r: &Device)
        ensures
            *r == self.device,
    {
        &self.device
    }
}

impl EventTime for PointerMotionAbsolute {
    fn time(&self) -> (r: u64)
        ensures
            r == self.time,
    {
        self.time
    }
}

impl SeatEvent for Button {
    fn seat(&self) -> (r: &Seat)
        ensures
            *r == self.device.seat,
    {
        &self.device.seat
    }
}

impl DeviceEvent for Button {
    fn device(&self) -> (r: &Device)
        ensures
            *r == self.device,
    {
        &self.device
    }
}

impl EventTime for Button {
    fn time(&self) -> (r: u64)
        ensures
            r == self.time,
    {
        self.time
    }
}

impl SeatEvent for ScrollDelta {
    fn seat(&self) -> (r: &Seat)
        ensures
            *r == self.device.seat,
    {
        &self.device.seat
    }
}

impl DeviceEvent for ScrollDelta {
    fn device(&self) -> (r: &Device)
        ensures
            *r == self.device,
    {
        &self.device
    }
}

impl EventTime for ScrollDelta {
    fn time(&self) -> (r: u64)
        ensures
            r == self.time,
    {
        self.time
    }
}

impl SeatEvent for ScrollStop {
    fn seat(&self) -> (r: &Seat)
        ensures
            *r == self.device.seat,
    {
        &self.device.seat
    }
}

impl DeviceEvent for ScrollStop {
    fn device(&self) -> (r: &Device)
        ensures
            *r == self.device,
    {
        &self.device
    }
}

impl EventTime for ScrollStop {
    fn time(&self) -> (r: u64)
        ensures
            r == self.time,
    {
        self.time
    }
}

impl SeatEvent for ScrollCancel {
    fn seat(&self) -> (r: &Seat)
        ensures
            *r == self.device.seat,
    {
        &self.device.seat
    }
}

impl DeviceEvent for ScrollCancel {
    fn device(&self) -> (r: &Device)
        ensures
            *r == self.device,
    {
        &self.device
    }
}

impl EventTime for ScrollCancel {
    fn time(&self) -> (r: u64)
        ensures
            r == self.time,
    {
        self.time
    }
}

impl SeatEvent for ScrollDiscrete {
    fn seat(&self) -> (r: &Seat)
        ensures
            *r == self.device.seat,
    {
        &self.device.seat
    }
}

impl DeviceEvent for ScrollDiscrete {
    fn device(&self) -> (r: &Device)
        ensures
            *r == self.device,
    {
        &self.device
    }
}

impl EventTime for ScrollDiscrete {
    fn time(&self) -> (r: u64)
        ensures
            r == self.time,
    {
        self.time
    }
}

impl SeatEvent for KeyboardKey {
    fn seat(&self) -> (r: &Seat)
        ensures
            *r == self.device.seat,
    {
        &self.device.seat
    }
}

impl DeviceEvent for KeyboardKey {
    fn device(&self) -> (r: &Device)
        ensures
            *r == self.device,
    {
        &self.device
    }
}

impl EventTime for KeyboardKey {
    fn time(&self) -> (r: u64)
        ensures
            r == self.time,
    {
        self.time
    }
}

impl SeatEvent for TouchDown {
    fn seat(&self) -> (r: &Seat)
        ensures
            *r == self.device.seat,
    {
        &self.device.seat
    }
}

impl DeviceEvent for TouchDown {
    fn device(&self) -> (r: &Device)
        ensures
            *r == self.device,
    {
        &self.device
    }
}

impl EventTime for TouchDown {
    fn time(&self) -> (r: u64)
        ensures
            r == self.time,
    {
        self.time
    }
}

impl SeatEvent for TouchMotion {
    fn seat(&self) -> (r: &Seat)
        ensures
            *r == self.device.seat,
    {
        &self.device.seat
    }
}

impl DeviceEvent for TouchMotion {
    fn device(&self) -> (r: &Device)
        ensures
            *r == self.device,
    {
        &self.device
    }
}

impl EventTime for TouchMotion {
    fn time(&self) -> (r: u64)
        ensures
            r == self.time,
    {
        self.time
    }
}

impl SeatEvent for TouchUp {
    fn seat(&self) -> (r: &Seat)
        ensures
            *r == self.device.seat,
    {
        &self.device.seat
    }
}

impl DeviceEvent for TouchUp {
    fn device(&self) -> (r: &Device)
        ensures
            *r == self.device,
    {
        &self.device
    }
}

impl EventTime for TouchUp {
    fn time(&self) -> (r: u64)
        ensures
            r == self.time,
    {
        self.time
    }
}

impl SeatEvent for TouchCancel {
    fn seat(&self) -> (r: &Seat)
        ensures
            *r == self.device.seat,
    {
        &self.device.seat
    }
}

impl DeviceEvent for TouchCancel {
    fn device(&self) -> (r: &Device)
        ensures
            *r == self.device,
    {
        &self.device
    }
}

impl EventTime for TouchCancel {
    fn time(&self) -> (r: u64)
        ensures
            r == self.time,
    {
        self.time
    }
}

/// What a request source hands out.
#[derive(Clone, Debug)]
pub enum EisRequestSourceEvent {
    /// The handshake has finished.
    Connected,
    /// A high-level request.
    Request(EisRequest),
}

/// The requests `pending`, each with its time set to `t`.
pub open spec fn stamped(pending: Seq<EisRequest>, t: u64) -> Seq<EisRequest> {
    pending.map_values(|r: EisRequest| r.timed_at(t))
}

/// How queueing `r` changes the ready requests and those waiting for a
/// frame, as in libeis: a request grouped by frames waits; a frame gives
/// its time to the waiting requests and follows them, or is dropped when
/// none waits; a device request finds waiting requests ended by a frame at
/// time `now` first; any other request is ready at once.
pub open spec fn queue(
    requests: Seq<EisRequest>,
    pending: Seq<EisRequest>,
    r: EisRequest,
    now: u64,
    last_serial: u32,
) -> (Seq<EisRequest>, Seq<EisRequest>) {
    if r.spec_is_timed() {
        (requests, pending.push(r))
    } else {
        match r {
            EisRequest::Frame(f) => if pending.len() == 0 {
                (requests, pending)
            } else {
                (requests + stamped(pending, f.time) + seq![r], Seq::empty())
            },
            _ => match r.spec_device() {
                Some(d) => if pending.len() > 0 {
                    (
                        requests + stamped(pending, now) + seq![
                            EisRequest::Frame(Frame { device: d, last_serial, time: now }),
                            r,
                        ],
                        Seq::empty(),
                    )
                } else {
                    (requests.push(r), pending)
                },
                None => (requests.push(r), pending),
            },
        }
    }
}

/// Utility that converts low-level protocol-level requests into the
/// high-level requests of this module.
pub struct EisRequestConverter {
    /// Requests ready to be handled.
    pub requests: VecDeque<EisRequest>,
    /// Requests waiting for the frame that ends their group.
    pub pending_requests: VecDeque<EisRequest>,
    /// The connection the requests come from.
    pub connection: Connection,
}

/// `new` is `old` with `r` queued, at some time for a frame it needs.
pub open spec fn queues(old: EisRequestConverter, new: EisRequestConverter, r: EisRequest) -> bool {
    exists|now: u64|
        (new.requests@, new.pending_requests@) == queue(
            old.requests@,
            old.pending_requests@,
            r,
            now,
            old.connection.last_serial,
        )
}

/// `new` is `old` with `r` queued, and the connection unchanged.
pub open spec fn queued(old: EisRequestConverter, new: EisRequestConverter, r: EisRequest) -> bool {
    &&& queues(old, new, r)
    &&& new.connection == old.connection
}

impl EisRequestConverter {
    /// Creates a new converter.
    pub fn new(handshake_resp: EisHandshakeResp, initial_serial: u32) -> (r: Self)
        requires
            handshake_resp.negotiated_interfaces.wf(),
        ensures
            r.connection.wf(),
            r.requests@.len() == 0,
            r.pending_requests@.len() == 0,
            r.connection.handshake_resp == handshake_resp,
            r.connection.seats@.len() == 0,
            r.connection.devices@.len() == 0,
            r.connection.last_serial == initial_serial,
            !r.connection.disconnected,
    {
        EisRequestConverter {
            requests: VecDeque::new(),
            pending_requests: VecDeque::new(),
            connection: Connection {
                handshake_resp,
                seats: Vec::new(),
                devices: Vec::new(),
                last_serial: initial_serial,
                disconnected: false,
            },
        }
    }

    /// Returns a handle to the connection used by this converter.
    pub fn handle(&self) -> (r: &Connection)
        ensures
            *r == self.connection,
    {
        &self.connection
    }

    /// Returns the next queued request if one exists.
    pub fn next_request(&mut self) -> (r: Option<EisRequest>)
        ensures
            final(self).connection == old(self).connection,
            final(self).pending_requests == old(self).pending_requests,
            old(self).requests@.len() == 0 ==> r is None && final(self).requests@ == old(self).requests@,
            old(self).requests@.len() > 0 ==> r == Some(old(self).requests@[0]) && final(self).requests@
                == old(self).requests@.drop_first(),
    {
        self.requests.pop_front()
    }

    /// Moves the waiting requests, stamped with time `t`, to the ready ones.
    fn flush_pending(&mut self, t: u64)
        ensures
            final(self).requests@ == old(self).requests@ + stamped(old(self).pending_requests@, t),
            final(self).pending_requests@.len() == 0,
            final(self).connection == old(self).connection,
    {
        let ghost p0 = self.pending_requests@;
        let ghost r0 = self.requests@;
        let ghost n = p0.len();
        proof {
            assert(r0 + stamped(p0, t).take(0) =~= r0);
            assert(p0.skip(0) =~= p0);
        }
        while self.pending_requests.len() > 0
            invariant
                self.pending_requests@.len() <= n,
                n == p0.len(),
                self.pending_requests@ == p0.skip(n - self.pending_requests@.len()),
                self.requests@ == r0 + stamped(p0, t).take(n - self.pending_requests@.len()),
                self.connection == old(self).connection,
            decreases self.pending_requests@.len(),
        {
            let ghost k = n - self.pending_requests@.len();
            match self.pending_requests.pop_front() {
                Some(mut r) => {
                    proof {
                        assert(r == p0[k]);
                    }
                    r.set_time(t);
                    self.requests.push_back(r);
                    proof {
                        assert(stamped(p0, t).take(k + 1) =~= stamped(p0, t).take(k).push(p0[k].timed_at(t)));
                        assert(self.pending_requests@ =~= p0.skip(k + 1));
                    }
                },
                None => {},
            }
        }
        proof {
            assert(stamped(p0, t).take(n as int) =~= stamped(p0, t));
        }
    }

    /// Queues a request, as [`queue`] says, with `now` as the time of a frame
    /// the request needs.
    pub fn queue_request_at(&mut self, request: EisRequest, now: u64)
        ensures
            (final(self).requests@, final(self).pending_requests@) == queue(
                old(self).requests@,
                old(self).pending_requests@,
                request,
                now,
                old(self).connection.last_serial,
            ),
            final(self).connection == old(self).connection,
    {
        if request.is_timed() {
            self.pending_requests.push_back(request);
            return;
        }
        let frame_time = match &request {
            EisRequest::Frame(f) => Some(f.time),
            _ => None,
        };
        match frame_time {
            Some(t) => {
                if self.pending_requests.len() == 0 {
                    return;
                }
                self.flush_pending(t);
                self.requests.push_back(request);
                proof {
                    assert(self.requests@ =~= old(self).requests@ + stamped(old(self).pending_requests@, t) + seq![request]);
                    assert(self.pending_requests@ =~= Seq::<EisRequest>::empty());
                }
            },
            None => {
                let frame = match request.device() {
                    Some(d) => {
                        if self.pending_requests.len() > 0 {
                            Some(Frame { device: d.clone(), last_serial: self.connection.last_serial, time: now })
                        } else {
                            None
                        }
                    },
                    None => None,
                };
                match frame {
                    Some(f) => {
                        let ghost fr = EisRequest::Frame(f);
                        self.flush_pending(now);
                        self.requests.push_back(EisRequest::Frame(f));
                        self.requests.push_back(request);
                        proof {
                            assert(self.requests@ =~= old(self).requests@ + stamped(old(self).pending_requests@, now) + seq![
                                fr,
                                request,
                            ]);
                            assert(self.pending_requests@ =~= Seq::<EisRequest>::empty());
                        }
                    },
                    None => {
                        self.requests.push_back(request);
                    },
                }
            },
        }
    }

    /// Whether queueing `request` needs the time of a new frame.
    fn needs_frame(&self, request: &EisRequest) -> (r: bool)
        ensures
            r == (!request.spec_is_timed() && !(request is Frame) && request.spec_device() is Some
                && self.pending_requests@.len() > 0),
    {
        !request.is_timed() && !(match request {
            EisRequest::Frame(_) => true,
            _ => false,
        }) && request.device().is_some() && self.pending_requests.len() > 0
    }

    /// Queues a request, as [`queue`] says, reading the clock for the time of
    /// a frame the request needs.
    fn queue_request(&mut self, request: EisRequest)
        ensures
            queued(*old(self), *final(self), request),
    {
        let now = if self.needs_frame(&request) {
            eis_now()
        } else {
            0
        };
        self.queue_request_at(request, now);
    }
}

// ---------------------------------------------------------------------------
// Converting requests
// ---------------------------------------------------------------------------

/// `new` and `old` connections differ only in the touches down on device
/// `i`, which are `t` in `new`.
pub open spec fn with_touches(old: Connection, new: Connection, i: int, t: Set<u32>) -> bool {
    &&& new.handshake_resp == old.handshake_resp
    &&& new.seats == old.seats
    &&& new.last_serial == old.last_serial
    &&& new.disconnected == old.disconnected
    &&& new.devices@.len() == old.devices@.len()
    &&& forall|j: int| 0 <= j < old.devices@.len() && j != i ==> #[trigger] new.devices@[j] == old.devices@[j]
    &&& new.devices@[i].device == old.devices@[i].device
    &&& new.devices@[i].down_touch_ids@ == t
}

/// Nothing changed, and the result is `Ok`.
pub open spec fn ignored<F>(
    old: EisRequestConverter,
    new: EisRequestConverter,
    ob: Backend<F>,
    nb: Backend<F>,
    r: Result<(), Error>,
) -> bool {
    &&& r is Ok
    &&& new == old
    &&& nb == ob
}

/// Nothing changed, and the result is the error `e`.
pub open spec fn refused<F>(
    old: EisRequestConverter,
    new: EisRequestConverter,
    ob: Backend<F>,
    nb: Backend<F>,
    r: Result<(), Error>,
    e: Error,
) -> bool {
    &&& r == Err::<(), Error>(e)
    &&& new == old
    &&& nb == ob
}

/// `req` is queued, the connection and the backend are unchanged, and the
/// result is `Ok`.
pub open spec fn converted<F>(
    old: EisRequestConverter,
    new: EisRequestConverter,
    ob: Backend<F>,
    nb: Backend<F>,
    r: Result<(), Error>,
    req: EisRequest,
) -> bool {
    &&& r is Ok
    &&& queued(old, new, req)
    &&& nb == ob
}

/// What a request on the `ei_connection` object does.
pub open spec fn connection_post<F>(
    old: EisRequestConverter,
    new: EisRequestConverter,
    ob: Backend<F>,
    nb: Backend<F>,
    request: eis::connection::Request,
    r: Result<(), Error>,
) -> bool {
    match request {
        eis::connection::Request::Sync { callback } => if callback.0.version != 1 {
            refused(old, new, ob, nb, r, Error::InvalidInterfaceVersion("ei_callback", callback.0.version))
        } else {
            &&& r is Ok
            &&& new == old
            &&& sent_destroying(ob, nb, callback.0.id, 0, seq![ArgModel::Uint64(0)], Seq::empty())
        },
        eis::connection::Request::Disconnect => converted(old, new, ob, nb, r, EisRequest::Disconnect),
    }
}

/// What a request on an `ei_seat` object does.
pub open spec fn seat_post<F>(
    old: EisRequestConverter,
    new: EisRequestConverter,
    ob: Backend<F>,
    nb: Backend<F>,
    seat: eis::Seat,
    request: eis::seat::Request,
    r: Result<(), Error>,
) -> bool {
    match request {
        eis::seat::Request::Release => {
            let serial = old.connection.last_serial.wrapping_add(1);
            &&& r is Ok
            &&& new.requests == old.requests
            &&& new.pending_requests == old.pending_requests
            &&& new.connection == (Connection { last_serial: serial, ..old.connection })
            &&& sent_destroying(ob, nb, seat.0.id, 0, seq![ArgModel::Uint32(serial)], Seq::empty())
        },
        eis::seat::Request::Bind { capabilities } => match old.connection.seat_index(seat.0.id) {
            None => ignored(old, new, ob, nb, r),
            Some(i) => {
                let s = old.connection.seats@[i];
                let caps = Capabilities { bits: capabilities };
                if capabilities & !ALL_BITS != 0 || !(forall|c: DeviceCapability| #[trigger] caps.has(c) ==> s.advertised_capabilities.has(c)) {
                    refused(old, new, ob, nb, r, Error::Request(RequestError::InvalidCapabilities))
                } else {
                    converted(old, new, ob, nb, r, EisRequest::Bind(Bind { seat: s, capabilities: caps }))
                }
            },
        },
    }
}

/// What a request on an `ei_device` object does.
pub open spec fn device_post<F>(
    old: EisRequestConverter,
    new: EisRequestConverter,
    ob: Backend<F>,
    nb: Backend<F>,
    device: eis::Device,
    request: eis::device::Request,
    r: Result<(), Error>,
) -> bool {
    match old.connection.device_index(device.0.id) {
        None => ignored(old, new, ob, nb, r),
        Some(i) => {
            let d = old.connection.devices@[i].device;
            match request {
                eis::device::Request::Release => ignored(old, new, ob, nb, r),
                eis::device::Request::StartEmulating { last_serial, sequence } => converted(
                    old,
                    new,
                    ob,
                    nb,
                    r,
                    EisRequest::DeviceStartEmulating(DeviceStartEmulating { device: d, last_serial, sequence }),
                ),
                eis::device::Request::StopEmulating { last_serial } => converted(
                    old,
                    new,
                    ob,
                    nb,
                    r,
                    EisRequest::DeviceStopEmulating(DeviceStopEmulating { device: d, last_serial }),
                ),
                eis::device::Request::Frame { last_serial, timestamp } => converted(
                    old,
                    new,
                    ob,
                    nb,
                    r,
                    EisRequest::Frame(Frame { device: d, last_serial, time: timestamp }),
                ),
            }
        },
    }
}

/// What a request on an `ei_keyboard` object does.
pub open spec fn keyboard_post<F>(
    old: EisRequestConverter,
    new: EisRequestConverter,
    ob: Backend<F>,
    nb: Backend<F>,
    keyboard: eis::Keyboard,
    request: eis::keyboard::Request,
    r: Result<(), Error>,
) -> bool {
    match old.connection.interface_device(keyboard.0.id) {
        None => ignored(old, new, ob, nb, r),
        Some(d) => match request {
            eis::keyboard::Request::Release => ignored(old, new, ob, nb, r),
            eis::keyboard::Request::Key { key, state } => converted(
                old,
                new,
                ob,
                nb,
                r,
                EisRequest::KeyboardKey(KeyboardKey { device: d, time: 0, key, state }),
            ),
        },
    }
}

/// What a request on an `ei_pointer` object does.
pub open spec fn pointer_post<F>(
    old: EisRequestConverter,
    new: EisRequestConverter,
    ob: Backend<F>,
    nb: Backend<F>,
    pointer: eis::Pointer,
    request: eis::pointer::Request,
    r: Result<(), Error>,
) -> bool {
    match old.connection.interface_device(pointer.0.id) {
        None => ignored(old, new, ob, nb, r),
        Some(d) => match request {
            eis::pointer::Request::Release => ignored(old, new, ob, nb, r),
            eis::pointer::Request::MotionRelative { x, y } => converted(
                old,
                new,
                ob,
                nb,
                r,
                EisRequest::PointerMotion(PointerMotion { device: d, time: 0, dx: x, dy: y }),
            ),
        },
    }
}

/// What a request on an `ei_pointer_absolute` object does.
pub open spec fn pointer_absolute_post<F>(
    old: EisRequestConverter,
    new: EisRequestConverter,
    ob: Backend<F>,
    nb: Backend<F>,
    pointer_absolute: eis::PointerAbsolute,
    request: eis::pointer_absolute::Request,
    r: Result<(), Error>,
) -> bool {
    match old.connection.interface_device(pointer_absolute.0.id) {
        None => ignored(old, new, ob, nb, r),
        Some(d) => match request {
            eis::pointer_absolute::Request::Release => ignored(old, new, ob, nb, r),
            eis::pointer_absolute::Request::MotionAbsolute { x, y } => converted(
                old,
                new,
                ob,
                nb,
                r,
                EisRequest::PointerMotionAbsolute(
                    PointerMotionAbsolute { device: d, time: 0, dx_absolute: x, dy_absolute: y },
                ),
            ),
        },
    }
}

/// What a request on an `ei_scroll` object does.
pub open spec fn scroll_post<F>(
    old: EisRequestConverter,
    new: EisRequestConverter,
    ob: Backend<F>,
    nb: Backend<F>,
    scroll: eis::Scroll,
    request: eis::scroll::Request,
    r: Result<(), Error>,
) -> bool {
    match old.connection.interface_device(scroll.0.id) {
        None => ignored(old, new, ob, nb, r),
        Some(d) => match request {
            eis::scroll::Request::Release => ignored(old, new, ob, nb, r),
            eis::scroll::Request::Scroll { x, y } => converted(
                old,
                new,
                ob,
                nb,
                r,
                EisRequest::ScrollDelta(ScrollDelta { device: d, time: 0, dx: x, dy: y }),
            ),
            eis::scroll::Request::ScrollDiscrete { x, y } => converted(
                old,
                new,
                ob,
                nb,
                r,
                EisRequest::ScrollDiscrete(ScrollDiscrete { device: d, time: 0, discrete_dx: x, discrete_dy: y }),
            ),
            eis::scroll::Request::ScrollStop { x, y, is_cancel } => if is_cancel != 0 {
                converted(
                    old,
                    new,
                    ob,
                    nb,
                    r,
                    EisRequest::ScrollCancel(ScrollCancel { device: d, time: 0, x: x != 0, y: y != 0 }),
                )
            } else {
                converted(
                    old,
                    new,
                    ob,
                    nb,
                    r,
                    EisRequest::ScrollStop(ScrollStop { device: d, time: 0, x: x != 0, y: y != 0 }),
                )
            },
        },
    }
}

/// What a request on an `ei_button` object does.
pub open spec fn button_post<F>(
    old: EisRequestConverter,
    new: EisRequestConverter,
    ob: Backend<F>,
    nb: Backend<F>,
    button: eis::Button,
    request: eis::button::Request,
    r: Result<(), Error>,
) -> bool {
    match old.connection.interface_device(button.0.id) {
        None => ignored(old, new, ob, nb, r),
        Some(d) => match request {
            eis::button::Request::Release => ignored(old, new, ob, nb, r),
            eis::button::Request::Button { button, state } => converted(
                old,
                new,
                ob,
                nb,
                r,
                EisRequest::Button(Button { device: d, time: 0, button, state }),
            ),
        },
    }
}

/// What a request on an `ei_touchscreen` object does: a touch goes down at
/// most once and at most [`EIS_MAX_TOUCHES`] are down at once; motion, up
/// and cancel count only for touches that are down; cancel needs version 2.
pub open spec fn touchscreen_post<F>(
    old: EisRequestConverter,
    new: EisRequestConverter,
    ob: Backend<F>,
    nb: Backend<F>,
    touchscreen: eis::Touchscreen,
    request: eis::touchscreen::Request,
    r: Result<(), Error>,
) -> bool {
    match old.connection.interface_device_index(touchscreen.0.id) {
        None => ignored(old, new, ob, nb, r),
        Some(i) => {
            let d = old.connection.devices@[i].device;
            let t = old.connection.devices@[i].down_touch_ids@;
            match request {
                eis::touchscreen::Request::Release => ignored(old, new, ob, nb, r),
                eis::touchscreen::Request::Down { touchid, x, y } => if t.len() == EIS_MAX_TOUCHES {
                    refused(old, new, ob, nb, r, Error::Request(RequestError::TooManyTouches))
                } else if t.contains(touchid) {
                    refused(old, new, ob, nb, r, Error::Request(RequestError::DuplicatedTouchDown))
                } else {
                    &&& r is Ok
                    &&& with_touches(old.connection, new.connection, i, t.insert(touchid))
                    &&& queues(old, new, EisRequest::TouchDown(TouchDown { device: d, time: 0, touch_id: touchid, x, y }))
                    &&& nb == ob
                },
                eis::touchscreen::Request::Motion { touchid, x, y } => if t.contains(touchid) {
                    converted(
                        old,
                        new,
                        ob,
                        nb,
                        r,
                        EisRequest::TouchMotion(TouchMotion { device: d, time: 0, touch_id: touchid, x, y }),
                    )
                } else {
                    ignored(old, new, ob, nb, r)
                },
                eis::touchscreen::Request::Up { touchid } => if t.contains(touchid) {
                    &&& r is Ok
                    &&& with_touches(old.connection, new.connection, i, t.remove(touchid))
                    &&& queues(old, new, EisRequest::TouchUp(TouchUp { device: d, time: 0, touch_id: touchid }))
                    &&& nb == ob
                } else {
                    ignored(old, new, ob, nb, r)
                },
                eis::touchscreen::Request::Cancel { touchid } => if touchscreen.0.version < 2 {
                    refused(old, new, ob, nb, r, Error::InvalidInterfaceVersion("ei_touchscreen", touchscreen.0.version))
                } else if t.contains(touchid) {
                    &&& r is Ok
                    &&& with_touches(old.connection, new.connection, i, t.remove(touchid))
                    &&& queues(old, new, EisRequest::TouchCancel(TouchCancel { device: d, time: 0, touch_id: touchid }))
                    &&& nb == ob
                } else {
                    ignored(old, new, ob, nb, r)
                },
            }
        },
    }
}

/// What handling a low-level request does.
pub open spec fn request_post<F>(
    old: EisRequestConverter,
    new: EisRequestConverter,
    ob: Backend<F>,
    nb: Backend<F>,
    request: eis::Request,
    r: Result<(), Error>,
) -> bool {
    match request {
        eis::Request::Handshake(_, _) => refused(old, new, ob, nb, r, Error::UnexpectedHandshakeEvent),
        eis::Request::Connection(_, q) => connection_post(old, new, ob, nb, q, r),
        eis::Request::Pingpong(_, _) => ignored(old, new, ob, nb, r),
        eis::Request::Seat(s, q) => seat_post(old, new, ob, nb, s, q, r),
        eis::Request::Device(d, q) => device_post(old, new, ob, nb, d, q, r),
        eis::Request::Keyboard(k, q) => keyboard_post(old, new, ob, nb, k, q, r),
        eis::Request::Pointer(p, q) => pointer_post(old, new, ob, nb, p, q, r),
        eis::Request::PointerAbsolute(p, q) => pointer_absolute_post(old, new, ob, nb, p, q, r),
        eis::Request::Scroll(s, q) => scroll_post(old, new, ob, nb, s, q, r),
        eis::Request::Button(b, q) => button_post(old, new, ob, nb, b, q, r),
        eis::Request::Touchscreen(t, q) => touchscreen_post(old, new, ob, nb, t, q, r),
    }
}

/// Every request in `s` is grouped by frames.
pub open spec fn all_timed(s: Seq<EisRequest>) -> bool {
    forall|k: int| 0 <= k < s.len() ==> (#[trigger] s[k]).spec_is_timed()
}

/// Queueing keeps only requests grouped by frames waiting for a frame.
pub proof fn law_queue_keeps_timed(requests: Seq<EisRequest>, pending: Seq<EisRequest>, r: EisRequest, now: u64, last_serial: u32)
    requires
        all_timed(pending),
    ensures
        all_timed(queue(requests, pending, r, now, last_serial).1),
{
    let q = queue(requests, pending, r, now, last_serial).1;
    assert forall|k: int| 0 <= k < q.len() implies (#[trigger] q[k]).spec_is_timed() by {
        if r.spec_is_timed() {
            if k < pending.len() {
                assert(q[k] == pending[k]);
            }
        }
    }
}

/// The touches down on the device of touchscreen object `id`, if a device
/// has it.
pub open spec fn touches_of(c: Connection, id: u64) -> Option<Set<u32>> {
    match c.interface_device_index(id) {
        Some(i) => Some(c.devices@[i].down_touch_ids@),
        None => None,
    }
}

/// Changing only the touches keeps which device has an interface object.
proof fn lemma_touches_keep_index(o: Connection, n: Connection, i: int, t: Set<u32>, id: u64)
    requires
        with_touches(o, n, i, t),
        0 <= i < o.devices@.len(),
    ensures
        n.interface_device_index(id) == o.interface_device_index(id),
        n.interface_device_index(id) matches Some(k) ==> n.devices@[k].device == o.devices@[k].device,
{
    let p = |d: DeviceState| has_interface_id(d.device, id);
    assert forall|j: int| 0 <= j < o.devices@.len() implies p(#[trigger] o.devices@[j]) == p(n.devices@[j]) by {
        if j != i {
            assert(n.devices@[j] == o.devices@[j]);
        }
    }
    lemma_first_index_same(o.devices@, n.devices@, p);
    lemma_first_index_in(n.devices@, p);
}

/// A touch that is down cannot go down again: after a touch went down, a
/// second `down` of the same touch is refused with
/// [`RequestError::DuplicatedTouchDown`] and changes nothing, unless the
/// first `down` made the device's touches reach [`EIS_MAX_TOUCHES`], for the
/// limit is tested first.
#[verifier::rlimit(80)]
#[verifier::spinoff_prover]
pub proof fn law_duplicated_touch_down<F>(
    c0: EisRequestConverter,
    c1: EisRequestConverter,
    c2: EisRequestConverter,
    b0: Backend<F>,
    b1: Backend<F>,
    b2: Backend<F>,
    ts: eis::Touchscreen,
    k: u32,
    x0: u32,
    y0: u32,
    x: u32,
    y: u32,
    r1: Result<(), Error>,
    r2: Result<(), Error>,
)
    requires
        touches_bounded(c0.connection),
        touches_of(c0.connection, ts.0.id) matches Some(t) && t.len() + 1 < EIS_MAX_TOUCHES,
        request_post(c0, c1, b0, b1, eis::Request::Touchscreen(ts, eis::touchscreen::Request::Down { touchid: k, x: x0, y: y0 }), r1),
        r1 is Ok,
        request_post(c1, c2, b1, b2, eis::Request::Touchscreen(ts, eis::touchscreen::Request::Down { touchid: k, x, y }), r2),
    ensures
        touches_of(c1.connection, ts.0.id) matches Some(t) && t.contains(k),
        r2 == Err::<(), Error>(Error::Request(RequestError::DuplicatedTouchDown)),
        c2 == c1,
        b2 == b1,
{
    let q1 = eis::touchscreen::Request::Down { touchid: k, x: x0, y: y0 };
    let q2 = eis::touchscreen::Request::Down { touchid: k, x, y };
    assert(touchscreen_post(c0, c1, b0, b1, ts, q1, r1));
    lemma_touch_down_done(c0, c1, b0, b1, ts, k, x0, y0, r1);
    assert(touchscreen_post(c1, c2, b1, b2, ts, q2, r2));
}

/// An accepted `down` leaves its touch down.
proof fn lemma_touch_down_done<F>(
    c0: EisRequestConverter,
    c1: EisRequestConverter,
    b0: Backend<F>,
    b1: Backend<F>,
    ts: eis::Touchscreen,
    k: u32,
    x: u32,
    y: u32,
    r: Result<(), Error>,
)
    requires
        touches_bounded(c0.connection),
        touches_of(c0.connection, ts.0.id) matches Some(t) && t.len() + 1 < EIS_MAX_TOUCHES,
        touchscreen_post(c0, c1, b0, b1, ts, eis::touchscreen::Request::Down { touchid: k, x, y }, r),
        r is Ok,
    ensures
        touches_of(c1.connection, ts.0.id) matches Some(t) && t.contains(k) && t.len() < EIS_MAX_TOUCHES,
{
    let i = c0.connection.interface_device_index(ts.0.id)->Some_0;
    lemma_first_index_in(c0.connection.devices@, |d: DeviceState| has_interface_id(d.device, ts.0.id));
    let t = c0.connection.devices@[i].down_touch_ids@;
    assert(with_touches(c0.connection, c1.connection, i, t.insert(k)));
    lemma_touches_keep_index(c0.connection, c1.connection, i, t.insert(k), ts.0.id);
    assert(c1.connection.devices@[i].down_touch_ids@.contains(k));
    assert(t.finite());
    assert(t.insert(k).len() <= t.len() + 1);
}

/// Step `i` of a run of the converter: `cs[i]` and `bs[i]` become
/// `cs[i + 1]` and `bs[i + 1]` on request `reqs[i]`, which returns `rs[i]`.
#[verifier::opaque]
pub open spec fn request_step<F>(
    cs: Seq<EisRequestConverter>,
    bs: Seq<Backend<F>>,
    reqs: Seq<eis::Request>,
    rs: Seq<Result<(), Error>>,
    i: int,
) -> bool {
    request_post(cs[i], cs[i + 1], bs[i], bs[i + 1], reqs[i], rs[i])
}

/// `reqs` handled one after the other by the converter, through the states
/// `cs` and backends `bs`, with the results `rs`.
pub open spec fn request_run<F>(
    cs: Seq<EisRequestConverter>,
    bs: Seq<Backend<F>>,
    reqs: Seq<eis::Request>,
    rs: Seq<Result<(), Error>>,
) -> bool {
    &&& cs.len() == reqs.len() + 1
    &&& bs.len() == reqs.len() + 1
    &&& rs.len() == reqs.len()
    &&& forall|i: int| 0 <= i < reqs.len() ==> #[trigger] request_step(cs, bs, reqs, rs, i)
}

/// `q` is a request on touchscreen `ts` that is neither an `up` nor a
/// `cancel` of touch `k`.
pub open spec fn keeps_touch(q: eis::Request, ts: eis::Touchscreen, k: u32) -> bool {
    q matches eis::Request::Touchscreen(t, tq) && t == ts && !(tq is Up && tq->Up_touchid == k) && !(tq is Cancel
        && tq->Cancel_touchid == k)
}

/// A touch that is down stays down through the requests on its
/// touchscreen that neither lift nor cancel it.
proof fn lemma_touch_stays_down<F>(
    o: EisRequestConverter,
    n: EisRequestConverter,
    ob: Backend<F>,
    nb: Backend<F>,
    q: eis::Request,
    ts: eis::Touchscreen,
    k: u32,
    r: Result<(), Error>,
)
    requires
        touches_of(o.connection, ts.0.id) matches Some(t) && t.contains(k),
        keeps_touch(q, ts, k),
        request_post(o, n, ob, nb, q, r),
    ensures
        touches_of(n.connection, ts.0.id) matches Some(t) && t.contains(k),
{
    let tq = q->Touchscreen_1;
    assert(touchscreen_post(o, n, ob, nb, ts, tq, r));
    let i = o.connection.interface_device_index(ts.0.id)->Some_0;
    lemma_first_index_in(o.connection.devices@, |d: DeviceState| has_interface_id(d.device, ts.0.id));
    let t = o.connection.devices@[i].down_touch_ids@;
    match tq {
        eis::touchscreen::Request::Down { touchid, .. } => {
            if n != o {
                lemma_touches_keep_index(o.connection, n.connection, i, t.insert(touchid), ts.0.id);
            }
        },
        eis::touchscreen::Request::Up { touchid } => {
            if t.contains(touchid) {
                lemma_touches_keep_index(o.connection, n.connection, i, t.remove(touchid), ts.0.id);
            }
        },
        eis::touchscreen::Request::Cancel { touchid } => {
            if ts.0.version >= 2 && t.contains(touchid) {
                lemma_touches_keep_index(o.connection, n.connection, i, t.remove(touchid), ts.0.id);
            }
        },
        _ => {},
    }
}

proof fn lemma_touch_run<F>(
    cs: Seq<EisRequestConverter>,
    bs: Seq<Backend<F>>,
    reqs: Seq<eis::Request>,
    rs: Seq<Result<(), Error>>,
    ts: eis::Touchscreen,
    k: u32,
    i: int,
)
    requires
        request_run(cs, bs, reqs, rs),
        1 <= i <= reqs.len(),
        touches_of(cs[1].connection, ts.0.id) matches Some(t) && t.contains(k),
        forall|j: int| 0 < j < reqs.len() ==> keeps_touch(#[trigger] reqs[j], ts, k),
    ensures
        touches_of(cs[i].connection, ts.0.id) matches Some(t) && t.contains(k),
    decreases i,
{
    if i > 1 {
        lemma_touch_run(cs, bs, reqs, rs, ts, k, i - 1);
        assert(request_step(cs, bs, reqs, rs, i - 1));
        reveal(request_step);
        assert(keeps_touch(reqs[i - 1], ts, k));
        lemma_touch_stays_down(cs[i - 1], cs[i], bs[i - 1], bs[i], reqs[i - 1], ts, k, rs[i - 1]);
    }
}

/// A `down` of a touch that is down is refused and changes nothing.
proof fn lemma_down_refused<F>(
    o: EisRequestConverter,
    n: EisRequestConverter,
    ob: Backend<F>,
    nb: Backend<F>,
    q: eis::Request,
    ts: eis::Touchscreen,
    k: u32,
    r: Result<(), Error>,
)
    requires
        touches_of(o.connection, ts.0.id) matches Some(t) && t.contains(k),
        q is Touchscreen && q->Touchscreen_0 == ts && q->Touchscreen_1 is Down && q->Touchscreen_1->Down_touchid == k,
        request_post(o, n, ob, nb, q, r),
    ensures
        n == o,
        r == Err::<(), Error>(
            Error::Request(
                if touches_of(o.connection, ts.0.id)->Some_0.len() == EIS_MAX_TOUCHES {
                    RequestError::TooManyTouches
                } else {
                    RequestError::DuplicatedTouchDown
                },
            ),
        ),
{
    assert(touchscreen_post(o, n, ob, nb, ts, q->Touchscreen_1, r));
}

/// An accepted `down` on a touchscreen that a device has leaves its touch
/// down.
proof fn lemma_down_lands<F>(
    o: EisRequestConverter,
    n: EisRequestConverter,
    ob: Backend<F>,
    nb: Backend<F>,
    ts: eis::Touchscreen,
    k: u32,
    x: u32,
    y: u32,
    r: Result<(), Error>,
)
    requires
        touches_of(o.connection, ts.0.id) is Some,
        request_post(o, n, ob, nb, eis::Request::Touchscreen(ts, eis::touchscreen::Request::Down { touchid: k, x, y }), r),
        r is Ok,
    ensures
        touches_of(n.connection, ts.0.id) matches Some(t) && t.contains(k),
{
    let q0 = eis::touchscreen::Request::Down { touchid: k, x, y };
    assert(touchscreen_post(o, n, ob, nb, ts, q0, r));
    let i0 = o.connection.interface_device_index(ts.0.id)->Some_0;
    lemma_first_index_in(o.connection.devices@, |d: DeviceState| has_interface_id(d.device, ts.0.id));
    let t0 = o.connection.devices@[i0].down_touch_ids@;
    lemma_touches_keep_index(o.connection, n.connection, i0, t0.insert(k), ts.0.id);
}

proof fn lemma_down_refused_at<F>(
    cs: Seq<EisRequestConverter>,
    bs: Seq<Backend<F>>,
    reqs: Seq<eis::Request>,
    rs: Seq<Result<(), Error>>,
    ts: eis::Touchscreen,
    k: u32,
    i: int,
)
    requires
        request_run(cs, bs, reqs, rs),
        0 < i < reqs.len(),
        touches_of(cs[i].connection, ts.0.id) matches Some(t) && t.contains(k),
        keeps_touch(reqs[i], ts, k),
        reqs[i]->Touchscreen_1 is Down && reqs[i]->Touchscreen_1->Down_touchid == k,
    ensures
        cs[i + 1] == cs[i],
        rs[i] == Err::<(), Error>(
            Error::Request(
                if touches_of(cs[i].connection, ts.0.id)->Some_0.len() == EIS_MAX_TOUCHES {
                    RequestError::TooManyTouches
                } else {
                    RequestError::DuplicatedTouchDown
                },
            ),
        ),
{
    assert(request_step(cs, bs, reqs, rs, i));
    reveal(request_step);
    lemma_down_refused(cs[i], cs[i + 1], bs[i], bs[i + 1], reqs[i], ts, k, rs[i]);
}

/// A touch that went down stays down until it is lifted or cancelled, and
/// meanwhile every `down` of it is refused and changes nothing: with
/// [`RequestError::DuplicatedTouchDown`], or with
/// [`RequestError::TooManyTouches`] where [`EIS_MAX_TOUCHES`] touches are
/// down, for the limit is tested first.
pub proof fn law_touch_stays_down<F>(
    cs: Seq<EisRequestConverter>,
    bs: Seq<Backend<F>>,
    reqs: Seq<eis::Request>,
    rs: Seq<Result<(), Error>>,
    ts: eis::Touchscreen,
    k: u32,
    x: u32,
    y: u32,
)
    requires
        request_run(cs, bs, reqs, rs),
        reqs.len() > 0,
        touches_of(cs[0].connection, ts.0.id) is Some,
        reqs[0] == eis::Request::Touchscreen(ts, eis::touchscreen::Request::Down { touchid: k, x, y }),
        rs[0] is Ok,
        forall|j: int| 0 < j < reqs.len() ==> keeps_touch(#[trigger] reqs[j], ts, k),
    ensures
        forall|i: int|
            0 < i <= reqs.len() ==> (touches_of((#[trigger] cs[i]).connection, ts.0.id) matches Some(t) && t.contains(
                k,
            )),
        forall|i: int|
            0 < i < reqs.len() && (#[trigger] reqs[i]->Touchscreen_1) is Down && reqs[i]->Touchscreen_1->Down_touchid
                == k ==> cs[i + 1] == cs[i] && rs[i] == Err::<(), Error>(
                Error::Request(
                    if touches_of(cs[i].connection, ts.0.id)->Some_0.len() == EIS_MAX_TOUCHES {
                        RequestError::TooManyTouches
                    } else {
                        RequestError::DuplicatedTouchDown
                    },
                ),
            ),
{
    assert(touches_of(cs[1].connection, ts.0.id) matches Some(t) && t.contains(k)) by {
        assert(request_step(cs, bs, reqs, rs, 0));
        reveal(request_step);
        lemma_down_lands(cs[0], cs[1], bs[0], bs[1], ts, k, x, y, rs[0]);
    }
    assert forall|i: int| 0 < i <= reqs.len() implies (touches_of((#[trigger] cs[i]).connection, ts.0.id) matches Some(
        t,
    ) && t.contains(k)) by {
        lemma_touch_run(cs, bs, reqs, rs, ts, k, i);
    }
    assert forall|i: int|
        0 < i < reqs.len() && (#[trigger] reqs[i]->Touchscreen_1) is Down && reqs[i]->Touchscreen_1->Down_touchid
            == k implies cs[i + 1] == cs[i] && rs[i] == Err::<(), Error>(
        Error::Request(
            if touches_of(cs[i].connection, ts.0.id)->Some_0.len() == EIS_MAX_TOUCHES {
                RequestError::TooManyTouches
            } else {
                RequestError::DuplicatedTouchDown
            },
        ),
    ) by {
        lemma_touch_run(cs, bs, reqs, rs, ts, k, i);
        assert(keeps_touch(reqs[i], ts, k));
        lemma_down_refused_at(cs, bs, reqs, rs, ts, k, i);
    }
}

/// An accepted `down` on a touchscreen that a device has adds a touch that
/// was not down.
proof fn lemma_down_adds<F>(
    o: EisRequestConverter,
    n: EisRequestConverter,
    ob: Backend<F>,
    nb: Backend<F>,
    q: eis::Request,
    ts: eis::Touchscreen,
    r: Result<(), Error>,
)
    requires
        touches_of(o.connection, ts.0.id) is Some,
        q is Touchscreen && q->Touchscreen_0 == ts && q->Touchscreen_1 is Down,
        request_post(o, n, ob, nb, q, r),
        r is Ok,
    ensures
        ({
            let t = touches_of(o.connection, ts.0.id)->Some_0;
            let k = q->Touchscreen_1->Down_touchid;
            &&& !t.contains(k)
            &&& t.len() != EIS_MAX_TOUCHES
            &&& touches_of(n.connection, ts.0.id) == Some(t.insert(k))
        }),
{
    assert(touchscreen_post(o, n, ob, nb, ts, q->Touchscreen_1, r));
    let i0 = o.connection.interface_device_index(ts.0.id)->Some_0;
    lemma_first_index_in(o.connection.devices@, |d: DeviceState| has_interface_id(d.device, ts.0.id));
    let t0 = o.connection.devices@[i0].down_touch_ids@;
    lemma_touches_keep_index(o.connection, n.connection, i0, t0.insert(q->Touchscreen_1->Down_touchid), ts.0.id);
}

/// The touch IDs of the `down` requests among `reqs`.
pub open spec fn down_ids(reqs: Seq<eis::Request>) -> Set<u32>
    decreases reqs.len(),
{
    if reqs.len() == 0 {
        Set::empty()
    } else {
        down_ids(reqs.drop_last()).insert(reqs.last()->Touchscreen_1->Down_touchid)
    }
}

/// `q` is a `down` request on touchscreen `ts`.
pub open spec fn is_down_on(q: eis::Request, ts: eis::Touchscreen) -> bool {
    q is Touchscreen && q->Touchscreen_0 == ts && q->Touchscreen_1 is Down
}

proof fn lemma_downs_run<F>(
    cs: Seq<EisRequestConverter>,
    bs: Seq<Backend<F>>,
    reqs: Seq<eis::Request>,
    rs: Seq<Result<(), Error>>,
    ts: eis::Touchscreen,
    m: int,
    i: int,
)
    requires
        request_run(cs, bs, reqs, rs),
        0 <= i <= m <= reqs.len(),
        touches_of(cs[0].connection, ts.0.id) == Some(Set::<u32>::empty()),
        forall|j: int| 0 <= j < m ==> is_down_on(#[trigger] reqs[j], ts) && rs[j] is Ok,
    ensures
        touches_of(cs[i].connection, ts.0.id) == Some(down_ids(reqs.take(i))),
        down_ids(reqs.take(i)).finite(),
        down_ids(reqs.take(i)).len() == i,
    decreases i,
{
    if i > 0 {
        lemma_downs_run(cs, bs, reqs, rs, ts, m, i - 1);
        assert(request_step(cs, bs, reqs, rs, i - 1));
        reveal(request_step);
        assert(is_down_on(reqs[i - 1], ts) && rs[i - 1] is Ok);
        lemma_down_adds(cs[i - 1], cs[i], bs[i - 1], bs[i], reqs[i - 1], ts, rs[i - 1]);
        assert(reqs.take(i).drop_last() =~= reqs.take(i - 1));
        assert(reqs.take(i).last() == reqs[i - 1]);
    } else {
        assert(reqs.take(0).len() == 0);
    }
}

/// At most [`EIS_MAX_TOUCHES`] touches are down at once, over a history:
/// after that many accepted `down` requests on a touchscreen whose device
/// had no touch down, the touches down are exactly those touch IDs, all
/// different; a further `down`, of any touch, is refused with
/// [`RequestError::TooManyTouches`] and changes nothing, and an `up` of
/// any of those touches then succeeds and lifts it.
pub proof fn law_touch_limit_reached<F>(
    cs: Seq<EisRequestConverter>,
    bs: Seq<Backend<F>>,
    reqs: Seq<eis::Request>,
    rs: Seq<Result<(), Error>>,
    ts: eis::Touchscreen,
    k: u32,
    x: u32,
    y: u32,
)
    requires
        request_run(cs, bs, reqs, rs),
        reqs.len() > EIS_MAX_TOUCHES,
        touches_of(cs[0].connection, ts.0.id) == Some(Set::<u32>::empty()),
        forall|j: int| 0 <= j < EIS_MAX_TOUCHES ==> is_down_on(#[trigger] reqs[j], ts) && rs[j] is Ok,
        reqs[EIS_MAX_TOUCHES as int] == eis::Request::Touchscreen(
            ts,
            eis::touchscreen::Request::Down { touchid: k, x, y },
        ),
    ensures
        ({
            let m = EIS_MAX_TOUCHES as int;
            let ids = down_ids(reqs.take(m));
            &&& ids.len() == EIS_MAX_TOUCHES
            &&& touches_of(cs[m].connection, ts.0.id) == Some(ids)
            &&& rs[m] == Err::<(), Error>(Error::Request(RequestError::TooManyTouches))
            &&& cs[m + 1] == cs[m]
            &&& forall|j: u32|
                ids.contains(j) && reqs.len() > m + 1 && reqs[m + 1] == eis::Request::Touchscreen(
                    ts,
                    eis::touchscreen::Request::Up { touchid: j },
                ) ==> #[trigger] rs[m + 1] is Ok && touches_of(cs[m + 2].connection, ts.0.id) == Some(ids.remove(j))
        }),
{
    let m = EIS_MAX_TOUCHES as int;
    lemma_downs_run(cs, bs, reqs, rs, ts, m, m);
    assert(request_step(cs, bs, reqs, rs, m));
    reveal(request_step);
    if reqs.len() > m + 1 {
        assert(request_step(cs, bs, reqs, rs, m + 1));
        let ids = down_ids(reqs.take(m));
        assert forall|j: u32|
            ids.contains(j) && reqs[m + 1] == eis::Request::Touchscreen(
                ts,
                eis::touchscreen::Request::Up { touchid: j },
            ) implies #[trigger] rs[m + 1] is Ok && touches_of(cs[m + 2].connection, ts.0.id) == Some(
            ids.remove(j),
        ) by {
            law_too_many_touches(cs[m], cs[m + 1], cs[m + 2], bs[m], bs[m + 1], bs[m + 2], ts, k, x, y, j, rs[m], rs[m + 1]);
        }
    }
}

/// At most [`EIS_MAX_TOUCHES`] touches are down at once: with that many
/// down, a `down` is refused with [`RequestError::TooManyTouches`] and
/// changes nothing, and an `up` of a touch that is down still queues its
/// `TouchUp` and lifts it.
#[verifier::rlimit(80)]
#[verifier::spinoff_prover]
pub proof fn law_too_many_touches<F>(
    c0: EisRequestConverter,
    c1: EisRequestConverter,
    c2: EisRequestConverter,
    b0: Backend<F>,
    b1: Backend<F>,
    b2: Backend<F>,
    ts: eis::Touchscreen,
    k: u32,
    x: u32,
    y: u32,
    j: u32,
    r1: Result<(), Error>,
    r2: Result<(), Error>,
)
    requires
        touches_of(c0.connection, ts.0.id) matches Some(t) && t.len() == EIS_MAX_TOUCHES && t.contains(j),
        request_post(c0, c1, b0, b1, eis::Request::Touchscreen(ts, eis::touchscreen::Request::Down { touchid: k, x, y }), r1),
        request_post(c1, c2, b1, b2, eis::Request::Touchscreen(ts, eis::touchscreen::Request::Up { touchid: j }), r2),
    ensures
        r1 == Err::<(), Error>(Error::Request(RequestError::TooManyTouches)),
        c1 == c0,
        r2 is Ok,
        ({
            let i = c0.connection.interface_device_index(ts.0.id)->Some_0;
            let d = c0.connection.devices@[i].device;
            &&& queues(c1, c2, EisRequest::TouchUp(TouchUp { device: d, time: 0, touch_id: j }))
            &&& touches_of(c2.connection, ts.0.id) == Some(c0.connection.devices@[i].down_touch_ids@.remove(j))
        }),
{
    let i = c0.connection.interface_device_index(ts.0.id)->Some_0;
    let t = c0.connection.devices@[i].down_touch_ids@;
    lemma_first_index_in(c0.connection.devices@, |d: DeviceState| has_interface_id(d.device, ts.0.id));
    lemma_touches_keep_index(c1.connection, c2.connection, i, t.remove(j), ts.0.id);
}

/// With nothing waiting or ready, a request on an input object of a device
/// waits, queued as `req` with no time, and the device's frame hands it out
/// with the frame's time, then the frame.
pub open spec fn framed_by(
    c1: EisRequestConverter,
    c2: EisRequestConverter,
    req: EisRequest,
    d: Device,
    last_serial: u32,
    t: u64,
) -> bool {
    &&& c1.requests@.len() == 0
    &&& c1.pending_requests@ == seq![req]
    &&& c2.pending_requests@.len() == 0
    &&& c2.requests@ == seq![req.timed_at(t), EisRequest::Frame(Frame { device: d, last_serial, time: t })]
}

/// Key presses wait for the frame that ends their group: with nothing
/// waiting or ready, a key on the keyboard of a device queues nothing
/// ready, and the device's frame then hands out the key with the frame's
/// time, then the frame.
#[verifier::rlimit(80)]
#[verifier::spinoff_prover]
pub proof fn law_key_framed<F>(
    c0: EisRequestConverter,
    c1: EisRequestConverter,
    c2: EisRequestConverter,
    b0: Backend<F>,
    b1: Backend<F>,
    b2: Backend<F>,
    kb: eis::Keyboard,
    key: u32,
    state: KeyState,
    dev: eis::Device,
    last_serial: u32,
    t: u64,
    r1: Result<(), Error>,
    r2: Result<(), Error>,
)
    requires
        c0.connection.interface_device(kb.0.id) matches Some(d) && c0.connection.device_index(dev.0.id) matches Some(m)
            && c0.connection.devices@[m].device == d,
        c0.requests@.len() == 0,
        c0.pending_requests@.len() == 0,
        request_post(c0, c1, b0, b1, eis::Request::Keyboard(kb, eis::keyboard::Request::Key { key, state }), r1),
        request_post(c1, c2, b1, b2, eis::Request::Device(dev, eis::device::Request::Frame { last_serial, timestamp: t }), r2),
    ensures
        r1 is Ok,
        r2 is Ok,
        ({
            let d = c0.connection.interface_device(kb.0.id)->Some_0;
            framed_by(c1, c2, EisRequest::KeyboardKey(KeyboardKey { device: d, time: 0, key, state }), d, last_serial, t)
        }),
{
    let d = c0.connection.interface_device(kb.0.id)->Some_0;
    let q = EisRequest::KeyboardKey(KeyboardKey { device: d, time: 0, key, state });
    assert(c1.pending_requests@ =~= seq![q]);
    assert(stamped(seq![q], t) =~= seq![q.timed_at(t)]);
    assert(c2.requests@ =~= seq![q.timed_at(t), EisRequest::Frame(Frame { device: d, last_serial, time: t })]);
}

/// A scroll stop waits for the frame that ends its group, and comes out as a
/// cancel when its `is_cancel` is set, else as a stop, with `x` and `y` set
/// where the request's are not zero and the frame's time.
#[verifier::rlimit(80)]
#[verifier::spinoff_prover]
pub proof fn law_scroll_stop_framed<F>(
    c0: EisRequestConverter,
    c1: EisRequestConverter,
    c2: EisRequestConverter,
    b0: Backend<F>,
    b1: Backend<F>,
    b2: Backend<F>,
    sc: eis::Scroll,
    x: u32,
    y: u32,
    is_cancel: u32,
    dev: eis::Device,
    last_serial: u32,
    t: u64,
    r1: Result<(), Error>,
    r2: Result<(), Error>,
)
    requires
        c0.connection.interface_device(sc.0.id) matches Some(d) && c0.connection.device_index(dev.0.id) matches Some(m)
            && c0.connection.devices@[m].device == d,
        c0.requests@.len() == 0,
        c0.pending_requests@.len() == 0,
        request_post(c0, c1, b0, b1, eis::Request::Scroll(sc, eis::scroll::Request::ScrollStop { x, y, is_cancel }), r1),
        request_post(c1, c2, b1, b2, eis::Request::Device(dev, eis::device::Request::Frame { last_serial, timestamp: t }), r2),
    ensures
        r1 is Ok,
        r2 is Ok,
        ({
            let d = c0.connection.interface_device(sc.0.id)->Some_0;
            let q = if is_cancel != 0 {
                EisRequest::ScrollCancel(ScrollCancel { device: d, time: 0, x: x != 0, y: y != 0 })
            } else {
                EisRequest::ScrollStop(ScrollStop { device: d, time: 0, x: x != 0, y: y != 0 })
            };
            framed_by(c1, c2, q, d, last_serial, t)
        }),
{
    let d = c0.connection.interface_device(sc.0.id)->Some_0;
    let q = if is_cancel != 0 {
        EisRequest::ScrollCancel(ScrollCancel { device: d, time: 0, x: x != 0, y: y != 0 })
    } else {
        EisRequest::ScrollStop(ScrollStop { device: d, time: 0, x: x != 0, y: y != 0 })
    };
    assert(c1.pending_requests@ =~= seq![q]);
    assert(stamped(seq![q], t) =~= seq![q.timed_at(t)]);
    assert(c2.requests@ =~= seq![q.timed_at(t), EisRequest::Frame(Frame { device: d, last_serial, time: t })]);
}

/// The time a request carries, if it carries one.
pub open spec fn time_of(r: EisRequest) -> Option<u64> {
    match r {
        EisRequest::Frame(x) => Some(x.time),
        EisRequest::PointerMotion(x) => Some(x.time),
        EisRequest::PointerMotionAbsolute(x) => Some(x.time),
        EisRequest::Button(x) => Some(x.time),
        EisRequest::ScrollDelta(x) => Some(x.time),
        EisRequest::ScrollStop(x) => Some(x.time),
        EisRequest::ScrollCancel(x) => Some(x.time),
        EisRequest::ScrollDiscrete(x) => Some(x.time),
        EisRequest::KeyboardKey(x) => Some(x.time),
        EisRequest::TouchDown(x) => Some(x.time),
        EisRequest::TouchUp(x) => Some(x.time),
        EisRequest::TouchMotion(x) => Some(x.time),
        EisRequest::TouchCancel(x) => Some(x.time),
        _ => None,
    }
}

/// The requests that wait for a frame are handed out, in the order they
/// came and each with one time, by a frame, which follows them with its
/// own time, or by another request of a device, which follows them with a
/// frame at time `now` and then itself; a frame with none waiting is
/// dropped.
pub proof fn law_frame_stamps(requests: Seq<EisRequest>, pending: Seq<EisRequest>, r: EisRequest, now: u64, last_serial: u32)
    requires
        all_timed(pending),
        pending.len() > 0,
        !r.spec_is_timed(),
        r is Frame || r.spec_device() is Some,
    ensures
        ({
            let (q, p) = queue(requests, pending, r, now, last_serial);
            let t = match r {
                EisRequest::Frame(f) => f.time,
                _ => now,
            };
            &&& p.len() == 0
            &&& q.take(requests.len() as int) == requests
            &&& forall|k: int|
                0 <= k < pending.len() ==> time_of(#[trigger] q[requests.len() + k]) == Some(t) && q[requests.len()
                    + k] == pending[k].timed_at(t)
            &&& r is Frame ==> q.len() == requests.len() + pending.len() + 1 && q.last() == r
            &&& !(r is Frame) ==> q.len() == requests.len() + pending.len() + 2 && q.last() == r && time_of(
                q[q.len() - 2],
            ) == Some(now) && q[q.len() - 2] is Frame
        }),
{
    let (q, p) = queue(requests, pending, r, now, last_serial);
    let t = match r {
        EisRequest::Frame(f) => f.time,
        _ => now,
    };
    let st = stamped(pending, t);
    assert(q.take(requests.len() as int) =~= requests);
    assert forall|k: int| 0 <= k < pending.len() implies time_of(#[trigger] q[requests.len() + k]) == Some(t)
        && q[requests.len() + k] == pending[k].timed_at(t) by {
        assert(q[requests.len() + k] == st[k]);
        assert(pending[k].spec_is_timed());
    }
}

/// Only requests grouped by frames ever wait for a frame: handling a
/// request keeps every waiting request one that a frame stamps.
#[verifier::rlimit(80)]
#[verifier::spinoff_prover]
pub proof fn law_pending_requests_timed<F>(
    old: EisRequestConverter,
    new: EisRequestConverter,
    ob: Backend<F>,
    nb: Backend<F>,
    request: eis::Request,
    r: Result<(), Error>,
)
    requires
        request_post(old, new, ob, nb, request, r),
        all_timed(old.pending_requests@),
    ensures
        all_timed(new.pending_requests@),
{
    assert forall|q: EisRequest| #[trigger] queues(old, new, q) implies all_timed(new.pending_requests@) by {
        let now = choose|now: u64|
            (new.requests@, new.pending_requests@) == queue(
                old.requests@,
                old.pending_requests@,
                q,
                now,
                old.connection.last_serial,
            );
        law_queue_keeps_timed(old.requests@, old.pending_requests@, q, now, old.connection.last_serial);
    }
    match request {
        eis::Request::Handshake(_, _) => {},
        eis::Request::Connection(_, _) => {},
        eis::Request::Pingpong(_, _) => {},
        eis::Request::Seat(_, _) => {},
        eis::Request::Device(_, _) => {},
        eis::Request::Keyboard(_, _) => {},
        eis::Request::Pointer(_, _) => {},
        eis::Request::PointerAbsolute(_, _) => {},
        eis::Request::Scroll(_, _) => {},
        eis::Request::Button(_, _) => {},
        eis::Request::Touchscreen(_, _) => {},
    }
}

/// At most [`EIS_MAX_TOUCHES`] touches are down on each device.
pub open spec fn touches_bounded(c: Connection) -> bool {
    forall|i: int|
        0 <= i < c.devices@.len() ==> (#[trigger] c.devices@[i]).down_touch_ids@.finite()
            && c.devices@[i].down_touch_ids@.len() <= EIS_MAX_TOUCHES
}

/// No request brings more than [`EIS_MAX_TOUCHES`] touches down on a
/// device: handling a request keeps the bound.
pub proof fn law_touches_bounded<F>(
    old: EisRequestConverter,
    new: EisRequestConverter,
    ob: Backend<F>,
    nb: Backend<F>,
    request: eis::Request,
    r: Result<(), Error>,
)
    requires
        request_post(old, new, ob, nb, request, r),
        touches_bounded(old.connection),
    ensures
        touches_bounded(new.connection),
{
    match request {
        eis::Request::Touchscreen(t, q) => {
            lemma_first_index_in(old.connection.devices@, |d: DeviceState| has_interface_id(d.device, t.0.id));
            match old.connection.interface_device_index(t.0.id) {
                Some(i) => {
                    let ts = old.connection.devices@[i].down_touch_ids@;
                    assert(ts.finite() && ts.len() <= EIS_MAX_TOUCHES);
                    match q {
                        eis::touchscreen::Request::Down { touchid, .. } => {
                            if ts.len() != EIS_MAX_TOUCHES && !ts.contains(touchid) {
                                assert(ts.insert(touchid).len() == ts.len() + 1);
                                assert(new.connection.devices@[i].down_touch_ids@.len() <= EIS_MAX_TOUCHES);
                            }
                        },
                        _ => {},
                    }
                },
                None => {},
            }
        },
        _ => {},
    }
}

impl EisRequestConverter {
    /// Handles what was taken from the received bytes: a request is
    /// handled as [`handle_request`](Self::handle_request) says, a parse
    /// error is returned, and a message for an unknown object is answered
    /// with `ei_connection.invalid_object`, carrying the last serial.
    pub fn handle_pending<F>(&mut self, result: PendingRequestResult<eis::Request>, backend: &mut Backend<F>) -> (r: Result<
        (),
        Error,
    >)
        ensures
            match result {
                PendingRequestResult::Request(q) => request_post(*old(self), *final(self), *old(backend), *final(backend), q, r),
                PendingRequestResult::ParseError(e) => {
                    &&& r matches Err(Error::Parse(e2)) && e2 == e
                    &&& *final(self) == *old(self)
                    &&& *final(backend) == *old(backend)
                },
                PendingRequestResult::InvalidObject(id) => {
                    &&& r is Ok
                    &&& *final(self) == *old(self)
                    &&& sent(
                        *old(backend),
                        *final(backend),
                        old(self).connection.handshake_resp.connection.0.id,
                        2,
                        seq![ArgModel::Uint32(old(self).connection.last_serial), ArgModel::Uint64(id)],
                        Seq::empty(),
                    )
                },
            },
    {
        match result {
            PendingRequestResult::Request(q) => self.handle_request(q, backend),
            PendingRequestResult::ParseError(e) => Err(Error::Parse(e)),
            PendingRequestResult::InvalidObject(id) => {
                self.connection.handshake_resp.connection.invalid_object(backend, self.connection.last_serial, id);
                Ok(())
            },
        }
    }

    /// Handles a low-level protocol-level request, possibly converting it
    /// into a high-level [`EisRequest`]. Messages the server answers with
    /// are queued in `backend`, to be flushed by the caller. The errors
    /// returned are protocol violations.
    pub fn handle_request<F>(&mut self, request: eis::Request, backend: &mut Backend<F>) -> (r: Result<(), Error>)
        ensures
            request_post(*old(self), *final(self), *old(backend), *final(backend), request, r),
    {
        match request {
            eis::Request::Handshake(_handshake, _request) => Err(Error::UnexpectedHandshakeEvent),
            eis::Request::Connection(_connection, request) => self.handle_connection_request(request, backend),
            eis::Request::Pingpong(_ping_pong, request) => Ok(()),
            eis::Request::Seat(seat, request) => self.handle_seat_request(&seat, &request, backend),
            eis::Request::Device(device, request) => self.handle_device_request(device, request, backend),
            eis::Request::Keyboard(keyboard, request) => {
                match self.connection.find_interface_device(keyboard.0.id) {
                    None => Ok(()),
                    Some(i) => match request {
                        eis::keyboard::Request::Release => Ok(()),
                        eis::keyboard::Request::Key { key, state } => {
                            let device = self.connection.devices[i].device.clone();
                            self.queue_request(EisRequest::KeyboardKey(KeyboardKey { device, time: 0, key, state }));
                            Ok(())
                        },
                    },
                }
            },
            eis::Request::Pointer(pointer, request) => {
                match self.connection.find_interface_device(pointer.0.id) {
                    None => Ok(()),
                    Some(i) => match request {
                        eis::pointer::Request::Release => Ok(()),
                        eis::pointer::Request::MotionRelative { x, y } => {
                            let device = self.connection.devices[i].device.clone();
                            self.queue_request(EisRequest::PointerMotion(PointerMotion { device, time: 0, dx: x, dy: y }));
                            Ok(())
                        },
                    },
                }
            },
            eis::Request::PointerAbsolute(pointer_absolute, request) => {
                match self.connection.find_interface_device(pointer_absolute.0.id) {
                    None => Ok(()),
                    Some(i) => match request {
                        eis::pointer_absolute::Request::Release => Ok(()),
                        eis::pointer_absolute::Request::MotionAbsolute { x, y } => {
                            let device = self.connection.devices[i].device.clone();
                            self.queue_request(
                                EisRequest::PointerMotionAbsolute(
                                    PointerMotionAbsolute { device, time: 0, dx_absolute: x, dy_absolute: y },
                                ),
                            );
                            Ok(())
                        },
                    },
                }
            },
            eis::Request::Scroll(scroll, request) => {
                self.handle_scroll_request(scroll, request, backend);
                Ok(())
            },
            eis::Request::Button(button, request) => {
                match self.connection.find_interface_device(button.0.id) {
                    None => Ok(()),
                    Some(i) => match request {
                        eis::button::Request::Release => Ok(()),
                        eis::button::Request::Button { button, state } => {
                            let device = self.connection.devices[i].device.clone();
                            self.queue_request(EisRequest::Button(Button { device, time: 0, button, state }));
                            Ok(())
                        },
                    },
                }
            },
            eis::Request::Touchscreen(touchscreen, request) => {
                self.handle_touchscreen_request(touchscreen, request, backend)
            },
        }
    }

    fn handle_connection_request<F>(&mut self, request: eis::connection::Request, backend: &mut Backend<F>) -> (r: Result<(), Error>)
        ensures
            connection_post(*old(self), *final(self), *old(backend), *final(backend), request, r),
    {
        match request {
            eis::connection::Request::Sync { callback } => {
                if callback.version() != 1 {
                    return Err(Error::InvalidInterfaceVersion("ei_callback", callback.version()));
                }
                callback.done(backend, 0);
                Ok(())
            },
            eis::connection::Request::Disconnect => {
                self.queue_request(EisRequest::Disconnect);
                Ok(())
            },
        }
    }

    fn handle_seat_request<F>(&mut self, seat: &eis::Seat, request: &eis::seat::Request, backend: &mut Backend<F>) -> (r: Result<(), Error>)
        ensures
            seat_post(*old(self), *final(self), *old(backend), *final(backend), *seat, *request, r),
    {
        match request {
            eis::seat::Request::Release => {
                let serial = self.connection.next_serial();
                seat.destroyed(backend, serial);
                Ok(())
            },
            eis::seat::Request::Bind { capabilities } => {
                let i = match self.connection.find_seat(seat.0.id) {
                    Some(i) => i,
                    None => {
                        return Ok(());
                    },
                };
                let caps = match Capabilities::from_bits(*capabilities) {
                    Ok(c) => c,
                    Err(_) => {
                        return Err(Error::Request(RequestError::InvalidCapabilities));
                    },
                };
                if !self.connection.seats[i].advertised_capabilities.contains(caps) {
                    return Err(Error::Request(RequestError::InvalidCapabilities));
                }
                let s = self.connection.seats[i].clone();
                self.queue_request(EisRequest::Bind(Bind { seat: s, capabilities: caps }));
                Ok(())
            },
        }
    }

    fn handle_device_request<F>(&mut self, device: eis::Device, request: eis::device::Request, backend: &mut Backend<F>) -> (r: Result<(), Error>)
        ensures
            device_post(*old(self), *final(self), *old(backend), *final(backend), device, request, r),
    {
        let i = match self.connection.find_device(device.0.id) {
            Some(i) => i,
            None => {
                return Ok(());
            },
        };
        match request {
            eis::device::Request::Release => {},
            eis::device::Request::StartEmulating { last_serial, sequence } => {
                let device = self.connection.devices[i].device.clone();
                self.queue_request(
                    EisRequest::DeviceStartEmulating(DeviceStartEmulating { device, last_serial, sequence }),
                );
            },
            eis::device::Request::StopEmulating { last_serial } => {
                let device = self.connection.devices[i].device.clone();
                self.queue_request(EisRequest::DeviceStopEmulating(DeviceStopEmulating { device, last_serial }));
            },
            eis::device::Request::Frame { last_serial, timestamp } => {
                let device = self.connection.devices[i].device.clone();
                self.queue_request(EisRequest::Frame(Frame { device, last_serial, time: timestamp }));
            },
        }
        Ok(())
    }

    fn handle_scroll_request<F>(&mut self, scroll: eis::Scroll, request: eis::scroll::Request, backend: &mut Backend<F>)
        ensures
            scroll_post(*old(self), *final(self), *old(backend), *final(backend), scroll, request, Ok(())),
    {
        let i = match self.connection.find_interface_device(scroll.0.id) {
            Some(i) => i,
            None => {
                return;
            },
        };
        match request {
            eis::scroll::Request::Release => {},
            eis::scroll::Request::Scroll { x, y } => {
                let device = self.connection.devices[i].device.clone();
                self.queue_request(EisRequest::ScrollDelta(ScrollDelta { device, time: 0, dx: x, dy: y }));
            },
            eis::scroll::Request::ScrollDiscrete { x, y } => {
                let device = self.connection.devices[i].device.clone();
                self.queue_request(
                    EisRequest::ScrollDiscrete(ScrollDiscrete { device, time: 0, discrete_dx: x, discrete_dy: y }),
                );
            },
            eis::scroll::Request::ScrollStop { x, y, is_cancel } => {
                let device = self.connection.devices[i].device.clone();
                if is_cancel != 0 {
                    self.queue_request(EisRequest::ScrollCancel(ScrollCancel { device, time: 0, x: x != 0, y: y != 0 }));
                } else {
                    self.queue_request(EisRequest::ScrollStop(ScrollStop { device, time: 0, x: x != 0, y: y != 0 }));
                }
            },
        }
    }

    /// Adds touch `id` to the touches down on device `i`, or removes it.
    fn update_touches(&mut self, i: usize, id: u32, down: bool)
        requires
            i < old(self).connection.devices@.len(),
        ensures
            with_touches(
                old(self).connection,
                final(self).connection,
                i as int,
                if down {
                    old(self).connection.devices@[i as int].down_touch_ids@.insert(id)
                } else {
                    old(self).connection.devices@[i as int].down_touch_ids@.remove(id)
                },
            ),
            final(self).requests == old(self).requests,
            final(self).pending_requests == old(self).pending_requests,
    {
        let mut ds = self.connection.devices.remove(i);
        if down {
            ds.down_touch_ids.insert(id);
        } else {
            ds.down_touch_ids.remove(&id);
        }
        self.connection.devices.insert(i, ds);
        proof {
            assert forall|j: int| 0 <= j < old(self).connection.devices@.len() && j != i implies #[trigger] self.connection.devices@[j]
                == old(self).connection.devices@[j] by {
                if j < i {
                } else {
                    assert(self.connection.devices@[j] == old(self).connection.devices@.remove(i as int)[j - 1]);
                }
            }
        }
    }

    fn handle_touchscreen_request<F>(&mut self, touchscreen: eis::Touchscreen, request: eis::touchscreen::Request, backend: &mut Backend<F>) -> (r: Result<(), Error>)
        ensures
            touchscreen_post(*old(self), *final(self), *old(backend), *final(backend), touchscreen, request, r),
    {
        let i = match self.connection.find_interface_device(touchscreen.0.id) {
            Some(i) => i,
            None => {
                return Ok(());
            },
        };
        let ghost c0 = self.connection;
        match request {
            eis::touchscreen::Request::Release => {},
            eis::touchscreen::Request::Down { touchid, x, y } => {
                if self.connection.devices[i].down_touch_ids.len() == EIS_MAX_TOUCHES {
                    return Err(Error::Request(RequestError::TooManyTouches));
                }
                if self.connection.devices[i].down_touch_ids.contains(&touchid) {
                    return Err(Error::Request(RequestError::DuplicatedTouchDown));
                }
                let device = self.connection.devices[i].device.clone();
                self.update_touches(i, touchid, true);
                self.queue_request(EisRequest::TouchDown(TouchDown { device, time: 0, touch_id: touchid, x, y }));
            },
            eis::touchscreen::Request::Motion { touchid, x, y } => {
                if self.connection.devices[i].down_touch_ids.contains(&touchid) {
                    let device = self.connection.devices[i].device.clone();
                    self.queue_request(EisRequest::TouchMotion(TouchMotion { device, time: 0, touch_id: touchid, x, y }));
                }
            },
            eis::touchscreen::Request::Up { touchid } => {
                if self.connection.devices[i].down_touch_ids.contains(&touchid) {
                    let device = self.connection.devices[i].device.clone();
                    self.update_touches(i, touchid, false);
                    self.queue_request(EisRequest::TouchUp(TouchUp { device, time: 0, touch_id: touchid }));
                }
            },
            eis::touchscreen::Request::Cancel { touchid } => {
                if touchscreen.version() < 2 {
                    return Err(Error::InvalidInterfaceVersion("ei_touchscreen", touchscreen.version()));
                }
                if self.connection.devices[i].down_touch_ids.contains(&touchid) {
                    let device = self.connection.devices[i].device.clone();
                    self.update_touches(i, touchid, false);
                    self.queue_request(EisRequest::TouchCancel(TouchCancel { device, time: 0, touch_id: touchid }));
                }
            },
        }
        Ok(())
    }
}

// ---------------------------------------------------------------------------
// Removing devices and seats
// ---------------------------------------------------------------------------

/// The serial `n` steps after `s`, wrapping.
pub open spec fn serial_after(s: u32, n: nat) -> u32 {
    ((s + n) % 0x1_0000_0000) as u32
}

proof fn lemma_serial_step(s: u32, n: nat)
    ensures
        serial_after(s, n).wrapping_add(1) == serial_after(s, n + 1),
        serial_after(s, 0) == s,
{
}

proof fn lemma_serial_compose(s: u32, a: nat, b: nat)
    ensures
        serial_after(serial_after(s, a), b) == serial_after(s, a + b),
{
    assert(((s + a) % 0x1_0000_0000 + b) % 0x1_0000_0000 == (s + a + b) % 0x1_0000_0000) by (nonlinear_arith);
}

/// The messages destroying `objs`, in order, each with the next serial after
/// `s0`.
pub open spec fn destroy_msgs(objs: Seq<Object>, s0: u32) -> Seq<MessageModel> {
    Seq::new(objs.len(), |k: int| (objs[k].id, 0u32, seq![ArgModel::Uint32(serial_after(s0, (k + 1) as nat))]))
}

/// The IDs of `objs`.
pub open spec fn ids_of(objs: Seq<Object>) -> Set<u64> {
    Set::new(|id: u64| exists|k: int| 0 <= k < objs.len() && (#[trigger] objs[k]).id == id)
}

/// `new` is `old` after destroying `objs` in order, with the serials after
/// `s0`, and forgetting them.
pub open spec fn destroyed_all<F>(old: Backend<F>, new: Backend<F>, objs: Seq<Object>, s0: u32) -> bool {
    &&& wrote(old, new, destroy_msgs(objs, s0))
    &&& new.next_id == old.next_id
    &&& new.objects@ == old.objects@.remove_keys(ids_of(objs))
}

proof fn lemma_destroyed_none<F>(b: Backend<F>, s0: u32)
    ensures
        destroyed_all(b, b, Seq::empty(), s0),
{
    lemma_wrote_none(b);
    assert(destroy_msgs(Seq::empty(), s0) =~= Seq::<MessageModel>::empty());
    assert(b.objects@.remove_keys(ids_of(Seq::empty())) =~= b.objects@);
}

proof fn lemma_destroyed_one<F>(b0: Backend<F>, b1: Backend<F>, o: Object, s0: u32)
    requires
        sent_destroying(b0, b1, o.id, 0, seq![ArgModel::Uint32(s0.wrapping_add(1))], Seq::empty()),
    ensures
        destroyed_all(b0, b1, seq![o], s0),
{
    crate::message::lemma_sent_wrote(b0, b1, o.id, 0, seq![ArgModel::Uint32(s0.wrapping_add(1))]);
    lemma_serial_step(s0, 0);
    assert(destroy_msgs(seq![o], s0) =~= seq![(o.id, 0u32, seq![ArgModel::Uint32(s0.wrapping_add(1))])]);
    assert(ids_of(seq![o]) =~= set![o.id]) by {
        assert(seq![o][0] == o);
    }
    assert(b0.objects@.remove_keys(set![o.id]) =~= b0.objects@.remove(o.id));
}

proof fn lemma_destroyed_concat<F>(b0: Backend<F>, b1: Backend<F>, b2: Backend<F>, a: Seq<Object>, b: Seq<Object>, s0: u32)
    requires
        destroyed_all(b0, b1, a, s0),
        destroyed_all(b1, b2, b, serial_after(s0, a.len())),
    ensures
        destroyed_all(b0, b2, a + b, s0),
{
    lemma_wrote_concat(b0, b1, b2, destroy_msgs(a, s0), destroy_msgs(b, serial_after(s0, a.len())));
    assert(destroy_msgs(a, s0) + destroy_msgs(b, serial_after(s0, a.len())) =~= destroy_msgs(a + b, s0)) by {
        assert forall|k: int| 0 <= k < b.len() implies #[trigger] destroy_msgs(b, serial_after(s0, a.len()))[k] == destroy_msgs(
            a + b,
            s0,
        )[a.len() + k] by {
            lemma_serial_compose(s0, a.len(), (k + 1) as nat);
        }
    }
    assert(ids_of(a + b) =~= ids_of(a) + ids_of(b)) by {
        assert forall|id: u64| ids_of(a + b).contains(id) implies (ids_of(a) + ids_of(b)).contains(id) by {
            let k = choose|k: int| 0 <= k < (a + b).len() && (#[trigger] (a + b)[k]).id == id;
            if k < a.len() {
                assert(a[k] == (a + b)[k]);
            } else {
                assert(b[k - a.len()] == (a + b)[k]);
            }
        }
        assert forall|id: u64| (ids_of(a) + ids_of(b)).contains(id) implies ids_of(a + b).contains(id) by {
            if ids_of(a).contains(id) {
                let k = choose|k: int| 0 <= k < a.len() && (#[trigger] a[k]).id == id;
                assert((a + b)[k] == a[k]);
            } else {
                let k = choose|k: int| 0 <= k < b.len() && (#[trigger] b[k]).id == id;
                assert((a + b)[a.len() + k] == b[k]);
            }
        }
    }
    assert(b0.objects@.remove_keys(ids_of(a)).remove_keys(ids_of(b)) =~= b0.objects@.remove_keys(ids_of(a) + ids_of(b)));
}

/// The objects removing device `d` destroys: its interfaces, then itself.
pub open spec fn device_objects(d: Device) -> Seq<Object> {
    d.interfaces.list().push(d.device.0)
}

/// `devs` without the devices whose object has ID `id`.
pub open spec fn without_device(devs: Seq<DeviceState>, id: u64) -> Seq<DeviceState> {
    devs.filter(|d: DeviceState| d.device.device.0.id != id)
}

/// `seats` without the seats whose object has ID `id`.
pub open spec fn without_seat(seats: Seq<Seat>, id: u64) -> Seq<Seat> {
    seats.filter(|s: Seat| s.seat.0.id != id)
}

/// The devices of `devs` that belong to the seat whose object has ID `id`.
pub open spec fn seat_devices(devs: Seq<DeviceState>, id: u64) -> Seq<Device> {
    devs.filter(|d: DeviceState| d.device.seat.seat.0.id == id).map_values(|d: DeviceState| d.device)
}

/// The objects removing the devices `ds`, in order, destroys.
pub open spec fn devices_objects(ds: Seq<Device>) -> Seq<Object>
    decreases ds.len(),
{
    if ds.len() == 0 {
        Seq::empty()
    } else {
        devices_objects(ds.drop_last()) + device_objects(ds.last())
    }
}

/// `devs` after removing the devices `ds`, in order.
pub open spec fn without_devices(devs: Seq<DeviceState>, ds: Seq<Device>) -> Seq<DeviceState>
    decreases ds.len(),
{
    if ds.len() == 0 {
        devs
    } else {
        without_device(without_devices(devs, ds.drop_last()), ds.last().device.0.id)
    }
}

/// The objects removing the seats `seats`, in order, from a connection with
/// the devices `devs` destroys: for each seat, its devices, then itself.
pub open spec fn seats_objects(seats: Seq<Seat>, devs: Seq<DeviceState>) -> Seq<Object>
    decreases seats.len(),
{
    if seats.len() == 0 {
        Seq::empty()
    } else {
        let s = seats[0];
        let ds = seat_devices(devs, s.seat.0.id);
        devices_objects(ds).push(s.seat.0) + seats_objects(seats.drop_first(), without_devices(devs, ds))
    }
}

/// The devices left after removing the seats `seats`, in order, from a
/// connection with the devices `devs`.
pub open spec fn seats_devices_left(seats: Seq<Seat>, devs: Seq<DeviceState>) -> Seq<DeviceState>
    decreases seats.len(),
{
    if seats.len() == 0 {
        devs
    } else {
        let ds = seat_devices(devs, seats[0].seat.0.id);
        seats_devices_left(seats.drop_first(), without_devices(devs, ds))
    }
}

/// `new` is `old` but for the last serial and the devices.
pub open spec fn only_devices_and_serial(old: Connection, new: Connection) -> bool {
    &&& new.handshake_resp == old.handshake_resp
    &&& new.seats == old.seats
    &&& new.disconnected == old.disconnected
}

/// Whether every device of the connection is well formed.
pub open spec fn devices_wf(devs: Seq<DeviceState>) -> bool {
    forall|i: int| 0 <= i < devs.len() ==> (#[trigger] devs[i]).device.interfaces.wf()
}

/// Sends `ei_*.destroyed` with `serial` for an interface object of a device.
pub fn destroy_interface<F>(object: Object, backend: &mut Backend<F>, serial: u32)
    requires
        crate::capability::capability_of_name(object.interface@) is Some,
    ensures
        sent_destroying(*old(backend), *final(backend), object.id, 0, seq![ArgModel::Uint32(serial)], Seq::empty()),
{
    let ghost id = object.id;
    match crate::protocol::Iface::from_name(object.interface.as_str()) {
        Some(crate::protocol::Iface::Pointer) => eis::Pointer(object).destroyed(backend, serial),
        Some(crate::protocol::Iface::PointerAbsolute) => eis::PointerAbsolute(object).destroyed(backend, serial),
        Some(crate::protocol::Iface::Scroll) => eis::Scroll(object).destroyed(backend, serial),
        Some(crate::protocol::Iface::Button) => eis::Button(object).destroyed(backend, serial),
        Some(crate::protocol::Iface::Keyboard) => eis::Keyboard(object).destroyed(backend, serial),
        Some(crate::protocol::Iface::Touchscreen) => eis::Touchscreen(object).destroyed(backend, serial),
        _ => vstd::pervasive::unreached(),
    }
}

impl Connection {
    /// Removes the devices whose object has ID `id`.
    fn remove_device(&mut self, id: u64)
        ensures
            final(self).devices@ == without_device(old(self).devices@, id),
            final(self).handshake_resp == old(self).handshake_resp,
            final(self).seats == old(self).seats,
            final(self).last_serial == old(self).last_serial,
            final(self).disconnected == old(self).disconnected,
    {
        let ghost p = |d: DeviceState| d.device.device.0.id != id;
        let mut rest: Vec<DeviceState> = Vec::new();
        std::mem::swap(&mut rest, &mut self.devices);
        let ghost all = rest@;
        let n = rest.len();
        let mut i: usize = 0;
        proof {
            assert(all.take(0).filter(p) =~= Seq::<DeviceState>::empty());
        }
        while rest.len() > 0
            invariant
                p == (|d: DeviceState| d.device.device.0.id != id),
                i <= all.len(),
                i + rest@.len() == all.len(),
                n == all.len(),
                rest@ == all.skip(i as int),
                self.devices@ == all.take(i as int).filter(p),
                self.handshake_resp == old(self).handshake_resp,
                self.seats == old(self).seats,
                self.last_serial == old(self).last_serial,
                self.disconnected == old(self).disconnected,
            decreases rest@.len(),
        {
            let d = rest.remove(0);
            proof {
                assert(d == all[i as int]);
                assert(all.take(i + 1) =~= all.take(i as int).push(d));
                all.take(i as int).lemma_filter_push(d, p);
                assert(rest@ =~= all.skip(i + 1));
            }
            if d.device.device.0.id != id {
                self.devices.push(d);
            }
            i = i + 1;
        }
        proof {
            assert(all.take(i as int) =~= all);
        }
    }

    /// Removes the seats whose object has ID `id`.
    fn remove_seat(&mut self, id: u64)
        ensures
            final(self).seats@ == without_seat(old(self).seats@, id),
            final(self).handshake_resp == old(self).handshake_resp,
            final(self).devices == old(self).devices,
            final(self).last_serial == old(self).last_serial,
            final(self).disconnected == old(self).disconnected,
    {
        let ghost p = |s: Seat| s.seat.0.id != id;
        let mut rest: Vec<Seat> = Vec::new();
        std::mem::swap(&mut rest, &mut self.seats);
        let ghost all = rest@;
        let n = rest.len();
        let mut i: usize = 0;
        proof {
            assert(all.take(0).filter(p) =~= Seq::<Seat>::empty());
        }
        while rest.len() > 0
            invariant
                p == (|s: Seat| s.seat.0.id != id),
                i <= all.len(),
                i + rest@.len() == all.len(),
                n == all.len(),
                rest@ == all.skip(i as int),
                self.seats@ == all.take(i as int).filter(p),
                self.handshake_resp == old(self).handshake_resp,
                self.devices == old(self).devices,
                self.last_serial == old(self).last_serial,
                self.disconnected == old(self).disconnected,
            decreases rest@.len(),
        {
            let s = rest.remove(0);
            proof {
                assert(s == all[i as int]);
                assert(all.take(i + 1) =~= all.take(i as int).push(s));
                all.take(i as int).lemma_filter_push(s, p);
                assert(rest@ =~= all.skip(i + 1));
            }
            if s.seat.0.id != id {
                self.seats.push(s);
            }
            i = i + 1;
        }
        proof {
            assert(all.take(i as int) =~= all);
        }
    }

    /// Returns the devices of the seat whose object has ID `id`.
    fn devices_of_seat(&self, id: u64) -> (r: Vec<Device>)
        ensures
            r@ == seat_devices(self.devices@, id),
    {
        let ghost p = |d: DeviceState| d.device.seat.seat.0.id == id;
        let ghost f = |d: DeviceState| d.device;
        let mut r: Vec<Device> = Vec::new();
        let mut i: usize = 0;
        proof {
            assert(self.devices@.take(0).filter(p) =~= Seq::<DeviceState>::empty());
            assert(r@ =~= self.devices@.take(0).filter(p).map_values(f));
        }
        while i < self.devices.len()
            invariant
                p == (|d: DeviceState| d.device.seat.seat.0.id == id),
                f == (|d: DeviceState| d.device),
                i <= self.devices@.len(),
                r@ == self.devices@.take(i as int).filter(p).map_values(f),
            decreases self.devices@.len() - i,
        {
            let ghost d = self.devices@[i as int];
            proof {
                assert(self.devices@.take(i + 1) =~= self.devices@.take(i as int).push(d));
                self.devices@.take(i as int).lemma_filter_push(d, p);
            }
            if self.devices[i].device.seat.seat.0.id == id {
                let x = self.devices[i].device.clone();
                r.push(x);
                proof {
                    assert(r@ =~= self.devices@.take(i + 1).filter(p).map_values(f));
                }
            }
            i = i + 1;
        }
        proof {
            assert(self.devices@.take(i as int) =~= self.devices@);
        }
        r
    }

    /// Returns a copy of the seats.
    fn seats_copy(&self) -> (r: Vec<Seat>)
        ensures
            r@ == self.seats@,
    {
        let mut r: Vec<Seat> = Vec::new();
        let mut i: usize = 0;
        while i < self.seats.len()
            invariant
                i <= self.seats@.len(),
                r@ == self.seats@.take(i as int),
            decreases self.seats@.len() - i,
        {
            r.push(self.seats[i].clone());
            proof {
                assert(self.seats@.take(i + 1) =~= self.seats@.take(i as int).push(self.seats@[i as int]));
            }
            i = i + 1;
        }
        proof {
            assert(self.seats@.take(i as int) =~= self.seats@);
        }
        r
    }
}

impl Device {
    /// The device's interface objects are for their capabilities.
    pub open spec fn wf(&self) -> bool {
        self.interfaces.wf()
    }

    /// Destroys one interface object, if there is one.
    fn remove_interface<F>(o: &Option<Object>, c: DeviceCapability, conn: &mut Connection, backend: &mut Backend<F>)
        requires
            o matches Some(x) ==> x.interface@ == c.spec_iface().spec_name()@,
        ensures
            destroyed_all(*old(backend), *final(backend), opt_seq(*o), old(conn).last_serial),
            final(conn).last_serial == serial_after(old(conn).last_serial, opt_seq(*o).len()),
            only_devices_and_serial(*old(conn), *final(conn)),
            final(conn).devices == old(conn).devices,
    {
        match o {
            Some(x) => {
                let serial = conn.next_serial();
                proof {
                    crate::capability::lemma_capability_name(c);
                }
                destroy_interface(x.clone(), backend, serial);
                proof {
                    lemma_destroyed_one(*old(backend), *backend, *x, old(conn).last_serial);
                    lemma_serial_step(old(conn).last_serial, 0);
                }
            },
            None => {
                proof {
                    lemma_destroyed_none(*backend, conn.last_serial);
                    lemma_serial_step(conn.last_serial, 0);
                }
            },
        }
    }

    /// Removes this device and its interfaces from the connection: each
    /// interface object is destroyed, then the device's, each with the next
    /// serial.
    pub fn remove<F>(&self, conn: &mut Connection, backend: &mut Backend<F>)
        requires
            self.wf(),
        ensures
            destroyed_all(*old(backend), *final(backend), device_objects(*self), old(conn).last_serial),
            final(conn).last_serial == serial_after(old(conn).last_serial, device_objects(*self).len()),
            final(conn).devices@ == without_device(old(conn).devices@, self.device.0.id),
            only_devices_and_serial(*old(conn), *final(conn)),
    {
        let ghost s0 = conn.last_serial;
        let ghost b0 = *backend;
        let ghost i = self.interfaces;
        proof {
            lemma_destroyed_none(b0, s0);
            lemma_serial_step(s0, 0);
        }
        let caps = Capabilities::all().iter();
        proof {
            crate::capability::lemma_all_list();
        }
        let mut k: usize = 0;
        while k < caps.len()
            invariant
                caps@ == all_capabilities(),
                k <= 6,
                self.wf(),
                i == self.interfaces,
                destroyed_all(b0, *backend, list_upto(i, k as nat), s0),
                conn.last_serial == serial_after(s0, list_upto(i, k as nat).len()),
                conn.devices == old(conn).devices,
                only_devices_and_serial(*old(conn), *conn),
            decreases 6 - k,
        {
            let c = caps[k];
            let o = match self.interfaces.get(c) {
                Some(o) => Some(o.clone()),
                None => None,
            };
            let ghost bk = *backend;
            proof {
                assert(i.spec_get(c) == o);
            }
            Self::remove_interface(&o, c, conn, backend);
            proof {
                assert(list_upto(i, (k + 1) as nat) == list_upto(i, k as nat) + opt_seq(i.spec_get(all_capabilities()[k as int])));
                lemma_serial_compose(s0, list_upto(i, k as nat).len(), opt_seq(o).len());
                lemma_destroyed_concat(b0, bk, *backend, list_upto(i, k as nat), opt_seq(o), s0);
            }
            k = k + 1;
        }
        let ghost b7 = *backend;
        let ghost s6 = conn.last_serial;
        let serial = conn.next_serial();
        self.device.destroyed(backend, serial);
        proof {
            lemma_list_upto_all(i);
            lemma_destroyed_one(b7, *backend, self.device.0, s6);
            lemma_serial_compose(s0, i.list().len(), 1);
            lemma_destroyed_concat(b0, b7, *backend, i.list(), seq![self.device.0], s0);
            assert(i.list() + seq![self.device.0] =~= device_objects(*self));
        }
        conn.remove_device(self.device.0.id);
    }
}

/// The objects of the first `k` capabilities, in order.
pub open spec fn list_upto(i: Interfaces, k: nat) -> Seq<Object>
    decreases k,
{
    if k == 0 {
        Seq::empty()
    } else {
        list_upto(i, (k - 1) as nat) + opt_seq(i.spec_get(all_capabilities()[k - 1]))
    }
}

/// The objects of all the capabilities, in order, are the list of objects.
pub proof fn lemma_list_upto_all(i: Interfaces)
    ensures
        list_upto(i, 6) == i.list(),
{
    reveal_with_fuel(list_upto, 7);
    assert(list_upto(i, 6) =~= i.list());
}

/// Removes the devices `ds`, in order.
fn remove_devices<F>(ds: &Vec<Device>, conn: &mut Connection, backend: &mut Backend<F>)
    requires
        forall|k: int| 0 <= k < ds@.len() ==> (#[trigger] ds@[k]).wf(),
    ensures
        destroyed_all(*old(backend), *final(backend), devices_objects(ds@), old(conn).last_serial),
        final(conn).last_serial == serial_after(old(conn).last_serial, devices_objects(ds@).len()),
        final(conn).devices@ == without_devices(old(conn).devices@, ds@),
        only_devices_and_serial(*old(conn), *final(conn)),
{
    let ghost b0 = *backend;
    let ghost s0 = conn.last_serial;
    proof {
        lemma_destroyed_none(b0, s0);
        lemma_serial_step(s0, 0);
        assert(ds@.take(0) =~= Seq::<Device>::empty());
    }
    let mut k: usize = 0;
    while k < ds.len()
        invariant
            k <= ds@.len(),
            forall|j: int| 0 <= j < ds@.len() ==> (#[trigger] ds@[j]).wf(),
            destroyed_all(b0, *backend, devices_objects(ds@.take(k as int)), s0),
            conn.last_serial == serial_after(s0, devices_objects(ds@.take(k as int)).len()),
            conn.devices@ == without_devices(old(conn).devices@, ds@.take(k as int)),
            only_devices_and_serial(*old(conn), *conn),
        decreases ds@.len() - k,
    {
        let ghost bk = *backend;
        let ghost sk = conn.last_serial;
        let ghost before = ds@.take(k as int);
        ds[k].remove(conn, backend);
        proof {
            let d = ds@[k as int];
            assert(ds@.take(k + 1) =~= before.push(d));
            assert(ds@.take(k + 1).drop_last() =~= before);
            lemma_serial_compose(s0, devices_objects(before).len(), device_objects(d).len());
            lemma_destroyed_concat(b0, bk, *backend, devices_objects(before), device_objects(d), s0);
        }
        k = k + 1;
    }
    proof {
        assert(ds@.take(k as int) =~= ds@);
    }
}

impl Seat {
    /// Removes this seat and its devices from the connection: each device is
    /// removed, then the seat's object is destroyed, each object with the
    /// next serial.
    pub fn remove<F>(&self, conn: &mut Connection, backend: &mut Backend<F>)
        requires
            devices_wf(old(conn).devices@),
        ensures
            ({
                let ds = seat_devices(old(conn).devices@, self.seat.0.id);
                &&& destroyed_all(
                    *old(backend),
                    *final(backend),
                    devices_objects(ds).push(self.seat.0),
                    old(conn).last_serial,
                )
                &&& final(conn).last_serial == serial_after(
                    old(conn).last_serial,
                    devices_objects(ds).push(self.seat.0).len(),
                )
                &&& final(conn).devices@ == without_devices(old(conn).devices@, ds)
                &&& final(conn).seats@ == without_seat(old(conn).seats@, self.seat.0.id)
                &&& final(conn).handshake_resp == old(conn).handshake_resp
                &&& final(conn).disconnected == old(conn).disconnected
            }),
    {
        let ghost b0 = *backend;
        let ghost s0 = conn.last_serial;
        let ds = conn.devices_of_seat(self.seat.0.id);
        proof {
            assert forall|k: int| 0 <= k < ds@.len() implies (#[trigger] ds@[k]).wf() by {
                let p = |d: DeviceState| d.device.seat.seat.0.id == self.seat.0.id;
                let all = old(conn).devices@;
                let x = all.filter(p)[k];
                assert(all.filter(p).contains(x));
                all.lemma_filter_contains_rev(p, x);
                let j = choose|j: int| 0 <= j < all.len() && all[j] == x;
                assert(all[j].device.interfaces.wf());
                assert(ds@[k] == x.device);
            }
        }
        remove_devices(&ds, conn, backend);
        let ghost b1 = *backend;
        let ghost s1 = conn.last_serial;
        let serial = conn.next_serial();
        self.seat.destroyed(backend, serial);
        proof {
            lemma_destroyed_one(b1, *backend, self.seat.0, s1);
            lemma_serial_compose(s0, devices_objects(ds@).len(), 1);
            lemma_destroyed_concat(b0, b1, *backend, devices_objects(ds@), seq![self.seat.0], s0);
            assert(devices_objects(ds@) + seq![self.seat.0] =~= devices_objects(ds@).push(self.seat.0));
        }
        conn.remove_seat(self.seat.0.id);
    }
}

proof fn lemma_without_device_wf(devs: Seq<DeviceState>, id: u64)
    requires
        devices_wf(devs),
    ensures
        devices_wf(without_device(devs, id)),
{
    let p = |d: DeviceState| d.device.device.0.id != id;
    assert forall|i: int| 0 <= i < without_device(devs, id).len() implies (#[trigger] without_device(devs, id)[i]).device.interfaces.wf() by {
        let x = devs.filter(p)[i];
        assert(devs.filter(p).contains(x));
        devs.lemma_filter_contains_rev(p, x);
        let j = choose|j: int| 0 <= j < devs.len() && devs[j] == x;
        assert(devs[j].device.interfaces.wf());
    }
}

proof fn lemma_without_devices_wf(devs: Seq<DeviceState>, ds: Seq<Device>)
    requires
        devices_wf(devs),
    ensures
        devices_wf(without_devices(devs, ds)),
    decreases ds.len(),
{
    if ds.len() > 0 {
        lemma_without_devices_wf(devs, ds.drop_last());
        lemma_without_device_wf(without_devices(devs, ds.drop_last()), ds.last().device.0.id);
    }
}

/// `seats` after removing each seat of `rm`, in order.
pub open spec fn without_seats(seats: Seq<Seat>, rm: Seq<Seat>) -> Seq<Seat>
    decreases rm.len(),
{
    if rm.len() == 0 {
        seats
    } else {
        without_seat(without_seats(seats, rm.drop_last()), rm.last().seat.0.id)
    }
}

impl Connection {
    /// Notifies the client that the connection will close: every seat is
    /// removed with its devices, then `ei_connection.disconnected` is sent
    /// with the last serial, `reason` and `explanation`, and the connection
    /// is marked disconnected. Flushing and shutting the socket down are the
    /// caller's.
    pub fn disconnected<F>(&mut self, backend: &mut Backend<F>, reason: DisconnectReason, explanation: Option<&str>)
        requires
            devices_wf(old(self).devices@),
            crate::message::opt_str_fits(explanation),
        ensures
            ({
                let objs = seats_objects(old(self).seats@, old(self).devices@);
                let s1 = serial_after(old(self).last_serial, objs.len());
                let cid = old(self).handshake_resp.connection.0.id;
                &&& wrote(
                    *old(backend),
                    *final(backend),
                    destroy_msgs(objs, old(self).last_serial).push(
                        (
                            cid,
                            0u32,
                            seq![
                                ArgModel::Uint32(s1),
                                ArgModel::Uint32(reason.spec_to_u32()),
                                ArgModel::String(crate::message::opt_str_view(explanation)),
                            ],
                        ),
                    ),
                )
                &&& final(backend).next_id == old(backend).next_id
                &&& final(backend).objects@ == old(backend).objects@.remove_keys(ids_of(objs)).remove(cid)
                &&& final(self).last_serial == s1
                &&& final(self).seats@ == without_seats(old(self).seats@, old(self).seats@)
                &&& final(self).devices@ == seats_devices_left(old(self).seats@, old(self).devices@)
                &&& final(self).disconnected
                &&& final(self).handshake_resp == old(self).handshake_resp
            }),
    {
        let ghost b0 = *backend;
        let ghost s0 = self.last_serial;
        let ghost seats0 = self.seats@;
        let ghost devs0 = self.devices@;
        let seats = self.seats_copy();
        proof {
            lemma_destroyed_none(b0, s0);
            lemma_serial_step(s0, 0);
            assert(seats@.skip(0) =~= seats@);
            assert(seats@.take(0) =~= Seq::<Seat>::empty());
            assert(Seq::<Object>::empty() + seats_objects(seats0, devs0) =~= seats_objects(seats0, devs0));
        }
        let ghost mut done: Seq<Object> = Seq::empty();
        let mut k: usize = 0;
        while k < seats.len()
            invariant
                seats@ == seats0,
                k <= seats@.len(),
                devices_wf(self.devices@),
                destroyed_all(b0, *backend, done, s0),
                self.last_serial == serial_after(s0, done.len()),
                seats_objects(seats0, devs0) == done + seats_objects(seats0.skip(k as int), self.devices@),
                seats_devices_left(seats0, devs0) == seats_devices_left(seats0.skip(k as int), self.devices@),
                self.seats@ == without_seats(seats0, seats0.take(k as int)),
                self.handshake_resp == old(self).handshake_resp,
                self.disconnected == old(self).disconnected,
            decreases seats@.len() - k,
        {
            let ghost bk = *backend;
            let ghost devk = self.devices@;
            let ghost seatk = seats0[k as int];
            let ghost objk = devices_objects(seat_devices(devk, seatk.seat.0.id)).push(seatk.seat.0);
            proof {
                let rest = seats0.skip(k as int);
                assert(rest[0] == seatk);
                assert(rest.drop_first() =~= seats0.skip(k + 1));
                assert(seats0.take(k + 1).drop_last() =~= seats0.take(k as int));
                assert(seats0.take(k + 1).last() == seatk);
            }
            seats[k].remove(self, backend);
            proof {
                lemma_serial_compose(s0, done.len(), objk.len());
                lemma_destroyed_concat(b0, bk, *backend, done, objk, s0);
                lemma_without_devices_wf(devk, seat_devices(devk, seatk.seat.0.id));
                assert(done + seats_objects(seats0.skip(k as int), devk) =~= (done + objk) + seats_objects(
                    seats0.skip(k + 1),
                    self.devices@,
                ));
                done = done + objk;
            }
            k = k + 1;
        }
        let ghost bl = *backend;
        let ghost sl = self.last_serial;
        proof {
            assert(seats0.skip(k as int) =~= Seq::<Seat>::empty());
            assert(seats0.take(k as int) =~= seats0);
            assert(done + Seq::<Object>::empty() =~= done);
        }
        let last = self.last_serial;
        self.handshake_resp.connection.disconnected(backend, last, reason, explanation);
        proof {
            crate::message::lemma_sent_wrote(
                bl,
                *backend,
                self.handshake_resp.connection.0.id,
                0,
                seq![
                    ArgModel::Uint32(last),
                    ArgModel::Uint32(reason.spec_to_u32()),
                    ArgModel::String(crate::message::opt_str_view(explanation)),
                ],
            );
            crate::message::lemma_wrote_more(
                b0,
                bl,
                *backend,
                destroy_msgs(done, s0),
                self.handshake_resp.connection.0.id,
                0,
                seq![
                    ArgModel::Uint32(last),
                    ArgModel::Uint32(reason.spec_to_u32()),
                    ArgModel::String(crate::message::opt_str_view(explanation)),
                ],
            );
        }
        self.disconnected = true;
    }
}

// ---------------------------------------------------------------------------
// Adding seats and devices
// ---------------------------------------------------------------------------

/// A message carrying a name on object `id` with `opcode`, if there is a name.
pub open spec fn name_msg(id: u64, opcode: u32, name: Option<Seq<char>>) -> Seq<MessageModel> {
    match name {
        Some(n) => seq![(id, opcode, seq![ArgModel::String(Some(n))])],
        None => Seq::empty(),
    }
}

/// The messages adding a seat sends: the seat object `nid` with version `v`
/// announced on the connection object `cid`, its name, each capability in
/// `caps` with its mask and interface name, and `done`.
pub open spec fn add_seat_msgs(
    cid: u64,
    nid: u64,
    v: u32,
    name: Option<Seq<char>>,
    caps: Seq<DeviceCapability>,
) -> Seq<MessageModel> {
    seq![(cid, 1u32, seq![ArgModel::Uint64(nid), ArgModel::Uint32(v)])] + name_msg(nid, 1, name) + caps.map_values(
        |c: DeviceCapability|
            (nid, 2u32, seq![ArgModel::Uint64(c.spec_bit()), ArgModel::String(Some(c.spec_iface().spec_name()@))]),
    ) + seq![(nid, 3u32, Seq::<ArgModel>::empty())]
}

/// The messages adding a device sends before `done`: the device object `nid`
/// with version `v` announced on the seat object `sid`, its name, its type,
/// and one interface object per capability in `caps`, with IDs from
/// `nid + 1` and the versions the connection negotiated.
pub open spec fn add_device_msgs(
    sid: u64,
    nid: u64,
    v: u32,
    name: Option<Seq<char>>,
    device_type: DeviceType,
    caps: Seq<DeviceCapability>,
    conn: Connection,
) -> Seq<MessageModel> {
    seq![(sid, 4u32, seq![ArgModel::Uint64(nid), ArgModel::Uint32(v)])] + name_msg(nid, 1, name) + seq![
        (nid, 2u32, seq![ArgModel::Uint32(device_type.spec_to_u32())]),
    ] + iface_msgs(nid, caps, conn)
}

/// The messages creating one interface object per capability in `caps` on
/// device object `nid`, with IDs from `nid + 1` and the versions `conn`
/// negotiated.
pub open spec fn iface_msgs(nid: u64, caps: Seq<DeviceCapability>, conn: Connection) -> Seq<MessageModel> {
    Seq::new(
        caps.len(),
        |k: int|
            (
                nid,
                5u32,
                seq![
                    ArgModel::Uint64((nid + 1 + k) as u64),
                    ArgModel::String(Some(caps[k].spec_iface().spec_name()@)),
                    ArgModel::Uint32(conn.version_or_1(caps[k].spec_iface().spec_name()@)),
                ],
            ),
    )
}

proof fn lemma_iface_msgs_push(nid: u64, caps: Seq<DeviceCapability>, c: DeviceCapability, conn: Connection)
    ensures
        iface_msgs(nid, caps.push(c), conn) == iface_msgs(nid, caps, conn).push(
            (
                nid,
                5u32,
                seq![
                    ArgModel::Uint64((nid + 1 + caps.len()) as u64),
                    ArgModel::String(Some(c.spec_iface().spec_name()@)),
                    ArgModel::Uint32(conn.version_or_1(c.spec_iface().spec_name()@)),
                ],
            ),
        ),
{
    let a = iface_msgs(nid, caps.push(c), conn);
    let b = iface_msgs(nid, caps, conn);
    assert forall|j: int| 0 <= j < caps.len() implies #[trigger] a[j] == b[j] by {
        assert(caps.push(c)[j] == caps[j]);
    }
    assert(caps.push(c)[caps.len() as int] == c);
    assert(a =~= b.push(a[caps.len() as int]));
}

proof fn lemma_remove_keys_same<V>(a: Map<u64, V>, b: Map<u64, V>, x: u64, r: Set<u64>)
    requires
        a.remove(x) == b.remove(x),
        r.contains(x),
    ensures
        a.remove_keys(r) == b.remove_keys(r),
{
    assert forall|k: u64| #[trigger] a.remove_keys(r).contains_key(k) == b.remove_keys(r).contains_key(k) by {
        if k != x {
            assert(a.remove(x).contains_key(k) == a.contains_key(k));
            assert(b.remove(x).contains_key(k) == b.contains_key(k));
        }
    }
    assert forall|k: u64| #[trigger] a.remove_keys(r).contains_key(k) implies a.remove_keys(r)[k] == b.remove_keys(r)[k] by {
        assert(a.remove(x)[k] == a[k]);
        assert(b.remove(x)[k] == b[k]);
    }
    assert(a.remove_keys(r) =~= b.remove_keys(r));
}

proof fn lemma_remove_keys_grow<V>(a: Map<u64, V>, b: Map<u64, V>, r1: Set<u64>, r2: Set<u64>)
    requires
        a.remove_keys(r1) == b.remove_keys(r1),
        r1.subset_of(r2),
    ensures
        a.remove_keys(r2) == b.remove_keys(r2),
{
    assert forall|k: u64| #[trigger] a.remove_keys(r2).contains_key(k) == b.remove_keys(r2).contains_key(k) by {
        if !r2.contains(k) {
            assert(a.remove_keys(r1).contains_key(k) == a.contains_key(k));
            assert(b.remove_keys(r1).contains_key(k) == b.contains_key(k));
        }
    }
    assert forall|k: u64| #[trigger] a.remove_keys(r2).contains_key(k) implies a.remove_keys(r2)[k] == b.remove_keys(r2)[k] by {
        assert(a.remove_keys(r1)[k] == a[k]);
        assert(b.remove_keys(r1)[k] == b[k]);
    }
    assert(a.remove_keys(r2) =~= b.remove_keys(r2));
}

/// `ids` are the IDs from `start`, `n` of them.
pub open spec fn id_range(start: u64, n: nat) -> Set<u64> {
    Set::new(|id: u64| start <= id < start + n)
}

/// Creates the interface object of capability `c` on `device`, with the
/// version the connection negotiated for it, or 1.
fn add_interface<F>(c: DeviceCapability, device: &eis::Device, conn: &Connection, backend: &mut Backend<F>) -> (r: Object)
    requires
        conn.wf(),
        old(backend).next_id < u64::MAX,
    ensures
        sent_creating(
            *old(backend),
            *final(backend),
            device.0.id,
            5,
            seq![
                ArgModel::Uint64(old(backend).next_id),
                ArgModel::String(Some(c.spec_iface().spec_name()@)),
                ArgModel::Uint32(conn.version_or_1(c.spec_iface().spec_name()@)),
            ],
            Seq::empty(),
            c.spec_iface().spec_name()@,
            conn.version_or_1(c.spec_iface().spec_name()@),
            false,
        ),
        r.id == old(backend).next_id,
        r.interface@ == c.spec_iface().spec_name()@,
        r.version == conn.version_or_1(c.spec_iface().spec_name()@),
        r.client_side == old(backend).client,
{
    let version = match conn.interface_version(c.interface_name()) {
        Some(v) => v,
        None => 1,
    };
    match c {
        DeviceCapability::Pointer => device.interface::<F, eis::Pointer>(backend, version).0,
        DeviceCapability::PointerAbsolute => device.interface::<F, eis::PointerAbsolute>(backend, version).0,
        DeviceCapability::Keyboard => device.interface::<F, eis::Keyboard>(backend, version).0,
        DeviceCapability::Touch => device.interface::<F, eis::Touchscreen>(backend, version).0,
        DeviceCapability::Scroll => device.interface::<F, eis::Scroll>(backend, version).0,
        DeviceCapability::Button => device.interface::<F, eis::Button>(backend, version).0,
    }
}

impl Connection {
    /// Adds a seat to the connection: creates the `ei_seat` object with the
    /// negotiated version (or 1), sends its name, announces each capability
    /// whose interface was negotiated, with the capability's bit as its mask,
    /// and sends `done`.
    pub fn add_seat<F>(&mut self, backend: &mut Backend<F>, name: Option<&str>, capabilities: Capabilities) -> (r: Seat)
        requires
            old(self).wf(),
            old(backend).next_id < u64::MAX,
            crate::message::opt_str_fits(name),
        ensures
            ({
                let nid = old(backend).next_id;
                let v = old(self).version_or_1("ei_seat"@);
                let announced = capabilities.list().filter(
                    |c: DeviceCapability|
                        old(self).handshake_resp.negotiated_interfaces@.contains_key(c.spec_iface().spec_name()@),
                );
                &&& wrote(
                    *old(backend),
                    *final(backend),
                    add_seat_msgs(
                        old(self).handshake_resp.connection.0.id,
                        nid,
                        v,
                        crate::message::opt_str_view(name),
                        announced,
                    ),
                )
                &&& final(backend).next_id == nid + 1
                &&& final(backend).objects@.contains_key(nid)
                &&& final(backend).objects@[nid].interface@ == "ei_seat"@
                &&& final(backend).objects@[nid].version == v
                &&& final(backend).objects@.remove(nid) == old(backend).objects@.remove(nid)
                &&& r.seat.0.id == nid
                &&& r.seat.0.interface@ == "ei_seat"@
                &&& r.seat.0.version == v
                &&& r.seat.0.client_side == old(backend).client
                &&& crate::message::opt_string_view(r.name) == crate::message::opt_str_view(name)
                &&& r.advertised_capabilities == capabilities
                &&& final(self).seats@ == old(self).seats@.push(r)
                &&& final(self).devices == old(self).devices
                &&& final(self).handshake_resp == old(self).handshake_resp
                &&& final(self).last_serial == old(self).last_serial
                &&& final(self).disconnected == old(self).disconnected
            }),
    {
        let ghost b0 = *backend;
        let ghost nid = backend.next_id;
        let ghost cid = self.handshake_resp.connection.0.id;
        let seat_version = match self.interface_version("ei_seat") {
            Some(v) => v,
            None => 1,
        };
        let seat = self.handshake_resp.connection.seat(backend, seat_version);
        let ghost m0 = seq![(cid, 1u32, seq![ArgModel::Uint64(nid), ArgModel::Uint32(seat_version)])];
        proof {
            crate::message::lemma_created_wrote(
                b0,
                *backend,
                cid,
                1,
                seq![ArgModel::Uint64(nid), ArgModel::Uint32(seat_version)],
                "ei_seat"@,
                seat_version,
                false,
            );
        }
        let ghost b1 = *backend;
        match name {
            Some(n) => {
                seat.name(backend, n);
                proof {
                    crate::message::lemma_sent_wrote(b1, *backend, nid, 1, seq![ArgModel::String(Some(n@))]);
                    crate::message::lemma_wrote_concat(b0, b1, *backend, m0, name_msg(nid, 1, Some(n@)));
                }
            },
            None => {
                proof {
                    lemma_wrote_none(b1);
                    lemma_wrote_concat(b0, b1, *backend, m0, Seq::empty());
                }
            },
        }
        let ghost m1 = m0 + name_msg(nid, 1, crate::message::opt_str_view(name));
        let ghost b2 = *backend;
        let ghost neg = self.handshake_resp.negotiated_interfaces@;
        let ghost p = |c: DeviceCapability| neg.contains_key(c.spec_iface().spec_name()@);
        let ghost f = |c: DeviceCapability|
            (nid, 2u32, seq![ArgModel::Uint64(c.spec_bit()), ArgModel::String(Some(c.spec_iface().spec_name()@))]);
        let caps = capabilities.iter();
        proof {
            assert(caps@.take(0).filter(p) =~= Seq::<DeviceCapability>::empty());
            assert(m1 + caps@.take(0).filter(p).map_values(f) =~= m1);
        }
        let mut k: usize = 0;
        while k < caps.len()
            invariant
                k <= caps@.len(),
                self == old(self),
                self.wf(),
                neg == self.handshake_resp.negotiated_interfaces@,
                p == (|c: DeviceCapability| neg.contains_key(c.spec_iface().spec_name()@)),
                f == (|c: DeviceCapability|
                    (nid, 2u32, seq![ArgModel::Uint64(c.spec_bit()), ArgModel::String(Some(c.spec_iface().spec_name()@))])),
                seat.0.id == nid,
                wrote(b0, *backend, m1 + caps@.take(k as int).filter(p).map_values(f)),
                backend.next_id == b1.next_id,
                backend.objects == b1.objects,
            decreases caps@.len() - k,
        {
            let c = caps[k];
            let iname = c.interface_name();
            let ghost bk = *backend;
            let ghost before = caps@.take(k as int).filter(p);
            proof {
                assert(caps@.take(k + 1) =~= caps@.take(k as int).push(c));
                caps@.take(k as int).lemma_filter_push(c, p);
            }
            if self.has_interface(iname) {
                proof {
                    crate::protocol::lemma_name_len(c.spec_iface());
                    crate::protocol::lemma_encode_len(iname@);
                }
                seat.capability(backend, c.bit(), iname);
                proof {
                    crate::message::lemma_sent_wrote(
                        bk,
                        *backend,
                        nid,
                        2,
                        seq![ArgModel::Uint64(c.spec_bit()), ArgModel::String(Some(iname@))],
                    );
                    crate::message::lemma_wrote_more(
                        b0,
                        bk,
                        *backend,
                        m1 + before.map_values(f),
                        nid,
                        2,
                        seq![ArgModel::Uint64(c.spec_bit()), ArgModel::String(Some(iname@))],
                    );
                    assert((m1 + before.map_values(f)).push(f(c)) =~= m1 + before.push(c).map_values(f));
                }
            }
            k = k + 1;
        }
        let ghost b3 = *backend;
        seat.done(backend);
        proof {
            assert(caps@.take(k as int) =~= caps@);
            crate::message::lemma_sent_wrote(b3, *backend, nid, 3, Seq::empty());
            crate::message::lemma_wrote_more(b0, b3, *backend, m1 + caps@.filter(p).map_values(f), nid, 3, Seq::empty());
            assert((m1 + caps@.filter(p).map_values(f)).push((nid, 3u32, Seq::<ArgModel>::empty())) =~= add_seat_msgs(
                cid,
                nid,
                seat_version,
                crate::message::opt_str_view(name),
                capabilities.list().filter(p),
            ));
        }
        let seat_name = match name {
            Some(n) => Some(n.to_owned()),
            None => None,
        };
        let r = Seat { seat, name: seat_name, advertised_capabilities: capabilities };
        self.seats.push(r.clone());
        r
    }
}

impl Seat {
    /// Adds a device to the connection without finishing it: creates the
    /// `ei_device` object with the negotiated version (or 1), sends its name
    /// and type, and creates an interface object for each capability that
    /// the seat advertised; capabilities the seat did not advertise are
    /// ignored. The caller may send more about the device, and must then
    /// send `ei_device.done` on it.
    pub fn add_device_unfinished<F>(
        &self,
        conn: &mut Connection,
        backend: &mut Backend<F>,
        name: Option<&str>,
        device_type: DeviceType,
        capabilities: Capabilities,
    ) -> (r: Device)
        requires
            old(conn).wf(),
            old(backend).next_id + 7 <= u64::MAX,
            crate::message::opt_str_fits(name),
        ensures
            ({
                let nid = old(backend).next_id;
                let v = old(conn).version_or_1("ei_device"@);
                let caps = all_capabilities().filter(
                    |c: DeviceCapability| capabilities.has(c) && self.advertised_capabilities.has(c),
                );
                &&& wrote(
                    *old(backend),
                    *final(backend),
                    add_device_msgs(
                        self.seat.0.id,
                        nid,
                        v,
                        crate::message::opt_str_view(name),
                        device_type,
                        caps,
                        *old(conn),
                    ),
                )
                &&& final(backend).next_id == nid + 1 + caps.len()
                &&& final(backend).objects@.remove_keys(id_range(nid, caps.len() + 1)) == old(
                    backend,
                ).objects@.remove_keys(id_range(nid, caps.len() + 1))
                &&& final(backend).objects@.contains_key(nid)
                &&& final(backend).objects@[nid].interface@ == "ei_device"@
                &&& final(backend).objects@[nid].version == v
                &&& forall|k: int|
                    0 <= k < caps.len() ==> final(backend).objects@.contains_key((nid + 1 + k) as u64)
                        && final(backend).objects@[(nid + 1 + k) as u64].interface@ == (
                    #[trigger] caps[k]).spec_iface().spec_name()@
                        && final(backend).objects@[(nid + 1 + k) as u64].version == old(conn).version_or_1(
                        caps[k].spec_iface().spec_name()@,
                    )
                &&& r.device.0.id == nid
                &&& r.device.0.interface@ == "ei_device"@
                &&& r.device.0.version == v
                &&& r.device.0.client_side == old(backend).client
                &&& r.seat == *self
                &&& crate::message::opt_string_view(r.name) == crate::message::opt_str_view(name)
                &&& r.wf()
                &&& forall|k: int|
                    0 <= k < caps.len() ==> (r.interfaces.spec_get(#[trigger] caps[k]) matches Some(o) && o.id == nid + 1
                        + k && o.version == old(conn).version_or_1(caps[k].spec_iface().spec_name()@) && o.client_side
                        == old(backend).client)
                &&& forall|c: DeviceCapability| !caps.contains(c) ==> (#[trigger] r.interfaces.spec_get(c)) is None
                &&& final(conn).devices@.len() == old(conn).devices@.len() + 1
                &&& final(conn).devices@.drop_last() == old(conn).devices@
                &&& final(conn).devices@.last().device == r
                &&& final(conn).devices@.last().down_touch_ids@ == Set::<u32>::empty()
                &&& final(conn).seats == old(conn).seats
                &&& final(conn).handshake_resp == old(conn).handshake_resp
                &&& final(conn).last_serial == old(conn).last_serial
                &&& final(conn).disconnected == old(conn).disconnected
            }),
    {
        let ghost b0 = *backend;
        let ghost nid = backend.next_id;
        let ghost sid = self.seat.0.id;
        let device_version = match conn.interface_version("ei_device") {
            Some(v) => v,
            None => 1,
        };
        let device = self.seat.device(backend, device_version);
        let ghost m0 = seq![(sid, 4u32, seq![ArgModel::Uint64(nid), ArgModel::Uint32(device_version)])];
        proof {
            crate::message::lemma_created_wrote(
                b0,
                *backend,
                sid,
                4,
                seq![ArgModel::Uint64(nid), ArgModel::Uint32(device_version)],
                "ei_device"@,
                device_version,
                false,
            );
        }
        let ghost b1 = *backend;
        match name {
            Some(n) => {
                device.name(backend, n);
                proof {
                    crate::message::lemma_sent_wrote(b1, *backend, nid, 1, seq![ArgModel::String(Some(n@))]);
                    crate::message::lemma_wrote_concat(b0, b1, *backend, m0, name_msg(nid, 1, Some(n@)));
                }
            },
            None => {
                proof {
                    lemma_wrote_none(b1);
                    lemma_wrote_concat(b0, b1, *backend, m0, Seq::empty());
                }
            },
        }
        let ghost m1 = m0 + name_msg(nid, 1, crate::message::opt_str_view(name));
        let ghost b2 = *backend;
        device.device_type(backend, device_type);
        proof {
            crate::message::lemma_sent_wrote(b2, *backend, nid, 2, seq![ArgModel::Uint32(device_type.spec_to_u32())]);
            crate::message::lemma_wrote_more(b0, b2, *backend, m1, nid, 2, seq![ArgModel::Uint32(device_type.spec_to_u32())]);
        }
        let ghost m2 = m1.push((nid, 2u32, seq![ArgModel::Uint32(device_type.spec_to_u32())]));
        let ghost b3 = *backend;
        let ghost adv = self.advertised_capabilities;
        let ghost p = |c: DeviceCapability| capabilities.has(c) && adv.has(c);
        let ghost c0 = *conn;
        let caps = Capabilities::all().iter();
        proof {
            crate::capability::lemma_all_list();
        }
        let mut interfaces = Interfaces::new();
        proof {
            assert(caps@.take(0).filter(p) =~= Seq::<DeviceCapability>::empty());
            assert(m2 + iface_msgs(nid, caps@.take(0).filter(p), c0) =~= m2);
            assert(id_range(nid, 1) =~= set![nid]);
            assert(b3.objects@.remove_keys(set![nid]) =~= b3.objects@.remove(nid));
            assert(b0.objects@.remove_keys(set![nid]) =~= b0.objects@.remove(nid));
        }
        let mut k: usize = 0;
        while k < caps.len()
            invariant
                k <= caps@.len(),
                caps@ == all_capabilities(),
                nid + 7 <= u64::MAX,
                *conn == c0,
                conn.wf(),
                adv == self.advertised_capabilities,
                p == (|c: DeviceCapability| capabilities.has(c) && adv.has(c)),
                device.0.id == nid,
                wrote(b0, *backend, m2 + iface_msgs(nid, caps@.take(k as int).filter(p), c0)),
                caps@.take(k as int).filter(p).len() <= k,
                backend.next_id == nid + 1 + caps@.take(k as int).filter(p).len(),
                backend.objects@.remove_keys(id_range(nid, caps@.take(k as int).filter(p).len() + 1))
                    == b0.objects@.remove_keys(id_range(nid, caps@.take(k as int).filter(p).len() + 1)),
                backend.objects@.contains_key(nid),
                backend.objects@[nid].interface@ == "ei_device"@,
                backend.objects@[nid].version == device_version,
                forall|j: int|
                    0 <= j < caps@.take(k as int).filter(p).len() ==> backend.objects@.contains_key((nid + 1 + j) as u64)
                        && backend.objects@[(nid + 1 + j) as u64].interface@ == (#[trigger] caps@.take(k as int).filter(
                        p,
                    )[j]).spec_iface().spec_name()@ && backend.objects@[(nid + 1 + j) as u64].version == c0.version_or_1(
                        caps@.take(k as int).filter(p)[j].spec_iface().spec_name()@,
                    ),
                interfaces.wf(),
                forall|j: int|
                    0 <= j < caps@.take(k as int).filter(p).len() ==> (interfaces.spec_get(
                        #[trigger] caps@.take(k as int).filter(p)[j],
                    ) matches Some(o) && o.id == nid + 1 + j && o.version == c0.version_or_1(
                        caps@.take(k as int).filter(p)[j].spec_iface().spec_name()@,
                    ) && o.client_side == b0.client),
                forall|c: DeviceCapability| !caps@.take(k as int).filter(p).contains(c) ==> (#[trigger] interfaces.spec_get(c)) is None,
                backend.client == b0.client,
            decreases caps@.len() - k,
        {
            let c = caps[k];
            let ghost bk = *backend;
            let ghost before = caps@.take(k as int).filter(p);
            proof {
                assert(caps@.take(k + 1) =~= caps@.take(k as int).push(c));
                caps@.take(k as int).lemma_filter_push(c, p);
            }
            if capabilities.contains_capability(c) && self.advertised_capabilities.contains_capability(c) {
                let obj = add_interface(c, &device, conn, backend);
                proof {
                    crate::message::lemma_created_wrote(
                        bk,
                        *backend,
                        nid,
                        5,
                        seq![
                            ArgModel::Uint64(bk.next_id),
                            ArgModel::String(Some(c.spec_iface().spec_name()@)),
                            ArgModel::Uint32(c0.version_or_1(c.spec_iface().spec_name()@)),
                        ],
                        c.spec_iface().spec_name()@,
                        c0.version_or_1(c.spec_iface().spec_name()@),
                        false,
                    );
                    crate::message::lemma_wrote_more(
                        b0,
                        bk,
                        *backend,
                        m2 + iface_msgs(nid, before, c0),
                        nid,
                        5,
                        seq![
                            ArgModel::Uint64(bk.next_id),
                            ArgModel::String(Some(c.spec_iface().spec_name()@)),
                            ArgModel::Uint32(c0.version_or_1(c.spec_iface().spec_name()@)),
                        ],
                    );
                    let e = (
                        nid,
                        5u32,
                        seq![
                            ArgModel::Uint64(bk.next_id),
                            ArgModel::String(Some(c.spec_iface().spec_name()@)),
                            ArgModel::Uint32(c0.version_or_1(c.spec_iface().spec_name()@)),
                        ],
                    );
                    lemma_iface_msgs_push(nid, before, c, c0);
                    assert((m2 + iface_msgs(nid, before, c0)).push(e) =~= m2 + iface_msgs(nid, before, c0).push(e));
                    lemma_remove_keys_grow(bk.objects@, b0.objects@, id_range(nid, before.len() + 1), id_range(nid, before.len() + 2));
                    lemma_remove_keys_same(backend.objects@, bk.objects@, bk.next_id, id_range(nid, before.len() + 2));
                    let cur = before.push(c);
                    let nk = bk.next_id;
                    assert(nk != nid);
                    assert(bk.objects@.remove(nk).contains_key(nid));
                    assert(backend.objects@.remove(nk).contains_key(nid));
                    assert(backend.objects@.remove(nk)[nid] == bk.objects@.remove(nk)[nid]);
                    assert forall|j: int| 0 <= j < cur.len() implies backend.objects@.contains_key((nid + 1 + j) as u64)
                        && backend.objects@[(nid + 1 + j) as u64].interface@ == (#[trigger] cur[j]).spec_iface().spec_name()@
                        && backend.objects@[(nid + 1 + j) as u64].version == c0.version_or_1(cur[j].spec_iface().spec_name()@) by {
                        if j < before.len() {
                            let key = (nid + 1 + j) as u64;
                            assert(cur[j] == before[j]);
                            assert(bk.objects@.contains_key(key));
                            assert(key != nk);
                            assert(bk.objects@.remove(nk).contains_key(key));
                            assert(backend.objects@.remove(nk).contains_key(key));
                            assert(backend.objects@.remove(nk)[key] == bk.objects@.remove(nk)[key]);
                        } else {
                            assert(cur[j] == c);
                            assert((nid + 1 + j) as u64 == nk);
                        }
                    }
                    assert(!before.contains(c)) by {
                        if before.contains(c) {
                            caps@.take(k as int).lemma_filter_contains_rev(p, c);
                            let j = choose|j: int| 0 <= j < k && caps@.take(k as int)[j] == c;
                            crate::capability::lemma_all_distinct(j, k as int);
                        }
                    }
                }
                interfaces.set(c, obj);
                proof {
                    let cur = before.push(c);
                    assert forall|j: int| 0 <= j < cur.len() implies (interfaces.spec_get(#[trigger] cur[j]) matches Some(
                        o,
                    ) && o.id == nid + 1 + j && o.version == c0.version_or_1(cur[j].spec_iface().spec_name()@)
                        && o.client_side == b0.client) by {
                        if j < before.len() {
                            assert(cur[j] == before[j]);
                            assert(before.contains(before[j]));
                        }
                    }
                    assert forall|d: DeviceCapability| !cur.contains(d) implies (#[trigger] interfaces.spec_get(d)) is None by {
                        assert(!before.contains(d)) by {
                            if before.contains(d) {
                                let j = choose|j: int| 0 <= j < before.len() && before[j] == d;
                                assert(cur[j] == d);
                            }
                        }
                        assert(d != c) by {
                            assert(cur[before.len() as int] == c);
                        }
                    }
                }
            } else {
                proof {
                    assert(caps@.take(k + 1).filter(p) == before);
                }
            }
            k = k + 1;
        }
        proof {
            assert(caps@.take(k as int) =~= caps@);
            assert(p =~= (|c: DeviceCapability| capabilities.has(c) && self.advertised_capabilities.has(c)));
            assert(m2 + iface_msgs(nid, caps@.filter(p), c0) =~= add_device_msgs(
                sid,
                nid,
                device_version,
                crate::message::opt_str_view(name),
                device_type,
                caps@.filter(p),
                c0,
            ));
        }
        let device_name = match name {
            Some(n) => Some(n.to_owned()),
            None => None,
        };
        let r = Device { device, seat: self.clone(), name: device_name, interfaces };
        conn.devices.push(DeviceState { device: r.clone(), down_touch_ids: HashSet::new() });
        proof {
            assert(conn.devices@.drop_last() =~= c0.devices@);
        }
        r
    }
}

impl Seat {
    /// Adds a device to the connection, as [`Seat::add_device_unfinished`]
    /// does, then sends `ei_device.done` on it.
    pub fn add_device<F>(
        &self,
        conn: &mut Connection,
        backend: &mut Backend<F>,
        name: Option<&str>,
        device_type: DeviceType,
        capabilities: Capabilities,
    ) -> (r: Device)
        requires
            old(conn).wf(),
            old(backend).next_id + 7 <= u64::MAX,
            crate::message::opt_str_fits(name),
        ensures
            ({
                let nid = old(backend).next_id;
                let v = old(conn).version_or_1("ei_device"@);
                let caps = all_capabilities().filter(
                    |c: DeviceCapability| capabilities.has(c) && self.advertised_capabilities.has(c),
                );
                &&& wrote(
                    *old(backend),
                    *final(backend),
                    add_device_msgs(
                        self.seat.0.id,
                        nid,
                        v,
                        crate::message::opt_str_view(name),
                        device_type,
                        caps,
                        *old(conn),
                    ).push((nid, 6u32, Seq::<ArgModel>::empty())),
                )
                &&& final(backend).next_id == nid + 1 + caps.len()
                &&& final(backend).objects@.remove_keys(id_range(nid, caps.len() + 1)) == old(
                    backend,
                ).objects@.remove_keys(id_range(nid, caps.len() + 1))
                &&& final(backend).objects@.contains_key(nid)
                &&& final(backend).objects@[nid].interface@ == "ei_device"@
                &&& final(backend).objects@[nid].version == v
                &&& forall|k: int|
                    0 <= k < caps.len() ==> final(backend).objects@.contains_key((nid + 1 + k) as u64)
                        && final(backend).objects@[(nid + 1 + k) as u64].interface@ == (
                    #[trigger] caps[k]).spec_iface().spec_name()@
                        && final(backend).objects@[(nid + 1 + k) as u64].version == old(conn).version_or_1(
                        caps[k].spec_iface().spec_name()@,
                    )
                &&& r.device.0.id == nid
                &&& r.device.0.interface@ == "ei_device"@
                &&& r.device.0.version == v
                &&& r.device.0.client_side == old(backend).client
                &&& r.seat == *self
                &&& crate::message::opt_string_view(r.name) == crate::message::opt_str_view(name)
                &&& r.wf()
                &&& forall|k: int|
                    0 <= k < caps.len() ==> (r.interfaces.spec_get(#[trigger] caps[k]) matches Some(o) && o.id == nid + 1
                        + k && o.version == old(conn).version_or_1(caps[k].spec_iface().spec_name()@) && o.client_side
                        == old(backend).client)
                &&& forall|c: DeviceCapability| !caps.contains(c) ==> (#[trigger] r.interfaces.spec_get(c)) is None
                &&& final(conn).devices@.len() == old(conn).devices@.len() + 1
                &&& final(conn).devices@.drop_last() == old(conn).devices@
                &&& final(conn).devices@.last().device == r
                &&& final(conn).devices@.last().down_touch_ids@ == Set::<u32>::empty()
                &&& final(conn).seats == old(conn).seats
                &&& final(conn).handshake_resp == old(conn).handshake_resp
                &&& final(conn).last_serial == old(conn).last_serial
                &&& final(conn).disconnected == old(conn).disconnected
            }),
    {
        let ghost b0 = *backend;
        let r = self.add_device_unfinished(conn, backend, name, device_type, capabilities);
        let ghost b1 = *backend;
        r.device.done(backend);
        proof {
            crate::message::lemma_sent_wrote(b1, *backend, r.device.0.id, 6, Seq::empty());
            crate::message::lemma_wrote_more(
                b0,
                b1,
                *backend,
                add_device_msgs(
                    self.seat.0.id,
                    b0.next_id,
                    old(conn).version_or_1("ei_device"@),
                    crate::message::opt_str_view(name),
                    device_type,
                    all_capabilities().filter(
                        |c: DeviceCapability| capabilities.has(c) && self.advertised_capabilities.has(c),
                    ),
                    *old(conn),
                ),
                r.device.0.id,
                6,
                Seq::empty(),
            );
        }
        r
    }
}

impl Device {
    /// Notifies the client that the device is resumed, with the next serial.
    pub fn resumed<F>(&self, conn: &mut Connection, backend: &mut Backend<F>)
        ensures
            *final(conn) == (Connection { last_serial: old(conn).last_serial.wrapping_add(1), ..*old(conn) }),
            sent(
                *old(backend),
                *final(backend),
                self.device.0.id,
                7,
                seq![ArgModel::Uint32(old(conn).last_serial.wrapping_add(1))],
                Seq::empty(),
            ),
    {
        let serial = conn.next_serial();
        self.device.resumed(backend, serial);
    }

    /// Notifies the client that the device is paused, with the next serial,
    /// and forgets the device's touches that are down.
    pub fn paused<F>(&self, conn: &mut Connection, backend: &mut Backend<F>)
        ensures
            final(conn).last_serial == old(conn).last_serial.wrapping_add(1),
            final(conn).handshake_resp == old(conn).handshake_resp,
            final(conn).seats == old(conn).seats,
            final(conn).disconnected == old(conn).disconnected,
            match old(conn).device_index(self.device.0.id) {
                Some(i) => with_touches(
                    Connection { last_serial: final(conn).last_serial, ..*old(conn) },
                    *final(conn),
                    i,
                    Set::empty(),
                ),
                None => final(conn).devices == old(conn).devices,
            },
            sent(
                *old(backend),
                *final(backend),
                self.device.0.id,
                8,
                seq![ArgModel::Uint32(old(conn).last_serial.wrapping_add(1))],
                Seq::empty(),
            ),
    {
        let serial = conn.next_serial();
        self.device.paused(backend, serial);
        match conn.find_device(self.device.0.id) {
            Some(i) => {
                let mut ds = conn.devices.remove(i);
                ds.down_touch_ids = HashSet::new();
                conn.devices.insert(i, ds);
                proof {
                    let o = old(conn).devices@;
                    assert forall|j: int| 0 <= j < o.len() && j != i implies #[trigger] conn.devices@[j] == o[j] by {
                        if j > i {
                            assert(conn.devices@[j] == o.remove(i as int)[j - 1]);
                        }
                    }
                }
            },
            None => {},
        }
    }

    /// Notifies the client that the device is about to start sending
    /// events, with the next serial and `sequence`.
    pub fn start_emulating<F>(&self, conn: &mut Connection, backend: &mut Backend<F>, sequence: u32)
        ensures
            *final(conn) == (Connection { last_serial: old(conn).last_serial.wrapping_add(1), ..*old(conn) }),
            sent(
                *old(backend),
                *final(backend),
                self.device.0.id,
                9,
                seq![ArgModel::Uint32(old(conn).last_serial.wrapping_add(1)), ArgModel::Uint32(sequence)],
                Seq::empty(),
            ),
    {
        let serial = conn.next_serial();
        self.device.start_emulating(backend, serial, sequence);
    }

    /// Notifies the client that the device is no longer sending events, with
    /// the next serial.
    pub fn stop_emulating<F>(&self, conn: &mut Connection, backend: &mut Backend<F>)
        ensures
            *final(conn) == (Connection { last_serial: old(conn).last_serial.wrapping_add(1), ..*old(conn) }),
            sent(
                *old(backend),
                *final(backend),
                self.device.0.id,
                10,
                seq![ArgModel::Uint32(old(conn).last_serial.wrapping_add(1))],
                Seq::empty(),
            ),
    {
        let serial = conn.next_serial();
        self.device.stop_emulating(backend, serial);
    }

    /// Notifies the client to group the current events into one logical
    /// hardware event at `time`, with the next serial.
    pub fn frame<F>(&self, conn: &mut Connection, backend: &mut Backend<F>, time: u64)
        ensures
            *final(conn) == (Connection { last_serial: old(conn).last_serial.wrapping_add(1), ..*old(conn) }),
            sent(
                *old(backend),
                *final(backend),
                self.device.0.id,
                11,
                seq![ArgModel::Uint32(old(conn).last_serial.wrapping_add(1)), ArgModel::Uint64(time)],
                Seq::empty(),
            ),
    {
        let serial = conn.next_serial();
        self.device.frame(backend, serial, time);
    }
}

/// The result is `Ok`, `q` waits for the device's next frame after the
/// requests already waiting, and the ready requests stay as they were.
pub open spec fn waits_for_frame(old: EisRequestConverter, new: EisRequestConverter, r: Result<(), Error>, q: EisRequest) -> bool {
    &&& r is Ok
    &&& new.pending_requests@ == old.pending_requests@.push(q)
    &&& new.requests@ == old.requests@
}

/// Input requests carry the client's values through: on an input object of
/// a device of the connection, each input request waits for the device's
/// next frame as the high-level request of that device with the request's
/// own values in their own places (the `x` of the request as the `x` of
/// the result, and so on).
#[verifier::rlimit(80)]
#[verifier::spinoff_prover]
pub proof fn law_input_values_kept<F>(
    old: EisRequestConverter,
    new: EisRequestConverter,
    ob: Backend<F>,
    nb: Backend<F>,
    request: eis::Request,
    r: Result<(), Error>,
)
    requires
        request_post(old, new, ob, nb, request, r),
    ensures
        request matches eis::Request::Pointer(p, eis::pointer::Request::MotionRelative { x, y }) ==> (old.connection.interface_device(
            p.0.id,
        ) matches Some(d) ==> waits_for_frame(old, new, r, EisRequest::PointerMotion(PointerMotion { device: d, time: 0, dx: x, dy: y }))),
        request matches eis::Request::PointerAbsolute(p, eis::pointer_absolute::Request::MotionAbsolute { x, y })
            ==> (old.connection.interface_device(p.0.id) matches Some(d) ==> waits_for_frame(
            old,
            new,
            r,
            EisRequest::PointerMotionAbsolute(PointerMotionAbsolute { device: d, time: 0, dx_absolute: x, dy_absolute: y }),
        )),
        request matches eis::Request::Scroll(p, eis::scroll::Request::Scroll { x, y }) ==> (old.connection.interface_device(
            p.0.id,
        ) matches Some(d) ==> waits_for_frame(old, new, r, EisRequest::ScrollDelta(ScrollDelta { device: d, time: 0, dx: x, dy: y }))),
        request matches eis::Request::Scroll(p, eis::scroll::Request::ScrollDiscrete { x, y }) ==> (old.connection.interface_device(
            p.0.id,
        ) matches Some(d) ==> waits_for_frame(
            old,
            new,
            r,
            EisRequest::ScrollDiscrete(ScrollDiscrete { device: d, time: 0, discrete_dx: x, discrete_dy: y }),
        )),
        request matches eis::Request::Scroll(p, eis::scroll::Request::ScrollStop { x, y, is_cancel }) ==> (old.connection.interface_device(
            p.0.id,
        ) matches Some(d) ==> waits_for_frame(
            old,
            new,
            r,
            if is_cancel == 0 {
                EisRequest::ScrollStop(ScrollStop { device: d, time: 0, x: x != 0, y: y != 0 })
            } else {
                EisRequest::ScrollCancel(ScrollCancel { device: d, time: 0, x: x != 0, y: y != 0 })
            },
        )),
        request matches eis::Request::Button(p, eis::button::Request::Button { button, state }) ==> (old.connection.interface_device(
            p.0.id,
        ) matches Some(d) ==> waits_for_frame(old, new, r, EisRequest::Button(Button { device: d, time: 0, button, state }))),
        request matches eis::Request::Keyboard(p, eis::keyboard::Request::Key { key, state }) ==> (old.connection.interface_device(
            p.0.id,
        ) matches Some(d) ==> waits_for_frame(old, new, r, EisRequest::KeyboardKey(KeyboardKey { device: d, time: 0, key, state }))),
        request matches eis::Request::Touchscreen(p, eis::touchscreen::Request::Down { touchid, x, y }) ==> (old.connection.interface_device(
            p.0.id,
        ) matches Some(d) ==> (touches_of(old.connection, p.0.id) matches Some(t) && t.len() != EIS_MAX_TOUCHES
            && !t.contains(touchid) ==> waits_for_frame(
            old,
            new,
            r,
            EisRequest::TouchDown(TouchDown { device: d, time: 0, touch_id: touchid, x, y }),
        ))),
        request matches eis::Request::Touchscreen(p, eis::touchscreen::Request::Motion { touchid, x, y }) ==> (old.connection.interface_device(
            p.0.id,
        ) matches Some(d) ==> (touches_of(old.connection, p.0.id) matches Some(t) && t.contains(touchid) ==> waits_for_frame(
            old,
            new,
            r,
            EisRequest::TouchMotion(TouchMotion { device: d, time: 0, touch_id: touchid, x, y }),
        ))),
        request matches eis::Request::Touchscreen(p, eis::touchscreen::Request::Up { touchid }) ==> (old.connection.interface_device(
            p.0.id,
        ) matches Some(d) ==> (touches_of(old.connection, p.0.id) matches Some(t) && t.contains(touchid) ==> waits_for_frame(
            old,
            new,
            r,
            EisRequest::TouchUp(TouchUp { device: d, time: 0, touch_id: touchid }),
        ))),
{
    match request {
        eis::Request::Pointer(p, q) => {
            assert(pointer_post(old, new, ob, nb, p, q, r));
            if let Some(d) = old.connection.interface_device(p.0.id) {
                if let eis::pointer::Request::MotionRelative { x, y } = q {
                    lemma_waits(old, new, ob, nb, r, EisRequest::PointerMotion(PointerMotion { device: d, time: 0, dx: x, dy: y }));
                }
            }
        },
        eis::Request::PointerAbsolute(p, q) => {
            assert(pointer_absolute_post(old, new, ob, nb, p, q, r));
            if let Some(d) = old.connection.interface_device(p.0.id) {
                if let eis::pointer_absolute::Request::MotionAbsolute { x, y } = q {
                    lemma_waits(
                        old,
                        new,
                        ob,
                        nb,
                        r,
                        EisRequest::PointerMotionAbsolute(PointerMotionAbsolute { device: d, time: 0, dx_absolute: x, dy_absolute: y }),
                    );
                }
            }
        },
        eis::Request::Scroll(p, q) => {
            assert(scroll_post(old, new, ob, nb, p, q, r));
            if let Some(d) = old.connection.interface_device(p.0.id) {
                match q {
                    eis::scroll::Request::Scroll { x, y } => {
                        lemma_waits(old, new, ob, nb, r, EisRequest::ScrollDelta(ScrollDelta { device: d, time: 0, dx: x, dy: y }));
                    },
                    eis::scroll::Request::ScrollDiscrete { x, y } => {
                        lemma_waits(
                            old,
                            new,
                            ob,
                            nb,
                            r,
                            EisRequest::ScrollDiscrete(ScrollDiscrete { device: d, time: 0, discrete_dx: x, discrete_dy: y }),
                        );
                    },
                    eis::scroll::Request::ScrollStop { x, y, is_cancel } => {
                        if is_cancel == 0 {
                            lemma_waits(old, new, ob, nb, r, EisRequest::ScrollStop(ScrollStop { device: d, time: 0, x: x != 0, y: y != 0 }));
                        } else {
                            lemma_waits(old, new, ob, nb, r, EisRequest::ScrollCancel(ScrollCancel { device: d, time: 0, x: x != 0, y: y != 0 }));
                        }
                    },
                    _ => {},
                }
            }
        },
        eis::Request::Button(p, q) => {
            assert(button_post(old, new, ob, nb, p, q, r));
            if let Some(d) = old.connection.interface_device(p.0.id) {
                if let eis::button::Request::Button { button, state } = q {
                    lemma_waits(old, new, ob, nb, r, EisRequest::Button(Button { device: d, time: 0, button, state }));
                }
            }
        },
        eis::Request::Keyboard(p, q) => {
            assert(keyboard_post(old, new, ob, nb, p, q, r));
            if let Some(d) = old.connection.interface_device(p.0.id) {
                if let eis::keyboard::Request::Key { key, state } = q {
                    lemma_waits(old, new, ob, nb, r, EisRequest::KeyboardKey(KeyboardKey { device: d, time: 0, key, state }));
                }
            }
        },
        eis::Request::Touchscreen(p, q) => {
            assert(touchscreen_post(old, new, ob, nb, p, q, r));
            if let Some(d) = old.connection.interface_device(p.0.id) {
                match q {
                    eis::touchscreen::Request::Down { touchid, x, y } => {
                        let e = EisRequest::TouchDown(TouchDown { device: d, time: 0, touch_id: touchid, x, y });
                        assert(e.spec_is_timed());
                        if touches_of(old.connection, p.0.id) matches Some(t) && t.len() != EIS_MAX_TOUCHES && !t.contains(touchid) {
                            let w = choose|now: u64|
                                (new.requests@, new.pending_requests@) == queue(old.requests@, old.pending_requests@, e, now, old.connection.last_serial);
                            assert((new.requests@, new.pending_requests@) == queue(old.requests@, old.pending_requests@, e, w, old.connection.last_serial));
                        }
                    },
                    eis::touchscreen::Request::Motion { touchid, x, y } => {
                        if touches_of(old.connection, p.0.id) matches Some(t) && t.contains(touchid) {
                            lemma_waits(old, new, ob, nb, r, EisRequest::TouchMotion(TouchMotion { device: d, time: 0, touch_id: touchid, x, y }));
                        }
                    },
                    eis::touchscreen::Request::Up { touchid } => {
                        let e = EisRequest::TouchUp(TouchUp { device: d, time: 0, touch_id: touchid });
                        assert(e.spec_is_timed());
                        if touches_of(old.connection, p.0.id) matches Some(t) && t.contains(touchid) {
                            let w = choose|now: u64|
                                (new.requests@, new.pending_requests@) == queue(old.requests@, old.pending_requests@, e, now, old.connection.last_serial);
                            assert((new.requests@, new.pending_requests@) == queue(old.requests@, old.pending_requests@, e, w, old.connection.last_serial));
                        }
                    },
                    _ => {},
                }
            }
        },
        _ => {},
    }
}

/// A converted input request waits for the device's next frame.
proof fn lemma_waits<F>(
    old: EisRequestConverter,
    new: EisRequestConverter,
    ob: Backend<F>,
    nb: Backend<F>,
    r: Result<(), Error>,
    q: EisRequest,
)
    requires
        converted(old, new, ob, nb, r, q),
        q.spec_is_timed(),
    ensures
        waits_for_frame(old, new, r, q),
{
    let w = choose|now: u64|
        (new.requests@, new.pending_requests@) == queue(old.requests@, old.pending_requests@, q, now, old.connection.last_serial);
    assert((new.requests@, new.pending_requests@) == queue(old.requests@, old.pending_requests@, q, w, old.connection.last_serial));
}

/// A frame gives each waiting request the frame's time and changes nothing
/// else of it.
pub proof fn law_timed_at_keeps_values(q: EisRequest, t: u64)
    ensures
        q matches EisRequest::PointerMotion(m) ==> q.timed_at(t) == EisRequest::PointerMotion(
            PointerMotion { device: m.device, time: t, dx: m.dx, dy: m.dy },
        ),
        q matches EisRequest::PointerMotionAbsolute(m) ==> q.timed_at(t) == EisRequest::PointerMotionAbsolute(
            PointerMotionAbsolute { device: m.device, time: t, dx_absolute: m.dx_absolute, dy_absolute: m.dy_absolute },
        ),
        q matches EisRequest::ScrollDelta(m) ==> q.timed_at(t) == EisRequest::ScrollDelta(
            ScrollDelta { device: m.device, time: t, dx: m.dx, dy: m.dy },
        ),
        q matches EisRequest::ScrollDiscrete(m) ==> q.timed_at(t) == EisRequest::ScrollDiscrete(
            ScrollDiscrete { device: m.device, time: t, discrete_dx: m.discrete_dx, discrete_dy: m.discrete_dy },
        ),
        q matches EisRequest::ScrollStop(m) ==> q.timed_at(t) == EisRequest::ScrollStop(
            ScrollStop { device: m.device, time: t, x: m.x, y: m.y },
        ),
        q matches EisRequest::ScrollCancel(m) ==> q.timed_at(t) == EisRequest::ScrollCancel(
            ScrollCancel { device: m.device, time: t, x: m.x, y: m.y },
        ),
        q matches EisRequest::Button(m) ==> q.timed_at(t) == EisRequest::Button(
            Button { device: m.device, time: t, button: m.button, state: m.state },
        ),
        q matches EisRequest::KeyboardKey(m) ==> q.timed_at(t) == EisRequest::KeyboardKey(
            KeyboardKey { device: m.device, time: t, key: m.key, state: m.state },
        ),
        q matches EisRequest::TouchDown(m) ==> q.timed_at(t) == EisRequest::TouchDown(
            TouchDown { device: m.device, time: t, touch_id: m.touch_id, x: m.x, y: m.y },
        ),
        q matches EisRequest::TouchMotion(m) ==> q.timed_at(t) == EisRequest::TouchMotion(
            TouchMotion { device: m.device, time: t, touch_id: m.touch_id, x: m.x, y: m.y },
        ),
        q matches EisRequest::TouchUp(m) ==> q.timed_at(t) == EisRequest::TouchUp(
            TouchUp { device: m.device, time: t, touch_id: m.touch_id },
        ),
        q matches EisRequest::TouchCancel(m) ==> q.timed_at(t) == EisRequest::TouchCancel(
            TouchCancel { device: m.device, time: t, touch_id: m.touch_id },
        ),
{
}

/// Device requests carry the client's values through: on a device of the
/// connection, `start_emulating` comes out last with its serial and
/// sequence in their places, and a frame that ends a group comes out last
/// with its serial and its timestamp as its time.
#[verifier::rlimit(80)]
#[verifier::spinoff_prover]
pub proof fn law_device_values_kept<F>(
    old: EisRequestConverter,
    new: EisRequestConverter,
    ob: Backend<F>,
    nb: Backend<F>,
    dev: eis::Device,
    request: eis::device::Request,
    r: Result<(), Error>,
)
    requires
        request_post(old, new, ob, nb, eis::Request::Device(dev, request), r),
    ensures
        old.connection.device_index(dev.0.id) matches Some(i) ==> {
            let d = old.connection.devices@[i].device;
            &&& request matches eis::device::Request::StartEmulating { last_serial, sequence } ==> r is Ok
                && new.requests@.last() == EisRequest::DeviceStartEmulating(
                DeviceStartEmulating { device: d, last_serial, sequence },
            )
            &&& request matches eis::device::Request::Frame { last_serial, timestamp } ==> (old.pending_requests@.len()
                > 0 ==> r is Ok && new.requests@.last() == EisRequest::Frame(Frame { device: d, last_serial, time: timestamp }))
        },
{
    if let Some(i) = old.connection.device_index(dev.0.id) {
        let d = old.connection.devices@[i].device;
        assert(device_post(old, new, ob, nb, dev, request, r));
        match request {
            eis::device::Request::StartEmulating { last_serial, sequence } => {
                let q = EisRequest::DeviceStartEmulating(DeviceStartEmulating { device: d, last_serial, sequence });
                let w = choose|now: u64|
                    (new.requests@, new.pending_requests@) == queue(old.requests@, old.pending_requests@, q, now, old.connection.last_serial);
                assert((new.requests@, new.pending_requests@) == queue(old.requests@, old.pending_requests@, q, w, old.connection.last_serial));
            },
            eis::device::Request::Frame { last_serial, timestamp } => {
                let q = EisRequest::Frame(Frame { device: d, last_serial, time: timestamp });
                let w = choose|now: u64|
                    (new.requests@, new.pending_requests@) == queue(old.requests@, old.pending_requests@, q, now, old.connection.last_serial);
                assert((new.requests@, new.pending_requests@) == queue(old.requests@, old.pending_requests@, q, w, old.connection.last_serial));
            },
            _ => {},
        }
    }
}

} // verus!
