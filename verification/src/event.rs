//! High-level client-side wrappers for seats and devices, and the events a
//! client receives about them.
use crate::arg::{ArgModel, ParseError};
use crate::backend::{frame_of, Backend, Object};
use crate::capability::{all_capabilities, capability_of, capability_of_iface, capability_of_name, Capabilities, DeviceCapability};
use crate::ei;
use crate::enums::{ButtonState, DeviceType, KeyState, KeymapType};
use crate::message::{sent, sent_destroying, Incoming, PendingRequestResult, WireMessage};
use crate::protocol::{receive_post, Iface, Interface, Outcome, Side};
use crate::request::{lemma_list_upto_all, list_upto, opt_seq, Interfaces};
use crate::search::{first_index, lemma_first_index, lemma_first_index_in, lemma_first_index_same, lemma_no_index};
use std::collections::VecDeque;
use vstd::string::StringExecFns;
use std::sync::Arc;
use vstd::prelude::*;

verus! {

/// Protocol errors of the server, seen by the client.
#[derive(Clone, Copy, Debug, PartialEq, Eq, Structural)]
pub enum Error {
    DeviceEventBeforeDone,
    DeviceSetupEventAfterDone,
    SeatSetupEventAfterDone,
    SeatEventBeforeDone,
    NoDeviceType,
    UnexpectedHandshakeEvent,
}

impl Error {
    /// The message of the error.
    pub open spec fn spec_message(&self) -> Seq<char> {
        match self {
            Error::DeviceEventBeforeDone => "device event before done"@,
            Error::DeviceSetupEventAfterDone => "device setup event after done"@,
            Error::SeatSetupEventAfterDone => "seat setup event after done"@,
            Error::SeatEventBeforeDone => "seat event before done"@,
            Error::NoDeviceType => "no device"@,
            Error::UnexpectedHandshakeEvent => "unexpected handshake event"@,
        }
    }

    /// Returns the message of the error.
    pub fn to_string(&self) -> (r: String)
        ensures
            r@ == self.spec_message(),
    {
        String::from_str(match self {
            Error::DeviceEventBeforeDone => "device event before done",
            Error::DeviceSetupEventAfterDone => "device setup event after done",
            Error::SeatSetupEventAfterDone => "seat setup event after done",
            Error::SeatEventBeforeDone => "seat event before done",
            Error::NoDeviceType => "no device",
            Error::UnexpectedHandshakeEvent => "unexpected handshake event",
        })
    }
}

/// `Arc::clone`: the contract claims that the clone points to the same
/// value, which is what spec equality of `Arc`s compares.
#[verifier::external_body]
fn share<T>(a: &Arc<T>) -> (r: Arc<T>)
    ensures
        r == *a,
{
    a.clone()
}

/// The masks a seat announced for the capabilities, by capability.
#[derive(Clone, Copy, Debug, PartialEq, Eq, Structural)]
pub struct CapabilityMasks {
    pub pointer: Option<u64>,
    pub pointer_absolute: Option<u64>,
    pub keyboard: Option<u64>,
    pub touch: Option<u64>,
    pub scroll: Option<u64>,
    pub button: Option<u64>,
}

/// No mask for any capability.
pub open spec fn no_masks() -> CapabilityMasks {
    CapabilityMasks { pointer: None, pointer_absolute: None, keyboard: None, touch: None, scroll: None, button: None }
}

impl CapabilityMasks {
    /// The mask of capability `c`, if the seat announced one.
    pub open spec fn spec_get(self, c: DeviceCapability) -> Option<u64> {
        match c {
            DeviceCapability::Pointer => self.pointer,
            DeviceCapability::PointerAbsolute => self.pointer_absolute,
            DeviceCapability::Keyboard => self.keyboard,
            DeviceCapability::Touch => self.touch,
            DeviceCapability::Scroll => self.scroll,
            DeviceCapability::Button => self.button,
        }
    }

    /// No mask.
    pub fn new() -> (r: Self)
        ensures
            r == no_masks(),
            forall|c: DeviceCapability| (#[trigger] r.spec_get(c)) is None,
    {
        CapabilityMasks { pointer: None, pointer_absolute: None, keyboard: None, touch: None, scroll: None, button: None }
    }

    /// Returns the mask of capability `c`, if any.
    pub fn get(&self, c: DeviceCapability) -> (r: Option<u64>)
        ensures
            r == self.spec_get(c),
    {
        match c {
            DeviceCapability::Pointer => self.pointer,
            DeviceCapability::PointerAbsolute => self.pointer_absolute,
            DeviceCapability::Keyboard => self.keyboard,
            DeviceCapability::Touch => self.touch,
            DeviceCapability::Scroll => self.scroll,
            DeviceCapability::Button => self.button,
        }
    }

    /// The masks with `mask` for capability `c`.
    pub open spec fn spec_set(self, c: DeviceCapability, mask: u64) -> Self {
        match c {
            DeviceCapability::Pointer => CapabilityMasks { pointer: Some(mask), ..self },
            DeviceCapability::PointerAbsolute => CapabilityMasks { pointer_absolute: Some(mask), ..self },
            DeviceCapability::Keyboard => CapabilityMasks { keyboard: Some(mask), ..self },
            DeviceCapability::Touch => CapabilityMasks { touch: Some(mask), ..self },
            DeviceCapability::Scroll => CapabilityMasks { scroll: Some(mask), ..self },
            DeviceCapability::Button => CapabilityMasks { button: Some(mask), ..self },
        }
    }

    /// Sets the mask of capability `c`.
    pub fn set(&mut self, c: DeviceCapability, mask: u64)
        ensures
            *final(self) == old(self).spec_set(c, mask),
            final(self).spec_get(c) == Some(mask),
            forall|d: DeviceCapability| d != c ==> #[trigger] final(self).spec_get(d) == old(self).spec_get(d),
    {
        match c {
            DeviceCapability::Pointer => self.pointer = Some(mask),
            DeviceCapability::PointerAbsolute => self.pointer_absolute = Some(mask),
            DeviceCapability::Keyboard => self.keyboard = Some(mask),
            DeviceCapability::Touch => self.touch = Some(mask),
            DeviceCapability::Scroll => self.scroll = Some(mask),
            DeviceCapability::Button => self.button = Some(mask),
        }
    }
}

/// What the client knows of a seat.
#[derive(Debug)]
pub struct SeatInner {
    /// The proxy for the `ei_seat` object.
    pub seat: ei::Seat,
    /// The seat's name, once the server sent it.
    pub name: Option<String>,
    /// The masks the server announced for the capabilities it knows; masks
    /// of interfaces that name no capability are never read, and not kept.
    pub capabilities: CapabilityMasks,
}

/// High-level client-side wrapper for `ei_seat`.
#[derive(Debug)]
pub struct Seat(pub Arc<SeatInner>);

impl Clone for Seat {
    fn clone(&self) -> (r: Self)
        ensures
            r == *self,
    {
        Seat(share(&self.0))
    }
}

/// The bits of the masks `masks` has for the capabilities `caps`, or-ed.
pub open spec fn masks_of(masks: CapabilityMasks, caps: Seq<DeviceCapability>) -> u64
    decreases caps.len(),
{
    if caps.len() == 0 {
        0
    } else {
        let rest = masks_of(masks, caps.drop_last());
        match masks.spec_get(caps.last()) {
            Some(m) => rest | m,
            None => rest,
        }
    }
}

impl Seat {
    /// Returns the seat's name, if the server sent one.
    pub fn name(&self) -> (r: Option<&str>)
        ensures
            match r {
                Some(n) => self.0.name matches Some(m) && n@ == m@,
                None => self.0.name is None,
            },
    {
        match &self.0.name {
            Some(n) => Some(n.as_str()),
            None => None,
        }
    }

    /// Binds the seat to the capabilities `capabilities`: sends
    /// `ei_seat.bind` with the masks the server announced for them, or-ed.
    pub fn bind_capabilities<F>(&self, backend: &mut Backend<F>, capabilities: &[DeviceCapability])
        ensures
            sent(
                *old(backend),
                *final(backend),
                self.0.seat.0.id,
                1,
                seq![ArgModel::Uint64(masks_of(self.0.capabilities, capabilities@))],
                Seq::empty(),
            ),
    {
        let mut caps: u64 = 0;
        let mut i: usize = 0;
        while i < capabilities.len()
            invariant
                i <= capabilities@.len(),
                caps == masks_of(self.0.capabilities, capabilities@.take(i as int)),
            decreases capabilities@.len() - i,
        {
            proof {
                assert(capabilities@.take(i + 1).drop_last() =~= capabilities@.take(i as int));
                assert(capabilities@.take(i + 1).last() == capabilities@[i as int]);
            }
            match self.0.capabilities.get(capabilities[i]) {
                Some(value) => {
                    caps = caps | value;
                },
                None => {},
            }
            i = i + 1;
        }
        proof {
            assert(capabilities@.take(i as int) =~= capabilities@);
        }
        self.0.seat.bind(backend, caps);
    }
}

/// A region of a device.
#[derive(Debug)]
pub struct Region {
    pub x: u32,
    pub y: u32,
    pub width: u32,
    pub height: u32,
    /// The scale, as the bits of an `f32`.
    pub scale: u32,
    pub mapping_id: Option<String>,
}

/// The keymap of a keyboard.
#[derive(Debug)]
pub struct Keymap<F> {
    pub fd: F,
    pub size: u32,
    pub type_: KeymapType,
}

/// What the client knows of a device.
#[derive(Debug)]
pub struct DeviceInner<F> {
    /// The proxy for the `ei_device` object.
    pub device: ei::Device,
    /// The seat the device belongs to.
    pub seat: Seat,
    pub name: Option<String>,
    pub device_type: Option<DeviceType>,
    /// The device's interface objects of the capabilities; objects of
    /// interfaces that name no capability are never read, and not kept.
    pub interfaces: Interfaces,
    pub dimensions: Option<(u32, u32)>,
    pub regions: Vec<Region>,
    /// The mapping ID the next region gets; only used before `done`.
    pub next_region_mapping_id: Option<String>,
    /// The keymap, for a device with an `ei_keyboard` interface.
    pub keymap: Option<Keymap<F>>,
}

/// High-level client-side wrapper for `ei_device`.
#[derive(Debug)]
pub struct Device<F>(pub Arc<DeviceInner<F>>);

impl<F> Clone for Device<F> {
    fn clone(&self) -> (r: Self)
        ensures
            r == *self,
    {
        Device(share(&self.0))
    }
}

impl<F> Device<F> {
    /// Returns the device's seat.
    pub fn seat(&self) -> (r: &Seat)
        ensures
            *r == self.0.seat,
    {
        &self.0.seat
    }

    /// Returns the proxy for the underlying `ei_device` object.
    pub fn device(&self) -> (r: &ei::Device)
        ensures
            *r == self.0.device,
    {
        &self.0.device
    }

    /// Returns the device's name, if the server sent one.
    pub fn name(&self) -> (r: Option<&str>)
        ensures
            match r {
                Some(n) => self.0.name matches Some(m) && n@ == m@,
                None => self.0.name is None,
            },
    {
        match &self.0.name {
            Some(n) => Some(n.as_str()),
            None => None,
        }
    }

    /// Returns the device's type, which a device that was added has.
    pub fn device_type(&self) -> (r: DeviceType)
        requires
            self.0.device_type is Some,
        ensures
            self.0.device_type == Some(r),
    {
        match self.0.device_type {
            Some(t) => t,
            None => vstd::pervasive::unreached(),
        }
    }

    /// Returns the device's dimensions, if the server sent them.
    pub fn dimensions(&self) -> (r: Option<(u32, u32)>)
        ensures
            r == self.0.dimensions,
    {
        self.0.dimensions
    }

    /// Returns the device's regions.
    pub fn regions(&self) -> (r: &[Region])
        ensures
            r@ == self.0.regions@,
    {
        self.0.regions.as_slice()
    }

    /// Returns the device's keymap, if it has one.
    pub fn keymap(&self) -> (r: Option<&Keymap<F>>)
        ensures
            match r {
                Some(k) => self.0.keymap == Some(*k),
                None => self.0.keymap is None,
            },
    {
        self.0.keymap.as_ref()
    }

    /// Returns an interface proxy if the device has an object of its
    /// interface.
    pub fn interface<T: Interface>(&self) -> (r: Option<T>)
        ensures
            match capability_of(T::spec_iface()) {
                Some(c) => match self.0.interfaces.spec_get(c) {
                    Some(o) => if o.client_side == T::spec_client_side() && o.interface@ == T::spec_iface().spec_name()@ {
                        r matches Some(t) && t.spec_object() == o
                    } else {
                        r is None
                    },
                    None => r is None,
                },
                None => r is None,
            },
    {
        match capability_of_iface(T::iface()) {
            Some(c) => match self.0.interfaces.get(c) {
                Some(o) => o.clone().downcast(),
                None => None,
            },
            None => None,
        }
    }
}

/// A seat was added.
#[derive(Clone, Debug)]
pub struct SeatAdded {
    pub seat: Seat,
}

/// A seat was removed.
#[derive(Clone, Debug)]
pub struct SeatRemoved {
    pub seat: Seat,
}

/// A device was added.
#[derive(Clone, Debug)]
pub struct DeviceAdded<F> {
    pub device: Device<F>,
}

/// A device was removed.
#[derive(Clone, Debug)]
pub struct DeviceRemoved<F> {
    pub device: Device<F>,
}

/// A device was paused.
#[derive(Clone, Debug)]
pub struct DevicePaused<F> {
    pub device: Device<F>,
    pub serial: u32,
}

/// A device was resumed.
#[derive(Clone, Debug)]
pub struct DeviceResumed<F> {
    pub device: Device<F>,
    pub serial: u32,
}

/// The keyboard modifiers changed.
#[derive(Clone, Debug)]
pub struct KeyboardModifiers<F> {
    pub device: Device<F>,
    pub serial: u32,
    pub depressed: u32,
    pub latched: u32,
    pub locked: u32,
    pub group: u32,
}

/// The events since the last frame form one logical hardware event.
#[derive(Clone, Debug)]
pub struct Frame<F> {
    pub device: Device<F>,
    pub serial: u32,
    pub time: u64,
}

/// The server starts sending events of a device.
#[derive(Clone, Debug)]
pub struct DeviceStartEmulating<F> {
    pub device: Device<F>,
    pub serial: u32,
    pub sequence: u32,
}

/// The server stops sending events of a device.
#[derive(Clone, Debug)]
pub struct DeviceStopEmulating<F> {
    pub device: Device<F>,
    pub serial: u32,
}

/// Relative pointer motion; `dx` and `dy` are the bits of `f32`s.
#[derive(Clone, Debug)]
pub struct PointerMotion<F> {
    pub device: Device<F>,
    pub time: u64,
    pub dx: u32,
    pub dy: u32,
}

/// Absolute pointer motion; the positions are the bits of `f32`s.
#[derive(Clone, Debug)]
pub struct PointerMotionAbsolute<F> {
    pub device: Device<F>,
    pub time: u64,
    pub dx_absolute: u32,
    pub dy_absolute: u32,
}

/// A button changed state.
#[derive(Clone, Debug)]
pub struct Button<F> {
    pub device: Device<F>,
    pub time: u64,
    pub button: u32,
    pub state: ButtonState,
}

/// Scroll motion; `dx` and `dy` are the bits of `f32`s.
#[derive(Clone, Debug)]
pub struct ScrollDelta<F> {
    pub device: Device<F>,
    pub time: u64,
    pub dx: u32,
    pub dy: u32,
}

/// Scrolling stopped on the axes set.
#[derive(Clone, Debug)]
pub struct ScrollStop<F> {
    pub device: Device<F>,
    pub time: u64,
    pub x: bool,
    pub y: bool,
}

/// Scrolling was canceled on the axes set.
#[derive(Clone, Debug)]
pub struct ScrollCancel<F> {
    pub device: Device<F>,
    pub time: u64,
    pub x: bool,
    pub y: bool,
}

/// Discrete scroll steps.
#[derive(Clone, Debug)]
pub struct ScrollDiscrete<F> {
    pub device: Device<F>,
    pub time: u64,
    pub discrete_dx: i32,
    pub discrete_dy: i32,
}

/// A key changed state.
#[derive(Clone, Debug)]
pub struct KeyboardKey<F> {
    pub device: Device<F>,
    pub time: u64,
    pub key: u32,
    pub state: KeyState,
}

/// A touch went down; `x` and `y` are the bits of `f32`s.
#[derive(Clone, Debug)]
pub struct TouchDown<F> {
    pub device: Device<F>,
    pub time: u64,
    pub touch_id: u32,
    pub x: u32,
    pub y: u32,
}

/// A touch went up.
#[derive(Clone, Debug)]
pub struct TouchUp<F> {
    pub device: Device<F>,
    pub time: u64,
    pub touch_id: u32,
}

/// A touch moved; `x` and `y` are the bits of `f32`s.
#[derive(Clone, Debug)]
pub struct TouchMotion<F> {
    pub device: Device<F>,
    pub time: u64,
    pub touch_id: u32,
    pub x: u32,
    pub y: u32,
}

/// A touch was canceled.
#[derive(Clone, Debug)]
pub struct TouchCancel<F> {
    pub device: Device<F>,
    pub time: u64,
    pub touch_id: u32,
}

/// An event about a seat.
pub trait SeatEvent {
    /// Returns the seat the event is about.
    fn seat(&self) -> &Seat;
}

/// An event about a device.
pub trait DeviceEvent: SeatEvent {
    /// Returns the device the event is about.
    fn device(&self) -> &Device<Self::Fd>;

    /// The type of the file descriptors the device holds.
    type Fd;
}

/// An event that carries a time.
pub trait EventTime: DeviceEvent {
    /// Returns the event's time, in microseconds.
    fn time(&self) -> u64;
}

impl SeatEvent for SeatAdded {
    fn seat(&self) -> (r: &Seat)
        ensures
            *r == self.seat,
    {
        &self.seat
    }
}

impl SeatEvent for SeatRemoved {
    fn seat(&self) -> (r: &Seat)
        ensures
            *r == self.seat,
    {
        &self.seat
    }
}

impl<F> SeatEvent for DeviceAdded<F> {
    fn seat(&self) -> (r: &Seat)
        ensures
            *r == self.device.0.seat,
    {
        &self.device.0.seat
    }
}

impl<F> DeviceEvent for DeviceAdded<F> {
    type Fd = F;

    fn device(&self) -> (r: &Device<F>)
        ensures
            *r == self.device,
    {
        &self.device
    }
}

impl<F> SeatEvent for DeviceRemoved<F> {
    fn seat(&self) -> (r: &Seat)
        ensures
            *r == self.device.0.seat,
    {
        &self.device.0.seat
    }
}

impl<F> DeviceEvent for DeviceRemoved<F> {
    type Fd = F;

    fn device(&self) -> (r: &Device<F>)
        ensures
            *r == self.device,
    {
        &self.device
    }
}

impl<F> SeatEvent for DevicePaused<F> {
    fn seat(&self) -> (r: &Seat)
        ensures
            *r == self.device.0.seat,
    {
        &self.device.0.seat
    }
}

impl<F> DeviceEvent for DevicePaused<F> {
    type Fd = F;

    fn device(&self) -> (r: &Device<F>)
        ensures
            *r == self.device,
    {
        &self.device
    }
}

impl<F> SeatEvent for DeviceResumed<F> {
    fn seat(&self) -> (r: &Seat)
        ensures
            *r == self.device.0.seat,
    {
        &self.device.0.seat
    }
}

impl<F> DeviceEvent for DeviceResumed<F> {
    type Fd = F;

    fn device(&self) -> (r: &Device<F>)
        ensures
            *r == self.device,
    {
        &self.device
    }
}

impl<F> SeatEvent for KeyboardModifiers<F> {
    fn seat(&self) -> (r: &Seat)
        ensures
            *r == self.device.0.seat,
    {
        &self.device.0.seat
    }
}

impl<F> DeviceEvent for KeyboardModifiers<F> {
    type Fd = F;

    fn device(&self) -> (r: &Device<F>)
        ensures
            *r == self.device,
    {
        &self.device
    }
}

impl<F> SeatEvent for Frame<F> {
    fn seat(&self) -> (r: &Seat)
        ensures
            *r == self.device.0.seat,
    {
        &self.device.0.seat
    }
}

impl<F> DeviceEvent for Frame<F> {
    type Fd = F;

    fn device(&self) -> (r: &Device<F>)
        ensures
            *r == self.device,
    {
        &self.device
    }
}

impl<F> EventTime for Frame<F> {
    fn time(&self) -> (r: u64)
        ensures
            r == self.time,
    {
        self.time
    }
}

impl<F> SeatEvent for DeviceStartEmulating<F> {
    fn seat(&self) -> (r: &Seat)
        ensures
            *r == self.device.0.seat,
    {
        &self.device.0.seat
    }
}

impl<F> DeviceEvent for DeviceStartEmulating<F> {
    type Fd = F;

    fn device(&self) -> (r: &Device<F>)
        ensures
            *r == self.device,
    {
        &self.device
    }
}

impl<F> SeatEvent for DeviceStopEmulating<F> {
    fn seat(&self) -> (r: &Seat)
        ensures
            *r == self.device.0.seat,
    {
        &self.device.0.seat
    }
}

impl<F> DeviceEvent for DeviceStopEmulating<F> {
    type Fd = F;

    fn device(&self) -> (r: &Device<F>)
        ensures
            *r == self.device,
    {
        &self.device
    }
}

impl<F> SeatEvent for PointerMotion<F> {
    fn seat(&self) -> (r: &Seat)
        ensures
            *r == self.device.0.seat,
    {
        &self.device.0.seat
    }
}

impl<F> DeviceEvent for PointerMotion<F> {
    type Fd = F;

    fn device(&self) -> (r: &Device<F>)
        ensures
            *r == self.device,
    {
        &self.device
    }
}

impl<F> EventTime for PointerMotion<F> {
    fn time(&self) -> (r: u64)
        ensures
            r == self.time,
    {
        self.time
    }
}

impl<F> SeatEvent for PointerMotionAbsolute<F> {
    fn seat(&self) -> (r: &Seat)
        ensures
            *r == self.device.0.seat,
    {
        &self.device.0.seat
    }
}

impl<F> DeviceEvent for PointerMotionAbsolute<F> {
    type Fd = F;

    fn device(&self) -> (r: &Device<F>)
        ensures
            *r == self.device,
    {
        &self.device
    }
}

impl<F> EventTime for PointerMotionAbsolute<F> {
    fn time(&self) -> (r: u64)
        ensures
            r == self.time,
    {
        self.time
    }
}

impl<F> SeatEvent for Button<F> {
    fn seat(&self) -> (r: &Seat)
        ensures
            *r == self.device.0.seat,
    {
        &self.device.0.seat
    }
}

impl<F> DeviceEvent for Button<F> {
    type Fd = F;

    fn device(&self) -> (r: &Device<F>)
        ensures
            *r == self.device,
    {
        &self.device
    }
}

impl<F> EventTime for Button<F> {
    fn time(&self) -> (r: u64)
        ensures
            r == self.time,
    {
        self.time
    }
}

impl<F> SeatEvent for ScrollDelta<F> {
    fn seat(&self) -> (r: &Seat)
        ensures
            *r == self.device.0.seat,
    {
        &self.device.0.seat
    }
}

impl<F> DeviceEvent for ScrollDelta<F> {
    type Fd = F;

    fn device(&self) -> (r: &Device<F>)
        ensures
            *r == self.device,
    {
        &self.device
    }
}

impl<F> EventTime for ScrollDelta<F> {
    fn time(&self) -> (r: u64)
        ensures
            r == self.time,
    {
        self.time
    }
}

impl<F> SeatEvent for ScrollStop<F> {
    fn seat(&self) -> (r: &Seat)
        ensures
            *r == self.device.0.seat,
    {
        &self.device.0.seat
    }
}

impl<F> DeviceEvent for ScrollStop<F> {
    type Fd = F;

    fn device(&self) -> (r: &Device<F>)
        ensures
            *r == self.device,
    {
        &self.device
    }
}

impl<F> EventTime for ScrollStop<F> {
    fn time(&self) -> (r: u64)
        ensures
            r == self.time,
    {
        self.time
    }
}

impl<F> SeatEvent for ScrollCancel<F> {
    fn seat(&self) -> (r: &Seat)
        ensures
            *r == self.device.0.seat,
    {
        &self.device.0.seat
    }
}

impl<F> DeviceEvent for ScrollCancel<F> {
    type Fd = F;

    fn device(&self) -> (r: &Device<F>)
        ensures
            *r == self.device,
    {
        &self.device
    }
}

impl<F> EventTime for ScrollCancel<F> {
    fn time(&self) -> (r: u64)
        ensures
            r == self.time,
    {
        self.time
    }
}

impl<F> SeatEvent for ScrollDiscrete<F> {
    fn seat(&self) -> (r: &Seat)
        ensures
            *r == self.device.0.seat,
    {
        &self.device.0.seat
    }
}

impl<F> DeviceEvent for ScrollDiscrete<F> {
    type Fd = F;

    fn device(&self) -> (r: &Device<F>)
        ensures
            *r == self.device,
    {
        &self.device
    }
}

impl<F> EventTime for ScrollDiscrete<F> {
    fn time(&self) -> (r: u64)
        ensures
            r == self.time,
    {
        self.time
    }
}

impl<F> SeatEvent for KeyboardKey<F> {
    fn seat(&self) -> (r: &Seat)
        ensures
            *r == self.device.0.seat,
    {
        &self.device.0.seat
    }
}

impl<F> DeviceEvent for KeyboardKey<F> {
    type Fd = F;

    fn device(&self) -> (r: &Device<F>)
        ensures
            *r == self.device,
    {
        &self.device
    }
}

impl<F> EventTime for KeyboardKey<F> {
    fn time(&self) -> (r: u64)
        ensures
            r == self.time,
    {
        self.time
    }
}

impl<F> SeatEvent for TouchDown<F> {
    fn seat(&self) -> (r: &Seat)
        ensures
            *r == self.device.0.seat,
    {
        &self.device.0.seat
    }
}

impl<F> DeviceEvent for TouchDown<F> {
    type Fd = F;

    fn device(&self) -> (r: &Device<F>)
        ensures
            *r == self.device,
    {
        &self.device
    }
}

impl<F> EventTime for TouchDown<F> {
    fn time(&self) -> (r: u64)
        ensures
            r == self.time,
    {
        self.time
    }
}

impl<F> SeatEvent for TouchUp<F> {
    fn seat(&self) -> (r: &Seat)
        ensures
            *r == self.device.0.seat,
    {
        &self.device.0.seat
    }
}

impl<F> DeviceEvent for TouchUp<F> {
    type Fd = F;

    fn device(&self) -> (r: &Device<F>)
        ensures
            *r == self.device,
    {
        &self.device
    }
}

impl<F> EventTime for TouchUp<F> {
    fn time(&self) -> (r: u64)
        ensures
            r == self.time,
    {
        self.time
    }
}

impl<F> SeatEvent for TouchMotion<F> {
    fn seat(&self) -> (r: &Seat)
        ensures
            *r == self.device.0.seat,
    {
        &self.device.0.seat
    }
}

impl<F> DeviceEvent for TouchMotion<F> {
    type Fd = F;

    fn device(&self) -> (r: &Device<F>)
        ensures
            *r == self.device,
    {
        &self.device
    }
}

impl<F> EventTime for TouchMotion<F> {
    fn time(&self) -> (r: u64)
        ensures
            r == self.time,
    {
        self.time
    }
}

impl<F> SeatEvent for TouchCancel<F> {
    fn seat(&self) -> (r: &Seat)
        ensures
            *r == self.device.0.seat,
    {
        &self.device.0.seat
    }
}

impl<F> DeviceEvent for TouchCancel<F> {
    type Fd = F;

    fn device(&self) -> (r: &Device<F>)
        ensures
            *r == self.device,
    {
        &self.device
    }
}

impl<F> EventTime for TouchCancel<F> {
    fn time(&self) -> (r: u64)
        ensures
            r == self.time,
    {
        self.time
    }
}

/// The events the converter hands out.
#[derive(Clone, Debug)]
pub enum EiEvent<F> {
    SeatAdded(SeatAdded),
    SeatRemoved(SeatRemoved),
    DeviceAdded(DeviceAdded<F>),
    DeviceRemoved(DeviceRemoved<F>),
    DevicePaused(DevicePaused<F>),
    DeviceResumed(DeviceResumed<F>),
    KeyboardModifiers(KeyboardModifiers<F>),
    Frame(Frame<F>),
    DeviceStartEmulating(DeviceStartEmulating<F>),
    DeviceStopEmulating(DeviceStopEmulating<F>),
    PointerMotion(PointerMotion<F>),
    PointerMotionAbsolute(PointerMotionAbsolute<F>),
    Button(Button<F>),
    ScrollDelta(ScrollDelta<F>),
    ScrollStop(ScrollStop<F>),
    ScrollCancel(ScrollCancel<F>),
    ScrollDiscrete(ScrollDiscrete<F>),
    KeyboardKey(KeyboardKey<F>),
    TouchDown(TouchDown<F>),
    TouchUp(TouchUp<F>),
    TouchMotion(TouchMotion<F>),
    TouchCancel(TouchCancel<F>),
}

impl<F> EiEvent<F> {
    /// Whether the event is grouped by frames and gets its time from the
    /// frame that ends its group.
    pub open spec fn spec_is_timed(self) -> bool {
        match self {
            EiEvent::PointerMotion(_) | EiEvent::PointerMotionAbsolute(_) | EiEvent::Button(_) | EiEvent::ScrollDelta(_) | EiEvent::ScrollStop(_) | EiEvent::ScrollCancel(_) | EiEvent::ScrollDiscrete(_) | EiEvent::KeyboardKey(_) | EiEvent::TouchDown(_) | EiEvent::TouchUp(_) | EiEvent::TouchMotion(_) | EiEvent::TouchCancel(_) => true,
            _ => false,
        }
    }

    /// The event with its time set to `t`, if it has one.
    pub open spec fn timed_at(self, t: u64) -> EiEvent<F> {
        match self {
            EiEvent::PointerMotion(e) => EiEvent::PointerMotion(PointerMotion { time: t, ..e }),
            EiEvent::PointerMotionAbsolute(e) => EiEvent::PointerMotionAbsolute(PointerMotionAbsolute { time: t, ..e }),
            EiEvent::Button(e) => EiEvent::Button(Button { time: t, ..e }),
            EiEvent::ScrollDelta(e) => EiEvent::ScrollDelta(ScrollDelta { time: t, ..e }),
            EiEvent::ScrollStop(e) => EiEvent::ScrollStop(ScrollStop { time: t, ..e }),
            EiEvent::ScrollCancel(e) => EiEvent::ScrollCancel(ScrollCancel { time: t, ..e }),
            EiEvent::ScrollDiscrete(e) => EiEvent::ScrollDiscrete(ScrollDiscrete { time: t, ..e }),
            EiEvent::KeyboardKey(e) => EiEvent::KeyboardKey(KeyboardKey { time: t, ..e }),
            EiEvent::TouchDown(e) => EiEvent::TouchDown(TouchDown { time: t, ..e }),
            EiEvent::TouchUp(e) => EiEvent::TouchUp(TouchUp { time: t, ..e }),
            EiEvent::TouchMotion(e) => EiEvent::TouchMotion(TouchMotion { time: t, ..e }),
            EiEvent::TouchCancel(e) => EiEvent::TouchCancel(TouchCancel { time: t, ..e }),
            e => e,
        }
    }

    /// Returns `true` if the event is grouped by frames.
    pub fn is_timed(&self) -> (r: bool)
        ensures
            r == self.spec_is_timed(),
    {
        match self {
            EiEvent::PointerMotion(_) | EiEvent::PointerMotionAbsolute(_) | EiEvent::Button(_) | EiEvent::ScrollDelta(_) | EiEvent::ScrollStop(_) | EiEvent::ScrollCancel(_) | EiEvent::ScrollDiscrete(_) | EiEvent::KeyboardKey(_) | EiEvent::TouchDown(_) | EiEvent::TouchUp(_) | EiEvent::TouchMotion(_) | EiEvent::TouchCancel(_) => true,
            _ => false,
        }
    }

    /// Sets the time of an event that has one.
    pub fn set_time(&mut self, t: u64)
        ensures
            *final(self) == old(self).timed_at(t),
    {
        match self {
            EiEvent::PointerMotion(e) => e.time = t,
            EiEvent::PointerMotionAbsolute(e) => e.time = t,
            EiEvent::Button(e) => e.time = t,
            EiEvent::ScrollDelta(e) => e.time = t,
            EiEvent::ScrollStop(e) => e.time = t,
            EiEvent::ScrollCancel(e) => e.time = t,
            EiEvent::ScrollDiscrete(e) => e.time = t,
            EiEvent::KeyboardKey(e) => e.time = t,
            EiEvent::TouchDown(e) => e.time = t,
            EiEvent::TouchUp(e) => e.time = t,
            EiEvent::TouchMotion(e) => e.time = t,
            EiEvent::TouchCancel(e) => e.time = t,
            _ => {},
        }
    }
}

/// The events `pending`, each with its time set to `t`.
pub open spec fn stamped<F>(pending: Seq<EiEvent<F>>, t: u64) -> Seq<EiEvent<F>> {
    pending.map_values(|e: EiEvent<F>| e.timed_at(t))
}

/// How queueing `e` changes the ready events and those waiting for a frame,
/// as in libei: an event grouped by frames waits; a frame gives its time to
/// the waiting events and follows them, or is dropped when none waits; any
/// other event is ready at once.
pub open spec fn queue<F>(events: Seq<EiEvent<F>>, pending: Seq<EiEvent<F>>, e: EiEvent<F>) -> (
    Seq<EiEvent<F>>,
    Seq<EiEvent<F>>,
) {
    if e.spec_is_timed() {
        (events, pending.push(e))
    } else {
        match e {
            EiEvent::Frame(f) => if pending.len() == 0 {
                (events, pending)
            } else {
                (events + stamped(pending, f.time) + seq![e], Seq::empty())
            },
            _ => (events.push(e), pending),
        }
    }
}

/// The device of an interface object.
#[derive(Debug)]
pub struct InterfaceEntry<F> {
    /// The ID of the interface object.
    pub id: u64,
    pub device: Device<F>,
}

/// Converts low-level protocol events into the high-level events of this
/// module.
pub struct EiEventConverter<F> {
    /// Seats announced whose setup is not done.
    pub pending_seats: Vec<SeatInner>,
    /// Seats whose setup is done.
    pub seats: Vec<Seat>,
    /// Devices announced whose setup is not done.
    pub pending_devices: Vec<DeviceInner<F>>,
    /// Devices whose setup is done.
    pub devices: Vec<Device<F>>,
    /// The device of each interface object, by the object's ID.
    pub device_for_interface: Vec<InterfaceEntry<F>>,
    /// Events ready to be handed out.
    pub events: VecDeque<EiEvent<F>>,
    /// Events waiting for the frame that ends their group.
    pub pending_events: VecDeque<EiEvent<F>>,
    /// The last serial the server sent.
    pub serial: u32,
}

/// Index of the first pending seat whose object has ID `id`.
pub open spec fn pending_seat_index(v: Seq<SeatInner>, id: u64) -> Option<int> {
    first_index(v, |s: SeatInner| s.seat.0.id == id)
}

/// Index of the first seat whose object has ID `id`.
pub open spec fn seat_index(v: Seq<Seat>, id: u64) -> Option<int> {
    first_index(v, |s: Seat| s.0.seat.0.id == id)
}

/// Index of the first pending device whose object has ID `id`.
pub open spec fn pending_device_index<F>(v: Seq<DeviceInner<F>>, id: u64) -> Option<int> {
    first_index(v, |d: DeviceInner<F>| d.device.0.id == id)
}

/// Index of the first device whose object has ID `id`.
pub open spec fn device_index<F>(v: Seq<Device<F>>, id: u64) -> Option<int> {
    first_index(v, |d: Device<F>| d.0.device.0.id == id)
}

/// Index of the first entry for the interface object with ID `id`.
pub open spec fn interface_index<F>(v: Seq<InterfaceEntry<F>>, id: u64) -> Option<int> {
    first_index(v, |e: InterfaceEntry<F>| e.id == id)
}

/// Index of the first pending device with an interface object with ID `id`.
pub open spec fn keyboard_device_index<F>(v: Seq<DeviceInner<F>>, id: u64) -> Option<int> {
    first_index(v, |d: DeviceInner<F>| d.interfaces.has_id(id))
}

/// `v` without the pending seats whose object has ID `id`.
pub open spec fn without_pending_seat(v: Seq<SeatInner>, id: u64) -> Seq<SeatInner> {
    v.filter(|x: SeatInner| x.seat.0.id != id)
}

/// `v` without the seats whose object has ID `id`.
pub open spec fn without_seat(v: Seq<Seat>, id: u64) -> Seq<Seat> {
    v.filter(|x: Seat| x.0.seat.0.id != id)
}

/// `v` without the pending devices whose object has ID `id`.
pub open spec fn without_pending_device<F>(v: Seq<DeviceInner<F>>, id: u64) -> Seq<DeviceInner<F>> {
    v.filter(|x: DeviceInner<F>| x.device.0.id != id)
}

/// `v` without the devices whose object has ID `id`.
pub open spec fn without_device<F>(v: Seq<Device<F>>, id: u64) -> Seq<Device<F>> {
    v.filter(|x: Device<F>| x.0.device.0.id != id)
}

/// `v` without the entries for the interface object with ID `id`.
pub open spec fn without_interface<F>(v: Seq<InterfaceEntry<F>>, id: u64) -> Seq<InterfaceEntry<F>> {
    v.filter(|x: InterfaceEntry<F>| x.id != id)
}

/// The device of each interface object after entering `d` for each of
/// `objs`, in order, each replacing an earlier entry for its object.
pub open spec fn with_interfaces<F>(v: Seq<InterfaceEntry<F>>, objs: Seq<Object>, d: Device<F>) -> Seq<InterfaceEntry<F>>
    decreases objs.len(),
{
    if objs.len() == 0 {
        v
    } else {
        without_interface(with_interfaces(v, objs.drop_last(), d), objs.last().id).push(
            InterfaceEntry { id: objs.last().id, device: d },
        )
    }
}

/// Removes the pending seats whose object has ID `id` from `v`, and
/// returns the first of them.
fn take_pending_seat(v: &mut Vec<SeatInner>, id: u64) -> (r: Option<SeatInner>)
    ensures
        final(v)@ == without_pending_seat(old(v)@, id),
        match pending_seat_index(old(v)@, id) {
            Some(i) => r == Some(old(v)@[i]),
            None => r is None,
        },
{
    let ghost p = |x: SeatInner| x.seat.0.id != id;
    let ghost m = |x: SeatInner| x.seat.0.id == id;
    let mut rest: Vec<SeatInner> = Vec::new();
    std::mem::swap(&mut rest, v);
    let ghost all = rest@;
    let n = rest.len();
    let mut i: usize = 0;
    let mut found: Option<SeatInner> = None;
    proof {
        assert(all.take(0).filter(p) =~= Seq::<SeatInner>::empty());
    }
    while i < n
        invariant
            p == (|x: SeatInner| x.seat.0.id != id),
            m == (|x: SeatInner| x.seat.0.id == id),
            n == all.len(),
            i <= n,
            rest@ == all.skip(i as int),
            v@ == all.take(i as int).filter(p),
            found is None ==> forall|j: int| 0 <= j < i ==> !m(#[trigger] all[j]),
            found matches Some(x) ==> exists|k: int|
                0 <= k < i && #[trigger] all[k] == x && m(all[k]) && forall|j: int| 0 <= j < k ==> !m(#[trigger] all[j]),
        decreases n - i,
    {
        let x = rest.remove(0);
        proof {
            assert(x == all[i as int]);
            assert(all.take(i + 1) =~= all.take(i as int).push(x));
            all.take(i as int).lemma_filter_push(x, p);
            assert(rest@ =~= all.skip(i + 1));
        }
        if x.seat.0.id != id {
            v.push(x);
        } else if found.is_none() {
            proof {
                assert(all[i as int] == x && m(all[i as int]));
            }
            found = Some(x);
        }
        i = i + 1;
    }
    proof {
        assert(all.take(i as int) =~= all);
        match found {
            Some(ref x) => {
                let k = choose|k: int|
                    0 <= k < i && #[trigger] all[k] == *x && m(all[k]) && forall|j: int| 0 <= j < k ==> !m(#[trigger] all[j]);
                lemma_first_index(all, m, k);
            },
            None => {
                lemma_no_index(all, m);
            },
        }
    }
    found
}

/// Removes the seats whose object has ID `id` from `v`.
fn remove_seat(v: &mut Vec<Seat>, id: u64)
    ensures
        final(v)@ == without_seat(old(v)@, id),
{
    let ghost p = |x: Seat| x.0.seat.0.id != id;
    let mut rest: Vec<Seat> = Vec::new();
    std::mem::swap(&mut rest, v);
    let ghost all = rest@;
    let n = rest.len();
    let mut i: usize = 0;
    proof {
        assert(all.take(0).filter(p) =~= Seq::<Seat>::empty());
    }
    while i < n
        invariant
            p == (|x: Seat| x.0.seat.0.id != id),
            n == all.len(),
            i <= n,
            rest@ == all.skip(i as int),
            v@ == all.take(i as int).filter(p),
        decreases n - i,
    {
        let x = rest.remove(0);
        proof {
            assert(x == all[i as int]);
            assert(all.take(i + 1) =~= all.take(i as int).push(x));
            all.take(i as int).lemma_filter_push(x, p);
            assert(rest@ =~= all.skip(i + 1));
        }
        if x.0.seat.0.id != id {
            v.push(x);
        }
        i = i + 1;
    }
    proof {
        assert(all.take(i as int) =~= all);
    }
}

/// Removes the pending devices whose object has ID `id` from `v`, and
/// returns the first of them.
fn take_pending_device<F>(v: &mut Vec<DeviceInner<F>>, id: u64) -> (r: Option<DeviceInner<F>>)
    ensures
        final(v)@ == without_pending_device(old(v)@, id),
        match pending_device_index(old(v)@, id) {
            Some(i) => r == Some(old(v)@[i]),
            None => r is None,
        },
{
    let ghost p = |x: DeviceInner<F>| x.device.0.id != id;
    let ghost m = |x: DeviceInner<F>| x.device.0.id == id;
    let mut rest: Vec<DeviceInner<F>> = Vec::new();
    std::mem::swap(&mut rest, v);
    let ghost all = rest@;
    let n = rest.len();
    let mut i: usize = 0;
    let mut found: Option<DeviceInner<F>> = None;
    proof {
        assert(all.take(0).filter(p) =~= Seq::<DeviceInner<F>>::empty());
    }
    while i < n
        invariant
            p == (|x: DeviceInner<F>| x.device.0.id != id),
            m == (|x: DeviceInner<F>| x.device.0.id == id),
            n == all.len(),
            i <= n,
            rest@ == all.skip(i as int),
            v@ == all.take(i as int).filter(p),
            found is None ==> forall|j: int| 0 <= j < i ==> !m(#[trigger] all[j]),
            found matches Some(x) ==> exists|k: int|
                0 <= k < i && #[trigger] all[k] == x && m(all[k]) && forall|j: int| 0 <= j < k ==> !m(#[trigger] all[j]),
        decreases n - i,
    {
        let x = rest.remove(0);
        proof {
            assert(x == all[i as int]);
            assert(all.take(i + 1) =~= all.take(i as int).push(x));
            all.take(i as int).lemma_filter_push(x, p);
            assert(rest@ =~= all.skip(i + 1));
        }
        if x.device.0.id != id {
            v.push(x);
        } else if found.is_none() {
            proof {
                assert(all[i as int] == x && m(all[i as int]));
            }
            found = Some(x);
        }
        i = i + 1;
    }
    proof {
        assert(all.take(i as int) =~= all);
        match found {
            Some(ref x) => {
                let k = choose|k: int|
                    0 <= k < i && #[trigger] all[k] == *x && m(all[k]) && forall|j: int| 0 <= j < k ==> !m(#[trigger] all[j]);
                lemma_first_index(all, m, k);
            },
            None => {
                lemma_no_index(all, m);
            },
        }
    }
    found
}

/// Removes the devices whose object has ID `id` from `v`.
fn remove_device<F>(v: &mut Vec<Device<F>>, id: u64)
    ensures
        final(v)@ == without_device(old(v)@, id),
{
    let ghost p = |x: Device<F>| x.0.device.0.id != id;
    let mut rest: Vec<Device<F>> = Vec::new();
    std::mem::swap(&mut rest, v);
    let ghost all = rest@;
    let n = rest.len();
    let mut i: usize = 0;
    proof {
        assert(all.take(0).filter(p) =~= Seq::<Device<F>>::empty());
    }
    while i < n
        invariant
            p == (|x: Device<F>| x.0.device.0.id != id),
            n == all.len(),
            i <= n,
            rest@ == all.skip(i as int),
            v@ == all.take(i as int).filter(p),
        decreases n - i,
    {
        let x = rest.remove(0);
        proof {
            assert(x == all[i as int]);
            assert(all.take(i + 1) =~= all.take(i as int).push(x));
            all.take(i as int).lemma_filter_push(x, p);
            assert(rest@ =~= all.skip(i + 1));
        }
        if x.0.device.0.id != id {
            v.push(x);
        }
        i = i + 1;
    }
    proof {
        assert(all.take(i as int) =~= all);
    }
}

/// Removes the entries whose object has ID `id` from `v`.
fn remove_interface<F>(v: &mut Vec<InterfaceEntry<F>>, id: u64)
    ensures
        final(v)@ == without_interface(old(v)@, id),
{
    let ghost p = |x: InterfaceEntry<F>| x.id != id;
    let mut rest: Vec<InterfaceEntry<F>> = Vec::new();
    std::mem::swap(&mut rest, v);
    let ghost all = rest@;
    let n = rest.len();
    let mut i: usize = 0;
    proof {
        assert(all.take(0).filter(p) =~= Seq::<InterfaceEntry<F>>::empty());
    }
    while i < n
        invariant
            p == (|x: InterfaceEntry<F>| x.id != id),
            n == all.len(),
            i <= n,
            rest@ == all.skip(i as int),
            v@ == all.take(i as int).filter(p),
        decreases n - i,
    {
        let x = rest.remove(0);
        proof {
            assert(x == all[i as int]);
            assert(all.take(i + 1) =~= all.take(i as int).push(x));
            all.take(i as int).lemma_filter_push(x, p);
            assert(rest@ =~= all.skip(i + 1));
        }
        if x.id != id {
            v.push(x);
        }
        i = i + 1;
    }
    proof {
        assert(all.take(i as int) =~= all);
    }
}

/// The events `n` holds are those of `o` with `e` queued, as [`queue`]
/// says.
pub open spec fn queued_into<F>(o: EiEventConverter<F>, n: EiEventConverter<F>, e: EiEvent<F>) -> bool {
    (n.events@, n.pending_events@) == queue(o.events@, o.pending_events@, e)
}

impl<F> EiEventConverter<F> {
    /// Creates a converter that knows no seat or device yet, with `serial`
    /// as the last serial.
    pub fn new(serial: u32) -> (r: Self)
        ensures
            r.pending_seats@.len() == 0,
            r.seats@.len() == 0,
            r.pending_devices@.len() == 0,
            r.devices@.len() == 0,
            r.device_for_interface@.len() == 0,
            r.events@.len() == 0,
            r.pending_events@.len() == 0,
            r.serial == serial,
    {
        EiEventConverter {
            pending_seats: Vec::new(),
            seats: Vec::new(),
            pending_devices: Vec::new(),
            devices: Vec::new(),
            device_for_interface: Vec::new(),
            events: VecDeque::new(),
            pending_events: VecDeque::new(),
            serial,
        }
    }

    /// Returns the next event that is ready, if any.
    pub fn next_event(&mut self) -> (r: Option<EiEvent<F>>)
        ensures
            *final(self) == (EiEventConverter { events: final(self).events, ..*old(self) }),
            old(self).events@.len() == 0 ==> r is None && final(self).events@ == old(self).events@,
            old(self).events@.len() > 0 ==> r == Some(old(self).events@[0]) && final(self).events@
                == old(self).events@.drop_first(),
    {
        self.events.pop_front()
    }

    /// Returns the last serial the server sent.
    pub fn serial(&self) -> (r: u32)
        ensures
            r == self.serial,
    {
        self.serial
    }

    /// Moves the waiting events, stamped with time `t`, to the ready ones.
    fn flush_pending(&mut self, t: u64)
        ensures
            final(self).events@ == old(self).events@ + stamped(old(self).pending_events@, t),
            final(self).pending_events@.len() == 0,
            *final(self) == (EiEventConverter {
                events: final(self).events,
                pending_events: final(self).pending_events,
                ..*old(self)
            }),
    {
        let ghost p0 = self.pending_events@;
        let ghost e0 = self.events@;
        let ghost n = p0.len();
        proof {
            assert(e0 + stamped(p0, t).take(0) =~= e0);
            assert(p0.skip(0) =~= p0);
        }
        while self.pending_events.len() > 0
            invariant
                self.pending_events@.len() <= n,
                n == p0.len(),
                self.pending_events@ == p0.skip(n - self.pending_events@.len()),
                self.events@ == e0 + stamped(p0, t).take(n - self.pending_events@.len()),
                *self == (EiEventConverter { events: self.events, pending_events: self.pending_events, ..*old(self) }),
            decreases self.pending_events@.len(),
        {
            let ghost k = n - self.pending_events@.len();
            match self.pending_events.pop_front() {
                Some(mut e) => {
                    proof {
                        assert(e == p0[k]);
                    }
                    e.set_time(t);
                    self.events.push_back(e);
                    proof {
                        assert(stamped(p0, t).take(k + 1) =~= stamped(p0, t).take(k).push(p0[k].timed_at(t)));
                        assert(self.pending_events@ =~= p0.skip(k + 1));
                    }
                },
                None => {},
            }
        }
        proof {
            assert(stamped(p0, t).take(n as int) =~= stamped(p0, t));
        }
    }

    /// Queues an event, as [`queue`] says.
    fn queue_event(&mut self, event: EiEvent<F>)
        ensures
            queued_into(*old(self), *final(self), event),
            *final(self) == (EiEventConverter {
                events: final(self).events,
                pending_events: final(self).pending_events,
                ..*old(self)
            }),
    {
        if event.is_timed() {
            self.pending_events.push_back(event);
            return;
        }
        let frame_time = match &event {
            EiEvent::Frame(f) => Some(f.time),
            _ => None,
        };
        match frame_time {
            Some(t) => {
                if self.pending_events.len() == 0 {
                    return;
                }
                self.flush_pending(t);
                self.events.push_back(event);
                proof {
                    assert(self.events@ =~= old(self).events@ + stamped(old(self).pending_events@, t) + seq![event]);
                    assert(self.pending_events@ =~= Seq::<EiEvent<F>>::empty());
                }
            },
            None => {
                self.events.push_back(event);
            },
        }
    }

    /// Index of the pending seat whose object has ID `id`.
    fn find_pending_seat(&self, id: u64) -> (r: Option<usize>)
        ensures
            match r {
                Some(i) => pending_seat_index(self.pending_seats@, id) == Some(i as int) && i < self.pending_seats@.len(),
                None => pending_seat_index(self.pending_seats@, id) is None,
            },
    {
        let ghost p = |s: SeatInner| s.seat.0.id == id;
        let mut i: usize = 0;
        while i < self.pending_seats.len()
            invariant
                i <= self.pending_seats@.len(),
                p == (|s: SeatInner| s.seat.0.id == id),
                forall|j: int| 0 <= j < i ==> !p(#[trigger] self.pending_seats@[j]),
            decreases self.pending_seats@.len() - i,
        {
            if self.pending_seats[i].seat.0.id == id {
                proof {
                    lemma_first_index(self.pending_seats@, p, i as int);
                }
                return Some(i);
            }
            i = i + 1;
        }
        proof {
            lemma_no_index(self.pending_seats@, p);
        }
        None
    }

    /// Index of the seat whose object has ID `id`.
    fn find_seat(&self, id: u64) -> (r: Option<usize>)
        ensures
            match r {
                Some(i) => seat_index(self.seats@, id) == Some(i as int) && i < self.seats@.len(),
                None => seat_index(self.seats@, id) is None,
            },
    {
        let ghost p = |s: Seat| s.0.seat.0.id == id;
        let mut i: usize = 0;
        while i < self.seats.len()
            invariant
                i <= self.seats@.len(),
                p == (|s: Seat| s.0.seat.0.id == id),
                forall|j: int| 0 <= j < i ==> !p(#[trigger] self.seats@[j]),
            decreases self.seats@.len() - i,
        {
            if self.seats[i].0.seat.0.id == id {
                proof {
                    lemma_first_index(self.seats@, p, i as int);
                }
                return Some(i);
            }
            i = i + 1;
        }
        proof {
            lemma_no_index(self.seats@, p);
        }
        None
    }

    /// Index of the pending device whose object has ID `id`.
    fn find_pending_device(&self, id: u64) -> (r: Option<usize>)
        ensures
            match r {
                Some(i) => pending_device_index(self.pending_devices@, id) == Some(i as int) && i < self.pending_devices@.len(),
                None => pending_device_index(self.pending_devices@, id) is None,
            },
    {
        let ghost p = |d: DeviceInner<F>| d.device.0.id == id;
        let mut i: usize = 0;
        while i < self.pending_devices.len()
            invariant
                i <= self.pending_devices@.len(),
                p == (|d: DeviceInner<F>| d.device.0.id == id),
                forall|j: int| 0 <= j < i ==> !p(#[trigger] self.pending_devices@[j]),
            decreases self.pending_devices@.len() - i,
        {
            if self.pending_devices[i].device.0.id == id {
                proof {
                    lemma_first_index(self.pending_devices@, p, i as int);
                }
                return Some(i);
            }
            i = i + 1;
        }
        proof {
            lemma_no_index(self.pending_devices@, p);
        }
        None
    }

    /// Index of the device whose object has ID `id`.
    fn find_device(&self, id: u64) -> (r: Option<usize>)
        ensures
            match r {
                Some(i) => device_index(self.devices@, id) == Some(i as int) && i < self.devices@.len(),
                None => device_index(self.devices@, id) is None,
            },
    {
        let ghost p = |d: Device<F>| d.0.device.0.id == id;
        let mut i: usize = 0;
        while i < self.devices.len()
            invariant
                i <= self.devices@.len(),
                p == (|d: Device<F>| d.0.device.0.id == id),
                forall|j: int| 0 <= j < i ==> !p(#[trigger] self.devices@[j]),
            decreases self.devices@.len() - i,
        {
            if self.devices[i].0.device.0.id == id {
                proof {
                    lemma_first_index(self.devices@, p, i as int);
                }
                return Some(i);
            }
            i = i + 1;
        }
        proof {
            lemma_no_index(self.devices@, p);
        }
        None
    }

    /// Index of the entry for the interface object with ID `id`.
    fn find_interface(&self, id: u64) -> (r: Option<usize>)
        ensures
            match r {
                Some(i) => interface_index(self.device_for_interface@, id) == Some(i as int) && i < self.device_for_interface@.len(),
                None => interface_index(self.device_for_interface@, id) is None,
            },
    {
        let ghost p = |e: InterfaceEntry<F>| e.id == id;
        let mut i: usize = 0;
        while i < self.device_for_interface.len()
            invariant
                i <= self.device_for_interface@.len(),
                p == (|e: InterfaceEntry<F>| e.id == id),
                forall|j: int| 0 <= j < i ==> !p(#[trigger] self.device_for_interface@[j]),
            decreases self.device_for_interface@.len() - i,
        {
            if self.device_for_interface[i].id == id {
                proof {
                    lemma_first_index(self.device_for_interface@, p, i as int);
                }
                return Some(i);
            }
            i = i + 1;
        }
        proof {
            lemma_no_index(self.device_for_interface@, p);
        }
        None
    }

    /// Index of the pending device with an interface object with ID `id`.
    fn find_keyboard_device(&self, id: u64) -> (r: Option<usize>)
        ensures
            match r {
                Some(i) => keyboard_device_index(self.pending_devices@, id) == Some(i as int) && i < self.pending_devices@.len(),
                None => keyboard_device_index(self.pending_devices@, id) is None,
            },
    {
        let ghost p = |d: DeviceInner<F>| d.interfaces.has_id(id);
        let mut i: usize = 0;
        while i < self.pending_devices.len()
            invariant
                i <= self.pending_devices@.len(),
                p == (|d: DeviceInner<F>| d.interfaces.has_id(id)),
                forall|j: int| 0 <= j < i ==> !p(#[trigger] self.pending_devices@[j]),
            decreases self.pending_devices@.len() - i,
        {
            if self.pending_devices[i].interfaces.contains_id(id) {
                proof {
                    lemma_first_index(self.pending_devices@, p, i as int);
                }
                return Some(i);
            }
            i = i + 1;
        }
        proof {
            lemma_no_index(self.pending_devices@, p);
        }
        None
    }
}

// ---------------------------------------------------------------------------
// Converting events
// ---------------------------------------------------------------------------

/// `d` is a device just announced: the proxy `device` in seat `seat`, with
/// nothing known of it yet.
pub open spec fn fresh_device<F>(d: DeviceInner<F>, device: ei::Device, seat: Seat) -> bool {
    &&& d.device == device
    &&& d.seat == seat
    &&& d.name is None
    &&& d.device_type is None
    &&& forall|c: DeviceCapability| (#[trigger] d.interfaces.spec_get(c)) is None
    &&& d.dimensions is None
    &&& d.regions@.len() == 0
    &&& d.next_region_mapping_id is None
    &&& d.keymap is None
}

/// `nd` is `d` with region `g` added.
pub open spec fn with_region<F>(d: DeviceInner<F>, nd: DeviceInner<F>, g: Region) -> bool {
    &&& nd.regions@ == d.regions@.push(g)
    &&& nd == (DeviceInner { regions: nd.regions, ..d })
}

/// Nothing changed, and the result is `Ok`.
pub open spec fn ignored<F>(o: EiEventConverter<F>, n: EiEventConverter<F>, r: Result<(), Error>) -> bool {
    &&& r is Ok
    &&& n == o
}

/// Nothing changed, and the result is the error `e`.
pub open spec fn refused<F>(o: EiEventConverter<F>, n: EiEventConverter<F>, r: Result<(), Error>, e: Error) -> bool {
    &&& r == Err::<(), Error>(e)
    &&& n == o
}

/// Only the last serial changed, to `s`, and the result is the error `e`.
pub open spec fn refused_at<F>(
    o: EiEventConverter<F>,
    n: EiEventConverter<F>,
    r: Result<(), Error>,
    e: Error,
    s: u32,
) -> bool {
    &&& r == Err::<(), Error>(e)
    &&& n == (EiEventConverter { serial: s, ..o })
}

/// `ev` is queued, the last serial is `s`, nothing else changed, and the
/// result is `Ok`.
pub open spec fn converted<F>(
    o: EiEventConverter<F>,
    n: EiEventConverter<F>,
    r: Result<(), Error>,
    ev: EiEvent<F>,
    s: u32,
) -> bool {
    &&& r is Ok
    &&& queued_into(o, n, ev)
    &&& n == (EiEventConverter { events: n.events, pending_events: n.pending_events, serial: s, ..o })
}

/// The interface object with ID `id` is forgotten, the last serial is `s`,
/// nothing else changed, and the result is `Ok`.
pub open spec fn dropped_interface<F>(
    o: EiEventConverter<F>,
    n: EiEventConverter<F>,
    r: Result<(), Error>,
    id: u64,
    s: u32,
) -> bool {
    &&& r is Ok
    &&& n.device_for_interface@ == without_interface(o.device_for_interface@, id)
    &&& n == (EiEventConverter { device_for_interface: n.device_for_interface, serial: s, ..o })
}

/// Pending seat `i` became `x`, nothing else changed, and the result is `Ok`.
pub open spec fn seat_updated<F>(o: EiEventConverter<F>, n: EiEventConverter<F>, r: Result<(), Error>, i: int, x: SeatInner) -> bool {
    &&& r is Ok
    &&& n.pending_seats@ == o.pending_seats@.update(i, x)
    &&& n == (EiEventConverter { pending_seats: n.pending_seats, ..o })
}

/// Pending device `i` became `x`, nothing else changed, and the result is
/// `Ok`.
pub open spec fn device_updated<F>(
    o: EiEventConverter<F>,
    n: EiEventConverter<F>,
    r: Result<(), Error>,
    i: int,
    x: DeviceInner<F>,
) -> bool {
    &&& r is Ok
    &&& n.pending_devices@ == o.pending_devices@.update(i, x)
    &&& n == (EiEventConverter { pending_devices: n.pending_devices, ..o })
}

/// What an event on an `ei_connection` object does.
pub open spec fn connection_post<F>(
    o: EiEventConverter<F>,
    n: EiEventConverter<F>,
    ob: Backend<F>,
    nb: Backend<F>,
    event: ei::connection::Event,
    r: Result<(), Error>,
) -> bool {
    match event {
        ei::connection::Event::Seat { seat } => {
            &&& r is Ok
            &&& nb == ob
            &&& n.pending_seats@ == without_pending_seat(o.pending_seats@, seat.0.id).push(
                SeatInner { seat, name: None, capabilities: no_masks() },
            )
            &&& n == (EiEventConverter { pending_seats: n.pending_seats, ..o })
        },
        ei::connection::Event::Ping { ping } => {
            &&& r is Ok
            &&& n == o
            &&& sent_destroying(ob, nb, ping.0.id, 0, seq![ArgModel::Uint64(0)], Seq::empty())
        },
        ei::connection::Event::Disconnected { .. } | ei::connection::Event::InvalidObject { .. } => {
            &&& ignored(o, n, r)
            &&& nb == ob
        },
    }
}

/// What an event on an `ei_seat` object does.
pub open spec fn seat_post<F>(
    o: EiEventConverter<F>,
    n: EiEventConverter<F>,
    seat: ei::Seat,
    event: ei::seat::Event,
    r: Result<(), Error>,
) -> bool {
    let id = seat.0.id;
    match event {
        ei::seat::Event::Name { name } => match pending_seat_index(o.pending_seats@, id) {
            None => refused(o, n, r, Error::SeatSetupEventAfterDone),
            Some(i) => seat_updated(o, n, r, i, SeatInner { name: Some(name), ..o.pending_seats@[i] }),
        },
        ei::seat::Event::Capability { mask, interface } => match pending_seat_index(o.pending_seats@, id) {
            None => refused(o, n, r, Error::SeatSetupEventAfterDone),
            Some(i) => match capability_of_name(interface@) {
                Some(c) => seat_updated(
                    o,
                    n,
                    r,
                    i,
                    SeatInner { capabilities: o.pending_seats@[i].capabilities.spec_set(c, mask), ..o.pending_seats@[i] },
                ),
                None => ignored(o, n, r),
            },
        },
        ei::seat::Event::Done => match pending_seat_index(o.pending_seats@, id) {
            None => refused(o, n, r, Error::SeatSetupEventAfterDone),
            Some(i) => {
                let s = n.seats@.last();
                &&& r is Ok
                &&& n.pending_seats@ == without_pending_seat(o.pending_seats@, id)
                &&& n.seats@.len() > 0
                &&& *s.0 == o.pending_seats@[i]
                &&& n.seats@.drop_last() == without_seat(o.seats@, id)
                &&& queued_into(o, n, EiEvent::SeatAdded(SeatAdded { seat: s }))
                &&& n == (EiEventConverter {
                    pending_seats: n.pending_seats,
                    seats: n.seats,
                    events: n.events,
                    pending_events: n.pending_events,
                    ..o
                })
            },
        },
        ei::seat::Event::Device { device } => match seat_index(o.seats@, id) {
            None => refused(o, n, r, Error::SeatEventBeforeDone),
            Some(i) => {
                &&& r is Ok
                &&& n.pending_devices@.len() > 0
                &&& n.pending_devices@.drop_last() == without_pending_device(o.pending_devices@, device.0.id)
                &&& fresh_device(n.pending_devices@.last(), device, o.seats@[i])
                &&& n == (EiEventConverter { pending_devices: n.pending_devices, ..o })
            },
        },
        ei::seat::Event::Destroyed { serial } => {
            &&& r is Ok
            &&& n.pending_seats@ == without_pending_seat(o.pending_seats@, id)
            &&& n.seats@ == without_seat(o.seats@, id)
            &&& match seat_index(o.seats@, id) {
                Some(i) => queued_into(o, n, EiEvent::SeatRemoved(SeatRemoved { seat: o.seats@[i] })),
                None => n.events == o.events && n.pending_events == o.pending_events,
            }
            &&& n == (EiEventConverter {
                pending_seats: n.pending_seats,
                seats: n.seats,
                events: n.events,
                pending_events: n.pending_events,
                serial,
                ..o
            })
        },
    }
}

impl<F> EiEventConverter<F> {
    /// Handles an event on the `ei_connection` object.
    fn handle_connection_event(&mut self, event: ei::connection::Event, backend: &mut Backend<F>) -> (r: Result<(), Error>)
        ensures
            connection_post(*old(self), *final(self), *old(backend), *final(backend), event, r),
    {
        match event {
            ei::connection::Event::Seat { seat } => {
                let _ = take_pending_seat(&mut self.pending_seats, seat.0.id);
                self.pending_seats.push(SeatInner { seat, name: None, capabilities: CapabilityMasks::new() });
            },
            ei::connection::Event::Ping { ping } => {
                ping.done(backend, 0);
            },
            ei::connection::Event::Disconnected { .. } => {},
            ei::connection::Event::InvalidObject { .. } => {},
        }
        Ok(())
    }

    /// Handles an event on an `ei_seat` object.
    fn handle_seat_event(&mut self, seat: ei::Seat, event: ei::seat::Event) -> (r: Result<(), Error>)
        ensures
            seat_post(*old(self), *final(self), seat, event, r),
    {
        let id = seat.0.id;
        match event {
            ei::seat::Event::Name { name } => {
                let i = match self.find_pending_seat(id) {
                    Some(i) => i,
                    None => return Err(Error::SeatSetupEventAfterDone),
                };
                self.pending_seats[i].name = Some(name);
            },
            ei::seat::Event::Capability { mask, interface } => {
                let i = match self.find_pending_seat(id) {
                    Some(i) => i,
                    None => return Err(Error::SeatSetupEventAfterDone),
                };
                let c = match Iface::from_name(interface.as_str()) {
                    Some(f) => capability_of_iface(f),
                    None => None,
                };
                match c {
                    Some(c) => self.pending_seats[i].capabilities.set(c, mask),
                    None => {},
                }
            },
            ei::seat::Event::Done => {
                let inner = match self.find_pending_seat(id) {
                    Some(_) => match take_pending_seat(&mut self.pending_seats, id) {
                        Some(x) => x,
                        None => return Err(Error::SeatSetupEventAfterDone),
                    },
                    None => return Err(Error::SeatSetupEventAfterDone),
                };
                let ghost x = inner;
                let s = Seat(Arc::new(inner));
                remove_seat(&mut self.seats, id);
                let ghost before = self.seats@;
                self.seats.push(s.clone());
                proof {
                    assert(*s.0 == x);
                    assert(self.seats@.drop_last() =~= before);
                }
                self.queue_event(EiEvent::SeatAdded(SeatAdded { seat: s }));
            },
            ei::seat::Event::Device { device } => {
                let i = match self.find_seat(id) {
                    Some(i) => i,
                    None => return Err(Error::SeatEventBeforeDone),
                };
                let s = self.seats[i].clone();
                let _ = take_pending_device(&mut self.pending_devices, device.0.id);
                let ghost before = self.pending_devices@;
                self.pending_devices.push(
                    DeviceInner {
                        device,
                        seat: s,
                        name: None,
                        device_type: None,
                        interfaces: Interfaces::new(),
                        dimensions: None,
                        regions: Vec::new(),
                        next_region_mapping_id: None,
                        keymap: None,
                    },
                );
                proof {
                    assert(self.pending_devices@.drop_last() =~= before);
                }
            },
            ei::seat::Event::Destroyed { serial } => {
                self.serial = serial;
                let _ = take_pending_seat(&mut self.pending_seats, id);
                match self.find_seat(id) {
                    Some(i) => {
                        let s = self.seats[i].clone();
                        remove_seat(&mut self.seats, id);
                        self.queue_event(EiEvent::SeatRemoved(SeatRemoved { seat: s }));
                    },
                    None => {
                        remove_seat(&mut self.seats, id);
                    },
                }
            },
        }
        Ok(())
    }
}

/// After the serial is set to `s`: with no ready device with ID `id` the
/// event is refused, else the event `ev` makes of the device is queued.
pub open spec fn device_event_post<F>(
    o: EiEventConverter<F>,
    n: EiEventConverter<F>,
    id: u64,
    r: Result<(), Error>,
    s: u32,
    ev: spec_fn(Device<F>) -> EiEvent<F>,
) -> bool {
    match device_index(o.devices@, id) {
        None => refused_at(o, n, r, Error::DeviceEventBeforeDone, s),
        Some(i) => converted(o, n, r, ev(o.devices@[i]), s),
    }
}

/// What an event on an `ei_device` object does.
pub open spec fn device_post<F>(
    o: EiEventConverter<F>,
    n: EiEventConverter<F>,
    device: ei::Device,
    event: ei::device::Event,
    r: Result<(), Error>,
) -> bool {
    let id = device.0.id;
    let pi = pending_device_index(o.pending_devices@, id);
    match event {
        ei::device::Event::Name { name } => match pi {
            None => refused(o, n, r, Error::DeviceSetupEventAfterDone),
            Some(i) => device_updated(o, n, r, i, DeviceInner { name: Some(name), ..o.pending_devices@[i] }),
        },
        ei::device::Event::DeviceType { device_type } => match pi {
            None => refused(o, n, r, Error::DeviceSetupEventAfterDone),
            Some(i) => device_updated(o, n, r, i, DeviceInner { device_type: Some(device_type), ..o.pending_devices@[i] }),
        },
        ei::device::Event::Interface { object } => match pi {
            None => refused(o, n, r, Error::DeviceSetupEventAfterDone),
            Some(i) => match capability_of_name(object.interface@) {
                Some(c) => device_updated(
                    o,
                    n,
                    r,
                    i,
                    DeviceInner { interfaces: o.pending_devices@[i].interfaces.spec_set(c, object), ..o.pending_devices@[i] },
                ),
                None => ignored(o, n, r),
            },
        },
        ei::device::Event::Dimensions { width, height } => match pi {
            None => refused(o, n, r, Error::DeviceSetupEventAfterDone),
            Some(i) => device_updated(o, n, r, i, DeviceInner { dimensions: Some((width, height)), ..o.pending_devices@[i] }),
        },
        ei::device::Event::Region { offset_x, offset_y, width, hight, scale } => match pi {
            None => refused(o, n, r, Error::DeviceSetupEventAfterDone),
            Some(i) => {
                let d = o.pending_devices@[i];
                let g = Region { x: offset_x, y: offset_y, width, height: hight, scale, mapping_id: d.next_region_mapping_id };
                &&& r is Ok
                &&& n.pending_devices@.len() == o.pending_devices@.len()
                &&& forall|j: int| 0 <= j < o.pending_devices@.len() && j != i ==> #[trigger] n.pending_devices@[j] == o.pending_devices@[j]
                &&& with_region(d, n.pending_devices@[i], g)
                &&& n == (EiEventConverter { pending_devices: n.pending_devices, ..o })
            },
        },
        ei::device::Event::RegionMappingId { mapping_id } => match pi {
            None => refused(o, n, r, Error::DeviceEventBeforeDone),
            Some(i) => device_updated(o, n, r, i, DeviceInner { next_region_mapping_id: Some(mapping_id), ..o.pending_devices@[i] }),
        },
        ei::device::Event::Done => match pi {
            None => refused(o, n, r, Error::DeviceSetupEventAfterDone),
            Some(i) => {
                let d = o.pending_devices@[i];
                let dv = n.devices@.last();
                if d.device_type is None {
                    &&& r == Err::<(), Error>(Error::NoDeviceType)
                    &&& n.pending_devices@ == without_pending_device(o.pending_devices@, id)
                    &&& n == (EiEventConverter { pending_devices: n.pending_devices, ..o })
                } else {
                    &&& r is Ok
                    &&& n.pending_devices@ == without_pending_device(o.pending_devices@, id)
                    &&& n.devices@.len() > 0
                    &&& *dv.0 == d
                    &&& n.devices@.drop_last() == without_device(o.devices@, id)
                    &&& n.device_for_interface@ == with_interfaces(o.device_for_interface@, d.interfaces.list(), dv)
                    &&& queued_into(o, n, EiEvent::DeviceAdded(DeviceAdded { device: dv }))
                    &&& n == (EiEventConverter {
                        pending_devices: n.pending_devices,
                        devices: n.devices,
                        device_for_interface: n.device_for_interface,
                        events: n.events,
                        pending_events: n.pending_events,
                        ..o
                    })
                }
            },
        },
        ei::device::Event::Resumed { serial } => device_event_post(
            o,
            n,
            id,
            r,
            serial,
            |d: Device<F>| EiEvent::DeviceResumed(DeviceResumed { device: d, serial }),
        ),
        ei::device::Event::Paused { serial } => device_event_post(
            o,
            n,
            id,
            r,
            serial,
            |d: Device<F>| EiEvent::DevicePaused(DevicePaused { device: d, serial }),
        ),
        ei::device::Event::StartEmulating { serial, sequence } => device_event_post(
            o,
            n,
            id,
            r,
            serial,
            |d: Device<F>| EiEvent::DeviceStartEmulating(DeviceStartEmulating { device: d, serial, sequence }),
        ),
        ei::device::Event::StopEmulating { serial } => device_event_post(
            o,
            n,
            id,
            r,
            serial,
            |d: Device<F>| EiEvent::DeviceStopEmulating(DeviceStopEmulating { device: d, serial }),
        ),
        ei::device::Event::Frame { serial, timestamp } => device_event_post(
            o,
            n,
            id,
            r,
            serial,
            |d: Device<F>| EiEvent::Frame(Frame { device: d, serial, time: timestamp }),
        ),
        ei::device::Event::Destroyed { serial } => {
            &&& r is Ok
            &&& n.pending_devices@ == without_pending_device(o.pending_devices@, id)
            &&& n.devices@ == without_device(o.devices@, id)
            &&& match device_index(o.devices@, id) {
                Some(i) => queued_into(o, n, EiEvent::DeviceRemoved(DeviceRemoved { device: o.devices@[i] })),
                None => n.events == o.events && n.pending_events == o.pending_events,
            }
            &&& n == (EiEventConverter {
                pending_devices: n.pending_devices,
                devices: n.devices,
                events: n.events,
                pending_events: n.pending_events,
                serial,
                ..o
            })
        },
    }
}

/// Entering the objects up to capability `k` and then the one of capability
/// `k` is entering the objects up to capability `k + 1`.
proof fn lemma_with_interfaces_step<F>(v: Seq<InterfaceEntry<F>>, i: Interfaces, k: nat, d: Device<F>)
    requires
        k < 6,
    ensures
        list_upto(i, k + 1) == list_upto(i, k) + opt_seq(i.spec_get(all_capabilities()[k as int])),
        match i.spec_get(all_capabilities()[k as int]) {
            Some(x) => with_interfaces(v, list_upto(i, k + 1), d) == without_interface(
                with_interfaces(v, list_upto(i, k), d),
                x.id,
            ).push(InterfaceEntry { id: x.id, device: d }),
            None => with_interfaces(v, list_upto(i, k + 1), d) == with_interfaces(v, list_upto(i, k), d),
        },
{
    let l = list_upto(i, k);
    match i.spec_get(all_capabilities()[k as int]) {
        Some(x) => {
            assert((l + seq![x]).drop_last() =~= l);
            assert((l + seq![x]).last() == x);
            assert(l + opt_seq(Some(x)) =~= l + seq![x]);
        },
        None => {
            assert(l + opt_seq(None) =~= l);
        },
    }
}

/// The interface objects of `d`.
pub open spec fn interfaces_of<F>(d: &Device<F>) -> Interfaces {
    d.0.interfaces
}

impl<F> EiEventConverter<F> {
    /// Returns a clone of the ready device with ID `id`.
    fn ready_device(&self, id: u64) -> (r: Option<Device<F>>)
        ensures
            match device_index(self.devices@, id) {
                Some(i) => r == Some(self.devices@[i]),
                None => r is None,
            },
    {
        match self.find_device(id) {
            Some(i) => Some(self.devices[i].clone()),
            None => None,
        }
    }

    /// Enters `dv` as the device of each of its interface objects.
    fn enter_interfaces(&mut self, dv: &Device<F>)
        ensures
            final(self).device_for_interface@ == with_interfaces(old(self).device_for_interface@, dv.0.interfaces.list(), *dv),
            *final(self) == (EiEventConverter { device_for_interface: final(self).device_for_interface, ..*old(self) }),
    {
        let ghost v0 = self.device_for_interface@;
        let ghost ifs = interfaces_of(dv);
        let caps = Capabilities::all().iter();
        proof {
            crate::capability::lemma_all_list();
        }
        let mut k: usize = 0;
        while k < caps.len()
            invariant
                caps@ == all_capabilities(),
                k <= 6,
                ifs == dv.0.interfaces,
                self.device_for_interface@ == with_interfaces(v0, list_upto(ifs, k as nat), *dv),
                *self == (EiEventConverter { device_for_interface: self.device_for_interface, ..*old(self) }),
            decreases 6 - k,
        {
            proof {
                lemma_with_interfaces_step(v0, ifs, k as nat, *dv);
            }
            match dv.0.interfaces.get(caps[k]) {
                Some(x) => {
                    let oid = x.id;
                    remove_interface(&mut self.device_for_interface, oid);
                    self.device_for_interface.push(InterfaceEntry { id: oid, device: dv.clone() });
                },
                None => {},
            }
            k = k + 1;
        }
        proof {
            lemma_list_upto_all(ifs);
        }
    }

    /// Handles an event on an `ei_device` object.
    fn handle_device_event(&mut self, device: ei::Device, event: ei::device::Event) -> (r: Result<(), Error>)
        ensures
            device_post(*old(self), *final(self), device, event, r),
    {
        let id = device.0.id;
        match event {
            ei::device::Event::Name { name } => {
                let i = match self.find_pending_device(id) {
                    Some(i) => i,
                    None => return Err(Error::DeviceSetupEventAfterDone),
                };
                self.pending_devices[i].name = Some(name);
            },
            ei::device::Event::DeviceType { device_type } => {
                let i = match self.find_pending_device(id) {
                    Some(i) => i,
                    None => return Err(Error::DeviceSetupEventAfterDone),
                };
                self.pending_devices[i].device_type = Some(device_type);
            },
            ei::device::Event::Interface { object } => {
                let i = match self.find_pending_device(id) {
                    Some(i) => i,
                    None => return Err(Error::DeviceSetupEventAfterDone),
                };
                let c = match Iface::from_name(object.interface.as_str()) {
                    Some(f) => capability_of_iface(f),
                    None => None,
                };
                match c {
                    Some(c) => self.pending_devices[i].interfaces.set(c, object),
                    None => {},
                }
            },
            ei::device::Event::Dimensions { width, height } => {
                let i = match self.find_pending_device(id) {
                    Some(i) => i,
                    None => return Err(Error::DeviceSetupEventAfterDone),
                };
                self.pending_devices[i].dimensions = Some((width, height));
            },
            ei::device::Event::Region { offset_x, offset_y, width, hight, scale } => {
                let i = match self.find_pending_device(id) {
                    Some(i) => i,
                    None => return Err(Error::DeviceSetupEventAfterDone),
                };
                let mapping_id = match &self.pending_devices[i].next_region_mapping_id {
                    Some(m) => Some(m.clone()),
                    None => None,
                };
                let g = Region { x: offset_x, y: offset_y, width, height: hight, scale, mapping_id };
                self.pending_devices[i].regions.push(g);
            },
            ei::device::Event::RegionMappingId { mapping_id } => {
                let i = match self.find_pending_device(id) {
                    Some(i) => i,
                    None => return Err(Error::DeviceEventBeforeDone),
                };
                self.pending_devices[i].next_region_mapping_id = Some(mapping_id);
            },
            ei::device::Event::Done => {
                if self.find_pending_device(id).is_none() {
                    return Err(Error::DeviceSetupEventAfterDone);
                }
                let d = match take_pending_device(&mut self.pending_devices, id) {
                    Some(d) => d,
                    None => return Err(Error::DeviceSetupEventAfterDone),
                };
                if d.device_type.is_none() {
                    return Err(Error::NoDeviceType);
                }
                let ghost x = d;
                let dv = Device(Arc::new(d));
                remove_device(&mut self.devices, id);
                let ghost before = self.devices@;
                self.devices.push(dv.clone());
                proof {
                    assert(*dv.0 == x);
                    assert(self.devices@.drop_last() =~= before);
                }
                self.enter_interfaces(&dv);
                self.queue_event(EiEvent::DeviceAdded(DeviceAdded { device: dv }));
            },
            ei::device::Event::Resumed { serial } => {
                self.serial = serial;
                let d = match self.ready_device(id) {
                    Some(d) => d,
                    None => return Err(Error::DeviceEventBeforeDone),
                };
                self.queue_event(EiEvent::DeviceResumed(DeviceResumed { device: d, serial }));
            },
            ei::device::Event::Paused { serial } => {
                self.serial = serial;
                let d = match self.ready_device(id) {
                    Some(d) => d,
                    None => return Err(Error::DeviceEventBeforeDone),
                };
                self.queue_event(EiEvent::DevicePaused(DevicePaused { device: d, serial }));
            },
            ei::device::Event::StartEmulating { serial, sequence } => {
                self.serial = serial;
                let d = match self.ready_device(id) {
                    Some(d) => d,
                    None => return Err(Error::DeviceEventBeforeDone),
                };
                self.queue_event(EiEvent::DeviceStartEmulating(DeviceStartEmulating { device: d, serial, sequence }));
            },
            ei::device::Event::StopEmulating { serial } => {
                self.serial = serial;
                let d = match self.ready_device(id) {
                    Some(d) => d,
                    None => return Err(Error::DeviceEventBeforeDone),
                };
                self.queue_event(EiEvent::DeviceStopEmulating(DeviceStopEmulating { device: d, serial }));
            },
            ei::device::Event::Frame { serial, timestamp } => {
                self.serial = serial;
                let d = match self.ready_device(id) {
                    Some(d) => d,
                    None => return Err(Error::DeviceEventBeforeDone),
                };
                self.queue_event(EiEvent::Frame(Frame { device: d, serial, time: timestamp }));
            },
            ei::device::Event::Destroyed { serial } => {
                self.serial = serial;
                let _ = take_pending_device(&mut self.pending_devices, id);
                match self.ready_device(id) {
                    Some(d) => {
                        remove_device(&mut self.devices, id);
                        self.queue_event(EiEvent::DeviceRemoved(DeviceRemoved { device: d }));
                    },
                    None => {
                        remove_device(&mut self.devices, id);
                    },
                }
            },
        }
        Ok(())
    }
}

/// What an event on an `ei_keyboard` object does.
pub open spec fn keyboard_post<F>(
    o: EiEventConverter<F>,
    n: EiEventConverter<F>,
    keyboard: ei::Keyboard,
    event: ei::keyboard::Event<F>,
    r: Result<(), Error>,
) -> bool {
    let id = keyboard.0.id;
    let fi = interface_index(o.device_for_interface@, id);
    match event {
        ei::keyboard::Event::Keymap { keymap_type, size, keymap } => match keyboard_device_index(o.pending_devices@, id) {
            None => refused(o, n, r, Error::DeviceSetupEventAfterDone),
            Some(i) => device_updated(
                o,
                n,
                r,
                i,
                DeviceInner { keymap: Some(Keymap { fd: keymap, size, type_: keymap_type }), ..o.pending_devices@[i] },
            ),
        },
        ei::keyboard::Event::Key { key, state } => match fi {
            None => refused(o, n, r, Error::DeviceEventBeforeDone),
            Some(j) => converted(
                o,
                n,
                r,
                EiEvent::KeyboardKey(KeyboardKey { device: o.device_for_interface@[j].device, time: 0, key, state }),
                o.serial,
            ),
        },
        ei::keyboard::Event::Modifiers { serial, depressed, locked, latched, group } => match fi {
            None => refused_at(o, n, r, Error::DeviceEventBeforeDone, serial),
            Some(j) => converted(
                o,
                n,
                r,
                EiEvent::KeyboardModifiers(
                    KeyboardModifiers { device: o.device_for_interface@[j].device, serial, depressed, latched, locked, group },
                ),
                serial,
            ),
        },
        ei::keyboard::Event::Destroyed { serial } => dropped_interface(o, n, r, id, serial),
    }
}

/// What an event on an input interface object with ID `id` does: with no
/// ready device for the object it is refused, else the event `ev` makes of
/// the device is queued.
pub open spec fn input_post<F>(
    o: EiEventConverter<F>,
    n: EiEventConverter<F>,
    id: u64,
    r: Result<(), Error>,
    ev: spec_fn(Device<F>) -> EiEvent<F>,
) -> bool {
    match interface_index(o.device_for_interface@, id) {
        None => refused(o, n, r, Error::DeviceEventBeforeDone),
        Some(j) => converted(o, n, r, ev(o.device_for_interface@[j].device), o.serial),
    }
}

/// What the `destroyed` event with `serial` on an input interface object
/// with ID `id` does: with no ready device for the object it is refused,
/// else the object is forgotten.
pub open spec fn input_destroyed_post<F>(
    o: EiEventConverter<F>,
    n: EiEventConverter<F>,
    id: u64,
    r: Result<(), Error>,
    serial: u32,
) -> bool {
    match interface_index(o.device_for_interface@, id) {
        None => refused(o, n, r, Error::DeviceEventBeforeDone),
        Some(_) => dropped_interface(o, n, r, id, serial),
    }
}

/// What an event on an `ei_pointer` object does.
pub open spec fn pointer_post<F>(
    o: EiEventConverter<F>,
    n: EiEventConverter<F>,
    pointer: ei::Pointer,
    event: ei::pointer::Event,
    r: Result<(), Error>,
) -> bool {
    match event {
        ei::pointer::Event::Destroyed { serial } => input_destroyed_post(o, n, pointer.0.id, r, serial),
        ei::pointer::Event::MotionRelative { x, y } => input_post(
            o,
            n,
            pointer.0.id,
            r,
            |d: Device<F>| EiEvent::PointerMotion(PointerMotion { device: d, time: 0, dx: x, dy: y }),
        ),
    }
}

/// What an event on an `ei_pointer_absolute` object does.
pub open spec fn pointer_absolute_post<F>(
    o: EiEventConverter<F>,
    n: EiEventConverter<F>,
    pointer_absolute: ei::PointerAbsolute,
    event: ei::pointer_absolute::Event,
    r: Result<(), Error>,
) -> bool {
    match event {
        ei::pointer_absolute::Event::Destroyed { serial } => input_destroyed_post(o, n, pointer_absolute.0.id, r, serial),
        ei::pointer_absolute::Event::MotionAbsolute { x, y } => input_post(
            o,
            n,
            pointer_absolute.0.id,
            r,
            |d: Device<F>| EiEvent::PointerMotionAbsolute(
                PointerMotionAbsolute { device: d, time: 0, dx_absolute: x, dy_absolute: y },
            ),
        ),
    }
}

/// What an event on an `ei_scroll` object does.
pub open spec fn scroll_post<F>(
    o: EiEventConverter<F>,
    n: EiEventConverter<F>,
    scroll: ei::Scroll,
    event: ei::scroll::Event,
    r: Result<(), Error>,
) -> bool {
    let id = scroll.0.id;
    match event {
        ei::scroll::Event::Destroyed { serial } => input_destroyed_post(o, n, id, r, serial),
        ei::scroll::Event::Scroll { x, y } => input_post(
            o,
            n,
            id,
            r,
            |d: Device<F>| EiEvent::ScrollDelta(ScrollDelta { device: d, time: 0, dx: x, dy: y }),
        ),
        ei::scroll::Event::ScrollDiscrete { x, y } => input_post(
            o,
            n,
            id,
            r,
            |d: Device<F>| EiEvent::ScrollDiscrete(ScrollDiscrete { device: d, time: 0, discrete_dx: x, discrete_dy: y }),
        ),
        ei::scroll::Event::ScrollStop { x, y, is_cancel } => input_post(
            o,
            n,
            id,
            r,
            |d: Device<F>| if is_cancel != 0 {
                EiEvent::ScrollCancel(ScrollCancel { device: d, time: 0, x: x != 0, y: y != 0 })
            } else {
                EiEvent::ScrollStop(ScrollStop { device: d, time: 0, x: x != 0, y: y != 0 })
            },
        ),
    }
}

/// What an event on an `ei_button` object does.
pub open spec fn button_post<F>(
    o: EiEventConverter<F>,
    n: EiEventConverter<F>,
    button: ei::Button,
    event: ei::button::Event,
    r: Result<(), Error>,
) -> bool {
    match event {
        ei::button::Event::Destroyed { serial } => input_destroyed_post(o, n, button.0.id, r, serial),
        ei::button::Event::Button { button: b, state } => input_post(
            o,
            n,
            button.0.id,
            r,
            |d: Device<F>| EiEvent::Button(Button { device: d, time: 0, button: b, state }),
        ),
    }
}

/// What an event on an `ei_touchscreen` object does.
pub open spec fn touchscreen_post<F>(
    o: EiEventConverter<F>,
    n: EiEventConverter<F>,
    touchscreen: ei::Touchscreen,
    event: ei::touchscreen::Event,
    r: Result<(), Error>,
) -> bool {
    let id = touchscreen.0.id;
    match event {
        ei::touchscreen::Event::Destroyed { serial } => input_destroyed_post(o, n, id, r, serial),
        ei::touchscreen::Event::Down { touchid, x, y } => input_post(
            o,
            n,
            id,
            r,
            |d: Device<F>| EiEvent::TouchDown(TouchDown { device: d, time: 0, touch_id: touchid, x, y }),
        ),
        ei::touchscreen::Event::Motion { touchid, x, y } => input_post(
            o,
            n,
            id,
            r,
            |d: Device<F>| EiEvent::TouchMotion(TouchMotion { device: d, time: 0, touch_id: touchid, x, y }),
        ),
        ei::touchscreen::Event::Up { touchid } => input_post(
            o,
            n,
            id,
            r,
            |d: Device<F>| EiEvent::TouchUp(TouchUp { device: d, time: 0, touch_id: touchid }),
        ),
        ei::touchscreen::Event::Cancel { touchid } => input_post(
            o,
            n,
            id,
            r,
            |d: Device<F>| EiEvent::TouchCancel(TouchCancel { device: d, time: 0, touch_id: touchid }),
        ),
    }
}

/// What handling `event` does: `o` and `ob` are the converter and the
/// backend before, `n` and `nb` after, and `r` the result.
pub open spec fn event_post<F>(
    o: EiEventConverter<F>,
    n: EiEventConverter<F>,
    ob: Backend<F>,
    nb: Backend<F>,
    event: ei::Event<F>,
    r: Result<(), Error>,
) -> bool {
    match event {
        ei::Event::Connection(_, e) => connection_post(o, n, ob, nb, e, r),
        _ => nb == ob && match event {
            ei::Event::Handshake(_, _) => refused(o, n, r, Error::UnexpectedHandshakeEvent),
            ei::Event::Callback(_, _) => ignored(o, n, r),
            ei::Event::Seat(p, e) => seat_post(o, n, p, e, r),
            ei::Event::Device(p, e) => device_post(o, n, p, e, r),
            ei::Event::Keyboard(p, e) => keyboard_post(o, n, p, e, r),
            ei::Event::Pointer(p, e) => pointer_post(o, n, p, e, r),
            ei::Event::PointerAbsolute(p, e) => pointer_absolute_post(o, n, p, e, r),
            ei::Event::Scroll(p, e) => scroll_post(o, n, p, e, r),
            ei::Event::Button(p, e) => button_post(o, n, p, e, r),
            ei::Event::Touchscreen(p, e) => touchscreen_post(o, n, p, e, r),
            ei::Event::Connection(_, _) => true,
        },
    }
}

/// Every event in `s` is grouped by frames.
pub open spec fn all_timed<F>(s: Seq<EiEvent<F>>) -> bool {
    forall|k: int| 0 <= k < s.len() ==> (#[trigger] s[k]).spec_is_timed()
}

/// Queueing keeps only events grouped by frames waiting for a frame.
pub proof fn law_queue_keeps_timed<F>(events: Seq<EiEvent<F>>, pending: Seq<EiEvent<F>>, e: EiEvent<F>)
    requires
        all_timed(pending),
    ensures
        all_timed(queue(events, pending, e).1),
{
    let q = queue(events, pending, e).1;
    assert forall|k: int| 0 <= k < q.len() implies (#[trigger] q[k]).spec_is_timed() by {
        if e.spec_is_timed() {
            if k < pending.len() {
                assert(q[k] == pending[k]);
            }
        }
    }
}

/// Only events grouped by frames ever wait for a frame: handling an event
/// keeps every waiting event one that a frame stamps.
#[verifier::rlimit(80)]
#[verifier::spinoff_prover]
pub proof fn law_pending_events_timed<F>(
    o: EiEventConverter<F>,
    n: EiEventConverter<F>,
    ob: Backend<F>,
    nb: Backend<F>,
    event: ei::Event<F>,
    r: Result<(), Error>,
)
    requires
        event_post(o, n, ob, nb, event, r),
        all_timed(o.pending_events@),
    ensures
        all_timed(n.pending_events@),
{
    assert forall|e: EiEvent<F>| #[trigger] queued_into(o, n, e) implies all_timed(n.pending_events@) by {
        law_queue_keeps_timed(o.events@, o.pending_events@, e);
    }
    match event {
        ei::Event::Handshake(_, _) => {},
        ei::Event::Connection(_, _) => {},
        ei::Event::Callback(_, _) => {},
        ei::Event::Seat(_, _) => {},
        ei::Event::Device(_, _) => {},
        ei::Event::Keyboard(_, _) => {},
        ei::Event::Pointer(_, _) => {},
        ei::Event::PointerAbsolute(_, _) => {},
        ei::Event::Scroll(_, _) => {},
        ei::Event::Button(_, _) => {},
        ei::Event::Touchscreen(_, _) => {},
    }
}

/// The seat with object ID `id` is announced and not done, with name
/// `name`.
pub open spec fn seat_pending_named<F>(c: EiEventConverter<F>, id: u64, name: Option<String>) -> bool {
    pending_seat_index(c.pending_seats@, id) matches Some(i) && c.pending_seats@[i].name == name
}

/// After removing the elements with a key and adding one with it, the first
/// element with that key is the one added.
proof fn lemma_first_after_push<T>(v: Seq<T>, p: spec_fn(T) -> bool, m: spec_fn(T) -> bool, x: T)
    requires
        forall|y: T| #[trigger] m(y) <==> !p(y),
        m(x),
    ensures
        first_index(v.filter(p).push(x), m) == Some(v.filter(p).len() as int),
{
    let f = v.filter(p);
    assert forall|j: int| 0 <= j < f.len() implies !m(#[trigger] f.push(x)[j]) by {
        v.lemma_filter_pred(p, j);
        assert(f.push(x)[j] == f[j]);
    }
    lemma_first_index(f.push(x), m, f.len() as int);
}

/// After removing the elements with a key, none has it.
proof fn lemma_none_after_filter<T>(v: Seq<T>, p: spec_fn(T) -> bool, m: spec_fn(T) -> bool)
    requires
        forall|y: T| #[trigger] m(y) <==> !p(y),
    ensures
        first_index(v.filter(p), m) is None,
{
    let f = v.filter(p);
    assert forall|j: int| 0 <= j < f.len() implies !m(#[trigger] f[j]) by {
        v.lemma_filter_pred(p, j);
    }
    lemma_no_index(f, m);
}

/// A seat the server announces is pending, with no name yet.
pub proof fn law_seat_announced<F>(
    o: EiEventConverter<F>,
    n: EiEventConverter<F>,
    ob: Backend<F>,
    nb: Backend<F>,
    c: ei::Connection,
    s: ei::Seat,
    r: Result<(), Error>,
)
    requires
        event_post(o, n, ob, nb, ei::Event::Connection(c, ei::connection::Event::Seat { seat: s }), r),
    ensures
        r is Ok,
        seat_pending_named(n, s.0.id, None),
        n.events == o.events && n.pending_events == o.pending_events,
{
    let id = s.0.id;
    lemma_first_after_push(
        o.pending_seats@,
        |x: SeatInner| x.seat.0.id != id,
        |x: SeatInner| x.seat.0.id == id,
        SeatInner { seat: s, name: None, capabilities: no_masks() },
    );
}

/// While a seat is being set up, its name is the last one the server sent
/// and capabilities leave it: each such event succeeds and queues nothing.
pub proof fn law_seat_setup_step<F>(
    o: EiEventConverter<F>,
    n: EiEventConverter<F>,
    ob: Backend<F>,
    nb: Backend<F>,
    s: ei::Seat,
    e: ei::seat::Event,
    r: Result<(), Error>,
    name: Option<String>,
)
    requires
        event_post(o, n, ob, nb, ei::Event::Seat(s, e), r),
        seat_pending_named(o, s.0.id, name),
        e is Name || e is Capability,
    ensures
        r is Ok,
        n.events == o.events && n.pending_events == o.pending_events,
        match e {
            ei::seat::Event::Name { name: m } => seat_pending_named(n, s.0.id, Some(m)),
            _ => seat_pending_named(n, s.0.id, name),
        },
{
    let id = s.0.id;
    let m = |x: SeatInner| x.seat.0.id == id;
    lemma_first_index_in(o.pending_seats@, m);
    lemma_first_index_same(o.pending_seats@, n.pending_seats@, m);
}

/// A seat set up with name `name` is added by `done`: exactly one event,
/// the seat added with that name, joins the ready events, and the seat is
/// no longer pending.
pub proof fn law_seat_done<F>(
    o: EiEventConverter<F>,
    n: EiEventConverter<F>,
    ob: Backend<F>,
    nb: Backend<F>,
    s: ei::Seat,
    r: Result<(), Error>,
    name: Option<String>,
)
    requires
        event_post(o, n, ob, nb, ei::Event::Seat(s, ei::seat::Event::Done), r),
        seat_pending_named(o, s.0.id, name),
    ensures
        r is Ok,
        n.pending_events@ == o.pending_events@,
        n.events@.len() == o.events@.len() + 1,
        n.events@.drop_last() == o.events@,
        n.events@.last() matches EiEvent::SeatAdded(a) && a.seat.0.name == name && a.seat.0.seat.0.id == s.0.id,
        pending_seat_index(n.pending_seats@, s.0.id) is None,
{
    let id = s.0.id;
    lemma_first_index_in(o.pending_seats@, |x: SeatInner| x.seat.0.id == id);
    lemma_none_after_filter(o.pending_seats@, |x: SeatInner| x.seat.0.id != id, |x: SeatInner| x.seat.0.id == id);
    assert(o.events@.push(n.events@.last()).drop_last() =~= o.events@);
}

/// Once a seat is done, or was never announced, its setup events are
/// refused with [`Error::SeatSetupEventAfterDone`] and change nothing.
pub proof fn law_seat_setup_after_done<F>(
    o: EiEventConverter<F>,
    n: EiEventConverter<F>,
    ob: Backend<F>,
    nb: Backend<F>,
    s: ei::Seat,
    e: ei::seat::Event,
    r: Result<(), Error>,
)
    requires
        event_post(o, n, ob, nb, ei::Event::Seat(s, e), r),
        pending_seat_index(o.pending_seats@, s.0.id) is None,
        e is Name || e is Capability || e is Done,
    ensures
        r == Err::<(), Error>(Error::SeatSetupEventAfterDone),
        n == o,
        nb == ob,
{
}

/// Step `i` of a run of the converter: `cs[i]` and `bs[i]` become
/// `cs[i + 1]` and `bs[i + 1]` on event `evs[i]`, which returns `rs[i]`.
pub open spec fn event_step<F>(
    cs: Seq<EiEventConverter<F>>,
    bs: Seq<Backend<F>>,
    evs: Seq<ei::Event<F>>,
    rs: Seq<Result<(), Error>>,
    i: int,
) -> bool {
    event_post(cs[i], cs[i + 1], bs[i], bs[i + 1], evs[i], rs[i])
}

/// `evs` handled one after the other by the converter, through the states
/// `cs` and backends `bs`, with the results `rs`.
pub open spec fn event_run<F>(
    cs: Seq<EiEventConverter<F>>,
    bs: Seq<Backend<F>>,
    evs: Seq<ei::Event<F>>,
    rs: Seq<Result<(), Error>>,
) -> bool {
    &&& cs.len() == evs.len() + 1
    &&& bs.len() == evs.len() + 1
    &&& rs.len() == evs.len()
    &&& forall|i: int| 0 <= i < evs.len() ==> #[trigger] event_step(cs, bs, evs, rs, i)
}

/// `e` is a `name` or `capability` event of seat `s`.
pub open spec fn is_seat_setup<F>(e: ei::Event<F>, s: ei::Seat) -> bool {
    e matches ei::Event::Seat(t, se) && t == s && (se is Name || se is Capability)
}

/// The name the last `name` event among `evs` gives, if any.
pub open spec fn last_seat_name<F>(evs: Seq<ei::Event<F>>) -> Option<String>
    decreases evs.len(),
{
    if evs.len() == 0 {
        None
    } else {
        match evs.last() {
            ei::Event::Seat(_, ei::seat::Event::Name { name }) => Some(name),
            _ => last_seat_name(evs.drop_last()),
        }
    }
}

proof fn lemma_seat_setup_run<F>(
    cs: Seq<EiEventConverter<F>>,
    bs: Seq<Backend<F>>,
    evs: Seq<ei::Event<F>>,
    rs: Seq<Result<(), Error>>,
    s: ei::Seat,
    i: int,
)
    requires
        event_run(cs, bs, evs, rs),
        1 <= i < evs.len(),
        seat_pending_named(cs[1], s.0.id, None),
        forall|k: int| 1 <= k < i ==> is_seat_setup(#[trigger] evs[k], s),
    ensures
        seat_pending_named(cs[i], s.0.id, last_seat_name(evs.subrange(1, i))),
        cs[i].events == cs[1].events,
        cs[i].pending_events == cs[1].pending_events,
        forall|k: int| 1 <= k < i ==> (#[trigger] rs[k]) is Ok,
    decreases i,
{
    if i > 1 {
        lemma_seat_setup_run(cs, bs, evs, rs, s, i - 1);
        assert(event_step(cs, bs, evs, rs, i - 1));
        assert(is_seat_setup(evs[i - 1], s));
        let se = evs[i - 1]->Seat_1;
        law_seat_setup_step(
            cs[i - 1],
            cs[i],
            bs[i - 1],
            bs[i],
            s,
            se,
            rs[i - 1],
            last_seat_name(evs.subrange(1, i - 1)),
        );
        assert(evs.subrange(1, i).drop_last() =~= evs.subrange(1, i - 1));
        assert(evs.subrange(1, i).last() == evs[i - 1]);
    } else {
        assert(evs.subrange(1, 1).len() == 0);
    }
}

proof fn lemma_seat_done_run<F>(
    cs: Seq<EiEventConverter<F>>,
    bs: Seq<Backend<F>>,
    evs: Seq<ei::Event<F>>,
    rs: Seq<Result<(), Error>>,
    s: ei::Seat,
    k: int,
    i: int,
)
    requires
        event_run(cs, bs, evs, rs),
        0 <= k < i <= evs.len(),
        pending_seat_index(cs[k + 1].pending_seats@, s.0.id) is None,
        forall|j: int| k < j < evs.len() ==> is_seat_setup(#[trigger] evs[j], s) || evs[j] == ei::Event::<F>::Seat(s, ei::seat::Event::Done),
    ensures
        cs[i] == cs[k + 1],
        forall|j: int| k < j < i ==> (#[trigger] rs[j]) == Err::<(), Error>(Error::SeatSetupEventAfterDone),
    decreases i - k,
{
    if i > k + 1 {
        lemma_seat_done_run(cs, bs, evs, rs, s, k, i - 1);
        assert(event_step(cs, bs, evs, rs, i - 1));
        let se = evs[i - 1]->Seat_1;
        law_seat_setup_after_done(cs[i - 1], cs[i], bs[i - 1], bs[i], s, se, rs[i - 1]);
    }
}

/// The life of a seat: once the server announces seat `s`, its `name` and
/// `capability` events succeed and queue nothing; its `done` then succeeds
/// and queues exactly one event, the seat added with the name the last
/// `name` event gave; after that, each `name`, `capability` or `done` of
/// the seat is refused with [`Error::SeatSetupEventAfterDone`] and changes
/// nothing.
pub proof fn law_seat_life<F>(
    cs: Seq<EiEventConverter<F>>,
    bs: Seq<Backend<F>>,
    evs: Seq<ei::Event<F>>,
    rs: Seq<Result<(), Error>>,
    c: ei::Connection,
    s: ei::Seat,
    k: int,
)
    requires
        event_run(cs, bs, evs, rs),
        0 < k < evs.len(),
        evs[0] == ei::Event::<F>::Connection(c, ei::connection::Event::Seat { seat: s }),
        forall|j: int| 0 < j < k ==> is_seat_setup(#[trigger] evs[j], s),
        evs[k] == ei::Event::<F>::Seat(s, ei::seat::Event::Done),
        forall|j: int| k < j < evs.len() ==> is_seat_setup(#[trigger] evs[j], s) || evs[j] == ei::Event::<F>::Seat(s, ei::seat::Event::Done),
    ensures
        forall|j: int| 0 <= j <= k ==> (#[trigger] rs[j]) is Ok,
        cs[k].events == cs[0].events,
        cs[k].pending_events == cs[0].pending_events,
        cs[k + 1].pending_events@ == cs[0].pending_events@,
        cs[k + 1].events@ == cs[0].events@.push(cs[k + 1].events@.last()),
        cs[k + 1].events@.last() matches EiEvent::SeatAdded(a) && a.seat.0.name == last_seat_name(evs.subrange(1, k))
            && a.seat.0.seat.0.id == s.0.id,
        forall|j: int| k < j < evs.len() ==> (#[trigger] rs[j]) == Err::<(), Error>(Error::SeatSetupEventAfterDone),
        cs[evs.len() as int] == cs[k + 1],
{
    assert(event_step(cs, bs, evs, rs, 0));
    law_seat_announced(cs[0], cs[1], bs[0], bs[1], c, s, rs[0]);
    lemma_seat_setup_run(cs, bs, evs, rs, s, k);
    assert(event_step(cs, bs, evs, rs, k));
    let name = last_seat_name(evs.subrange(1, k));
    law_seat_done(cs[k], cs[k + 1], bs[k], bs[k + 1], s, rs[k], name);
    assert(cs[k + 1].events@ =~= cs[0].events@.push(cs[k + 1].events@.last()));
    lemma_seat_done_run(cs, bs, evs, rs, s, k, evs.len() as int);
}

/// A device whose setup ends without a type is refused with
/// [`Error::NoDeviceType`] and dropped: nothing is queued, and afterwards,
/// unless it was ready before, its setup events are refused with
/// [`Error::DeviceSetupEventAfterDone`] and its other events with
/// [`Error::DeviceEventBeforeDone`].
pub proof fn law_device_without_type<F>(
    c0: EiEventConverter<F>,
    c1: EiEventConverter<F>,
    c2: EiEventConverter<F>,
    c3: EiEventConverter<F>,
    b0: Backend<F>,
    b1: Backend<F>,
    b2: Backend<F>,
    b3: Backend<F>,
    d: ei::Device,
    name: String,
    serial: u32,
    r1: Result<(), Error>,
    r2: Result<(), Error>,
    r3: Result<(), Error>,
)
    requires
        pending_device_index(c0.pending_devices@, d.0.id) matches Some(i) && c0.pending_devices@[i].device_type is None,
        device_index(c0.devices@, d.0.id) is None,
        event_post(c0, c1, b0, b1, ei::Event::Device(d, ei::device::Event::Done), r1),
        event_post(c1, c2, b1, b2, ei::Event::Device(d, ei::device::Event::Name { name }), r2),
        event_post(c2, c3, b2, b3, ei::Event::Device(d, ei::device::Event::Resumed { serial }), r3),
    ensures
        r1 == Err::<(), Error>(Error::NoDeviceType),
        c1.events == c0.events && c1.pending_events == c0.pending_events && c1.devices == c0.devices,
        r2 == Err::<(), Error>(Error::DeviceSetupEventAfterDone),
        c2 == c1,
        r3 == Err::<(), Error>(Error::DeviceEventBeforeDone),
        c3 == (EiEventConverter { serial, ..c2 }),
{
    let id = d.0.id;
    lemma_none_after_filter(
        c0.pending_devices@,
        |x: DeviceInner<F>| x.device.0.id != id,
        |x: DeviceInner<F>| x.device.0.id == id,
    );
}

/// The device with object ID `id` is being set up and has no type yet.
pub open spec fn device_pending_untyped<F>(c: EiEventConverter<F>, id: u64) -> bool {
    pending_device_index(c.pending_devices@, id) matches Some(i) && c.pending_devices@[i].device_type is None
}

/// `e` is a setup event of device `d` other than `device_type` and `done`.
pub open spec fn is_untyped_setup<F>(e: ei::Event<F>, d: ei::Device) -> bool {
    e matches ei::Event::Device(t, de) && t == d && (de is Name || de is Interface || de is Dimensions
        || de is Region || de is RegionMappingId)
}

/// A device a done seat announces is being set up, with no type yet; the
/// ready devices and events stay as they were.
pub proof fn law_device_announced<F>(
    o: EiEventConverter<F>,
    n: EiEventConverter<F>,
    ob: Backend<F>,
    nb: Backend<F>,
    s: ei::Seat,
    d: ei::Device,
    r: Result<(), Error>,
)
    requires
        seat_index(o.seats@, s.0.id) is Some,
        event_post(o, n, ob, nb, ei::Event::Seat(s, ei::seat::Event::Device { device: d }), r),
    ensures
        r is Ok,
        device_pending_untyped(n, d.0.id),
        n.devices == o.devices && n.events == o.events && n.pending_events == o.pending_events,
{
    let id = d.0.id;
    let l = n.pending_devices@;
    assert(l == l.drop_last().push(l.last()));
    lemma_first_after_push(
        o.pending_devices@,
        |x: DeviceInner<F>| x.device.0.id != id,
        |x: DeviceInner<F>| x.device.0.id == id,
        l.last(),
    );
}

/// Setup events other than `device_type` and `done` leave a device without
/// a type: each succeeds and queues nothing.
pub proof fn law_device_setup_untyped<F>(
    o: EiEventConverter<F>,
    n: EiEventConverter<F>,
    ob: Backend<F>,
    nb: Backend<F>,
    d: ei::Device,
    e: ei::device::Event,
    r: Result<(), Error>,
)
    requires
        device_pending_untyped(o, d.0.id),
        e is Name || e is Interface || e is Dimensions || e is Region || e is RegionMappingId,
        event_post(o, n, ob, nb, ei::Event::Device(d, e), r),
    ensures
        r is Ok,
        device_pending_untyped(n, d.0.id),
        n.devices == o.devices && n.events == o.events && n.pending_events == o.pending_events,
{
    let id = d.0.id;
    let m = |x: DeviceInner<F>| x.device.0.id == id;
    lemma_first_index_in(o.pending_devices@, m);
    if n.pending_devices@.len() == o.pending_devices@.len() {
        lemma_first_index_same(o.pending_devices@, n.pending_devices@, m);
    }
}

/// Events of a device that is neither being set up nor ready change nothing
/// but the serial: its setup events are refused with
/// [`Error::DeviceSetupEventAfterDone`] and its `resumed` with
/// [`Error::DeviceEventBeforeDone`].
pub proof fn law_unknown_device<F>(
    o: EiEventConverter<F>,
    n: EiEventConverter<F>,
    ob: Backend<F>,
    nb: Backend<F>,
    d: ei::Device,
    e: ei::device::Event,
    r: Result<(), Error>,
)
    requires
        pending_device_index(o.pending_devices@, d.0.id) is None,
        device_index(o.devices@, d.0.id) is None,
        event_post(o, n, ob, nb, ei::Event::Device(d, e), r),
    ensures
        (e is Name || e is DeviceType || e is Interface || e is Dimensions || e is Region || e is Done) ==> r
            == Err::<(), Error>(Error::DeviceSetupEventAfterDone) && n == o,
        e matches ei::device::Event::Resumed { serial } ==> r == Err::<(), Error>(Error::DeviceEventBeforeDone)
            && n == (EiEventConverter { serial, ..o }),
{
}

/// `e` is a setup event or a `resumed` of device `d`.
pub open spec fn is_setup_or_resumed<F>(e: ei::Event<F>, d: ei::Device) -> bool {
    e matches ei::Event::Device(t, de) && t == d && (de is Name || de is DeviceType || de is Interface
        || de is Dimensions || de is Region || de is Done || de is Resumed)
}

proof fn lemma_dropped_run<F>(
    cs: Seq<EiEventConverter<F>>,
    bs: Seq<Backend<F>>,
    evs: Seq<ei::Event<F>>,
    rs: Seq<Result<(), Error>>,
    d: ei::Device,
    i: int,
)
    requires
        event_run(cs, bs, evs, rs),
        0 <= i <= evs.len(),
        pending_device_index(cs[0].pending_devices@, d.0.id) is None,
        device_index(cs[0].devices@, d.0.id) is None,
        forall|j: int| 0 <= j < evs.len() ==> is_setup_or_resumed(#[trigger] evs[j], d),
    ensures
        cs[i].pending_devices == cs[0].pending_devices,
        cs[i].devices == cs[0].devices,
        cs[i].events == cs[0].events,
        cs[i].pending_events == cs[0].pending_events,
    decreases i,
{
    if i > 0 {
        lemma_dropped_run(cs, bs, evs, rs, d, i - 1);
        assert(event_step(cs, bs, evs, rs, i - 1));
        assert(is_setup_or_resumed(evs[i - 1], d));
        law_unknown_device(cs[i - 1], cs[i], bs[i - 1], bs[i], d, evs[i - 1]->Device_1, rs[i - 1]);
    }
}

/// A device that is neither being set up nor ready stays so: each of its
/// setup events is refused with [`Error::DeviceSetupEventAfterDone`] and
/// each `resumed` with [`Error::DeviceEventBeforeDone`], and none of them
/// queues anything.
pub proof fn law_dropped_device_events<F>(
    cs: Seq<EiEventConverter<F>>,
    bs: Seq<Backend<F>>,
    evs: Seq<ei::Event<F>>,
    rs: Seq<Result<(), Error>>,
    d: ei::Device,
)
    requires
        event_run(cs, bs, evs, rs),
        pending_device_index(cs[0].pending_devices@, d.0.id) is None,
        device_index(cs[0].devices@, d.0.id) is None,
        forall|j: int| 0 <= j < evs.len() ==> is_setup_or_resumed(#[trigger] evs[j], d),
    ensures
        forall|j: int|
            0 <= j < evs.len() ==> (#[trigger] rs[j]) == Err::<(), Error>(
                if evs[j]->Device_1 is Resumed {
                    Error::DeviceEventBeforeDone
                } else {
                    Error::DeviceSetupEventAfterDone
                },
            ),
        cs[evs.len() as int].events == cs[0].events,
        cs[evs.len() as int].pending_events == cs[0].pending_events,
        cs[evs.len() as int].devices == cs[0].devices,
        cs[evs.len() as int].pending_devices == cs[0].pending_devices,
{
    assert forall|j: int| 0 <= j < evs.len() implies (#[trigger] rs[j]) == Err::<(), Error>(
        if evs[j]->Device_1 is Resumed {
            Error::DeviceEventBeforeDone
        } else {
            Error::DeviceSetupEventAfterDone
        },
    ) by {
        lemma_dropped_run(cs, bs, evs, rs, d, j);
        assert(event_step(cs, bs, evs, rs, j));
        assert(is_setup_or_resumed(evs[j], d));
        law_unknown_device(cs[j], cs[j + 1], bs[j], bs[j + 1], d, evs[j]->Device_1, rs[j]);
    }
    lemma_dropped_run(cs, bs, evs, rs, d, evs.len() as int);
}

proof fn lemma_untyped_run<F>(
    cs: Seq<EiEventConverter<F>>,
    bs: Seq<Backend<F>>,
    evs: Seq<ei::Event<F>>,
    rs: Seq<Result<(), Error>>,
    d: ei::Device,
    i: int,
)
    requires
        event_run(cs, bs, evs, rs),
        1 <= i <= evs.len(),
        device_pending_untyped(cs[1], d.0.id),
        forall|k: int| 1 <= k < i ==> is_untyped_setup(#[trigger] evs[k], d),
    ensures
        device_pending_untyped(cs[i], d.0.id),
        cs[i].devices == cs[1].devices,
        cs[i].events == cs[1].events,
        cs[i].pending_events == cs[1].pending_events,
        forall|k: int| 1 <= k < i ==> (#[trigger] rs[k]) is Ok,
    decreases i,
{
    if i > 1 {
        lemma_untyped_run(cs, bs, evs, rs, d, i - 1);
        assert(event_step(cs, bs, evs, rs, i - 1));
        assert(is_untyped_setup(evs[i - 1], d));
        let de = evs[i - 1]->Device_1;
        law_device_setup_untyped(cs[i - 1], cs[i], bs[i - 1], bs[i], d, de, rs[i - 1]);
    }
}

/// The life of a device that never gets a type: once a done seat announces
/// device `d`, its setup events other than `device_type` succeed and queue
/// nothing; its `done` is then refused with [`Error::NoDeviceType`], queues
/// no device, and drops the device, so that, unless a device with its ID
/// was ready before, it is neither being set up nor ready (see
/// [`law_unknown_device`] for what its later events do).
pub proof fn law_device_life_without_type<F>(
    cs: Seq<EiEventConverter<F>>,
    bs: Seq<Backend<F>>,
    evs: Seq<ei::Event<F>>,
    rs: Seq<Result<(), Error>>,
    s: ei::Seat,
    d: ei::Device,
    k: int,
)
    requires
        event_run(cs, bs, evs, rs),
        0 < k < evs.len(),
        seat_index(cs[0].seats@, s.0.id) is Some,
        evs[0] == ei::Event::<F>::Seat(s, ei::seat::Event::Device { device: d }),
        forall|j: int| 0 < j < k ==> is_untyped_setup(#[trigger] evs[j], d),
        evs[k] == ei::Event::<F>::Device(d, ei::device::Event::Done),
    ensures
        forall|j: int| 0 <= j < k ==> (#[trigger] rs[j]) is Ok,
        rs[k] == Err::<(), Error>(Error::NoDeviceType),
        cs[k + 1].devices == cs[0].devices,
        cs[k + 1].events == cs[0].events,
        cs[k + 1].pending_events == cs[0].pending_events,
        pending_device_index(cs[k + 1].pending_devices@, d.0.id) is None,
        device_index(cs[0].devices@, d.0.id) is None ==> device_index(cs[k + 1].devices@, d.0.id) is None,
{
    assert(event_step(cs, bs, evs, rs, 0));
    law_device_announced(cs[0], cs[1], bs[0], bs[1], s, d, rs[0]);
    lemma_untyped_run(cs, bs, evs, rs, d, k);
    assert(event_step(cs, bs, evs, rs, k));
    let id = d.0.id;
    lemma_none_after_filter(
        cs[k].pending_devices@,
        |x: DeviceInner<F>| x.device.0.id != id,
        |x: DeviceInner<F>| x.device.0.id == id,
    );
}

/// Pointer motion waits for the frame that ends its group: with nothing
/// waiting or ready, a motion on the pointer of a ready device queues
/// nothing ready, and the device's frame then hands out the motion with the
/// frame's time, then the frame.
#[verifier::rlimit(80)]
#[verifier::spinoff_prover]
pub proof fn law_pointer_motion_framed<F>(
    c0: EiEventConverter<F>,
    c1: EiEventConverter<F>,
    c2: EiEventConverter<F>,
    b0: Backend<F>,
    b1: Backend<F>,
    b2: Backend<F>,
    p: ei::Pointer,
    x: u32,
    y: u32,
    dev: ei::Device,
    serial: u32,
    t: u64,
    r1: Result<(), Error>,
    r2: Result<(), Error>,
)
    requires
        interface_index(c0.device_for_interface@, p.0.id) matches Some(j) && device_index(c0.devices@, dev.0.id)
            matches Some(k) && c0.device_for_interface@[j].device == c0.devices@[k],
        c0.events@.len() == 0,
        c0.pending_events@.len() == 0,
        event_post(c0, c1, b0, b1, ei::Event::Pointer(p, ei::pointer::Event::MotionRelative { x, y }), r1),
        event_post(c1, c2, b1, b2, ei::Event::Device(dev, ei::device::Event::Frame { serial, timestamp: t }), r2),
    ensures
        r1 is Ok,
        c1.events@.len() == 0,
        r2 is Ok,
        c2.pending_events@.len() == 0,
        ({
            let j = interface_index(c0.device_for_interface@, p.0.id)->Some_0;
            let dv = c0.device_for_interface@[j].device;
            c2.events@ == seq![
                EiEvent::PointerMotion(PointerMotion { device: dv, time: t, dx: x, dy: y }),
                EiEvent::Frame(Frame { device: dv, serial, time: t }),
            ]
        }),
{
    let j = interface_index(c0.device_for_interface@, p.0.id)->Some_0;
    let dv = c0.device_for_interface@[j].device;
    let ev = EiEvent::PointerMotion(PointerMotion { device: dv, time: 0, dx: x, dy: y });
    assert(c1.pending_events@ == seq![ev]);
    assert(c1.devices == c0.devices);
    assert(stamped(seq![ev], t) =~= seq![ev.timed_at(t)]);
    assert(c2.events@ =~= seq![
        EiEvent::PointerMotion(PointerMotion { device: dv, time: t, dx: x, dy: y }),
        EiEvent::Frame(Frame { device: dv, serial, time: t }),
    ]);
}

/// The time an event carries, if it carries one.
pub open spec fn time_of<F>(e: EiEvent<F>) -> Option<u64> {
    match e {
        EiEvent::Frame(x) => Some(x.time),
        EiEvent::PointerMotion(x) => Some(x.time),
        EiEvent::PointerMotionAbsolute(x) => Some(x.time),
        EiEvent::Button(x) => Some(x.time),
        EiEvent::ScrollDelta(x) => Some(x.time),
        EiEvent::ScrollStop(x) => Some(x.time),
        EiEvent::ScrollCancel(x) => Some(x.time),
        EiEvent::ScrollDiscrete(x) => Some(x.time),
        EiEvent::KeyboardKey(x) => Some(x.time),
        EiEvent::TouchDown(x) => Some(x.time),
        EiEvent::TouchUp(x) => Some(x.time),
        EiEvent::TouchMotion(x) => Some(x.time),
        EiEvent::TouchCancel(x) => Some(x.time),
        _ => None,
    }
}

/// A frame hands out the events that waited for it, in the order they
/// came, each with the frame's time, and then the frame itself; with none
/// waiting, the frame is dropped.
pub proof fn law_frame_stamps<F>(events: Seq<EiEvent<F>>, pending: Seq<EiEvent<F>>, f: Frame<F>)
    requires
        all_timed(pending),
    ensures
        ({
            let (e, p) = queue(events, pending, EiEvent::Frame(f));
            &&& p.len() == 0
            &&& pending.len() == 0 ==> e == events
            &&& pending.len() > 0 ==> {
                &&& e.len() == events.len() + pending.len() + 1
                &&& e.take(events.len() as int) == events
                &&& e.last() == EiEvent::Frame(f)
                &&& forall|k: int|
                    0 <= k < pending.len() ==> time_of(#[trigger] e[events.len() + k]) == Some(f.time)
                        && e[events.len() + k] == pending[k].timed_at(f.time)
            }
        }),
{
    let (e, p) = queue(events, pending, EiEvent::Frame(f));
    if pending.len() > 0 {
        let st = stamped(pending, f.time);
        assert(e == events + st + seq![EiEvent::Frame(f)]);
        assert(e.take(events.len() as int) =~= events);
        assert forall|k: int| 0 <= k < pending.len() implies time_of(#[trigger] e[events.len() + k]) == Some(f.time)
            && e[events.len() + k] == pending[k].timed_at(f.time) by {
            assert(e[events.len() + k] == st[k]);
            assert(pending[k].spec_is_timed());
        }
    }
}

/// The serial that handling `event` records as the last one, if any: the
/// serial of every event that carries one, but for the `destroyed` event of
/// an input interface object that no ready device has.
pub open spec fn recorded_serial<F>(o: EiEventConverter<F>, event: ei::Event<F>) -> Option<u32> {
    let known = |id: u64| interface_index(o.device_for_interface@, id) is Some;
    match event {
        ei::Event::Seat(_, ei::seat::Event::Destroyed { serial }) => Some(serial),
        ei::Event::Device(_, e) => match e {
            ei::device::Event::Destroyed { serial } => Some(serial),
            ei::device::Event::Resumed { serial } => Some(serial),
            ei::device::Event::Paused { serial } => Some(serial),
            ei::device::Event::StartEmulating { serial, .. } => Some(serial),
            ei::device::Event::StopEmulating { serial } => Some(serial),
            ei::device::Event::Frame { serial, .. } => Some(serial),
            _ => None,
        },
        ei::Event::Keyboard(_, ei::keyboard::Event::Modifiers { serial, .. }) => Some(serial),
        ei::Event::Keyboard(_, ei::keyboard::Event::Destroyed { serial }) => Some(serial),
        ei::Event::Pointer(p, ei::pointer::Event::Destroyed { serial }) => if known(p.0.id) {
            Some(serial)
        } else {
            None
        },
        ei::Event::PointerAbsolute(p, ei::pointer_absolute::Event::Destroyed { serial }) => if known(p.0.id) {
            Some(serial)
        } else {
            None
        },
        ei::Event::Scroll(p, ei::scroll::Event::Destroyed { serial }) => if known(p.0.id) {
            Some(serial)
        } else {
            None
        },
        ei::Event::Button(p, ei::button::Event::Destroyed { serial }) => if known(p.0.id) {
            Some(serial)
        } else {
            None
        },
        ei::Event::Touchscreen(p, ei::touchscreen::Event::Destroyed { serial }) => if known(p.0.id) {
            Some(serial)
        } else {
            None
        },
        _ => None,
    }
}

/// The converter's serial is the last one the server sent: handling an
/// event that carries a serial records it, whatever else comes of the
/// event, and any other event leaves the serial as it was.
#[verifier::rlimit(80)]
#[verifier::spinoff_prover]
pub proof fn law_serial_recorded<F>(
    o: EiEventConverter<F>,
    n: EiEventConverter<F>,
    ob: Backend<F>,
    nb: Backend<F>,
    event: ei::Event<F>,
    r: Result<(), Error>,
)
    requires
        event_post(o, n, ob, nb, event, r),
    ensures
        n.serial == match recorded_serial(o, event) {
            Some(s) => s,
            None => o.serial,
        },
{
    match event {
        ei::Event::Handshake(_, _) => {},
        ei::Event::Connection(_, _) => {},
        ei::Event::Callback(_, _) => {},
        ei::Event::Seat(_, _) => {},
        ei::Event::Device(_, _) => {},
        ei::Event::Keyboard(_, _) => {},
        ei::Event::Pointer(_, _) => {},
        ei::Event::PointerAbsolute(_, _) => {},
        ei::Event::Scroll(_, _) => {},
        ei::Event::Button(_, _) => {},
        ei::Event::Touchscreen(_, _) => {},
    }
}

/// No two elements of `v` have the same key.
pub open spec fn keys_unique<T>(v: Seq<T>, key: spec_fn(T) -> u64) -> bool {
    forall|i: int, j: int| 0 <= i < j < v.len() ==> key(#[trigger] v[i]) != key(#[trigger] v[j])
}

/// The converter holds at most one seat, device or interface entry per
/// object ID in each of its collections, as maps keyed by the object do.
pub open spec fn keys_unique_in<F>(c: EiEventConverter<F>) -> bool {
    &&& keys_unique(c.pending_seats@, |x: SeatInner| x.seat.0.id)
    &&& keys_unique(c.seats@, |x: Seat| x.0.seat.0.id)
    &&& keys_unique(c.pending_devices@, |x: DeviceInner<F>| x.device.0.id)
    &&& keys_unique(c.devices@, |x: Device<F>| x.0.device.0.id)
    &&& keys_unique(c.device_for_interface@, |x: InterfaceEntry<F>| x.id)
}

/// Removing the elements with key `id` keeps the keys unique and leaves
/// none with key `id`.
proof fn lemma_without_unique<T>(v: Seq<T>, key: spec_fn(T) -> u64, p: spec_fn(T) -> bool, id: u64)
    requires
        keys_unique(v, key),
        forall|x: T| #[trigger] p(x) <==> key(x) != id,
    ensures
        keys_unique(v.filter(p), key),
        forall|i: int| 0 <= i < v.filter(p).len() ==> key(#[trigger] v.filter(p)[i]) != id,
    decreases v.len(),
{
    if v.len() == 0 {
        v.lemma_filter_len(p);
    } else {
        let s = v.drop_last();
        let x = v.last();
        assert forall|i: int, j: int| 0 <= i < j < s.len() implies key(#[trigger] s[i]) != key(#[trigger] s[j]) by {
            assert(s[i] == v[i] && s[j] == v[j]);
        }
        lemma_without_unique(s, key, p, id);
        assert(s.push(x) =~= v);
        s.lemma_filter_push(x, p);
        if p(x) {
            let f = s.filter(p);
            assert forall|i: int| 0 <= i < f.len() implies key(#[trigger] f[i]) != key(x) by {
                let y = f[i];
                assert(f.contains(y));
                s.lemma_filter_contains_rev(p, y);
                let j = choose|j: int| 0 <= j < s.len() && s[j] == y;
                assert(v[j] == y);
                assert(v[v.len() - 1] == x);
            }
            assert forall|i: int, j: int| 0 <= i < j < f.push(x).len() implies key(#[trigger] f.push(x)[i]) != key(
                #[trigger] f.push(x)[j],
            ) by {
                if j == f.len() {
                    assert(f.push(x)[j] == x);
                    assert(f.push(x)[i] == f[i]);
                } else {
                    assert(f.push(x)[i] == f[i] && f.push(x)[j] == f[j]);
                }
            }
            assert forall|i: int| 0 <= i < f.push(x).len() implies key(#[trigger] f.push(x)[i]) != id by {
                if i < f.len() {
                    assert(f.push(x)[i] == f[i]);
                }
            }
        }
    }
}

/// Adding an element whose key no element has keeps the keys unique.
proof fn lemma_push_unique<T>(v: Seq<T>, key: spec_fn(T) -> u64, x: T)
    requires
        keys_unique(v, key),
        forall|i: int| 0 <= i < v.len() ==> key(#[trigger] v[i]) != key(x),
    ensures
        keys_unique(v.push(x), key),
{
    assert forall|i: int, j: int| 0 <= i < j < v.push(x).len() implies key(#[trigger] v.push(x)[i]) != key(
        #[trigger] v.push(x)[j],
    ) by {
        assert(v.push(x)[i] == v[i]);
        if j < v.len() {
            assert(v.push(x)[j] == v[j]);
        }
    }
}

/// Replacing an element by one with the same key keeps the keys unique.
proof fn lemma_update_unique<T>(v: Seq<T>, key: spec_fn(T) -> u64, i: int, x: T)
    requires
        keys_unique(v, key),
        0 <= i < v.len(),
        key(x) == key(v[i]),
    ensures
        keys_unique(v.update(i, x), key),
{
    assert forall|a: int, b: int| 0 <= a < b < v.update(i, x).len() implies key(#[trigger] v.update(i, x)[a]) != key(
        #[trigger] v.update(i, x)[b],
    ) by {
        assert(key(v.update(i, x)[a]) == key(v[a]));
        assert(key(v.update(i, x)[b]) == key(v[b]));
    }
}

/// Entering a device for interface objects keeps one entry per object.
proof fn lemma_with_interfaces_unique<F>(v: Seq<InterfaceEntry<F>>, objs: Seq<Object>, d: Device<F>)
    requires
        keys_unique(v, |x: InterfaceEntry<F>| x.id),
    ensures
        keys_unique(with_interfaces(v, objs, d), |x: InterfaceEntry<F>| x.id),
    decreases objs.len(),
{
    if objs.len() > 0 {
        let key = |x: InterfaceEntry<F>| x.id;
        let id = objs.last().id;
        let w = with_interfaces(v, objs.drop_last(), d);
        lemma_with_interfaces_unique(v, objs.drop_last(), d);
        lemma_without_unique(w, key, |x: InterfaceEntry<F>| x.id != id, id);
        lemma_push_unique(without_interface(w, id), key, InterfaceEntry { id, device: d });
    }
}

/// The converter keeps at most one seat, device or interface entry per
/// object in each collection: handling an event keeps the keys unique.
#[verifier::rlimit(80)]
#[verifier::spinoff_prover]
pub proof fn law_keys_unique<F>(
    o: EiEventConverter<F>,
    n: EiEventConverter<F>,
    ob: Backend<F>,
    nb: Backend<F>,
    event: ei::Event<F>,
    r: Result<(), Error>,
)
    requires
        event_post(o, n, ob, nb, event, r),
        keys_unique_in(o),
    ensures
        keys_unique_in(n),
{
    let ks = |x: SeatInner| x.seat.0.id;
    let kr = |x: Seat| x.0.seat.0.id;
    let kp = |x: DeviceInner<F>| x.device.0.id;
    let kd = |x: Device<F>| x.0.device.0.id;
    let ki = |x: InterfaceEntry<F>| x.id;
    match event {
        ei::Event::Connection(_, ei::connection::Event::Seat { seat }) => {
            let id = seat.0.id;
            lemma_without_unique(o.pending_seats@, ks, |x: SeatInner| x.seat.0.id != id, id);
            lemma_push_unique(
                without_pending_seat(o.pending_seats@, id),
                ks,
                SeatInner { seat, name: None, capabilities: no_masks() },
            );
        },
        ei::Event::Seat(p, e) => {
            let id = p.0.id;
            lemma_first_index_in(o.pending_seats@, |s: SeatInner| s.seat.0.id == id);
            lemma_first_index_in(o.seats@, |s: Seat| s.0.seat.0.id == id);
            lemma_without_unique(o.pending_seats@, ks, |x: SeatInner| x.seat.0.id != id, id);
            lemma_without_unique(o.seats@, kr, |x: Seat| x.0.seat.0.id != id, id);
            match e {
                ei::seat::Event::Name { name } => {
                    if let Some(i) = pending_seat_index(o.pending_seats@, id) {
                        lemma_update_unique(o.pending_seats@, ks, i, SeatInner { name: Some(name), ..o.pending_seats@[i] });
                    }
                },
                ei::seat::Event::Capability { mask, interface } => {
                    if let Some(i) = pending_seat_index(o.pending_seats@, id) {
                        if let Some(c) = capability_of_name(interface@) {
                            lemma_update_unique(
                                o.pending_seats@,
                                ks,
                                i,
                                SeatInner { capabilities: o.pending_seats@[i].capabilities.spec_set(c, mask), ..o.pending_seats@[i] },
                            );
                        }
                    }
                },
                ei::seat::Event::Done => {
                    if let Some(i) = pending_seat_index(o.pending_seats@, id) {
                        let l = n.seats@;
                        assert(l == l.drop_last().push(l.last()));
                        lemma_push_unique(l.drop_last(), kr, l.last());
                    }
                },
                ei::seat::Event::Device { device } => {
                    if let Some(i) = seat_index(o.seats@, id) {
                        let did = device.0.id;
                        lemma_without_unique(o.pending_devices@, kp, |x: DeviceInner<F>| x.device.0.id != did, did);
                        let l = n.pending_devices@;
                        assert(l == l.drop_last().push(l.last()));
                        lemma_push_unique(l.drop_last(), kp, l.last());
                    }
                },
                ei::seat::Event::Destroyed { .. } => {},
            }
        },
        ei::Event::Device(p, e) => {
            let id = p.0.id;
            lemma_first_index_in(o.pending_devices@, |d: DeviceInner<F>| d.device.0.id == id);
            lemma_first_index_in(o.devices@, |d: Device<F>| d.0.device.0.id == id);
            lemma_without_unique(o.pending_devices@, kp, |x: DeviceInner<F>| x.device.0.id != id, id);
            lemma_without_unique(o.devices@, kd, |x: Device<F>| x.0.device.0.id != id, id);
            if let Some(i) = pending_device_index(o.pending_devices@, id) {
                let d = o.pending_devices@[i];
                match e {
                    ei::device::Event::Name { name } => {
                        lemma_update_unique(o.pending_devices@, kp, i, DeviceInner { name: Some(name), ..d });
                    },
                    ei::device::Event::DeviceType { device_type } => {
                        lemma_update_unique(o.pending_devices@, kp, i, DeviceInner { device_type: Some(device_type), ..d });
                    },
                    ei::device::Event::Interface { object } => {
                        if let Some(c) = capability_of_name(object.interface@) {
                            lemma_update_unique(
                                o.pending_devices@,
                                kp,
                                i,
                                DeviceInner { interfaces: d.interfaces.spec_set(c, object), ..d },
                            );
                        }
                    },
                    ei::device::Event::Dimensions { width, height } => {
                        lemma_update_unique(o.pending_devices@, kp, i, DeviceInner { dimensions: Some((width, height)), ..d });
                    },
                    ei::device::Event::Region { .. } => {
                        let nd = n.pending_devices@[i];
                        assert(n.pending_devices@ =~= o.pending_devices@.update(i, nd));
                        lemma_update_unique(o.pending_devices@, kp, i, nd);
                    },
                    ei::device::Event::RegionMappingId { mapping_id } => {
                        lemma_update_unique(
                            o.pending_devices@,
                            kp,
                            i,
                            DeviceInner { next_region_mapping_id: Some(mapping_id), ..d },
                        );
                    },
                    ei::device::Event::Done => {
                        if d.device_type is Some {
                            let l = n.devices@;
                            let dv = l.last();
                            assert(l == l.drop_last().push(dv));
                            lemma_push_unique(l.drop_last(), kd, dv);
                            lemma_with_interfaces_unique(o.device_for_interface@, d.interfaces.list(), dv);
                        }
                    },
                    _ => {},
                }
            }
        },
        ei::Event::Keyboard(p, e) => {
            let id = p.0.id;
            lemma_without_unique(o.device_for_interface@, ki, |x: InterfaceEntry<F>| x.id != id, id);
            lemma_first_index_in(o.pending_devices@, |d: DeviceInner<F>| d.interfaces.has_id(id));
            match e {
                ei::keyboard::Event::Keymap { keymap_type, size, keymap } => {
                    if let Some(i) = keyboard_device_index(o.pending_devices@, id) {
                        lemma_update_unique(
                            o.pending_devices@,
                            kp,
                            i,
                            DeviceInner { keymap: Some(Keymap { fd: keymap, size, type_: keymap_type }), ..o.pending_devices@[i] },
                        );
                    }
                },
                _ => {},
            }
        },
        ei::Event::Pointer(p, _) => {
            lemma_without_unique(o.device_for_interface@, ki, |x: InterfaceEntry<F>| x.id != p.0.id, p.0.id);
        },
        ei::Event::PointerAbsolute(p, _) => {
            lemma_without_unique(o.device_for_interface@, ki, |x: InterfaceEntry<F>| x.id != p.0.id, p.0.id);
        },
        ei::Event::Scroll(p, _) => {
            lemma_without_unique(o.device_for_interface@, ki, |x: InterfaceEntry<F>| x.id != p.0.id, p.0.id);
        },
        ei::Event::Button(p, _) => {
            lemma_without_unique(o.device_for_interface@, ki, |x: InterfaceEntry<F>| x.id != p.0.id, p.0.id);
        },
        ei::Event::Touchscreen(p, _) => {
            lemma_without_unique(o.device_for_interface@, ki, |x: InterfaceEntry<F>| x.id != p.0.id, p.0.id);
        },
        _ => {},
    }
}

impl<F> EiEventConverter<F> {
    /// Returns a clone of the ready device of the interface object with ID
    /// `id`.
    fn interface_device(&self, id: u64) -> (r: Option<Device<F>>)
        ensures
            match interface_index(self.device_for_interface@, id) {
                Some(j) => r == Some(self.device_for_interface@[j].device),
                None => r is None,
            },
    {
        match self.find_interface(id) {
            Some(j) => Some(self.device_for_interface[j].device.clone()),
            None => None,
        }
    }

    /// Sets the serial and forgets the interface object with ID `id`.
    fn drop_interface(&mut self, id: u64, serial: u32) -> (r: Result<(), Error>)
        ensures
            dropped_interface(*old(self), *final(self), r, id, serial),
    {
        self.serial = serial;
        remove_interface(&mut self.device_for_interface, id);
        Ok(())
    }

    /// Handles an event on an `ei_keyboard` object.
    fn handle_keyboard_event(&mut self, keyboard: ei::Keyboard, event: ei::keyboard::Event<F>) -> (r: Result<(), Error>)
        ensures
            keyboard_post(*old(self), *final(self), keyboard, event, r),
    {
        let id = keyboard.0.id;
        match event {
            ei::keyboard::Event::Keymap { keymap_type, size, keymap } => {
                let i = match self.find_keyboard_device(id) {
                    Some(i) => i,
                    None => return Err(Error::DeviceSetupEventAfterDone),
                };
                self.pending_devices[i].keymap = Some(Keymap { fd: keymap, size, type_: keymap_type });
            },
            ei::keyboard::Event::Key { key, state } => {
                let d = match self.interface_device(id) {
                    Some(d) => d,
                    None => return Err(Error::DeviceEventBeforeDone),
                };
                self.queue_event(EiEvent::KeyboardKey(KeyboardKey { device: d, time: 0, key, state }));
            },
            ei::keyboard::Event::Modifiers { serial, depressed, locked, latched, group } => {
                self.serial = serial;
                let d = match self.interface_device(id) {
                    Some(d) => d,
                    None => return Err(Error::DeviceEventBeforeDone),
                };
                self.queue_event(
                    EiEvent::KeyboardModifiers(KeyboardModifiers { device: d, serial, depressed, latched, locked, group }),
                );
            },
            ei::keyboard::Event::Destroyed { serial } => {
                return self.drop_interface(id, serial);
            },
        }
        Ok(())
    }

    /// Handles an event on an `ei_pointer` object.
    fn handle_pointer_event(&mut self, pointer: ei::Pointer, event: ei::pointer::Event) -> (r: Result<(), Error>)
        ensures
            pointer_post(*old(self), *final(self), pointer, event, r),
    {
        let id = pointer.0.id;
        let d = match self.interface_device(id) {
            Some(d) => d,
            None => return Err(Error::DeviceEventBeforeDone),
        };
        match event {
            ei::pointer::Event::MotionRelative { x, y } => {
                self.queue_event(EiEvent::PointerMotion(PointerMotion { device: d, time: 0, dx: x, dy: y }));
                Ok(())
            },
            ei::pointer::Event::Destroyed { serial } => self.drop_interface(id, serial),
        }
    }

    /// Handles an event on an `ei_pointer_absolute` object.
    fn handle_pointer_absolute_event(&mut self, pointer_absolute: ei::PointerAbsolute, event: ei::pointer_absolute::Event) -> (r: Result<(), Error>)
        ensures
            pointer_absolute_post(*old(self), *final(self), pointer_absolute, event, r),
    {
        let id = pointer_absolute.0.id;
        let d = match self.interface_device(id) {
            Some(d) => d,
            None => return Err(Error::DeviceEventBeforeDone),
        };
        match event {
            ei::pointer_absolute::Event::MotionAbsolute { x, y } => {
                self.queue_event(
                    EiEvent::PointerMotionAbsolute(PointerMotionAbsolute { device: d, time: 0, dx_absolute: x, dy_absolute: y }),
                );
                Ok(())
            },
            ei::pointer_absolute::Event::Destroyed { serial } => self.drop_interface(id, serial),
        }
    }

    /// Handles an event on an `ei_scroll` object.
    fn handle_scroll_event(&mut self, scroll: ei::Scroll, event: ei::scroll::Event) -> (r: Result<(), Error>)
        ensures
            scroll_post(*old(self), *final(self), scroll, event, r),
    {
        let id = scroll.0.id;
        let d = match self.interface_device(id) {
            Some(d) => d,
            None => return Err(Error::DeviceEventBeforeDone),
        };
        match event {
            ei::scroll::Event::Scroll { x, y } => {
                self.queue_event(EiEvent::ScrollDelta(ScrollDelta { device: d, time: 0, dx: x, dy: y }));
                Ok(())
            },
            ei::scroll::Event::ScrollDiscrete { x, y } => {
                self.queue_event(EiEvent::ScrollDiscrete(ScrollDiscrete { device: d, time: 0, discrete_dx: x, discrete_dy: y }));
                Ok(())
            },
            ei::scroll::Event::ScrollStop { x, y, is_cancel } => {
                if is_cancel != 0 {
                    self.queue_event(EiEvent::ScrollCancel(ScrollCancel { device: d, time: 0, x: x != 0, y: y != 0 }));
                } else {
                    self.queue_event(EiEvent::ScrollStop(ScrollStop { device: d, time: 0, x: x != 0, y: y != 0 }));
                }
                Ok(())
            },
            ei::scroll::Event::Destroyed { serial } => self.drop_interface(id, serial),
        }
    }

    /// Handles an event on an `ei_button` object.
    fn handle_button_event(&mut self, button: ei::Button, event: ei::button::Event) -> (r: Result<(), Error>)
        ensures
            button_post(*old(self), *final(self), button, event, r),
    {
        let id = button.0.id;
        let d = match self.interface_device(id) {
            Some(d) => d,
            None => return Err(Error::DeviceEventBeforeDone),
        };
        match event {
            ei::button::Event::Button { button, state } => {
                self.queue_event(EiEvent::Button(Button { device: d, time: 0, button, state }));
                Ok(())
            },
            ei::button::Event::Destroyed { serial } => self.drop_interface(id, serial),
        }
    }

    /// Handles an event on an `ei_touchscreen` object.
    fn handle_touchscreen_event(&mut self, touchscreen: ei::Touchscreen, event: ei::touchscreen::Event) -> (r: Result<(), Error>)
        ensures
            touchscreen_post(*old(self), *final(self), touchscreen, event, r),
    {
        let id = touchscreen.0.id;
        let d = match self.interface_device(id) {
            Some(d) => d,
            None => return Err(Error::DeviceEventBeforeDone),
        };
        match event {
            ei::touchscreen::Event::Down { touchid, x, y } => {
                self.queue_event(EiEvent::TouchDown(TouchDown { device: d, time: 0, touch_id: touchid, x, y }));
                Ok(())
            },
            ei::touchscreen::Event::Motion { touchid, x, y } => {
                self.queue_event(EiEvent::TouchMotion(TouchMotion { device: d, time: 0, touch_id: touchid, x, y }));
                Ok(())
            },
            ei::touchscreen::Event::Up { touchid } => {
                self.queue_event(EiEvent::TouchUp(TouchUp { device: d, time: 0, touch_id: touchid }));
                Ok(())
            },
            ei::touchscreen::Event::Cancel { touchid } => {
                self.queue_event(EiEvent::TouchCancel(TouchCancel { device: d, time: 0, touch_id: touchid }));
                Ok(())
            },
            ei::touchscreen::Event::Destroyed { serial } => self.drop_interface(id, serial),
        }
    }

    /// Converts a low-level event: updates what the converter knows of
    /// seats and devices, and queues the high-level events it makes, as
    /// [`event_post`] says. A ping is answered on `backend`; the caller
    /// flushes it.
    pub fn handle_event(&mut self, event: ei::Event<F>, backend: &mut Backend<F>) -> (r: Result<(), Error>)
        ensures
            event_post(*old(self), *final(self), *old(backend), *final(backend), event, r),
            final(backend).read_buf == old(backend).read_buf,
    {
        match event {
            ei::Event::Handshake(_, _) => Err(Error::UnexpectedHandshakeEvent),
            ei::Event::Connection(_, e) => self.handle_connection_event(e, backend),
            ei::Event::Callback(_, _) => Ok(()),
            ei::Event::Seat(p, e) => self.handle_seat_event(p, e),
            ei::Event::Device(p, e) => self.handle_device_event(p, e),
            ei::Event::Keyboard(p, e) => self.handle_keyboard_event(p, e),
            ei::Event::Pointer(p, e) => self.handle_pointer_event(p, e),
            ei::Event::PointerAbsolute(p, e) => self.handle_pointer_absolute_event(p, e),
            ei::Event::Scroll(p, e) => self.handle_scroll_event(p, e),
            ei::Event::Button(p, e) => self.handle_button_event(p, e),
            ei::Event::Touchscreen(p, e) => self.handle_touchscreen_event(p, e),
        }
    }
}

/// Why converting received events stopped.
#[derive(Debug)]
pub enum EiConvertEventIteratorError {
    Io(std::io::Error),
    Parse(ParseError),
    Event(Error),
}

/// Converts the events received on a client connection into high-level
/// events.
pub struct EiConvertEventIterator<F> {
    /// The connection the events come from.
    pub context: ei::Context<F>,
    /// The converter the events go through.
    pub converter: EiEventConverter<F>,
}

impl<F> EiConvertEventIterator<F> {
    /// Creates an iterator over the events of `context`, with `serial` as
    /// the last serial.
    pub fn new(context: ei::Context<F>, serial: u32) -> (r: Self)
        ensures
            r.context == context,
            r.converter.pending_seats@.len() == 0,
            r.converter.seats@.len() == 0,
            r.converter.pending_devices@.len() == 0,
            r.converter.devices@.len() == 0,
            r.converter.device_for_interface@.len() == 0,
            r.converter.events@.len() == 0,
            r.converter.pending_events@.len() == 0,
            r.converter.serial == serial,
    {
        EiConvertEventIterator { context, converter: EiEventConverter::new(serial) }
    }

    /// Returns the next event that is ready, if any.
    pub fn next_ready(&mut self) -> (r: Option<EiEvent<F>>)
        ensures
            final(self).context == old(self).context,
            final(self).converter == (EiEventConverter { events: final(self).converter.events, ..old(self).converter }),
            old(self).converter.events@.len() == 0 ==> r is None && final(self).converter.events@ == old(self).converter.events@,
            old(self).converter.events@.len() > 0 ==> r == Some(old(self).converter.events@[0])
                && final(self).converter.events@ == old(self).converter.events@.drop_first(),
    {
        self.converter.next_event()
    }

    /// Takes the message at the front of the received bytes, if a whole
    /// one is there, and hands an event to the converter: `None` when no
    /// whole message is there, a parse error as it is, a message for an
    /// unknown object skipped with `Ok`, and an event handled as
    /// [`event_post`] says, its error returned.
    #[verifier::rlimit(80)]
    #[verifier::spinoff_prover]
    pub fn convert_next(&mut self) -> (r: Option<Result<(), EiConvertEventIteratorError>>)
        ensures
            match r {
                None => {
                    &&& receive_post(Side::Client, old(self).context.0, final(self).context.0, None)
                    &&& final(self).converter == old(self).converter
                },
                Some(Err(EiConvertEventIteratorError::Parse(e))) => {
                    &&& receive_post(Side::Client, old(self).context.0, final(self).context.0, Some(Outcome::Error(e.kind())))
                    &&& final(self).converter == old(self).converter
                },
                Some(Err(EiConvertEventIteratorError::Io(_))) => false,
                Some(res) => {
                    ||| (exists|id: u64|
                        #[trigger] receive_post(
                            Side::Client,
                            old(self).context.0,
                            final(self).context.0,
                            Some(Outcome::InvalidObject(id)),
                        )) && res is Ok && final(self).converter == old(self).converter
                    ||| exists|ev: ei::Event<F>, b: Backend<F>|
                        #[trigger] receive_post(
                            Side::Client,
                            old(self).context.0,
                            b,
                            Some(Outcome::Message(ev.target(), ev.wire_opcode(), ev.wire_args(), ev.wire_created())),
                        ) && match res {
                            Ok(()) => event_post(old(self).converter, final(self).converter, b, final(self).context.0, ev, Ok(())),
                            Err(EiConvertEventIteratorError::Event(e)) => event_post(
                                old(self).converter,
                                final(self).converter,
                                b,
                                final(self).context.0,
                                ev,
                                Err(e),
                            ),
                            _ => false,
                        }
                },
            },
            final(self).context.0.read_buf@.len() <= old(self).context.0.read_buf@.len(),
            r is Some && !(r matches Some(Err(EiConvertEventIteratorError::Parse(_))))
                ==> final(self).context.0.read_buf@.len() < old(self).context.0.read_buf@.len(),
    {
        let ghost b0 = self.context.0;
        match self.context.pending_event() {
            None => None,
            Some(PendingRequestResult::ParseError(e)) => {
                proof {
                    assert(receive_post(Side::Client, b0, self.context.0, Some(Outcome::Error(e.kind()))));
                }
                Some(Err(EiConvertEventIteratorError::Parse(e)))
            },
            Some(PendingRequestResult::InvalidObject(id)) => {
                proof {
                    assert(receive_post(Side::Client, b0, self.context.0, Some(Outcome::InvalidObject(id))));
                }
                Some(Ok(()))
            },
            Some(PendingRequestResult::Request(event)) => {
                let ghost ev = event;
                let ghost b = self.context.0;
                proof {
                    assert(receive_post(
                        Side::Client,
                        b0,
                        b,
                        Some(Outcome::Message(ev.target(), ev.wire_opcode(), ev.wire_args(), ev.wire_created())),
                    ));
                }
                let res = self.converter.handle_event(event, &mut self.context.0);
                match res {
                    Ok(()) => {
                        proof {
                            assert(event_post(old(self).converter, self.converter, b, self.context.0, ev, Ok(())));
                        }
                        Some(Ok(()))
                    },
                    Err(e) => {
                        proof {
                            assert(event_post(old(self).converter, self.converter, b, self.context.0, ev, Err(e)));
                        }
                        Some(Err(EiConvertEventIteratorError::Event(e)))
                    },
                }
            },
        }
    }

    /// Takes the whole messages received, one at a time, and hands the
    /// events among them to the converter, as [`convert_next`](Self::convert_next)
    /// says: the first parse error or error of the converter stops it.
    /// When it returns `Ok`, no whole message is left.
    pub fn convert_received(&mut self) -> (r: Result<(), EiConvertEventIteratorError>)
        ensures
            r is Ok ==> frame_of(
                final(self).context.0.order,
                final(self).context.0.read_buf@,
                final(self).context.0.objects@,
            ) is Incomplete,
            !(r matches Err(EiConvertEventIteratorError::Io(_))),
    {
        loop
            decreases self.context.0.read_buf@.len(),
        {
            match self.convert_next() {
                None => {
                    return Ok(());
                },
                Some(Ok(())) => {},
                Some(Err(e)) => {
                    return Err(e);
                },
            }
        }
    }
}

/// The device ready for the input object with ID `id`, if any.
pub open spec fn input_device<F>(c: EiEventConverter<F>, id: u64) -> Option<Device<F>> {
    match interface_index(c.device_for_interface@, id) {
        Some(j) => Some(c.device_for_interface@[j].device),
        None => None,
    }
}

/// The result is `Ok`, `e` waits for the next frame after the events already
/// waiting, and the ready events stay as they were.
pub open spec fn waits_for_frame<F>(o: EiEventConverter<F>, n: EiEventConverter<F>, r: Result<(), Error>, e: EiEvent<F>) -> bool {
    &&& r is Ok
    &&& n.pending_events@ == o.pending_events@.push(e)
    &&& n.events@ == o.events@
}

/// Input events carry the server's values through: on an input object of a
/// ready device, each input event waits for the next frame as the
/// high-level event of that device with the event's own values in their
/// own places (the `x` of the event as the `x` of the result, and so on),
/// and keyboard modifiers are ready at once with theirs.
#[verifier::rlimit(80)]
#[verifier::spinoff_prover]
pub proof fn law_input_values_kept<F>(
    o: EiEventConverter<F>,
    n: EiEventConverter<F>,
    ob: Backend<F>,
    nb: Backend<F>,
    event: ei::Event<F>,
    r: Result<(), Error>,
)
    requires
        event_post(o, n, ob, nb, event, r),
    ensures
        event matches ei::Event::Pointer(p, ei::pointer::Event::MotionRelative { x, y }) ==> (input_device(o, p.0.id) matches Some(d)
            ==> waits_for_frame(o, n, r, EiEvent::PointerMotion(PointerMotion { device: d, time: 0, dx: x, dy: y }))),
        event matches ei::Event::PointerAbsolute(p, ei::pointer_absolute::Event::MotionAbsolute { x, y }) ==> (input_device(
            o,
            p.0.id,
        ) matches Some(d) ==> waits_for_frame(
            o,
            n,
            r,
            EiEvent::PointerMotionAbsolute(PointerMotionAbsolute { device: d, time: 0, dx_absolute: x, dy_absolute: y }),
        )),
        event matches ei::Event::Scroll(p, ei::scroll::Event::Scroll { x, y }) ==> (input_device(o, p.0.id) matches Some(d)
            ==> waits_for_frame(o, n, r, EiEvent::ScrollDelta(ScrollDelta { device: d, time: 0, dx: x, dy: y }))),
        event matches ei::Event::Scroll(p, ei::scroll::Event::ScrollDiscrete { x, y }) ==> (input_device(o, p.0.id) matches Some(
            d,
        ) ==> waits_for_frame(
            o,
            n,
            r,
            EiEvent::ScrollDiscrete(ScrollDiscrete { device: d, time: 0, discrete_dx: x, discrete_dy: y }),
        )),
        event matches ei::Event::Scroll(p, ei::scroll::Event::ScrollStop { x, y, is_cancel }) ==> (input_device(o, p.0.id) matches Some(
            d,
        ) ==> waits_for_frame(
            o,
            n,
            r,
            if is_cancel == 0 {
                EiEvent::ScrollStop(ScrollStop { device: d, time: 0, x: x != 0, y: y != 0 })
            } else {
                EiEvent::ScrollCancel(ScrollCancel { device: d, time: 0, x: x != 0, y: y != 0 })
            },
        )),
        event matches ei::Event::Button(p, ei::button::Event::Button { button, state }) ==> (input_device(o, p.0.id) matches Some(d)
            ==> waits_for_frame(o, n, r, EiEvent::Button(Button { device: d, time: 0, button, state }))),
        event matches ei::Event::Keyboard(p, ei::keyboard::Event::Key { key, state }) ==> (input_device(o, p.0.id) matches Some(d)
            ==> waits_for_frame(o, n, r, EiEvent::KeyboardKey(KeyboardKey { device: d, time: 0, key, state }))),
        event matches ei::Event::Keyboard(p, ei::keyboard::Event::Modifiers { serial, depressed, locked, latched, group })
            ==> (input_device(o, p.0.id) matches Some(d) ==> r is Ok && n.pending_events@ == o.pending_events@
            && n.events@ == o.events@.push(
            EiEvent::KeyboardModifiers(KeyboardModifiers { device: d, serial, depressed, latched, locked, group }),
        ) && n.serial == serial),
        event matches ei::Event::Touchscreen(p, ei::touchscreen::Event::Down { touchid, x, y }) ==> (input_device(o, p.0.id) matches Some(
            d,
        ) ==> waits_for_frame(o, n, r, EiEvent::TouchDown(TouchDown { device: d, time: 0, touch_id: touchid, x, y }))),
        event matches ei::Event::Touchscreen(p, ei::touchscreen::Event::Motion { touchid, x, y }) ==> (input_device(o, p.0.id) matches Some(
            d,
        ) ==> waits_for_frame(o, n, r, EiEvent::TouchMotion(TouchMotion { device: d, time: 0, touch_id: touchid, x, y }))),
        event matches ei::Event::Touchscreen(p, ei::touchscreen::Event::Up { touchid }) ==> (input_device(o, p.0.id) matches Some(d)
            ==> waits_for_frame(o, n, r, EiEvent::TouchUp(TouchUp { device: d, time: 0, touch_id: touchid }))),
        event matches ei::Event::Touchscreen(p, ei::touchscreen::Event::Cancel { touchid }) ==> (input_device(o, p.0.id) matches Some(
            d,
        ) ==> waits_for_frame(o, n, r, EiEvent::TouchCancel(TouchCancel { device: d, time: 0, touch_id: touchid }))),
{
}

/// A frame gives each waiting event the frame's time and changes nothing
/// else of it.
pub proof fn law_timed_at_keeps_values<F>(e: EiEvent<F>, t: u64)
    ensures
        e matches EiEvent::PointerMotion(m) ==> e.timed_at(t) == EiEvent::PointerMotion(
            PointerMotion { device: m.device, time: t, dx: m.dx, dy: m.dy },
        ),
        e matches EiEvent::PointerMotionAbsolute(m) ==> e.timed_at(t) == EiEvent::PointerMotionAbsolute(
            PointerMotionAbsolute { device: m.device, time: t, dx_absolute: m.dx_absolute, dy_absolute: m.dy_absolute },
        ),
        e matches EiEvent::ScrollDelta(m) ==> e.timed_at(t) == EiEvent::ScrollDelta(
            ScrollDelta { device: m.device, time: t, dx: m.dx, dy: m.dy },
        ),
        e matches EiEvent::ScrollDiscrete(m) ==> e.timed_at(t) == EiEvent::ScrollDiscrete(
            ScrollDiscrete { device: m.device, time: t, discrete_dx: m.discrete_dx, discrete_dy: m.discrete_dy },
        ),
        e matches EiEvent::ScrollStop(m) ==> e.timed_at(t) == EiEvent::ScrollStop(
            ScrollStop { device: m.device, time: t, x: m.x, y: m.y },
        ),
        e matches EiEvent::ScrollCancel(m) ==> e.timed_at(t) == EiEvent::ScrollCancel(
            ScrollCancel { device: m.device, time: t, x: m.x, y: m.y },
        ),
        e matches EiEvent::Button(m) ==> e.timed_at(t) == EiEvent::Button(
            Button { device: m.device, time: t, button: m.button, state: m.state },
        ),
        e matches EiEvent::KeyboardKey(m) ==> e.timed_at(t) == EiEvent::KeyboardKey(
            KeyboardKey { device: m.device, time: t, key: m.key, state: m.state },
        ),
        e matches EiEvent::TouchDown(m) ==> e.timed_at(t) == EiEvent::TouchDown(
            TouchDown { device: m.device, time: t, touch_id: m.touch_id, x: m.x, y: m.y },
        ),
        e matches EiEvent::TouchMotion(m) ==> e.timed_at(t) == EiEvent::TouchMotion(
            TouchMotion { device: m.device, time: t, touch_id: m.touch_id, x: m.x, y: m.y },
        ),
        e matches EiEvent::TouchUp(m) ==> e.timed_at(t) == EiEvent::TouchUp(
            TouchUp { device: m.device, time: t, touch_id: m.touch_id },
        ),
        e matches EiEvent::TouchCancel(m) ==> e.timed_at(t) == EiEvent::TouchCancel(
            TouchCancel { device: m.device, time: t, touch_id: m.touch_id },
        ),
{
}

/// Device events carry the server's values through. On a ready device,
/// `start_emulating`, `resumed` and `paused` are ready at once with their
/// serial and sequence in their places, and a frame that ends a group
/// comes last with its serial and its timestamp as its time. On a device
/// being set up, the name, type, dimensions and regions it gives are
/// recorded in their places.
#[verifier::rlimit(80)]
#[verifier::spinoff_prover]
pub proof fn law_device_values_kept<F>(
    o: EiEventConverter<F>,
    n: EiEventConverter<F>,
    ob: Backend<F>,
    nb: Backend<F>,
    dev: ei::Device,
    event: ei::device::Event,
    r: Result<(), Error>,
)
    requires
        event_post(o, n, ob, nb, ei::Event::Device(dev, event), r),
    ensures
        device_index(o.devices@, dev.0.id) matches Some(i) ==> {
            let d = o.devices@[i];
            &&& event matches ei::device::Event::StartEmulating { serial, sequence } ==> r is Ok
                && n.events@ == o.events@.push(
                EiEvent::DeviceStartEmulating(DeviceStartEmulating { device: d, serial, sequence }),
            ) && n.serial == serial
            &&& event matches ei::device::Event::Resumed { serial } ==> r is Ok && n.events@ == o.events@.push(
                EiEvent::DeviceResumed(DeviceResumed { device: d, serial }),
            )
            &&& event matches ei::device::Event::Paused { serial } ==> r is Ok && n.events@ == o.events@.push(
                EiEvent::DevicePaused(DevicePaused { device: d, serial }),
            )
            &&& event matches ei::device::Event::Frame { serial, timestamp } ==> (o.pending_events@.len() > 0 ==> r is Ok
                && n.events@.last() == EiEvent::Frame(Frame { device: d, serial, time: timestamp }))
        },
        pending_device_index(o.pending_devices@, dev.0.id) matches Some(i) ==> {
            &&& event matches ei::device::Event::Dimensions { width, height } ==> r is Ok
                && n.pending_devices@[i].dimensions == Some((width, height))
            &&& event matches ei::device::Event::DeviceType { device_type } ==> r is Ok
                && n.pending_devices@[i].device_type == Some(device_type)
            &&& event matches ei::device::Event::Name { name } ==> r is Ok && n.pending_devices@[i].name == Some(name)
            &&& event matches ei::device::Event::Region { offset_x, offset_y, width, hight, scale } ==> r is Ok
                && n.pending_devices@[i].regions@.last() == (Region {
                x: offset_x,
                y: offset_y,
                width,
                height: hight,
                scale,
                mapping_id: o.pending_devices@[i].next_region_mapping_id,
            })
        },
{
    let id = dev.0.id;
    lemma_first_index_in(o.pending_devices@, |x: DeviceInner<F>| x.device.0.id == id);
    lemma_first_index_in(o.devices@, |x: Device<F>| x.0.device.0.id == id);
}

} // verus!
