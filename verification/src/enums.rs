//! The protocol's enumerations and their numbers on the wire.
use vstd::prelude::*;

verus! {

/// Context types for connections.
#[derive(Clone, Copy, Debug, Eq, PartialEq, Hash, Structural)]
pub enum ContextType {
    /// The ei client receives input events from the eis implementation.
    Receiver,
    /// The ei client sends input events to the eis implementation.
    Sender,
}

impl ContextType {
    /// The names of the enumeration and of this variant in the protocol.
    pub open spec fn spec_enum_name(self) -> (&'static str, &'static str) {
        ("context_type", match self {
            ContextType::Receiver => "receiver",
            ContextType::Sender => "sender",
        })
    }

    /// Returns the names of the enumeration and of this variant in the
    /// protocol.
    #[verifier::when_used_as_spec(spec_enum_name)]
    pub fn enum_name(self) -> (r: (&'static str, &'static str))
        ensures
            r == self.spec_enum_name(),
    {
        ("context_type", match self {
            ContextType::Receiver => "receiver",
            ContextType::Sender => "sender",
        })
    }

    pub open spec fn spec_to_u32(self) -> u32 {
        match self {
            ContextType::Receiver => 1,
            ContextType::Sender => 2,
        }
    }

    /// The number of this variant on the wire.
    #[verifier::when_used_as_spec(spec_to_u32)]
    pub fn to_u32(self) -> (r: u32)
        ensures
            r == self.spec_to_u32(),
    {
        match self {
            ContextType::Receiver => 1,
            ContextType::Sender => 2,
        }
    }

    /// The variant with number `v`, if there is one.
    pub fn from_u32(v: u32) -> (r: Option<ContextType>)
        ensures
            match r {
                Some(e) => e.spec_to_u32() == v,
                None => !(1 <= v <= 2),
            },
    {
        match v {
            1 => Some(ContextType::Receiver),
            2 => Some(ContextType::Sender),
            _ => None,
        }
    }
}

/// Disconnection reason.
#[derive(Clone, Copy, Debug, Eq, PartialEq, Hash, Structural)]
pub enum DisconnectReason {
    /// Client was purposely disconnected.
    Disconnected,
    /// An error caused the disconnection.
    Error,
    /// Sender/receiver client sent request for receiver/sender mode.
    Mode,
    /// Client committed a protocol violation.
    Protocol,
    /// Client sent an invalid value.
    Value,
    /// Error on the transport layer.
    Transport,
}

impl DisconnectReason {
    /// The names of the enumeration and of this variant in the protocol.
    pub open spec fn spec_enum_name(self) -> (&'static str, &'static str) {
        ("disconnect_reason", match self {
            DisconnectReason::Disconnected => "disconnected",
            DisconnectReason::Error => "error",
            DisconnectReason::Mode => "mode",
            DisconnectReason::Protocol => "protocol",
            DisconnectReason::Value => "value",
            DisconnectReason::Transport => "transport",
        })
    }

    /// Returns the names of the enumeration and of this variant in the
    /// protocol.
    #[verifier::when_used_as_spec(spec_enum_name)]
    pub fn enum_name(self) -> (r: (&'static str, &'static str))
        ensures
            r == self.spec_enum_name(),
    {
        ("disconnect_reason", match self {
            DisconnectReason::Disconnected => "disconnected",
            DisconnectReason::Error => "error",
            DisconnectReason::Mode => "mode",
            DisconnectReason::Protocol => "protocol",
            DisconnectReason::Value => "value",
            DisconnectReason::Transport => "transport",
        })
    }

    pub open spec fn spec_to_u32(self) -> u32 {
        match self {
            DisconnectReason::Disconnected => 0,
            DisconnectReason::Error => 1,
            DisconnectReason::Mode => 2,
            DisconnectReason::Protocol => 3,
            DisconnectReason::Value => 4,
            DisconnectReason::Transport => 5,
        }
    }

    /// The number of this variant on the wire.
    #[verifier::when_used_as_spec(spec_to_u32)]
    pub fn to_u32(self) -> (r: u32)
        ensures
            r == self.spec_to_u32(),
    {
        match self {
            DisconnectReason::Disconnected => 0,
            DisconnectReason::Error => 1,
            DisconnectReason::Mode => 2,
            DisconnectReason::Protocol => 3,
            DisconnectReason::Value => 4,
            DisconnectReason::Transport => 5,
        }
    }

    /// The variant with number `v`, if there is one.
    pub fn from_u32(v: u32) -> (r: Option<DisconnectReason>)
        ensures
            match r {
                Some(e) => e.spec_to_u32() == v,
                None => !(v <= 5),
            },
    {
        match v {
            0 => Some(DisconnectReason::Disconnected),
            1 => Some(DisconnectReason::Error),
            2 => Some(DisconnectReason::Mode),
            3 => Some(DisconnectReason::Protocol),
            4 => Some(DisconnectReason::Value),
            5 => Some(DisconnectReason::Transport),
            _ => None,
        }
    }
}

/// Device type.
#[derive(Clone, Copy, Debug, Eq, PartialEq, Hash, Structural)]
pub enum DeviceType {
    /// A virtual device.
    Virtual,
    /// Representation of a physical device.
    Physical,
}

impl DeviceType {
    /// The names of the enumeration and of this variant in the protocol.
    pub open spec fn spec_enum_name(self) -> (&'static str, &'static str) {
        ("device_type", match self {
            DeviceType::Virtual => "virtual",
            DeviceType::Physical => "physical",
        })
    }

    /// Returns the names of the enumeration and of this variant in the
    /// protocol.
    #[verifier::when_used_as_spec(spec_enum_name)]
    pub fn enum_name(self) -> (r: (&'static str, &'static str))
        ensures
            r == self.spec_enum_name(),
    {
        ("device_type", match self {
            DeviceType::Virtual => "virtual",
            DeviceType::Physical => "physical",
        })
    }

    pub open spec fn spec_to_u32(self) -> u32 {
        match self {
            DeviceType::Virtual => 1,
            DeviceType::Physical => 2,
        }
    }

    /// The number of this variant on the wire.
    #[verifier::when_used_as_spec(spec_to_u32)]
    pub fn to_u32(self) -> (r: u32)
        ensures
            r == self.spec_to_u32(),
    {
        match self {
            DeviceType::Virtual => 1,
            DeviceType::Physical => 2,
        }
    }

    /// The variant with number `v`, if there is one.
    pub fn from_u32(v: u32) -> (r: Option<DeviceType>)
        ensures
            match r {
                Some(e) => e.spec_to_u32() == v,
                None => !(1 <= v <= 2),
            },
    {
        match v {
            1 => Some(DeviceType::Virtual),
            2 => Some(DeviceType::Physical),
            _ => None,
        }
    }
}

/// Button state.
#[derive(Clone, Copy, Debug, Eq, PartialEq, Hash, Structural)]
pub enum ButtonState {
    /// The button is logically up.
    Released,
    /// The button is logically down.
    Press,
}

impl ButtonState {
    /// The names of the enumeration and of this variant in the protocol.
    pub open spec fn spec_enum_name(self) -> (&'static str, &'static str) {
        ("button_state", match self {
            ButtonState::Released => "released",
            ButtonState::Press => "press",
        })
    }

    /// Returns the names of the enumeration and of this variant in the
    /// protocol.
    #[verifier::when_used_as_spec(spec_enum_name)]
    pub fn enum_name(self) -> (r: (&'static str, &'static str))
        ensures
            r == self.spec_enum_name(),
    {
        ("button_state", match self {
            ButtonState::Released => "released",
            ButtonState::Press => "press",
        })
    }

    pub open spec fn spec_to_u32(self) -> u32 {
        match self {
            ButtonState::Released => 0,
            ButtonState::Press => 1,
        }
    }

    /// The number of this variant on the wire.
    #[verifier::when_used_as_spec(spec_to_u32)]
    pub fn to_u32(self) -> (r: u32)
        ensures
            r == self.spec_to_u32(),
    {
        match self {
            ButtonState::Released => 0,
            ButtonState::Press => 1,
        }
    }

    /// The variant with number `v`, if there is one.
    pub fn from_u32(v: u32) -> (r: Option<ButtonState>)
        ensures
            match r {
                Some(e) => e.spec_to_u32() == v,
                None => !(v <= 1),
            },
    {
        match v {
            0 => Some(ButtonState::Released),
            1 => Some(ButtonState::Press),
            _ => None,
        }
    }
}

/// Key state.
#[derive(Clone, Copy, Debug, Eq, PartialEq, Hash, Structural)]
pub enum KeyState {
    /// The key is logically up.
    Released,
    /// The key is logically down.
    Press,
}

impl KeyState {
    /// The names of the enumeration and of this variant in the protocol.
    pub open spec fn spec_enum_name(self) -> (&'static str, &'static str) {
        ("key_state", match self {
            KeyState::Released => "released",
            KeyState::Press => "press",
        })
    }

    /// Returns the names of the enumeration and of this variant in the
    /// protocol.
    #[verifier::when_used_as_spec(spec_enum_name)]
    pub fn enum_name(self) -> (r: (&'static str, &'static str))
        ensures
            r == self.spec_enum_name(),
    {
        ("key_state", match self {
            KeyState::Released => "released",
            KeyState::Press => "press",
        })
    }

    pub open spec fn spec_to_u32(self) -> u32 {
        match self {
            KeyState::Released => 0,
            KeyState::Press => 1,
        }
    }

    /// The number of this variant on the wire.
    #[verifier::when_used_as_spec(spec_to_u32)]
    pub fn to_u32(self) -> (r: u32)
        ensures
            r == self.spec_to_u32(),
    {
        match self {
            KeyState::Released => 0,
            KeyState::Press => 1,
        }
    }

    /// The variant with number `v`, if there is one.
    pub fn from_u32(v: u32) -> (r: Option<KeyState>)
        ensures
            match r {
                Some(e) => e.spec_to_u32() == v,
                None => !(v <= 1),
            },
    {
        match v {
            0 => Some(KeyState::Released),
            1 => Some(KeyState::Press),
            _ => None,
        }
    }
}

/// The keymap type.
#[derive(Clone, Copy, Debug, Eq, PartialEq, Hash, Structural)]
pub enum KeymapType {
    /// A libxkbcommon-compatible xkb keymap.
    Xkb,
}

impl KeymapType {
    /// The names of the enumeration and of this variant in the protocol.
    pub open spec fn spec_enum_name(self) -> (&'static str, &'static str) {
        ("keymap_type", match self {
            KeymapType::Xkb => "xkb",
        })
    }

    /// Returns the names of the enumeration and of this variant in the
    /// protocol.
    #[verifier::when_used_as_spec(spec_enum_name)]
    pub fn enum_name(self) -> (r: (&'static str, &'static str))
        ensures
            r == self.spec_enum_name(),
    {
        ("keymap_type", match self {
            KeymapType::Xkb => "xkb",
        })
    }

    pub open spec fn spec_to_u32(self) -> u32 {
        match self {
            KeymapType::Xkb => 1,
        }
    }

    /// The number of this variant on the wire.
    #[verifier::when_used_as_spec(spec_to_u32)]
    pub fn to_u32(self) -> (r: u32)
        ensures
            r == self.spec_to_u32(),
    {
        match self {
            KeymapType::Xkb => 1,
        }
    }

    /// The variant with number `v`, if there is one.
    pub fn from_u32(v: u32) -> (r: Option<KeymapType>)
        ensures
            match r {
                Some(e) => e.spec_to_u32() == v,
                None => v != 1,
            },
    {
        match v {
            1 => Some(KeymapType::Xkb),
            _ => None,
        }
    }
}

} // verus!
