//! Types and constants of the event system.
use vstd::prelude::*;

verus! {

/// Kinds of events.
#[derive(Debug, Clone, Copy, PartialEq, Eq, Structural)]
pub enum CGEventType {
    Null,
    LeftMouseDown,
    LeftMouseUp,
    RightMouseDown,
    RightMouseUp,
    MouseMoved,
    LeftMouseDragged,
    RightMouseDragged,
    KeyDown,
    KeyUp,
    FlagsChanged,
    ScrollWheel,
    TabletPointer,
    TabletProximity,
    OtherMouseDown,
    OtherMouseUp,
    OtherMouseDragged,
    TapDisabledByTimeout,
    TapDisabledByUserInput,
}

/// Where a tap listens.
#[derive(Debug, Clone, Copy, PartialEq, Eq, Structural)]
pub enum CGEventTapLocation {
    HIDEventTap,
    SessionEventTap,
    AnnotatedSessionEventTap,
}

/// Where a tap stands among others.
#[derive(Debug, Clone, Copy, PartialEq, Eq, Structural)]
pub enum CGEventTapPlacement {
    HeadInsertEventTap,
    TailAppendEventTap,
}

/// Whether a tap may change events.
#[derive(Debug, Clone, Copy, PartialEq, Eq, Structural)]
pub enum CGEventTapOptions {
    Default,
    ListenOnly,
}

/// State that an event source reflects.
#[derive(Debug, Clone, Copy, PartialEq, Eq, Structural)]
pub enum CGEventSourceStateID {
    Private,
    CombinedSessionState,
    HIDSystemState,
}

/// Mouse buttons.
#[derive(Debug, Clone, Copy, PartialEq, Eq, Structural)]
pub enum CGMouseButton {
    Left,
    Right,
    Center,
}

/// Units of a scroll distance.
#[derive(Debug, Clone, Copy, PartialEq, Eq, Structural)]
pub enum CGScrollEventUnit {
    Pixel,
    Line,
}

/// Bit of Caps Lock among the flags of an event.
pub const ALPHA_SHIFT: u64 = 0x0001_0000;

/// Bit of Shift.
pub const SHIFT: u64 = 0x0002_0000;

/// Bit of Control.
pub const CONTROL: u64 = 0x0004_0000;

/// Bit of Option.
pub const ALTERNATE: u64 = 0x0008_0000;

/// Bit of Command.
pub const COMMAND: u64 = 0x0010_0000;

/// Bit of the numeric pad.
pub const NUMERIC_PAD: u64 = 0x0020_0000;

/// Bit of Help.
pub const HELP: u64 = 0x0040_0000;

/// Bit of the Fn key.
pub const SECONDARY_FN: u64 = 0x0080_0000;

impl CGEventType {
    /// The number of the kind.
    pub open spec fn number(self) -> u32 {
        match self {
            CGEventType::Null => 0,
            CGEventType::LeftMouseDown => 1,
            CGEventType::LeftMouseUp => 2,
            CGEventType::RightMouseDown => 3,
            CGEventType::RightMouseUp => 4,
            CGEventType::MouseMoved => 5,
            CGEventType::LeftMouseDragged => 6,
            CGEventType::RightMouseDragged => 7,
            CGEventType::KeyDown => 10,
            CGEventType::KeyUp => 11,
            CGEventType::FlagsChanged => 12,
            CGEventType::ScrollWheel => 22,
            CGEventType::TabletPointer => 23,
            CGEventType::TabletProximity => 24,
            CGEventType::OtherMouseDown => 25,
            CGEventType::OtherMouseUp => 26,
            CGEventType::OtherMouseDragged => 27,
            CGEventType::TapDisabledByTimeout => 0xFFFF_FFFE,
            CGEventType::TapDisabledByUserInput => 0xFFFF_FFFF,
        }
    }

    /// The kind with a number; none of the kinds where no kind has it.
    pub fn from_code(n: u32) -> (t: CGEventType)
        ensures
            t.number() == n || (t == CGEventType::Null && forall|k: CGEventType|
                #[trigger] k.number() != n),
    {
        match n {
            1 => CGEventType::LeftMouseDown,
            2 => CGEventType::LeftMouseUp,
            3 => CGEventType::RightMouseDown,
            4 => CGEventType::RightMouseUp,
            5 => CGEventType::MouseMoved,
            6 => CGEventType::LeftMouseDragged,
            7 => CGEventType::RightMouseDragged,
            10 => CGEventType::KeyDown,
            11 => CGEventType::KeyUp,
            12 => CGEventType::FlagsChanged,
            22 => CGEventType::ScrollWheel,
            23 => CGEventType::TabletPointer,
            24 => CGEventType::TabletProximity,
            25 => CGEventType::OtherMouseDown,
            26 => CGEventType::OtherMouseUp,
            27 => CGEventType::OtherMouseDragged,
            0xFFFF_FFFE => CGEventType::TapDisabledByTimeout,
            0xFFFF_FFFF => CGEventType::TapDisabledByUserInput,
            _ => CGEventType::Null,
        }
    }

    /// The number of the kind.
    pub fn code(self) -> (n: u32)
        ensures
            n == self.number(),
    {
        match self {
            CGEventType::Null => 0,
            CGEventType::LeftMouseDown => 1,
            CGEventType::LeftMouseUp => 2,
            CGEventType::RightMouseDown => 3,
            CGEventType::RightMouseUp => 4,
            CGEventType::MouseMoved => 5,
            CGEventType::LeftMouseDragged => 6,
            CGEventType::RightMouseDragged => 7,
            CGEventType::KeyDown => 10,
            CGEventType::KeyUp => 11,
            CGEventType::FlagsChanged => 12,
            CGEventType::ScrollWheel => 22,
            CGEventType::TabletPointer => 23,
            CGEventType::TabletProximity => 24,
            CGEventType::OtherMouseDown => 25,
            CGEventType::OtherMouseUp => 26,
            CGEventType::OtherMouseDragged => 27,
            CGEventType::TapDisabledByTimeout => 0xFFFF_FFFE,
            CGEventType::TapDisabledByUserInput => 0xFFFF_FFFF,
        }
    }
}

impl CGEventTapLocation {
    /// The number of the place.
    pub fn code(self) -> (n: u32)
        ensures
            n == (match self {
                CGEventTapLocation::HIDEventTap => 0u32,
                CGEventTapLocation::SessionEventTap => 1,
                CGEventTapLocation::AnnotatedSessionEventTap => 2,
            }),
    {
        match self {
            CGEventTapLocation::HIDEventTap => 0,
            CGEventTapLocation::SessionEventTap => 1,
            CGEventTapLocation::AnnotatedSessionEventTap => 2,
        }
    }
}

impl CGEventTapPlacement {
    /// The number of the place.
    pub fn code(self) -> (n: u32)
        ensures
            n == (match self {
                CGEventTapPlacement::HeadInsertEventTap => 0u32,
                CGEventTapPlacement::TailAppendEventTap => 1,
            }),
    {
        match self {
            CGEventTapPlacement::HeadInsertEventTap => 0,
            CGEventTapPlacement::TailAppendEventTap => 1,
        }
    }
}

impl CGEventTapOptions {
    /// The number of the option.
    pub fn code(self) -> (n: u32)
        ensures
            n == (match self {
                CGEventTapOptions::Default => 0u32,
                CGEventTapOptions::ListenOnly => 1,
            }),
    {
        match self {
            CGEventTapOptions::Default => 0,
            CGEventTapOptions::ListenOnly => 1,
        }
    }
}

impl CGEventSourceStateID {
    /// The number of the state.
    pub fn code(self) -> (n: i32)
        ensures
            n == (match self {
                CGEventSourceStateID::Private => -1i32,
                CGEventSourceStateID::CombinedSessionState => 0,
                CGEventSourceStateID::HIDSystemState => 1,
            }),
    {
        match self {
            CGEventSourceStateID::Private => -1,
            CGEventSourceStateID::CombinedSessionState => 0,
            CGEventSourceStateID::HIDSystemState => 1,
        }
    }
}

impl CGMouseButton {
    /// The number of the button.
    pub fn code(self) -> (n: u32)
        ensures
            n == (match self {
                CGMouseButton::Left => 0u32,
                CGMouseButton::Right => 1,
                CGMouseButton::Center => 2,
            }),
    {
        match self {
            CGMouseButton::Left => 0,
            CGMouseButton::Right => 1,
            CGMouseButton::Center => 2,
        }
    }
}

impl CGScrollEventUnit {
    /// The number of the unit.
    pub fn code(self) -> (n: u32)
        ensures
            n == (match self {
                CGScrollEventUnit::Pixel => 0u32,
                CGScrollEventUnit::Line => 1,
            }),
    {
        match self {
            CGScrollEventUnit::Pixel => 0,
            CGScrollEventUnit::Line => 1,
        }
    }
}

/// The bit of an event mask that stands for a kind of events.
pub open spec fn mask_bit(t: CGEventType) -> u64 {
    1u64 << (t.number() as u64)
}

/// Create event mask for event types. The two notices that a tap was disabled
/// have no bit.
pub fn cg_event_mask_bit(event_type: CGEventType) -> (bit: u64)
    requires
        event_type.number() < 64,
    ensures
        bit == mask_bit(event_type),
{
    1u64 << (event_type.code() as u64)
}

/// The kinds of events have the numbers that the event system gives them: no two the
/// same, a press followed by its release, and the bit of a kind is that of its number.
pub proof fn law_kinds_have_their_numbers(a: CGEventType, b: CGEventType)
    ensures
        a.number() == b.number() ==> a == b,
        CGEventType::LeftMouseDown.number() == 1,
        CGEventType::LeftMouseUp.number() == 2,
        CGEventType::RightMouseDown.number() == 3,
        CGEventType::RightMouseUp.number() == 4,
        CGEventType::MouseMoved.number() == 5,
        CGEventType::LeftMouseDragged.number() == 6,
        CGEventType::RightMouseDragged.number() == 7,
        CGEventType::KeyDown.number() == 10,
        CGEventType::KeyUp.number() == 11,
        CGEventType::FlagsChanged.number() == 12,
        CGEventType::ScrollWheel.number() == 22,
        CGEventType::OtherMouseDown.number() == 25,
        CGEventType::OtherMouseUp.number() == 26,
        CGEventType::OtherMouseDragged.number() == 27,
        mask_bit(a) == 1u64 << (a.number() as u64),
{
}

} // verus!
