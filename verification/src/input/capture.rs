//! Input capture: which events are asked for, and what is sent for each.
use crate::error::{BridgeError, BridgeResult};
use crate::input::events::{
    cg_event_mask_bit, mask_bit, CGEventTapOptions, CGEventType, ALPHA_SHIFT, ALTERNATE, COMMAND,
    CONTROL, SECONDARY_FN, SHIFT,
};
use crate::protocol::{
    InputEvent, KeyboardEvent, ModifierFlags, MouseButtonEvent, MouseMoveEvent, MouseScrollEvent,
};
use crate::queue::{BoundedQueue, Offer, QueueItem};
use vstd::prelude::*;
use vstd::string::StringExecFns;

verus! {

/// Input capture configuration.
#[derive(Debug, Clone, Copy, PartialEq, Eq, Structural)]
pub struct CaptureConfig {
    /// Capture keyboard events.
    pub capture_keyboard: bool,
    /// Capture mouse movement.
    pub capture_mouse_move: bool,
    /// Capture mouse buttons.
    pub capture_mouse_buttons: bool,
    /// Capture scroll wheel.
    pub capture_scroll: bool,
    /// Use raw HID for gaming devices.
    pub use_raw_hid: bool,
    /// Capture in listen-only mode (don't block events).
    pub listen_only: bool,
}

impl Default for CaptureConfig {
    fn default() -> (c: Self)
        ensures
            c == (CaptureConfig {
                capture_keyboard: true,
                capture_mouse_move: true,
                capture_mouse_buttons: true,
                capture_scroll: true,
                use_raw_hid: false,
                listen_only: false,
            }),
    {
        CaptureConfig {
            capture_keyboard: true,
            capture_mouse_move: true,
            capture_mouse_buttons: true,
            capture_scroll: true,
            use_raw_hid: false,
            listen_only: false,
        }
    }
}

/// Bits of the keyboard events.
pub open spec fn keyboard_bits() -> u64 {
    mask_bit(CGEventType::KeyDown) | mask_bit(CGEventType::KeyUp) | mask_bit(
        CGEventType::FlagsChanged,
    )
}

/// Bits of the mouse movements, dragging among them.
pub open spec fn move_bits() -> u64 {
    mask_bit(CGEventType::MouseMoved) | mask_bit(CGEventType::LeftMouseDragged) | mask_bit(
        CGEventType::RightMouseDragged,
    ) | mask_bit(CGEventType::OtherMouseDragged)
}

/// Bits of the mouse buttons.
pub open spec fn button_bits() -> u64 {
    mask_bit(CGEventType::LeftMouseDown) | mask_bit(CGEventType::LeftMouseUp) | mask_bit(
        CGEventType::RightMouseDown,
    ) | mask_bit(CGEventType::RightMouseUp) | mask_bit(CGEventType::OtherMouseDown) | mask_bit(
        CGEventType::OtherMouseUp,
    )
}

/// `bits` where they are wanted.
pub open spec fn bits_if(wanted: bool, bits: u64) -> u64 {
    if wanted {
        bits
    } else {
        0
    }
}

/// The events that a configuration asks for.
pub open spec fn wanted_bits(c: CaptureConfig) -> u64 {
    bits_if(c.capture_keyboard, keyboard_bits()) | bits_if(c.capture_mouse_move, move_bits())
        | bits_if(c.capture_mouse_buttons, button_bits()) | bits_if(
        c.capture_scroll,
        mask_bit(CGEventType::ScrollWheel),
    )
}

/// Whether a configuration asks for a kind of events.
pub open spec fn is_wanted(c: CaptureConfig, t: CGEventType) -> bool {
    match t {
        CGEventType::KeyDown | CGEventType::KeyUp | CGEventType::FlagsChanged => c.capture_keyboard,
        CGEventType::MouseMoved
        | CGEventType::LeftMouseDragged
        | CGEventType::RightMouseDragged
        | CGEventType::OtherMouseDragged => c.capture_mouse_move,
        CGEventType::LeftMouseDown
        | CGEventType::LeftMouseUp
        | CGEventType::RightMouseDown
        | CGEventType::RightMouseUp
        | CGEventType::OtherMouseDown
        | CGEventType::OtherMouseUp => c.capture_mouse_buttons,
        CGEventType::ScrollWheel => c.capture_scroll,
        _ => false,
    }
}

/// The event mask of a tap.
pub fn event_mask(config: &CaptureConfig) -> (mask: u64)
    ensures
        mask == wanted_bits(*config),
{
    let keyboard: u64 = if config.capture_keyboard {
        cg_event_mask_bit(CGEventType::KeyDown) | cg_event_mask_bit(CGEventType::KeyUp)
            | cg_event_mask_bit(CGEventType::FlagsChanged)
    } else {
        0
    };
    let movement: u64 = if config.capture_mouse_move {
        cg_event_mask_bit(CGEventType::MouseMoved) | cg_event_mask_bit(
            CGEventType::LeftMouseDragged,
        ) | cg_event_mask_bit(CGEventType::RightMouseDragged) | cg_event_mask_bit(
            CGEventType::OtherMouseDragged,
        )
    } else {
        0
    };
    let buttons: u64 = if config.capture_mouse_buttons {
        cg_event_mask_bit(CGEventType::LeftMouseDown) | cg_event_mask_bit(CGEventType::LeftMouseUp)
            | cg_event_mask_bit(CGEventType::RightMouseDown) | cg_event_mask_bit(
            CGEventType::RightMouseUp,
        ) | cg_event_mask_bit(CGEventType::OtherMouseDown) | cg_event_mask_bit(
            CGEventType::OtherMouseUp,
        )
    } else {
        0
    };
    let scroll: u64 = if config.capture_scroll {
        cg_event_mask_bit(CGEventType::ScrollWheel)
    } else {
        0
    };
    keyboard | movement | buttons | scroll
}

/// The bits of the groups of events as numbers.
proof fn lemma_group_bits()
    ensures
        keyboard_bits() == 0x1C00,
        move_bits() == 0x0800_00E0,
        button_bits() == 0x0600_001E,
        mask_bit(CGEventType::ScrollWheel) == 0x0040_0000,
{
    assert((1u64 << 10u64) | (1u64 << 11u64) | (1u64 << 12u64) == 0x1C00) by (bit_vector);
    assert((1u64 << 5u64) | (1u64 << 6u64) | (1u64 << 7u64) | (1u64 << 27u64) == 0x0800_00E0)
        by (bit_vector);
    assert((1u64 << 1u64) | (1u64 << 2u64) | (1u64 << 3u64) | (1u64 << 4u64) | (1u64 << 25u64) | (
    1u64 << 26u64) == 0x0600_001E) by (bit_vector);
    assert(1u64 << 22u64 == 0x0040_0000) by (bit_vector);
}

/// The mask of a tap has the bit of a kind of events exactly if the configuration
/// asks for that kind.
pub proof fn law_mask_asks_for_what_is_wanted(c: CaptureConfig, t: CGEventType)
    requires
        t.number() < 64,
    ensures
        wanted_bits(c) & mask_bit(t) != 0 <==> is_wanted(c, t),
{
    lemma_group_bits();
    let n: u64 = t.number() as u64;
    let k: u64 = bits_if(c.capture_keyboard, 0x1C00);
    let m: u64 = bits_if(c.capture_mouse_move, 0x0800_00E0);
    let b: u64 = bits_if(c.capture_mouse_buttons, 0x0600_001E);
    let s: u64 = bits_if(c.capture_scroll, 0x0040_0000);
    assert((k | m | b | s) & (1u64 << n) != 0 <==> ((k != 0 && 10 <= n <= 12) || (m != 0 && (5 <= n
        <= 7 || n == 27)) || (b != 0 && (1 <= n <= 4 || 25 <= n <= 26)) || (s != 0 && n == 22)))
        by (bit_vector)
        requires
            n < 64,
            k == 0 || k == 0x1C00,
            m == 0 || m == 0x0800_00E0,
            b == 0 || b == 0x0600_001E,
            s == 0 || s == 0x0040_0000,
    ;
}

/// Whether a tap may hold events back.
pub fn tap_options(config: &CaptureConfig) -> (o: CGEventTapOptions)
    ensures
        o == (if config.listen_only {
            CGEventTapOptions::ListenOnly
        } else {
            CGEventTapOptions::Default
        }),
{
    if config.listen_only {
        CGEventTapOptions::ListenOnly
    } else {
        CGEventTapOptions::Default
    }
}

/// Whether captured events reach other applications all the same: only in
/// listen-only mode.
pub fn passes_on(config: &CaptureConfig) -> (b: bool)
    ensures
        b == config.listen_only,
{
    config.listen_only
}

/// Whether a flag is among the flags of an event.
pub open spec fn has_flag(flags: u64, flag: u64) -> bool {
    flags & flag != 0
}

/// The modifier keys that the flags of an event name.
pub open spec fn modifiers_of(flags: u64) -> ModifierFlags {
    ModifierFlags {
        shift: has_flag(flags, SHIFT),
        control: has_flag(flags, CONTROL),
        option: has_flag(flags, ALTERNATE),
        command: has_flag(flags, COMMAND),
        caps_lock: has_flag(flags, ALPHA_SHIFT),
        fn_key: has_flag(flags, SECONDARY_FN),
    }
}

/// Reads the modifier keys off the flags of an event.
pub fn flags_to_modifiers(flags: u64) -> (m: ModifierFlags)
    ensures
        m == modifiers_of(flags),
{
    ModifierFlags {
        shift: flags & SHIFT != 0,
        control: flags & CONTROL != 0,
        option: flags & ALTERNATE != 0,
        command: flags & COMMAND != 0,
        caps_lock: flags & ALPHA_SHIFT != 0,
        fn_key: flags & SECONDARY_FN != 0,
    }
}

/// Whether a modifier key is down after the flags changed; a key that is no
/// modifier counts as down.
pub open spec fn modifier_is_down(key_code: u16, flags: u64) -> bool {
    match key_code {
        0x37 | 0x36 => has_flag(flags, COMMAND),
        0x38 | 0x3C => has_flag(flags, SHIFT),
        0x3A | 0x3D => has_flag(flags, ALTERNATE),
        0x3B | 0x3E => has_flag(flags, CONTROL),
        0x39 => has_flag(flags, ALPHA_SHIFT),
        0x3F => has_flag(flags, SECONDARY_FN),
        _ => true,
    }
}

/// What a tap reads off an event. The positions are bits of floating-point
/// numbers: relative to the screen, and since the last event.
#[derive(Debug, Clone, Copy, PartialEq, Eq, Structural)]
pub struct TapFields {
    pub key_code: i64,
    pub flags: u64,
    pub x_bits: u64,
    pub y_bits: u64,
    pub delta_x_bits: u64,
    pub delta_y_bits: u64,
    pub click_state: i64,
    pub scroll_x_bits: u64,
    pub scroll_y_bits: u64,
    pub is_continuous: i64,
}

/// The button that an event of the mouse is about.
pub open spec fn button_of(t: CGEventType) -> u8 {
    match t {
        CGEventType::LeftMouseDown | CGEventType::LeftMouseUp => 0,
        CGEventType::RightMouseDown | CGEventType::RightMouseUp => 1,
        _ => 2,
    }
}

/// Whether an event of the mouse is about a button that goes down.
pub open spec fn is_button_down(t: CGEventType) -> bool {
    t == CGEventType::LeftMouseDown || t == CGEventType::RightMouseDown || t
        == CGEventType::OtherMouseDown
}

/// What is sent for an event, if anything.
pub open spec fn tapped(t: CGEventType, f: TapFields, timestamp_us: u64) -> Option<InputEvent> {
    let key_code = f.key_code as u16;
    match t {
        CGEventType::KeyDown | CGEventType::KeyUp => Some(
            InputEvent::Keyboard(
                KeyboardEvent {
                    key_code,
                    is_pressed: t == CGEventType::KeyDown,
                    modifiers: modifiers_of(f.flags),
                    timestamp_us,
                },
            ),
        ),
        CGEventType::FlagsChanged => Some(
            InputEvent::Keyboard(
                KeyboardEvent {
                    key_code,
                    is_pressed: modifier_is_down(key_code, f.flags),
                    modifiers: modifiers_of(f.flags),
                    timestamp_us,
                },
            ),
        ),
        CGEventType::MouseMoved
        | CGEventType::LeftMouseDragged
        | CGEventType::RightMouseDragged
        | CGEventType::OtherMouseDragged => Some(
            InputEvent::MouseMove(
                MouseMoveEvent {
                    x_bits: f.x_bits,
                    y_bits: f.y_bits,
                    delta_x_bits: f.delta_x_bits,
                    delta_y_bits: f.delta_y_bits,
                    is_absolute: true,
                    timestamp_us,
                },
            ),
        ),
        CGEventType::LeftMouseDown
        | CGEventType::LeftMouseUp
        | CGEventType::RightMouseDown
        | CGEventType::RightMouseUp
        | CGEventType::OtherMouseDown
        | CGEventType::OtherMouseUp => Some(
            InputEvent::MouseButton(
                MouseButtonEvent {
                    button: button_of(t),
                    is_pressed: is_button_down(t),
                    click_count: f.click_state as u8,
                    timestamp_us,
                },
            ),
        ),
        CGEventType::ScrollWheel => Some(
            InputEvent::MouseScroll(
                MouseScrollEvent {
                    delta_x_bits: f.scroll_x_bits,
                    delta_y_bits: f.scroll_y_bits,
                    is_continuous: f.is_continuous != 0,
                    timestamp_us,
                },
            ),
        ),
        _ => None,
    }
}

/// The event to send for an event that a tap saw.
pub fn event_tap_callback(event_type: CGEventType, fields: &TapFields, timestamp_us: u64) -> (r:
    Option<InputEvent>)
    ensures
        r == tapped(event_type, *fields, timestamp_us),
{
    let key_code: u16 = #[verifier::truncate]
    (fields.key_code as u16);
    let flags: u64 = fields.flags;
    match event_type {
        CGEventType::KeyDown | CGEventType::KeyUp => Some(
            InputEvent::Keyboard(
                KeyboardEvent {
                    key_code,
                    is_pressed: event_type == CGEventType::KeyDown,
                    modifiers: flags_to_modifiers(flags),
                    timestamp_us,
                },
            ),
        ),
        CGEventType::FlagsChanged => {
            let is_pressed = match key_code {
                0x37 | 0x36 => flags & COMMAND != 0,
                0x38 | 0x3C => flags & SHIFT != 0,
                0x3A | 0x3D => flags & ALTERNATE != 0,
                0x3B | 0x3E => flags & CONTROL != 0,
                0x39 => flags & ALPHA_SHIFT != 0,
                0x3F => flags & SECONDARY_FN != 0,
                _ => true,
            };
            Some(
                InputEvent::Keyboard(
                    KeyboardEvent {
                        key_code,
                        is_pressed,
                        modifiers: flags_to_modifiers(flags),
                        timestamp_us,
                    },
                ),
            )
        },
        CGEventType::MouseMoved
        | CGEventType::LeftMouseDragged
        | CGEventType::RightMouseDragged
        | CGEventType::OtherMouseDragged => Some(
            InputEvent::MouseMove(
                MouseMoveEvent {
                    x_bits: fields.x_bits,
                    y_bits: fields.y_bits,
                    delta_x_bits: fields.delta_x_bits,
                    delta_y_bits: fields.delta_y_bits,
                    is_absolute: true,
                    timestamp_us,
                },
            ),
        ),
        CGEventType::LeftMouseDown
        | CGEventType::LeftMouseUp
        | CGEventType::RightMouseDown
        | CGEventType::RightMouseUp
        | CGEventType::OtherMouseDown
        | CGEventType::OtherMouseUp => {
            let button: u8 = match event_type {
                CGEventType::LeftMouseDown | CGEventType::LeftMouseUp => 0,
                CGEventType::RightMouseDown | CGEventType::RightMouseUp => 1,
                _ => 2,
            };
            let is_pressed = event_type == CGEventType::LeftMouseDown || event_type
                == CGEventType::RightMouseDown || event_type == CGEventType::OtherMouseDown;
            Some(
                InputEvent::MouseButton(
                    MouseButtonEvent {
                        button,
                        is_pressed,
                        click_count: #[verifier::truncate]
                        (fields.click_state as u8),
                        timestamp_us,
                    },
                ),
            )
        },
        CGEventType::ScrollWheel => Some(
            InputEvent::MouseScroll(
                MouseScrollEvent {
                    delta_x_bits: fields.scroll_x_bits,
                    delta_y_bits: fields.scroll_y_bits,
                    is_continuous: fields.is_continuous != 0,
                    timestamp_us,
                },
            ),
        ),
        _ => None,
    }
}

/// Nothing is sent for an event that no configuration asks for.
pub proof fn law_unwanted_events_are_not_sent(
    c: CaptureConfig,
    t: CGEventType,
    f: TapFields,
    timestamp_us: u64,
)
    requires
        c.capture_keyboard,
        c.capture_mouse_move,
        c.capture_mouse_buttons,
        c.capture_scroll,
    ensures
        tapped(t, f, timestamp_us) is Some <==> is_wanted(c, t),
{
}

/// Events that may wait to be fetched.
pub const EVENT_QUEUE: usize = 256;

/// State of an input capturer.
pub struct InputCapturer {
    pub config: CaptureConfig,
    /// Events that wait to be fetched.
    pub queue: BoundedQueue,
    pub is_running: bool,
}

impl InputCapturer {
    /// Nothing but input events wait in the queue.
    pub open spec fn wf(self) -> bool {
        forall|i: int| 0 <= i < self.queue@.len() ==> #[trigger] self.queue@[i] is Input
    }

    /// Create a new input capturer.
    pub fn new(config: CaptureConfig) -> (r: BridgeResult<Self>)
        ensures
            r is Ok,
            r->Ok_0.wf(),
            r->Ok_0.config == config,
            r->Ok_0.queue@.len() == 0,
            r->Ok_0.queue.capacity() == EVENT_QUEUE,
            !r->Ok_0.is_running,
    {
        Ok(InputCapturer { config, queue: BoundedQueue::new(EVENT_QUEUE), is_running: false })
    }

    /// Start capturing input events: only with permission, and not where capturing
    /// already runs. Tells whether a tap has to be started.
    pub fn start(&mut self, has_permission: bool) -> (r: BridgeResult<bool>)
        ensures
            *final(self) == (InputCapturer {
                is_running: old(self).is_running || has_permission,
                ..*old(self)
            }),
            match r {
                Ok(starts) => starts == !old(self).is_running && (old(self).is_running
                    || has_permission),
                Err(e) => !old(self).is_running && !has_permission && (
                e matches BridgeError::Input(m) && m@
                    == "Accessibility permission required. Enable in System Preferences > Security & Privacy > Privacy > Accessibility"@),
            },
    {
        if self.is_running {
            Ok(false)
        } else if !has_permission {
            Err(
                BridgeError::Input(
                    String::from_str(
                        "Accessibility permission required. Enable in System Preferences > Security & Privacy > Privacy > Accessibility",
                    ),
                ),
            )
        } else {
            self.is_running = true;
            Ok(true)
        }
    }

    /// Stop capturing input events. Tells whether a tap has to be stopped.
    pub fn stop(&mut self) -> (stops: bool)
        ensures
            *final(self) == (InputCapturer { is_running: false, ..*old(self) }),
            stops == old(self).is_running,
    {
        let stops = self.is_running;
        self.is_running = false;
        stops
    }

    /// Queues what is sent for an event that the tap saw, if anything is. It is
    /// dropped where the queue is full. Tells whether the event is passed on to
    /// other applications: one that is captured is held back, except in
    /// listen-only mode.
    pub fn accept_event(
        &mut self,
        event_type: CGEventType,
        fields: &TapFields,
        timestamp_us: u64,
    ) -> (is_passed_on: bool)
        requires
            old(self).wf(),
        ensures
            final(self).wf(),
            final(self).config == old(self).config,
            final(self).is_running == old(self).is_running,
            final(self).queue.capacity() == old(self).queue.capacity(),
            final(self).queue@ == (match tapped(event_type, *fields, timestamp_us) {
                Some(e) => if old(self).queue@.len() < old(self).queue.capacity() {
                    old(self).queue@.push(QueueItem::Input(e))
                } else {
                    old(self).queue@
                },
                None => old(self).queue@,
            }),
            is_passed_on == (old(self).config.listen_only || tapped(
                event_type,
                *fields,
                timestamp_us,
            ) is None),
    {
        match event_tap_callback(event_type, fields, timestamp_us) {
            Some(e) => {
                let _: Offer = self.queue.offer(QueueItem::Input(e));
                passes_on(&self.config)
            },
            None => true,
        }
    }

    /// Get the next input event (non-blocking).
    pub fn recv_event(&mut self) -> (r: Option<InputEvent>)
        requires
            old(self).wf(),
        ensures
            final(self).wf(),
            final(self).config == old(self).config,
            final(self).is_running == old(self).is_running,
            final(self).queue.capacity() == old(self).queue.capacity(),
            match r {
                Some(e) => {
                    &&& old(self).queue@.len() > 0
                    &&& old(self).queue@[0] == QueueItem::Input(e)
                    &&& final(self).queue@ == old(self).queue@.skip(1)
                },
                None => old(self).queue@.len() == 0 && final(self).queue@ == old(self).queue@,
            },
    {
        match self.queue.take() {
            Some(QueueItem::Input(e)) => Some(e),
            _ => None,
        }
    }

    /// Check if capturing is active.
    pub fn is_running(&self) -> (b: bool)
        ensures
            b == self.is_running,
    {
        self.is_running
    }
}

/// The mask of a tap is made of the bits of the groups of events that are asked for,
/// as the event system numbers them.
pub proof fn law_mask_has_the_bits_of_its_groups(c: CaptureConfig)
    ensures
        wanted_bits(c) == (if c.capture_keyboard {
            0x1C00int
        } else {
            0
        }) + (if c.capture_mouse_move {
            0x0800_00E0int
        } else {
            0
        }) + (if c.capture_mouse_buttons {
            0x0600_001Eint
        } else {
            0
        }) + (if c.capture_scroll {
            0x0040_0000int
        } else {
            0
        }),
{
    lemma_group_bits();
    let k: u64 = bits_if(c.capture_keyboard, 0x1C00);
    let m: u64 = bits_if(c.capture_mouse_move, 0x0800_00E0);
    let b: u64 = bits_if(c.capture_mouse_buttons, 0x0600_001E);
    let s: u64 = bits_if(c.capture_scroll, 0x0040_0000);
    assert(k | m | b | s == k + m + b + s) by (bit_vector)
        requires
            k == 0 || k == 0x1C00,
            m == 0 || m == 0x0800_00E0,
            b == 0 || b == 0x0600_001E,
            s == 0 || s == 0x0040_0000,
    ;
}

/// Each modifier key has a bit of its own among the flags of an event.
pub proof fn law_modifiers_have_their_bits(flags: u64)
    ensures
        modifiers_of(flags).caps_lock == (flags & 0x0001_0000 != 0),
        modifiers_of(flags).shift == (flags & 0x0002_0000 != 0),
        modifiers_of(flags).control == (flags & 0x0004_0000 != 0),
        modifiers_of(flags).option == (flags & 0x0008_0000 != 0),
        modifiers_of(flags).command == (flags & 0x0010_0000 != 0),
        modifiers_of(flags).fn_key == (flags & 0x0080_0000 != 0),
{
}

/// What is sent for a key is the key, the modifiers that are held, and the time; it
/// is pressed when it goes down and released when it goes up.
pub proof fn law_keys_are_sent_as_they_move(t: CGEventType, f: TapFields, timestamp_us: u64)
    requires
        t == CGEventType::KeyDown || t == CGEventType::KeyUp || t == CGEventType::FlagsChanged,
    ensures
        tapped(t, f, timestamp_us) matches Some(InputEvent::Keyboard(k)) && (0 <= f.key_code
            <= 0xFFFF ==> k.key_code == f.key_code) && k.modifiers == modifiers_of(f.flags)
            && k.timestamp_us == timestamp_us && (t == CGEventType::KeyDown ==> k.is_pressed) && (t
            == CGEventType::KeyUp ==> !k.is_pressed),
{
}

/// When the flags change, a modifier key is down exactly if its flag is set, be it
/// the left or the right one.
pub proof fn law_modifier_keys_follow_their_flags(f: TapFields, timestamp_us: u64)
    requires
        0 <= f.key_code <= 0xFFFF,
    ensures
        tapped(CGEventType::FlagsChanged, f, timestamp_us) matches Some(InputEvent::Keyboard(k))
            && k.is_pressed == (if f.key_code == 0x36 || f.key_code == 0x37 {
            k.modifiers.command
        } else if f.key_code == 0x38 || f.key_code == 0x3C {
            k.modifiers.shift
        } else if f.key_code == 0x3A || f.key_code == 0x3D {
            k.modifiers.option
        } else if f.key_code == 0x3B || f.key_code == 0x3E {
            k.modifiers.control
        } else if f.key_code == 0x39 {
            k.modifiers.caps_lock
        } else if f.key_code == 0x3F {
            k.modifiers.fn_key
        } else {
            true
        }),
{
}

/// A pointer that moves, dragging or not, is sent with its place and its distance,
/// each across and down, and with the time.
pub proof fn law_movements_are_sent_as_they_are(t: CGEventType, f: TapFields, timestamp_us: u64)
    requires
        t == CGEventType::MouseMoved || t == CGEventType::LeftMouseDragged || t
            == CGEventType::RightMouseDragged || t == CGEventType::OtherMouseDragged,
    ensures
        tapped(t, f, timestamp_us) matches Some(InputEvent::MouseMove(m)) && m.x_bits == f.x_bits
            && m.y_bits == f.y_bits && m.delta_x_bits == f.delta_x_bits && m.delta_y_bits
            == f.delta_y_bits && m.is_absolute && m.timestamp_us == timestamp_us,
{
}

/// A mouse button is sent by its number, 0 for the left, 1 for the right and 2 for
/// any other, as it goes down or up, with its clicks; a wheel with its distances
/// across and down.
pub proof fn law_buttons_and_wheels_are_sent_as_they_move(
    t: CGEventType,
    f: TapFields,
    timestamp_us: u64,
)
    ensures
        tapped(t, f, timestamp_us) matches Some(InputEvent::MouseButton(b)) ==> (b.button == 0
            <==> t == CGEventType::LeftMouseDown || t == CGEventType::LeftMouseUp) && (b.button == 1
            <==> t == CGEventType::RightMouseDown || t == CGEventType::RightMouseUp) && b.button <= 2
            && (b.is_pressed <==> t == CGEventType::LeftMouseDown || t
            == CGEventType::RightMouseDown || t == CGEventType::OtherMouseDown) && (0
            <= f.click_state <= 255 ==> b.click_count == f.click_state) && b.timestamp_us
            == timestamp_us,
        t == CGEventType::ScrollWheel ==> (tapped(t, f, timestamp_us) matches Some(
            InputEvent::MouseScroll(s),
        ) && s.delta_x_bits == f.scroll_x_bits && s.delta_y_bits == f.scroll_y_bits && (
        s.is_continuous <==> f.is_continuous != 0) && s.timestamp_us == timestamp_us),
{
}

/// The events that may wait behind a capture.
pub proof fn law_capture_limits()
    ensures
        EVENT_QUEUE == 256,
{
}

} // verus!
