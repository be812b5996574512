//! Input injection through the event system: what is posted for an event.
use crate::error::{BridgeError, BridgeResult};
use crate::input::capture::{bits_if, has_flag, modifiers_of};
use crate::input::codec::InputView;
use crate::input::events::{
    CGEventType, CGMouseButton, CGScrollEventUnit, ALPHA_SHIFT, ALTERNATE, COMMAND, CONTROL,
    SECONDARY_FN, SHIFT,
};
use crate::protocol::{InputEvent, KeyboardEvent, ModifierFlags, MouseMoveEvent};
use vstd::prelude::*;
use vstd::string::StringExecFns;

verus! {

/// The flags of an event with the given modifier keys.
pub open spec fn flags_of(m: ModifierFlags) -> u64 {
    bits_if(m.shift, SHIFT) | bits_if(m.control, CONTROL) | bits_if(m.option, ALTERNATE) | bits_if(
        m.command,
        COMMAND,
    ) | bits_if(m.caps_lock, ALPHA_SHIFT) | bits_if(m.fn_key, SECONDARY_FN)
}

fn flag_if(wanted: bool, flag: u64) -> (f: u64)
    ensures
        f == bits_if(wanted, flag),
{
    if wanted {
        flag
    } else {
        0
    }
}

/// The flags of an event with the given modifier keys.
pub fn modifiers_to_flags(mods: &ModifierFlags) -> (flags: u64)
    ensures
        flags == flags_of(*mods),
{
    flag_if(mods.shift, SHIFT) | flag_if(mods.control, CONTROL) | flag_if(mods.option, ALTERNATE)
        | flag_if(mods.command, COMMAND) | flag_if(mods.caps_lock, ALPHA_SHIFT) | flag_if(
        mods.fn_key,
        SECONDARY_FN,
    )
}

/// The modifier keys survive the way through the flags of an event.
pub proof fn law_modifiers_survive_flags(m: ModifierFlags)
    ensures
        modifiers_of(flags_of(m)) == m,
{
    let a: u64 = bits_if(m.shift, SHIFT);
    let b: u64 = bits_if(m.control, CONTROL);
    let c: u64 = bits_if(m.option, ALTERNATE);
    let d: u64 = bits_if(m.command, COMMAND);
    let e: u64 = bits_if(m.caps_lock, ALPHA_SHIFT);
    let f: u64 = bits_if(m.fn_key, SECONDARY_FN);
    let flags: u64 = a | b | c | d | e | f;
    assert((flags & 0x0002_0000 != 0 <==> a != 0) && (flags & 0x0004_0000 != 0 <==> b != 0) && (
    flags & 0x0008_0000 != 0 <==> c != 0) && (flags & 0x0010_0000 != 0 <==> d != 0) && (flags
        & 0x0001_0000 != 0 <==> e != 0) && (flags & 0x0080_0000 != 0 <==> f != 0)) by (bit_vector)
        requires
            flags == a | b | c | d | e | f,
            a == 0 || a == 0x0002_0000,
            b == 0 || b == 0x0004_0000,
            c == 0 || c == 0x0008_0000,
            d == 0 || d == 0x0010_0000,
            e == 0 || e == 0x0001_0000,
            f == 0 || f == 0x0080_0000,
    ;
}

/// Flags give back those of them that stand for the modifier keys.
pub proof fn law_flags_keep_the_modifiers(flags: u64)
    ensures
        flags_of(modifiers_of(flags)) == flags & 0x009F_0000,
{
    let a: u64 = bits_if(has_flag(flags, SHIFT), SHIFT);
    let b: u64 = bits_if(has_flag(flags, CONTROL), CONTROL);
    let c: u64 = bits_if(has_flag(flags, ALTERNATE), ALTERNATE);
    let d: u64 = bits_if(has_flag(flags, COMMAND), COMMAND);
    let e: u64 = bits_if(has_flag(flags, ALPHA_SHIFT), ALPHA_SHIFT);
    let f: u64 = bits_if(has_flag(flags, SECONDARY_FN), SECONDARY_FN);
    assert(a | b | c | d | e | f == flags & 0x009F_0000) by (bit_vector)
        requires
            a == if flags & 0x0002_0000 != 0 {
                0x0002_0000u64
            } else {
                0
            },
            b == if flags & 0x0004_0000 != 0 {
                0x0004_0000u64
            } else {
                0
            },
            c == if flags & 0x0008_0000 != 0 {
                0x0008_0000u64
            } else {
                0
            },
            d == if flags & 0x0010_0000 != 0 {
                0x0010_0000u64
            } else {
                0
            },
            e == if flags & 0x0001_0000 != 0 {
                0x0001_0000u64
            } else {
                0
            },
            f == if flags & 0x0080_0000 != 0 {
                0x0080_0000u64
            } else {
                0
            },
    ;
}

/// The kind of event and the button to post for a mouse button.
pub open spec fn button_event(button: u8, is_pressed: bool) -> (CGEventType, CGMouseButton) {
    if button == 0 {
        if is_pressed {
            (CGEventType::LeftMouseDown, CGMouseButton::Left)
        } else {
            (CGEventType::LeftMouseUp, CGMouseButton::Left)
        }
    } else if button == 1 {
        if is_pressed {
            (CGEventType::RightMouseDown, CGMouseButton::Right)
        } else {
            (CGEventType::RightMouseUp, CGMouseButton::Right)
        }
    } else if is_pressed {
        (CGEventType::OtherMouseDown, CGMouseButton::Center)
    } else {
        (CGEventType::OtherMouseUp, CGMouseButton::Center)
    }
}

/// The kind of event and the button to post for a mouse button.
pub fn mouse_button_event(button: u8, is_pressed: bool) -> (r: (CGEventType, CGMouseButton))
    ensures
        r == button_event(button, is_pressed),
{
    match (button, is_pressed) {
        (0, true) => (CGEventType::LeftMouseDown, CGMouseButton::Left),
        (0, false) => (CGEventType::LeftMouseUp, CGMouseButton::Left),
        (1, true) => (CGEventType::RightMouseDown, CGMouseButton::Right),
        (1, false) => (CGEventType::RightMouseUp, CGMouseButton::Right),
        (_, true) => (CGEventType::OtherMouseDown, CGMouseButton::Center),
        (_, false) => (CGEventType::OtherMouseUp, CGMouseButton::Center),
    }
}

/// A button that goes down or up is captured, sent and posted as the same kind
/// of event, as far as the protocol tells buttons apart.
pub proof fn law_captured_buttons_are_posted_alike(t: CGEventType)
    requires
        t == CGEventType::LeftMouseDown || t == CGEventType::LeftMouseUp || t
            == CGEventType::RightMouseDown || t == CGEventType::RightMouseUp || t
            == CGEventType::OtherMouseDown || t == CGEventType::OtherMouseUp,
    ensures
        button_event(
            crate::input::capture::button_of(t),
            crate::input::capture::is_button_down(t),
        ).0 == t,
{
}

/// What to post for an input event.
#[derive(Debug, Clone, Copy, PartialEq, Eq, Structural)]
pub enum Posting {
    /// A key with the flags of the event.
    Key { key_code: u16, is_pressed: bool, flags: u64 },
    /// The pointer goes to a place of the screen, given by bits of the relative
    /// position.
    MoveTo { x_bits: u64, y_bits: u64 },
    /// The pointer moves by a distance, given by bits.
    MoveBy { delta_x_bits: u64, delta_y_bits: u64 },
    /// A mouse button.
    Button { event_type: CGEventType, button: CGMouseButton, click_count: i64 },
    /// A scroll distance, given by bits.
    Scroll { unit: CGScrollEventUnit, delta_x_bits: u64, delta_y_bits: u64 },
    /// Nothing: raw reports need a virtual device.
    Nothing,
}

/// What is posted for an input event.
pub open spec fn posted(e: InputView) -> Posting {
    match e {
        InputView::Keyboard(k) => Posting::Key {
            key_code: k.key_code,
            is_pressed: k.is_pressed,
            flags: flags_of(k.modifiers),
        },
        InputView::MouseMove(m) => if m.is_absolute {
            Posting::MoveTo { x_bits: m.x_bits, y_bits: m.y_bits }
        } else {
            Posting::MoveBy { delta_x_bits: m.delta_x_bits, delta_y_bits: m.delta_y_bits }
        },
        InputView::MouseButton(b) => Posting::Button {
            event_type: button_event(b.button, b.is_pressed).0,
            button: button_event(b.button, b.is_pressed).1,
            click_count: b.click_count as i64,
        },
        InputView::MouseScroll(s) => Posting::Scroll {
            unit: if s.is_continuous {
                CGScrollEventUnit::Pixel
            } else {
                CGScrollEventUnit::Line
            },
            delta_x_bits: s.delta_x_bits,
            delta_y_bits: s.delta_y_bits,
        },
        InputView::RawHid(_) => Posting::Nothing,
    }
}

/// What to post for an input event.
pub fn inject(event: &InputEvent) -> (p: Posting)
    ensures
        p == posted(event@),
{
    match event {
        InputEvent::Keyboard(k) => Posting::Key {
            key_code: k.key_code,
            is_pressed: k.is_pressed,
            flags: modifiers_to_flags(&k.modifiers),
        },
        InputEvent::MouseMove(m) => if m.is_absolute {
            Posting::MoveTo { x_bits: m.x_bits, y_bits: m.y_bits }
        } else {
            Posting::MoveBy { delta_x_bits: m.delta_x_bits, delta_y_bits: m.delta_y_bits }
        },
        InputEvent::MouseButton(b) => {
            let (event_type, button): (CGEventType, CGMouseButton) = mouse_button_event(
                b.button,
                b.is_pressed,
            );
            Posting::Button { event_type, button, click_count: b.click_count as i64 }
        },
        InputEvent::MouseScroll(s) => Posting::Scroll {
            unit: if s.is_continuous {
                CGScrollEventUnit::Pixel
            } else {
                CGScrollEventUnit::Line
            },
            delta_x_bits: s.delta_x_bits,
            delta_y_bits: s.delta_y_bits,
        },
        InputEvent::RawHid(_) => Posting::Nothing,
    }
}

/// A virtual HID device of a driver extension.
#[derive(Debug)]
pub struct VirtualHidDevice {}

impl VirtualHidDevice {
    /// Connects to the driver extension. There is none, so this fails.
    pub fn new() -> (r: BridgeResult<VirtualHidDevice>)
        ensures
            r is Err,
            r->Err_0 matches BridgeError::Input(m) && m@
                == "DriverKit virtual HID not implemented. Requires DriverKit extension development with Apple Developer account."@,
    {
        Err(
            BridgeError::Input(
                String::from_str(
                    "DriverKit virtual HID not implemented. Requires DriverKit extension development with Apple Developer account.",
                ),
            ),
        )
    }
}

/// A movement is posted where it goes: an absolute one to exactly its place, across
/// and down, and a relative one by exactly its distance.
pub proof fn law_movements_are_posted_where_they_go(m: MouseMoveEvent)
    ensures
        m.is_absolute ==> (posted(InputView::MouseMove(m)) matches Posting::MoveTo {
            x_bits,
            y_bits,
        } && x_bits == m.x_bits && y_bits == m.y_bits),
        !m.is_absolute ==> (posted(InputView::MouseMove(m)) matches Posting::MoveBy {
            delta_x_bits,
            delta_y_bits,
        } && delta_x_bits == m.delta_x_bits && delta_y_bits == m.delta_y_bits),
{
}

/// A key is posted as it was pressed or released, with the modifier keys that were
/// held: the flags name exactly those.
pub proof fn law_keys_are_posted_as_they_were(k: KeyboardEvent)
    ensures
        posted(InputView::Keyboard(k)) matches Posting::Key { key_code, is_pressed, flags }
            && key_code == k.key_code && is_pressed == k.is_pressed && modifiers_of(flags)
            == k.modifiers && flags & 0x009F_0000 == flags,
{
    law_modifiers_survive_flags(k.modifiers);
    law_flags_keep_the_modifiers(flags_of(k.modifiers));
}

/// A button is posted as the button that it is, going down or up as it did, with its
/// clicks; a wheel with its distances, in pixels where it moves continuously and in
/// lines otherwise; a raw report not at all.
pub proof fn law_buttons_and_wheels_are_posted_as_they_were(e: InputView)
    ensures
        e matches InputView::MouseButton(b) ==> (posted(e) matches Posting::Button {
            event_type,
            button,
            click_count,
        } && click_count == b.click_count && (b.button == 0 <==> button == CGMouseButton::Left) && (
        b.button == 1 <==> button == CGMouseButton::Right) && event_type.number() == (
        if b.button == 0 {
            1int
        } else if b.button == 1 {
            3
        } else {
            25
        }) + (if b.is_pressed {
            0int
        } else {
            1
        })),
        e matches InputView::MouseScroll(s) ==> (posted(e) matches Posting::Scroll {
            unit,
            delta_x_bits,
            delta_y_bits,
        } && delta_x_bits == s.delta_x_bits && delta_y_bits == s.delta_y_bits && (s.is_continuous
            <==> unit == CGScrollEventUnit::Pixel)),
        e is RawHid <==> posted(e) == Posting::Nothing,
{
}

/// What is captured on one machine is posted alike on another: a pointer at the
/// place where it was, a key as it was pressed or released, a wheel by as much as it
/// turned.
pub proof fn law_captured_input_is_posted_alike(
    t: CGEventType,
    f: crate::input::capture::TapFields,
    timestamp_us: u64,
)
    ensures
        crate::input::capture::tapped(t, f, timestamp_us) matches Some(e) ==> {
            let p = posted(e@);
            &&& t == CGEventType::MouseMoved || t == CGEventType::LeftMouseDragged || t
                == CGEventType::RightMouseDragged || t == CGEventType::OtherMouseDragged <==> p
                == (Posting::MoveTo { x_bits: f.x_bits, y_bits: f.y_bits })
            &&& t == CGEventType::KeyDown && 0 <= f.key_code <= 0xFFFF ==> p == (Posting::Key {
                key_code: f.key_code as u16,
                is_pressed: true,
                flags: f.flags & 0x009F_0000,
            })
            &&& t == CGEventType::KeyUp && 0 <= f.key_code <= 0xFFFF ==> p == (Posting::Key {
                key_code: f.key_code as u16,
                is_pressed: false,
                flags: f.flags & 0x009F_0000,
            })
            &&& t == CGEventType::ScrollWheel ==> p == (Posting::Scroll {
                unit: if f.is_continuous != 0 {
                    CGScrollEventUnit::Pixel
                } else {
                    CGScrollEventUnit::Line
                },
                delta_x_bits: f.scroll_x_bits,
                delta_y_bits: f.scroll_y_bits,
            })
            &&& p matches Posting::Button { event_type, .. } ==> event_type == t
        },
{
    law_flags_keep_the_modifiers(f.flags);
}

} // verus!
