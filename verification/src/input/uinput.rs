//! Input injection through the `uinput` module of Linux: the bytes that are
//! written to the device, and how it is set up.
use crate::bytes::{le_bytes, lemma_le_bytes_len, lemma_pow256_widths, u16_le, u32_le};
use crate::headers::lemma_int_read_back;
use crate::input::codec::InputView;
use crate::input::keymap::{linux_keycode, macos_to_linux_keycode, KEY_RESERVED};
use crate::protocol::{
    InputEvent, KeyboardEvent, MouseButtonEvent, MouseMoveEvent, MouseScrollEvent,
};
use crate::wire::int_at;
use vstd::prelude::*;

verus! {

broadcast use lemma_le_bytes_len;

/// Synchronization events.
pub const EV_SYN: u16 = 0x00;

/// Key and button events.
pub const EV_KEY: u16 = 0x01;

/// Relative movements.
pub const EV_REL: u16 = 0x02;

/// Absolute positions.
pub const EV_ABS: u16 = 0x03;

/// Ends a group of events.
pub const SYN_REPORT: u16 = 0x00;

pub const BTN_LEFT: u16 = 0x110;

pub const BTN_RIGHT: u16 = 0x111;

pub const BTN_MIDDLE: u16 = 0x112;

pub const REL_X: u16 = 0x00;

pub const REL_Y: u16 = 0x01;

pub const REL_WHEEL: u16 = 0x08;

pub const REL_HWHEEL: u16 = 0x06;

pub const ABS_X: u16 = 0x00;

pub const ABS_Y: u16 = 0x01;

/// Enables a type of events.
pub const UI_SET_EVBIT: u64 = 0x4004_5564;

/// Enables a key or button.
pub const UI_SET_KEYBIT: u64 = 0x4004_5565;

/// Enables a relative axis.
pub const UI_SET_RELBIT: u64 = 0x4004_5566;

/// Enables an absolute axis.
pub const UI_SET_ABSBIT: u64 = 0x4004_5567;

/// Creates the device.
pub const UI_DEV_CREATE: u64 = 0x5501;

/// Destroys the device.
pub const UI_DEV_DESTROY: u64 = 0x5502;

/// Highest key code that is enabled.
pub const KEY_MAX: u16 = 0x2FF;

/// Width of the absolute axes in pixels.
pub const SCREEN_WIDTH: u32 = 3840;

/// Height of the absolute axes in pixels.
pub const SCREEN_HEIGHT: u32 = 2160;

/// An event as the kernel takes it.
#[derive(Debug, Clone, Copy, PartialEq, Eq, Structural)]
pub struct RawEvent {
    pub event_type: u16,
    pub code: u16,
    pub value: i32,
}

impl RawEvent {
    /// Length of an event in bytes.
    pub const SIZE: usize = 24;

    /// The event in bytes: the time, which is left at zero, then type, code and
    /// value.
    pub open spec fn encoding(self) -> Seq<u8> {
        Seq::new(16, |i: int| 0u8) + le_bytes(self.event_type as nat, 2) + le_bytes(
            self.code as nat,
            2,
        ) + le_bytes((self.value as u32) as nat, 4)
    }

    /// The event in bytes.
    pub fn to_bytes(&self) -> (v: Vec<u8>)
        ensures
            v@ == self.encoding(),
            v@.len() == RawEvent::SIZE,
    {
        let mut v: Vec<u8> = vec![0u8; 16];
        assert(v@ =~= Seq::new(16, |i: int| 0u8));
        v.append(&mut u16_le(self.event_type));
        v.append(&mut u16_le(self.code));
        let value: u32 = #[verifier::truncate]
        (self.value as u32);
        v.append(&mut u32_le(value));
        v
    }
}

/// Ends a group of events.
pub open spec fn sync_event() -> RawEvent {
    RawEvent { event_type: EV_SYN, code: SYN_REPORT, value: 0 }
}

fn sync() -> (e: RawEvent)
    ensures
        e == sync_event(),
{
    RawEvent { event_type: EV_SYN, code: SYN_REPORT, value: 0 }
}

/// 1 for a key that goes down and 0 for one that goes up.
pub open spec fn press_value(is_pressed: bool) -> i32 {
    if is_pressed {
        1
    } else {
        0
    }
}

/// The events of a key: none where its code is not known.
pub open spec fn key_events(e: KeyboardEvent) -> Seq<RawEvent> {
    let code = linux_keycode(e.key_code);
    if code == KEY_RESERVED {
        Seq::empty()
    } else {
        seq![
            RawEvent { event_type: EV_KEY, code, value: press_value(e.is_pressed) },
            sync_event(),
        ]
    }
}

/// The code of a mouse button.
pub open spec fn button_code(button: u8) -> u16 {
    (BTN_LEFT + button) as u16
}

/// The events of a mouse button.
pub open spec fn button_events(e: MouseButtonEvent) -> Seq<RawEvent> {
    seq![
        RawEvent {
            event_type: EV_KEY,
            code: button_code(e.button),
            value: press_value(e.is_pressed),
        },
        sync_event(),
    ]
}

/// The events of a pointer that goes to a place, or moves by a distance.
pub open spec fn move_events(is_absolute: bool, x: i32, y: i32) -> Seq<RawEvent> {
    if is_absolute {
        seq![
            RawEvent { event_type: EV_ABS, code: ABS_X, value: x },
            RawEvent { event_type: EV_ABS, code: ABS_Y, value: y },
            sync_event(),
        ]
    } else {
        seq![
            RawEvent { event_type: EV_REL, code: REL_X, value: x },
            RawEvent { event_type: EV_REL, code: REL_Y, value: y },
            sync_event(),
        ]
    }
}

/// Bits of the magnitude of the double-precision number 0.01, below which a
/// scroll distance is ignored.
pub const SCROLL_THRESHOLD_BITS: u64 = 0x3F84_7AE1_47AE_147B;

/// Bits of the double-precision infinity; magnitudes beyond it are no numbers.
pub const INFINITY_BITS: u64 = 0x7FF0_0000_0000_0000;

/// Whether the magnitude of a double-precision number, given by its bits, is
/// above the scroll threshold. The bits of magnitudes are ordered as these.
pub open spec fn is_scroll(bits: u64) -> bool {
    SCROLL_THRESHOLD_BITS < (bits & 0x7FFF_FFFF_FFFF_FFFF) <= INFINITY_BITS
}

/// The events of a scroll wheel: the vertical one first, each where its distance
/// is above the threshold.
pub open spec fn scroll_events(y_bits: u64, x_bits: u64, y: i32, x: i32) -> Seq<RawEvent> {
    (if is_scroll(y_bits) {
        seq![RawEvent { event_type: EV_REL, code: REL_WHEEL, value: y }]
    } else {
        Seq::empty()
    }) + (if is_scroll(x_bits) {
        seq![RawEvent { event_type: EV_REL, code: REL_HWHEEL, value: x }]
    } else {
        Seq::empty()
    }) + seq![sync_event()]
}

/// The distances and positions of an input event in whole pixels or steps.
#[derive(Debug, Clone, Copy, PartialEq, Eq, Structural)]
pub struct PointerValues {
    /// Position on the screen, scaled to its size.
    pub x: i32,
    pub y: i32,
    /// Distance of a movement or of a wheel.
    pub delta_x: i32,
    pub delta_y: i32,
}

/// The events that are injected for an input event.
pub open spec fn injected(e: InputView, v: PointerValues) -> Seq<RawEvent> {
    match e {
        InputView::Keyboard(k) => key_events(k),
        InputView::MouseMove(m) => if m.is_absolute {
            move_events(true, v.x, v.y)
        } else {
            move_events(false, v.delta_x, v.delta_y)
        },
        InputView::MouseButton(b) => button_events(b),
        InputView::MouseScroll(s) => scroll_events(
            s.delta_y_bits,
            s.delta_x_bits,
            v.delta_y,
            v.delta_x,
        ),
        InputView::RawHid(_) => Seq::empty(),
    }
}

fn press(is_pressed: bool) -> (v: i32)
    ensures
        v == press_value(is_pressed),
{
    if is_pressed {
        1
    } else {
        0
    }
}

/// The events of a key.
pub fn inject_keyboard(event: &KeyboardEvent) -> (v: Vec<RawEvent>)
    ensures
        v@ == key_events(*event),
{
    let mut v: Vec<RawEvent> = Vec::new();
    let code: u16 = macos_to_linux_keycode(event.key_code);
    if code != KEY_RESERVED {
        v.push(RawEvent { event_type: EV_KEY, code, value: press(event.is_pressed) });
        v.push(sync());
    }
    assert(v@ =~= key_events(*event));
    v
}

/// The events of a pointer that goes to a place, or moves by a distance.
pub fn inject_mouse_move(is_absolute: bool, x: i32, y: i32) -> (v: Vec<RawEvent>)
    ensures
        v@ == move_events(is_absolute, x, y),
{
    let mut v: Vec<RawEvent> = Vec::new();
    if is_absolute {
        v.push(RawEvent { event_type: EV_ABS, code: ABS_X, value: x });
        v.push(RawEvent { event_type: EV_ABS, code: ABS_Y, value: y });
    } else {
        v.push(RawEvent { event_type: EV_REL, code: REL_X, value: x });
        v.push(RawEvent { event_type: EV_REL, code: REL_Y, value: y });
    }
    v.push(sync());
    assert(v@ =~= move_events(is_absolute, x, y));
    v
}

/// The events of a mouse button.
pub fn inject_mouse_button(event: &MouseButtonEvent) -> (v: Vec<RawEvent>)
    ensures
        v@ == button_events(*event),
{
    let code: u16 = match event.button {
        0 => BTN_LEFT,
        1 => BTN_RIGHT,
        2 => BTN_MIDDLE,
        n => BTN_LEFT + n as u16,
    };
    let mut v: Vec<RawEvent> = Vec::new();
    v.push(RawEvent { event_type: EV_KEY, code, value: press(event.is_pressed) });
    v.push(sync());
    assert(v@ =~= button_events(*event));
    v
}

fn exceeds_scroll_threshold(bits: u64) -> (b: bool)
    ensures
        b == is_scroll(bits),
{
    let magnitude: u64 = bits & 0x7FFF_FFFF_FFFF_FFFF;
    SCROLL_THRESHOLD_BITS < magnitude && magnitude <= INFINITY_BITS
}

/// The events of a scroll wheel.
pub fn inject_scroll(y_bits: u64, x_bits: u64, y: i32, x: i32) -> (v: Vec<RawEvent>)
    ensures
        v@ == scroll_events(y_bits, x_bits, y, x),
{
    let mut v: Vec<RawEvent> = Vec::new();
    if exceeds_scroll_threshold(y_bits) {
        v.push(RawEvent { event_type: EV_REL, code: REL_WHEEL, value: y });
    }
    if exceeds_scroll_threshold(x_bits) {
        v.push(RawEvent { event_type: EV_REL, code: REL_HWHEEL, value: x });
    }
    v.push(sync());
    assert(v@ =~= scroll_events(y_bits, x_bits, y, x));
    v
}

/// The events to inject for an input event.
pub fn inject(event: &InputEvent, values: &PointerValues) -> (v: Vec<RawEvent>)
    ensures
        v@ == injected(event@, *values),
{
    match event {
        InputEvent::Keyboard(k) => inject_keyboard(k),
        InputEvent::MouseMove(m) => if m.is_absolute {
            inject_mouse_move(true, values.x, values.y)
        } else {
            inject_mouse_move(false, values.delta_x, values.delta_y)
        },
        InputEvent::MouseButton(b) => inject_mouse_button(b),
        InputEvent::MouseScroll(s) => inject_scroll(
            s.delta_y_bits,
            s.delta_x_bits,
            values.delta_y,
            values.delta_x,
        ),
        InputEvent::RawHid(_) => Vec::new(),
    }
}

/// A request to the kernel while the device is set up.
#[derive(Debug, Clone, Copy, PartialEq, Eq, Structural)]
pub struct SetupRequest {
    pub request: u64,
    pub argument: u16,
    /// Whether the setup fails where the kernel refuses the request.
    pub is_required: bool,
}

/// The name of a required request, for the report that the kernel refused it.
pub open spec fn name_of(r: SetupRequest) -> Seq<char> {
    if r.request == UI_SET_EVBIT {
        if r.argument == EV_KEY {
            "UI_SET_EVBIT EV_KEY"@
        } else if r.argument == EV_REL {
            "UI_SET_EVBIT EV_REL"@
        } else if r.argument == EV_ABS {
            "UI_SET_EVBIT EV_ABS"@
        } else {
            "UI_SET_EVBIT EV_SYN"@
        }
    } else if r.request == UI_SET_KEYBIT {
        if r.argument == BTN_LEFT {
            "BTN_LEFT"@
        } else if r.argument == BTN_RIGHT {
            "BTN_RIGHT"@
        } else {
            "BTN_MIDDLE"@
        }
    } else if r.request == UI_SET_RELBIT {
        if r.argument == REL_X {
            "REL_X"@
        } else if r.argument == REL_Y {
            "REL_Y"@
        } else if r.argument == REL_WHEEL {
            "REL_WHEEL"@
        } else {
            "REL_HWHEEL"@
        }
    } else if r.argument == ABS_X {
        "ABS_X"@
    } else {
        "ABS_Y"@
    }
}

impl SetupRequest {
    /// The name of a required request.
    pub fn name(&self) -> (s: &'static str)
        ensures
            s@ == name_of(*self),
    {
        match self.request {
            UI_SET_EVBIT => match self.argument {
                EV_KEY => "UI_SET_EVBIT EV_KEY",
                EV_REL => "UI_SET_EVBIT EV_REL",
                EV_ABS => "UI_SET_EVBIT EV_ABS",
                _ => "UI_SET_EVBIT EV_SYN",
            },
            UI_SET_KEYBIT => match self.argument {
                BTN_LEFT => "BTN_LEFT",
                BTN_RIGHT => "BTN_RIGHT",
                _ => "BTN_MIDDLE",
            },
            UI_SET_RELBIT => match self.argument {
                REL_X => "REL_X",
                REL_Y => "REL_Y",
                REL_WHEEL => "REL_WHEEL",
                _ => "REL_HWHEEL",
            },
            _ => match self.argument {
                ABS_X => "ABS_X",
                _ => "ABS_Y",
            },
        }
    }
}

/// A request that the setup cannot do without.
pub open spec fn required(request: u64, argument: u16) -> SetupRequest {
    SetupRequest { request, argument, is_required: true }
}

/// The requests that set up the device: the types of events, all keys as far as
/// the kernel knows them, the mouse buttons and the axes.
pub open spec fn setup_requests() -> Seq<SetupRequest> {
    seq![
        required(UI_SET_EVBIT, EV_KEY),
        required(UI_SET_EVBIT, EV_REL),
        required(UI_SET_EVBIT, EV_ABS),
        required(UI_SET_EVBIT, EV_SYN),
    ] + Seq::new(
        (KEY_MAX + 1) as nat,
        |k: int|
            SetupRequest { request: UI_SET_KEYBIT, argument: k as u16, is_required: false },
    ) + seq![
        required(UI_SET_KEYBIT, BTN_LEFT),
        required(UI_SET_KEYBIT, BTN_RIGHT),
        required(UI_SET_KEYBIT, BTN_MIDDLE),
        required(UI_SET_RELBIT, REL_X),
        required(UI_SET_RELBIT, REL_Y),
        required(UI_SET_RELBIT, REL_WHEEL),
        required(UI_SET_RELBIT, REL_HWHEEL),
        required(UI_SET_ABSBIT, ABS_X),
        required(UI_SET_ABSBIT, ABS_Y),
    ]
}

fn need(v: &mut Vec<SetupRequest>, request: u64, argument: u16)
    ensures
        final(v)@ == old(v)@.push(required(request, argument)),
{
    v.push(SetupRequest { request, argument, is_required: true });
}

/// The requests that set up the device, in order.
pub fn setup() -> (v: Vec<SetupRequest>)
    ensures
        v@ == setup_requests(),
{
    let mut v: Vec<SetupRequest> = Vec::new();
    need(&mut v, UI_SET_EVBIT, EV_KEY);
    need(&mut v, UI_SET_EVBIT, EV_REL);
    need(&mut v, UI_SET_EVBIT, EV_ABS);
    need(&mut v, UI_SET_EVBIT, EV_SYN);
    let ghost types = v@;
    let mut k: u16 = 0;
    while k <= KEY_MAX
        invariant
            k <= KEY_MAX + 1,
            types.len() == 4,
            v@ == types + Seq::new(
                k as nat,
                |k: int|
                    SetupRequest { request: UI_SET_KEYBIT, argument: k as u16, is_required: false },
            ),
        decreases KEY_MAX + 1 - k,
    {
        v.push(SetupRequest { request: UI_SET_KEYBIT, argument: k, is_required: false });
        assert(v@ =~= types + Seq::new(
            (k + 1) as nat,
            |k: int|
                SetupRequest { request: UI_SET_KEYBIT, argument: k as u16, is_required: false },
        ));
        k += 1;
    }
    need(&mut v, UI_SET_KEYBIT, BTN_LEFT);
    need(&mut v, UI_SET_KEYBIT, BTN_RIGHT);
    need(&mut v, UI_SET_KEYBIT, BTN_MIDDLE);
    need(&mut v, UI_SET_RELBIT, REL_X);
    need(&mut v, UI_SET_RELBIT, REL_Y);
    need(&mut v, UI_SET_RELBIT, REL_WHEEL);
    need(&mut v, UI_SET_RELBIT, REL_HWHEEL);
    need(&mut v, UI_SET_ABSBIT, ABS_X);
    need(&mut v, UI_SET_ABSBIT, ABS_Y);
    assert(v@ =~= setup_requests());
    v
}

/// Whether the setup enables the event: its type, and its code for that type.
pub open spec fn is_enabled(e: RawEvent) -> bool {
    let requests = setup_requests();
    ||| e.event_type == EV_SYN && e.code == SYN_REPORT
    ||| e.event_type == EV_KEY && exists|i: int|
        0 <= i < requests.len() && (#[trigger] requests[i]).request == UI_SET_KEYBIT
            && requests[i].argument == e.code
    ||| e.event_type == EV_REL && (e.code == REL_X || e.code == REL_Y || e.code == REL_WHEEL
        || e.code == REL_HWHEEL)
    ||| e.event_type == EV_ABS && (e.code == ABS_X || e.code == ABS_Y)
}

/// Every event that is injected was enabled when the device was set up, and a
/// group of events ends with a synchronization.
pub proof fn law_injected_events_are_enabled(e: InputView, v: PointerValues)
    ensures
        forall|i: int| 0 <= i < injected(e, v).len() ==> is_enabled(#[trigger] injected(e, v)[i]),
        injected(e, v).len() > 0 ==> injected(e, v).last() == sync_event(),
{
    let events = injected(e, v);
    assert forall|i: int| 0 <= i < events.len() implies is_enabled(#[trigger] events[i]) by {
        let requests = setup_requests();
        let r = events[i];
        if r.event_type == EV_KEY {
            assert(r.code <= KEY_MAX);
            assert(requests[4 + r.code].request == UI_SET_KEYBIT);
            assert(requests[4 + r.code].argument == r.code);
        }
    }
}

/// Name of the device.
pub open spec fn device_name() -> Seq<u8> {
    seq![
        0x42, 0x72, 0x69, 0x64, 0x67, 0x65, 0x20, 0x56, 0x69, 0x72, 0x74, 0x75, 0x61, 0x6c, 0x20,
        0x49, 0x6e, 0x70, 0x75, 0x74,
    ]
}

/// Zero bytes.
pub open spec fn zeros(n: nat) -> Seq<u8> {
    Seq::new(n, |i: int| 0u8)
}

/// The description of the device in bytes: its name in 80 bytes, its bus, vendor,
/// product and version, no force feedback, and the ranges of 64 axes, upper ends
/// first. Only the first two axes have a range.
pub open spec fn device_description() -> Seq<u8> {
    device_name() + zeros(60) + le_bytes(0x03, 2) + le_bytes(0x1234, 2) + le_bytes(0x5678, 2)
        + le_bytes(1, 2) + zeros(4) + le_bytes(SCREEN_WIDTH as nat, 4) + le_bytes(
        SCREEN_HEIGHT as nat,
        4,
    ) + zeros(1016)
}

fn push_zeros(v: &mut Vec<u8>, n: usize)
    ensures
        final(v)@ == old(v)@ + zeros(n as nat),
{
    let mut z: Vec<u8> = vec![0u8; n];
    assert(z@ =~= zeros(n as nat));
    v.append(&mut z);
}

/// The description of the device in bytes.
pub fn user_device() -> (v: Vec<u8>)
    ensures
        v@ == device_description(),
        v@.len() == 1116,
{
    let mut v: Vec<u8> = vec![
        0x42, 0x72, 0x69, 0x64, 0x67, 0x65, 0x20, 0x56, 0x69, 0x72, 0x74, 0x75, 0x61, 0x6c, 0x20,
        0x49, 0x6e, 0x70, 0x75, 0x74,
    ];
    assert(v@ =~= device_name());
    push_zeros(&mut v, 60);
    v.append(&mut u16_le(0x03));
    v.append(&mut u16_le(0x1234));
    v.append(&mut u16_le(0x5678));
    v.append(&mut u16_le(1));
    push_zeros(&mut v, 4);
    v.append(&mut u32_le(SCREEN_WIDTH));
    v.append(&mut u32_le(SCREEN_HEIGHT));
    push_zeros(&mut v, 1016);
    v
}

/// The value of a key event tells a press from a release: of a key that Linux knows,
/// the event of a press has value 1 and that of a release value 0, both with the
/// key's own code, and nothing but the end of the group follows.
pub proof fn law_keys_go_down_and_up(k: KeyboardEvent, v: PointerValues)
    requires
        linux_keycode(k.key_code) != 0,
    ensures
        ({
            let events = injected(InputView::Keyboard(k), v);
            &&& events.len() == 2
            &&& events[0].event_type == 1
            &&& events[0].code == linux_keycode(k.key_code)
            &&& k.is_pressed ==> events[0].value == 1
            &&& !k.is_pressed ==> events[0].value == 0
            &&& events[1] == (RawEvent { event_type: 0, code: 0, value: 0 })
        }),
{
}

/// A key that Linux does not know is not injected, and neither is a raw report.
pub proof fn law_unknown_input_is_not_injected(e: InputView, v: PointerValues)
    ensures
        e is RawHid ==> injected(e, v).len() == 0,
        e matches InputView::Keyboard(k) ==> linux_keycode(k.key_code) == 0 ==> injected(e, v).len()
            == 0,
{
}

/// Whether a key or button is down after events, if it was before as given.
pub open spec fn is_down_after(events: Seq<RawEvent>, code: u16, before: bool) -> bool
    decreases events.len(),
{
    if events.len() == 0 {
        before
    } else if events.last().event_type == 1 && events.last().code == code {
        events.last().value != 0
    } else {
        is_down_after(events.drop_last(), code, before)
    }
}

/// After an event of a key the key is down exactly if it was pressed, and no other
/// key moves; so a press followed by a release leaves the key up.
pub proof fn law_keys_stay_as_they_were_left(
    k: KeyboardEvent,
    v: PointerValues,
    code: u16,
    before: bool,
)
    requires
        linux_keycode(k.key_code) != 0,
    ensures
        is_down_after(injected(InputView::Keyboard(k), v), code, before) == if code
            == linux_keycode(k.key_code) {
            k.is_pressed
        } else {
            before
        },
{
    reveal_with_fuel(is_down_after, 3);
    let events = injected(InputView::Keyboard(k), v);
    assert(events.drop_last().last() == events[0]);
}

/// After an event of a mouse button the button is down exactly if it was pressed,
/// and no other button or key moves. Button 0 is the left one, 1 the right one, 2
/// the middle one, and further buttons follow.
pub proof fn law_buttons_stay_as_they_were_left(
    b: MouseButtonEvent,
    v: PointerValues,
    code: u16,
    before: bool,
)
    ensures
        is_down_after(injected(InputView::MouseButton(b), v), code, before) == if code == 0x110
            + b.button {
            b.is_pressed
        } else {
            before
        },
        ({
            let events = injected(InputView::MouseButton(b), v);
            &&& events.len() == 2
            &&& events[0].event_type == 1
            &&& events[0].code == 0x110 + b.button
            &&& b.is_pressed ==> events[0].value == 1
            &&& !b.is_pressed ==> events[0].value == 0
            &&& events[1] == (RawEvent { event_type: 0, code: 0, value: 0 })
        }),
{
    reveal_with_fuel(is_down_after, 3);
    let events = injected(InputView::MouseButton(b), v);
    assert(events.drop_last().last() == events[0]);
}

/// A movement goes across by its horizontal value and down by its vertical one: to a
/// place on the absolute axes, or by a distance on the relative ones.
pub proof fn law_movements_keep_their_axes(m: MouseMoveEvent, v: PointerValues)
    ensures
        ({
            let events = injected(InputView::MouseMove(m), v);
            &&& events.len() == 3
            &&& m.is_absolute ==> events[0] == (RawEvent { event_type: 3, code: 0, value: v.x })
                && events[1] == (RawEvent { event_type: 3, code: 1, value: v.y })
            &&& !m.is_absolute ==> events[0] == (RawEvent {
                event_type: 2,
                code: 0,
                value: v.delta_x,
            }) && events[1] == (RawEvent { event_type: 2, code: 1, value: v.delta_y })
            &&& events[2] == (RawEvent { event_type: 0, code: 0, value: 0 })
        }),
{
}

/// A wheel turns by the distance of its own axis, where the magnitude of that
/// distance is a number above a hundredth, and by no other.
pub proof fn law_wheels_keep_their_axes(s: MouseScrollEvent, v: PointerValues)
    ensures
        ({
            let events = injected(InputView::MouseScroll(s), v);
            let low = 0x3F84_7AE1_47AE_147Bu64;
            let high = 0x7FF0_0000_0000_0000u64;
            let down = low < (s.delta_y_bits & 0x7FFF_FFFF_FFFF_FFFF) <= high;
            let across = low < (s.delta_x_bits & 0x7FFF_FFFF_FFFF_FFFF) <= high;
            let vertical = RawEvent { event_type: 2, code: 8, value: v.delta_y };
            let horizontal = RawEvent { event_type: 2, code: 6, value: v.delta_x };
            let end = RawEvent { event_type: 0, code: 0, value: 0 };
            &&& down && across ==> events == seq![vertical, horizontal, end]
            &&& down && !across ==> events == seq![vertical, end]
            &&& !down && across ==> events == seq![horizontal, end]
            &&& !down && !across ==> events == seq![end]
        }),
{
    let events = injected(InputView::MouseScroll(s), v);
    let vertical = RawEvent { event_type: 2, code: 8, value: v.delta_y };
    let horizontal = RawEvent { event_type: 2, code: 6, value: v.delta_x };
    let end = RawEvent { event_type: 0, code: 0, value: 0 };
    assert(events =~= seq![vertical, horizontal, end] || events =~= seq![vertical, end] || events
        =~= seq![horizontal, end] || events =~= seq![end]);
}

/// The kernel finds type, code and value of an event behind a time of sixteen zero
/// bytes.
pub proof fn law_raw_events_have_their_layout(e: RawEvent)
    ensures
        e.encoding().len() == 24,
        forall|i: int| 0 <= i < 16 ==> #[trigger] e.encoding()[i] == 0,
        int_at(e.encoding(), 16, 2) == e.event_type,
        int_at(e.encoding(), 18, 2) == e.code,
        e.value >= 0 ==> int_at(e.encoding(), 20, 4) == e.value,
        e.value < 0 ==> int_at(e.encoding(), 20, 4) == e.value + 0x1_0000_0000,
{
    lemma_pow256_widths();
    let s = e.encoding();
    let value = e.value;
    assert(value >= 0 ==> value as u32 == value) by (bit_vector);
    assert(value < 0 ==> value as u32 == value + 0x1_0000_0000) by (bit_vector);
    assert(s.subrange(16, 18) =~= le_bytes(e.event_type as nat, 2));
    assert(s.subrange(18, 20) =~= le_bytes(e.code as nat, 2));
    assert(s.subrange(20, 24) =~= le_bytes((e.value as u32) as nat, 4));
    lemma_int_read_back(s, 16, e.event_type as nat, 2);
    lemma_int_read_back(s, 18, e.code as nat, 2);
    lemma_int_read_back(s, 20, (e.value as u32) as nat, 4);
}

/// The device can do what is injected: the kinds of events, every key code, the
/// three mouse buttons, and each axis is asked for, and no other request is made.
pub proof fn law_setup_asks_for_all_that_is_needed(request: u64, argument: u16)
    ensures
        (exists|i: int|
            0 <= i < setup_requests().len() && (#[trigger] setup_requests()[i]).request == request
                && setup_requests()[i].argument == argument) <==> {
            ||| request == 0x4004_5564 && argument <= 3
            ||| request == 0x4004_5565 && argument <= 0x2FF
            ||| request == 0x4004_5566 && (argument <= 1 || argument == 8 || argument == 6)
            ||| request == 0x4004_5567 && argument <= 1
        },
{
    let r = setup_requests();
    assert(r.len() == 4 + 768 + 9);
    assert(r[0].argument == 1 && r[1].argument == 2 && r[2].argument == 3 && r[3].argument == 0);
    if request == 0x4004_5564 && argument <= 3 {
        let i = if argument == 0 {
            3int
        } else {
            argument - 1
        };
        assert(r[i].request == request && r[i].argument == argument);
    }
    if request == 0x4004_5565 && argument <= 0x2FF {
        let i = 4 + argument;
        assert(r[i].request == request && r[i].argument == argument);
    }
    if request == 0x4004_5566 && (argument <= 1 || argument == 8 || argument == 6) {
        let i = if argument == 0 {
            775int
        } else if argument == 1 {
            776
        } else if argument == 8 {
            777
        } else {
            778
        };
        assert(r[i].request == request && r[i].argument == argument);
    }
    if request == 0x4004_5567 && argument <= 1 {
        let i = 779 + argument;
        assert(r[i].request == request && r[i].argument == argument);
    }
}

/// What is said of the device: its name, that it is on the USB bus, its vendor, product
/// and version, and that its two axes have the range of the screen and no other axis
/// has one.
pub proof fn law_device_describes_itself()
    ensures
        device_description().len() == 1116,
        int_at(device_description(), 80, 2) == 3,
        int_at(device_description(), 82, 2) == 0x1234,
        int_at(device_description(), 84, 2) == 0x5678,
        int_at(device_description(), 86, 2) == 1,
        int_at(device_description(), 92, 4) == 3840,
        int_at(device_description(), 96, 4) == 2160,
        forall|i: int|
            20 <= i < 80 || 88 <= i < 92 || 100 <= i < 1116 ==> #[trigger] device_description()[i]
                == 0,
{
    lemma_pow256_widths();
    let s = device_description();
    assert(s.subrange(80, 82) =~= le_bytes(0x03, 2));
    lemma_int_read_back(s, 80, 0x03, 2);
    assert(s.subrange(82, 84) =~= le_bytes(0x1234, 2));
    lemma_int_read_back(s, 82, 0x1234, 2);
    assert(s.subrange(84, 86) =~= le_bytes(0x5678, 2));
    lemma_int_read_back(s, 84, 0x5678, 2);
    assert(s.subrange(86, 88) =~= le_bytes(1, 2));
    lemma_int_read_back(s, 86, 1, 2);
    assert(s.subrange(92, 96) =~= le_bytes(3840, 4));
    lemma_int_read_back(s, 92, 3840, 4);
    assert(s.subrange(96, 100) =~= le_bytes(2160, 4));
    lemma_int_read_back(s, 96, 2160, 4);
}

/// What is captured on one machine moves another alike: a key or a button goes down or
/// up as it did there.
pub proof fn law_captured_keys_move_alike(
    t: crate::input::events::CGEventType,
    f: crate::input::capture::TapFields,
    timestamp_us: u64,
    v: PointerValues,
)
    requires
        0 <= f.key_code <= 0xFFFF,
    ensures
        ({
            let down = t == crate::input::events::CGEventType::KeyDown;
            let up = t == crate::input::events::CGEventType::KeyUp;
            let code = linux_keycode(f.key_code as u16);
            (down || up) && code != 0 ==> (crate::input::capture::tapped(
                t,
                f,
                timestamp_us,
            ) matches Some(e) && injected(e@, v)[0].code == code && injected(e@, v)[0].value == (
            if down {
                1int
            } else {
                0
            }))
        }),
{
}

} // verus!
