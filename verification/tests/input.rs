use bridge::error::WireError;
use bridge::input::capture::{
    event_mask, event_tap_callback, flags_to_modifiers, passes_on, tap_options, CaptureConfig,
    InputCapturer, TapFields,
};
use bridge::input::events::{
    cg_event_mask_bit, CGEventSourceStateID, CGEventTapLocation, CGEventTapOptions,
    CGEventTapPlacement, CGEventType, CGMouseButton, CGScrollEventUnit, ALTERNATE, COMMAND, CONTROL,
    SHIFT,
};
use bridge::input::inject::{inject, modifiers_to_flags, Posting, VirtualHidDevice};
use bridge::input::keymap::macos_to_linux_keycode;
use bridge::input::keynames::keycode_to_string;
use bridge::input::uinput::{self, PointerValues, RawEvent};
use bridge::protocol::{
    InputEvent, KeyboardEvent, ModifierFlags, MouseButtonEvent, MouseMoveEvent, MouseScrollEvent,
    RawHidEvent,
};

fn fields() -> TapFields {
    TapFields {
        key_code: 0x24,
        flags: SHIFT,
        x_bits: 1,
        y_bits: 2,
        delta_x_bits: 3,
        delta_y_bits: 4,
        click_state: 2,
        scroll_x_bits: 5,
        scroll_y_bits: 6,
        is_continuous: 1,
    }
}

fn key(key_code: u16, is_pressed: bool) -> InputEvent {
    InputEvent::Keyboard(KeyboardEvent {
        key_code,
        is_pressed,
        modifiers: ModifierFlags::default(),
        timestamp_us: 9,
    })
}

fn values() -> PointerValues {
    PointerValues { x: 10, y: 20, delta_x: -3, delta_y: 4 }
}

fn raw(event_type: u16, code: u16, value: i32) -> RawEvent {
    RawEvent { event_type, code, value }
}

#[test]
fn test_modifiers_to_flags() {
    let mods = ModifierFlags {
        shift: true,
        control: false,
        option: true,
        command: false,
        caps_lock: false,
        fn_key: false,
    };

    let flags = modifiers_to_flags(&mods);
    assert!(flags & SHIFT != 0);
    assert!(flags & ALTERNATE != 0);
    assert!(flags & CONTROL == 0);
    assert!(flags & COMMAND == 0);
}

#[test]
fn test_letter_keys() {
    assert_eq!(macos_to_linux_keycode(0x00), 30);
    assert_eq!(macos_to_linux_keycode(0x01), 31);
    assert_eq!(macos_to_linux_keycode(0x0C), 16);
}

#[test]
fn test_special_keys() {
    assert_eq!(macos_to_linux_keycode(0x24), 28);
    assert_eq!(macos_to_linux_keycode(0x31), 57);
    assert_eq!(macos_to_linux_keycode(0x35), 1);
    assert_eq!(macos_to_linux_keycode(0x33), 14);
}

#[test]
fn test_modifier_keys() {
    assert_eq!(macos_to_linux_keycode(0x37), 125);
    assert_eq!(macos_to_linux_keycode(0x38), 42);
    assert_eq!(macos_to_linux_keycode(0x3B), 29);
}

#[test]
fn test_arrow_keys() {
    assert_eq!(macos_to_linux_keycode(0x7B), 105);
    assert_eq!(macos_to_linux_keycode(0x7E), 103);
}

#[test]
fn test_unknown_returns_zero() {
    assert_eq!(macos_to_linux_keycode(0xFF), 0);
}

#[test]
fn keys_have_names_and_codes_of_their_own() {
    assert_eq!(keycode_to_string(0x00), "A");
    assert_eq!(keycode_to_string(0x7E), "UpArrow");
    assert_eq!(keycode_to_string(0x34), "Unknown");
    for a in 0u16..0x80 {
        assert_eq!(keycode_to_string(a) != "Unknown", macos_to_linux_keycode(a) != 0);
        for b in 0u16..a {
            if keycode_to_string(a) == keycode_to_string(b) {
                assert_eq!(keycode_to_string(a), "Unknown");
            }
        }
    }
}

#[test]
fn modifiers_survive_flags() {
    for n in 0u32..64 {
        let m = ModifierFlags {
            shift: n & 1 != 0,
            control: n & 2 != 0,
            option: n & 4 != 0,
            command: n & 8 != 0,
            caps_lock: n & 16 != 0,
            fn_key: n & 32 != 0,
        };
        assert_eq!(flags_to_modifiers(modifiers_to_flags(&m)), m);
    }
    assert_eq!(modifiers_to_flags(&flags_to_modifiers(0xFFFF_FFFF)), 0x009F_0000);
}

#[test]
fn masks_ask_for_what_is_wanted() {
    let all = CaptureConfig::default();
    assert_eq!(event_mask(&all), 0x0E40_1CFE);
    let keys = CaptureConfig {
        capture_mouse_move: false,
        capture_mouse_buttons: false,
        capture_scroll: false,
        ..all
    };
    assert_eq!(event_mask(&keys), 0x1C00);
    assert_eq!(cg_event_mask_bit(CGEventType::ScrollWheel), 1 << 22);
    assert_eq!(tap_options(&all), CGEventTapOptions::Default);
    assert_eq!(
        tap_options(&CaptureConfig { listen_only: true, ..all }),
        CGEventTapOptions::ListenOnly
    );
}

#[test]
fn events_are_read_off_the_tap() {
    match event_tap_callback(CGEventType::KeyDown, &fields(), 7) {
        Some(InputEvent::Keyboard(k)) => {
            assert_eq!((k.key_code, k.is_pressed, k.timestamp_us), (0x24, true, 7));
            assert!(k.modifiers.shift && !k.modifiers.command);
        }
        other => panic!("{:?}", other),
    }
    let command = TapFields { key_code: 0x37, flags: 0, ..fields() };
    match event_tap_callback(CGEventType::FlagsChanged, &command, 7) {
        Some(InputEvent::Keyboard(k)) => assert!(!k.is_pressed),
        other => panic!("{:?}", other),
    }
    match event_tap_callback(CGEventType::RightMouseUp, &fields(), 7) {
        Some(InputEvent::MouseButton(b)) => {
            assert_eq!((b.button, b.is_pressed, b.click_count), (1, false, 2));
        }
        other => panic!("{:?}", other),
    }
    match event_tap_callback(CGEventType::LeftMouseDragged, &fields(), 7) {
        Some(InputEvent::MouseMove(m)) => {
            assert!(m.is_absolute);
            assert_eq!((m.x_bits, m.y_bits, m.delta_x_bits, m.delta_y_bits), (1, 2, 3, 4));
        }
        other => panic!("{:?}", other),
    }
    match event_tap_callback(CGEventType::ScrollWheel, &fields(), 7) {
        Some(InputEvent::MouseScroll(s)) => {
            assert_eq!((s.delta_x_bits, s.delta_y_bits, s.is_continuous), (5, 6, true));
        }
        other => panic!("{:?}", other),
    }
    assert!(event_tap_callback(CGEventType::Null, &fields(), 7).is_none());
}

#[test]
fn capturer_queues_events_in_order() {
    let mut c = InputCapturer::new(CaptureConfig::default()).unwrap();
    assert!(c.start(false).err().unwrap().message().contains("Accessibility permission required"));
    assert!(!c.is_running());
    assert!(c.start(true).unwrap());
    assert!(!c.start(false).unwrap());
    assert!(c.is_running());
    for i in 0..300 {
        c.accept_event(CGEventType::KeyDown, &TapFields { key_code: i, ..fields() }, 0);
        c.accept_event(CGEventType::Null, &fields(), 0);
    }
    let mut count = 0;
    while let Some(e) = c.recv_event() {
        match e {
            InputEvent::Keyboard(k) => assert_eq!(k.key_code, count),
            other => panic!("{:?}", other),
        }
        count += 1;
    }
    assert_eq!(count, 256);
    assert!(c.stop());
    assert!(!c.stop());
}

#[test]
fn captured_events_are_held_back() {
    let blocking = CaptureConfig::default();
    let listening = CaptureConfig { listen_only: true, ..blocking };
    assert!(!passes_on(&blocking));
    assert!(passes_on(&listening));
    let mut c = InputCapturer::new(blocking).unwrap();
    assert!(!c.accept_event(CGEventType::KeyDown, &fields(), 0));
    assert!(!c.accept_event(CGEventType::MouseMoved, &fields(), 0));
    assert!(c.accept_event(CGEventType::TapDisabledByTimeout, &fields(), 0));
    let mut c = InputCapturer::new(listening).unwrap();
    assert!(c.accept_event(CGEventType::KeyDown, &fields(), 0));
    assert!(c.recv_event().is_some());
}

#[test]
fn events_survive_the_wire() {
    let events = vec![
        key(0x1234, true),
        InputEvent::MouseMove(MouseMoveEvent {
            x_bits: 0.5f64.to_bits(),
            y_bits: 0.25f64.to_bits(),
            delta_x_bits: (-1.5f64).to_bits(),
            delta_y_bits: 0,
            is_absolute: true,
            timestamp_us: 3,
        }),
        InputEvent::MouseButton(MouseButtonEvent {
            button: 1,
            is_pressed: true,
            click_count: 2,
            timestamp_us: 4,
        }),
        InputEvent::MouseScroll(MouseScrollEvent {
            delta_x_bits: 1,
            delta_y_bits: 2,
            is_continuous: false,
            timestamp_us: 5,
        }),
        InputEvent::RawHid(RawHidEvent {
            vendor_id: 1,
            product_id: 2,
            report_id: 3,
            data: vec![9, 8, 7],
            timestamp_us: 6,
        }),
    ];
    for e in events {
        let mut bytes = e.to_bytes().unwrap();
        let text = format!("{:?}", e);
        assert_eq!(format!("{:?}", InputEvent::from_bytes(&bytes).unwrap()), text);
        bytes.push(0xEE);
        assert_eq!(format!("{:?}", InputEvent::from_bytes(&bytes).unwrap()), text);
        assert_eq!(
            InputEvent::from_bytes(&bytes[..bytes.len() - 2]).err(),
            Some(WireError::UnexpectedEnd)
        );
    }
}

#[test]
fn encoded_events_have_known_bytes() {
    let bytes = key(0x0102, true).to_bytes().unwrap();
    assert_eq!(
        bytes,
        vec![0, 0, 0, 0, 2, 1, 1, 0, 0, 0, 0, 0, 0, 9, 0, 0, 0, 0, 0, 0, 0]
    );
    let hid = InputEvent::RawHid(RawHidEvent {
        vendor_id: 1,
        product_id: 2,
        report_id: 3,
        data: vec![7, 8],
        timestamp_us: 6,
    });
    assert_eq!(
        hid.to_bytes().unwrap(),
        vec![4, 0, 0, 0, 1, 0, 2, 0, 3, 2, 0, 0, 0, 0, 0, 0, 0, 7, 8, 6, 0, 0, 0, 0, 0, 0, 0]
    );
    assert_eq!(
        InputEvent::from_bytes(&[5, 0, 0, 0]).err(),
        Some(WireError::InvalidVariant(5, 5))
    );
    assert_eq!(
        InputEvent::from_bytes(&[0, 0, 0, 0, 1, 0, 7]).err(),
        Some(WireError::InvalidBool(7))
    );
}

#[test]
fn events_are_posted() {
    assert_eq!(
        inject(&key(4, true)),
        Posting::Key { key_code: 4, is_pressed: true, flags: 0 }
    );
    let button = MouseButtonEvent { button: 3, is_pressed: false, click_count: 1, timestamp_us: 0 };
    assert_eq!(
        inject(&InputEvent::MouseButton(button)),
        Posting::Button {
            event_type: CGEventType::OtherMouseUp,
            button: CGMouseButton::Center,
            click_count: 1,
        }
    );
    let scroll =
        MouseScrollEvent { delta_x_bits: 1, delta_y_bits: 2, is_continuous: true, timestamp_us: 0 };
    assert_eq!(
        inject(&InputEvent::MouseScroll(scroll)),
        Posting::Scroll { unit: CGScrollEventUnit::Pixel, delta_x_bits: 1, delta_y_bits: 2 }
    );
    assert!(VirtualHidDevice::new()
        .err()
        .unwrap()
        .message()
        .starts_with("Input error: DriverKit virtual HID not implemented. Requires"));
}

#[test]
fn events_are_injected_through_uinput() {
    assert_eq!(
        uinput::inject(&key(0x00, true), &values()),
        vec![raw(1, 30, 1), raw(0, 0, 0)]
    );
    assert!(uinput::inject(&key(0xFF, true), &values()).is_empty());
    let button = MouseButtonEvent { button: 5, is_pressed: true, click_count: 1, timestamp_us: 0 };
    assert_eq!(
        uinput::inject(&InputEvent::MouseButton(button), &values()),
        vec![raw(1, 0x115, 1), raw(0, 0, 0)]
    );
    let mut movement = MouseMoveEvent {
        x_bits: 0,
        y_bits: 0,
        delta_x_bits: 0,
        delta_y_bits: 0,
        is_absolute: true,
        timestamp_us: 0,
    };
    assert_eq!(
        uinput::inject(&InputEvent::MouseMove(movement), &values()),
        vec![raw(3, 0, 10), raw(3, 1, 20), raw(0, 0, 0)]
    );
    movement.is_absolute = false;
    assert_eq!(
        uinput::inject(&InputEvent::MouseMove(movement), &values()),
        vec![raw(2, 0, -3), raw(2, 1, 4), raw(0, 0, 0)]
    );
}

#[test]
fn small_scroll_distances_are_ignored() {
    let scroll = |x: f64, y: f64| {
        InputEvent::MouseScroll(MouseScrollEvent {
            delta_x_bits: x.to_bits(),
            delta_y_bits: y.to_bits(),
            is_continuous: true,
            timestamp_us: 0,
        })
    };
    assert_eq!(uinput::inject(&scroll(0.01, -0.01), &values()), vec![raw(0, 0, 0)]);
    assert_eq!(uinput::inject(&scroll(f64::NAN, 0.0), &values()), vec![raw(0, 0, 0)]);
    assert_eq!(
        uinput::inject(&scroll(-0.011, 3.0), &values()),
        vec![raw(2, 8, 4), raw(2, 6, -3), raw(0, 0, 0)]
    );
}

#[test]
fn raw_events_have_known_bytes() {
    assert_eq!(
        raw(1, 0x110, -1).to_bytes(),
        vec![
            0, 0, 0, 0, 0, 0, 0, 0, 0, 0, 0, 0, 0, 0, 0, 0, 1, 0, 0x10, 1, 0xFF, 0xFF, 0xFF, 0xFF
        ]
    );
}

#[test]
fn device_setup_is_complete() {
    let requests = uinput::setup();
    assert_eq!(requests.len(), 4 + 0x300 + 9);
    assert_eq!(requests[0].name(), "UI_SET_EVBIT EV_KEY");
    assert_eq!(requests[3].name(), "UI_SET_EVBIT EV_SYN");
    assert_eq!(requests[4 + 0x300].name(), "BTN_LEFT");
    assert_eq!(requests[4 + 0x306].name(), "REL_HWHEEL");
    assert_eq!(requests[4 + 0x308].name(), "ABS_Y");
    assert!(requests[0].is_required && !requests[4].is_required);
    let device = uinput::user_device();
    assert_eq!(device.len(), 80 + 8 + 4 + 4 * 64 * 4);
    assert_eq!(&device[..6], b"Bridge");
    assert_eq!(&device[80..88], &[3, 0, 0x34, 0x12, 0x78, 0x56, 1, 0]);
    assert_eq!(&device[92..100], &[0, 15, 0, 0, 0x70, 8, 0, 0]);
}

#[test]
fn event_kinds_have_their_numbers() {
    assert_eq!(CGEventType::from_code(10), CGEventType::KeyDown);
    assert_eq!(CGEventType::from_code(0xFFFF_FFFE), CGEventType::TapDisabledByTimeout);
    assert_eq!(CGEventType::from_code(0), CGEventType::Null);
    assert_eq!(CGEventType::from_code(8), CGEventType::Null);
    for n in [1, 2, 3, 4, 5, 6, 7, 10, 11, 12, 22, 23, 24, 25, 26, 27, 0xFFFF_FFFF] {
        assert_eq!(CGEventType::from_code(n).code(), n);
    }
    assert_eq!(CGEventTapLocation::AnnotatedSessionEventTap.code(), 2);
    assert_eq!(CGEventTapPlacement::TailAppendEventTap.code(), 1);
    assert_eq!(CGEventTapOptions::ListenOnly.code(), 1);
    assert_eq!(CGEventSourceStateID::Private.code(), -1);
    assert_eq!(CGMouseButton::Center.code(), 2);
    assert_eq!(CGScrollEventUnit::Line.code(), 1);
}
