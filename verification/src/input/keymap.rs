//! Key codes of macOS, by which keys travel, as input event codes of Linux.
use vstd::prelude::*;

verus! {

/// Code that Linux reserves: it stands for no key.
pub const KEY_RESERVED: u16 = 0;

/// The Linux code of a key; `KEY_RESERVED` for a code that is not known.
pub open spec fn linux_keycode(macos_code: u16) -> u16 {
    match macos_code {
        // Letters
        0x00 => 30,  // A
        0x01 => 31,  // S
        0x02 => 32,  // D
        0x03 => 33,  // F
        0x04 => 35,  // H
        0x05 => 34,  // G
        0x06 => 44,  // Z
        0x07 => 45,  // X
        0x08 => 46,  // C
        0x09 => 47,  // V
        0x0B => 48,  // B
        0x0C => 16,  // Q
        0x0D => 17,  // W
        0x0E => 18,  // E
        0x0F => 19,  // R
        0x10 => 21,  // Y
        0x11 => 20,  // T
        0x1F => 24,  // O
        0x20 => 22,  // U
        0x22 => 23,  // I
        0x23 => 25,  // P
        0x25 => 38,  // L
        0x26 => 36,  // J
        0x28 => 37,  // K
        0x2D => 49,  // N
        0x2E => 50,  // M
        // Numbers
        0x12 => 2,  // 1
        0x13 => 3,  // 2
        0x14 => 4,  // 3
        0x15 => 5,  // 4
        0x17 => 6,  // 5
        0x16 => 7,  // 6
        0x1A => 8,  // 7
        0x1C => 9,  // 8
        0x19 => 10,  // 9
        0x1D => 11,  // 0
        // Punctuation
        0x18 => 13,  // =
        0x1B => 12,  // -
        0x1E => 27,  // ]
        0x21 => 26,  // [
        0x27 => 40,  // '
        0x29 => 39,  // ;
        0x2A => 43,  // \
        0x2B => 51,  // ,
        0x2C => 53,  // /
        0x2F => 52,  // .
        0x32 => 41,  // `
        // Special keys
        0x24 => 28,  // Return
        0x30 => 15,  // Tab
        0x31 => 57,  // Space
        0x33 => 14,  // Delete
        0x35 => 1,  // Escape
        // Modifiers
        0x37 => 125,  // Command
        0x36 => 126,  // RightCommand
        0x38 => 42,  // Shift
        0x3C => 54,  // RightShift
        0x39 => 58,  // CapsLock
        0x3A => 56,  // Option
        0x3D => 100,  // RightOption
        0x3B => 29,  // Control
        0x3E => 97,  // RightControl
        0x3F => 464,  // Function
        // Function keys
        0x7A => 59,  // F1
        0x78 => 60,  // F2
        0x63 => 61,  // F3
        0x76 => 62,  // F4
        0x60 => 63,  // F5
        0x61 => 64,  // F6
        0x62 => 65,  // F7
        0x64 => 66,  // F8
        0x65 => 67,  // F9
        0x6D => 68,  // F10
        0x67 => 87,  // F11
        0x6F => 88,  // F12
        // Arrow keys
        0x7B => 105,  // Left
        0x7C => 106,  // Right
        0x7D => 108,  // Down
        0x7E => 103,  // Up
        _ => KEY_RESERVED,
    }
}

/// The macOS code of a key that has a Linux code.
pub open spec fn macos_keycode(linux_code: u16) -> u16 {
    match linux_code {
        30 => 0x00,
        31 => 0x01,
        32 => 0x02,
        33 => 0x03,
        35 => 0x04,
        34 => 0x05,
        44 => 0x06,
        45 => 0x07,
        46 => 0x08,
        47 => 0x09,
        48 => 0x0B,
        16 => 0x0C,
        17 => 0x0D,
        18 => 0x0E,
        19 => 0x0F,
        21 => 0x10,
        20 => 0x11,
        24 => 0x1F,
        22 => 0x20,
        23 => 0x22,
        25 => 0x23,
        38 => 0x25,
        36 => 0x26,
        37 => 0x28,
        49 => 0x2D,
        50 => 0x2E,
        2 => 0x12,
        3 => 0x13,
        4 => 0x14,
        5 => 0x15,
        6 => 0x17,
        7 => 0x16,
        8 => 0x1A,
        9 => 0x1C,
        10 => 0x19,
        11 => 0x1D,
        13 => 0x18,
        12 => 0x1B,
        27 => 0x1E,
        26 => 0x21,
        40 => 0x27,
        39 => 0x29,
        43 => 0x2A,
        51 => 0x2B,
        53 => 0x2C,
        52 => 0x2F,
        41 => 0x32,
        28 => 0x24,
        15 => 0x30,
        57 => 0x31,
        14 => 0x33,
        1 => 0x35,
        125 => 0x37,
        126 => 0x36,
        42 => 0x38,
        54 => 0x3C,
        58 => 0x39,
        56 => 0x3A,
        100 => 0x3D,
        29 => 0x3B,
        97 => 0x3E,
        464 => 0x3F,
        59 => 0x7A,
        60 => 0x78,
        61 => 0x63,
        62 => 0x76,
        63 => 0x60,
        64 => 0x61,
        65 => 0x62,
        66 => 0x64,
        67 => 0x65,
        68 => 0x6D,
        87 => 0x67,
        88 => 0x6F,
        105 => 0x7B,
        106 => 0x7C,
        108 => 0x7D,
        103 => 0x7E,
        _ => 0xFFFF,
    }
}

/// Convert macOS virtual keycode to Linux input event code.
pub fn macos_to_linux_keycode(macos_code: u16) -> (code: u16)
    ensures
        code == linux_keycode(macos_code),
{
    match macos_code {
        0x00 => 30,
        0x01 => 31,
        0x02 => 32,
        0x03 => 33,
        0x04 => 35,
        0x05 => 34,
        0x06 => 44,
        0x07 => 45,
        0x08 => 46,
        0x09 => 47,
        0x0B => 48,
        0x0C => 16,
        0x0D => 17,
        0x0E => 18,
        0x0F => 19,
        0x10 => 21,
        0x11 => 20,
        0x1F => 24,
        0x20 => 22,
        0x22 => 23,
        0x23 => 25,
        0x25 => 38,
        0x26 => 36,
        0x28 => 37,
        0x2D => 49,
        0x2E => 50,
        0x12 => 2,
        0x13 => 3,
        0x14 => 4,
        0x15 => 5,
        0x17 => 6,
        0x16 => 7,
        0x1A => 8,
        0x1C => 9,
        0x19 => 10,
        0x1D => 11,
        0x18 => 13,
        0x1B => 12,
        0x1E => 27,
        0x21 => 26,
        0x27 => 40,
        0x29 => 39,
        0x2A => 43,
        0x2B => 51,
        0x2C => 53,
        0x2F => 52,
        0x32 => 41,
        0x24 => 28,
        0x30 => 15,
        0x31 => 57,
        0x33 => 14,
        0x35 => 1,
        0x37 => 125,
        0x36 => 126,
        0x38 => 42,
        0x3C => 54,
        0x39 => 58,
        0x3A => 56,
        0x3D => 100,
        0x3B => 29,
        0x3E => 97,
        0x3F => 464,
        0x7A => 59,
        0x78 => 60,
        0x63 => 61,
        0x76 => 62,
        0x60 => 63,
        0x61 => 64,
        0x62 => 65,
        0x64 => 66,
        0x65 => 67,
        0x6D => 68,
        0x67 => 87,
        0x6F => 88,
        0x7B => 105,
        0x7C => 106,
        0x7D => 108,
        0x7E => 103,
        _ => KEY_RESERVED,
    }
}

/// A key that is known is told from its Linux code: no two keys share one.
pub proof fn law_known_keys_have_their_own_codes(a: u16, b: u16)
    requires
        linux_keycode(a) != KEY_RESERVED,
        linux_keycode(a) == linux_keycode(b),
    ensures
        a == b,
{
    assert(macos_keycode(linux_keycode(a)) == a);
    assert(macos_keycode(linux_keycode(b)) == b);
}

} // verus!
