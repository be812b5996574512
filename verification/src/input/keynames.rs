//! Names of keys.
use crate::input::keymap::{linux_keycode, KEY_RESERVED};
use vstd::prelude::*;

verus! {

/// A number that no key has.
const NO_KEY: u16 = 0xFFFF;

/// Whether a key code is known.
pub open spec fn is_known_key(keycode: u16) -> bool {
    ||| keycode <= 0x33 && keycode != 0x0A && keycode != 0x34
    ||| 0x35 <= keycode <= 0x3F
    ||| 0x60 <= keycode <= 0x65
    ||| keycode == 0x67
    ||| keycode == 0x6D
    ||| keycode == 0x6F
    ||| keycode == 0x76
    ||| keycode == 0x78
    ||| keycode == 0x7A
    ||| 0x7B <= keycode <= 0x7E
}

/// The name of a key.
pub open spec fn key_name(keycode: u16) -> Seq<char> {
    match keycode {
        0x00 => "A"@,
        0x01 => "S"@,
        0x02 => "D"@,
        0x03 => "F"@,
        0x04 => "H"@,
        0x05 => "G"@,
        0x06 => "Z"@,
        0x07 => "X"@,
        0x08 => "C"@,
        0x09 => "V"@,
        0x0B => "B"@,
        0x0C => "Q"@,
        0x0D => "W"@,
        0x0E => "E"@,
        0x0F => "R"@,
        0x10 => "Y"@,
        0x11 => "T"@,
        0x12 => "1"@,
        0x13 => "2"@,
        0x14 => "3"@,
        0x15 => "4"@,
        0x16 => "6"@,
        0x17 => "5"@,
        0x18 => "="@,
        0x19 => "9"@,
        0x1A => "7"@,
        0x1B => "-"@,
        0x1C => "8"@,
        0x1D => "0"@,
        0x1E => "]"@,
        0x1F => "O"@,
        0x20 => "U"@,
        0x21 => "["@,
        0x22 => "I"@,
        0x23 => "P"@,
        0x24 => "Return"@,
        0x25 => "L"@,
        0x26 => "J"@,
        0x27 => "'"@,
        0x28 => "K"@,
        0x29 => ";"@,
        0x2A => "\\"@,
        0x2B => ","@,
        0x2C => "/"@,
        0x2D => "N"@,
        0x2E => "M"@,
        0x2F => "."@,
        0x30 => "Tab"@,
        0x31 => "Space"@,
        0x32 => "`"@,
        0x33 => "Delete"@,
        0x35 => "Escape"@,
        0x36 => "RightCommand"@,
        0x37 => "Command"@,
        0x38 => "Shift"@,
        0x39 => "CapsLock"@,
        0x3A => "Option"@,
        0x3B => "Control"@,
        0x3C => "RightShift"@,
        0x3D => "RightOption"@,
        0x3E => "RightControl"@,
        0x3F => "Function"@,
        0x7A => "F1"@,
        0x78 => "F2"@,
        0x63 => "F3"@,
        0x76 => "F4"@,
        0x60 => "F5"@,
        0x61 => "F6"@,
        0x62 => "F7"@,
        0x64 => "F8"@,
        0x65 => "F9"@,
        0x6D => "F10"@,
        0x67 => "F11"@,
        0x6F => "F12"@,
        0x7B => "LeftArrow"@,
        0x7C => "RightArrow"@,
        0x7D => "DownArrow"@,
        0x7E => "UpArrow"@,
        _ => "Unknown"@,
    }
}

/// Convert macOS key code to a string representation (for debugging).
pub fn keycode_to_string(keycode: u16) -> (s: &'static str)
    ensures
        s@ == key_name(keycode),
{
    match keycode {
        0x00 => "A",
        0x01 => "S",
        0x02 => "D",
        0x03 => "F",
        0x04 => "H",
        0x05 => "G",
        0x06 => "Z",
        0x07 => "X",
        0x08 => "C",
        0x09 => "V",
        0x0B => "B",
        0x0C => "Q",
        0x0D => "W",
        0x0E => "E",
        0x0F => "R",
        0x10 => "Y",
        0x11 => "T",
        0x12 => "1",
        0x13 => "2",
        0x14 => "3",
        0x15 => "4",
        0x16 => "6",
        0x17 => "5",
        0x18 => "=",
        0x19 => "9",
        0x1A => "7",
        0x1B => "-",
        0x1C => "8",
        0x1D => "0",
        0x1E => "]",
        0x1F => "O",
        0x20 => "U",
        0x21 => "[",
        0x22 => "I",
        0x23 => "P",
        0x24 => "Return",
        0x25 => "L",
        0x26 => "J",
        0x27 => "'",
        0x28 => "K",
        0x29 => ";",
        0x2A => "\\",
        0x2B => ",",
        0x2C => "/",
        0x2D => "N",
        0x2E => "M",
        0x2F => ".",
        0x30 => "Tab",
        0x31 => "Space",
        0x32 => "`",
        0x33 => "Delete",
        0x35 => "Escape",
        0x36 => "RightCommand",
        0x37 => "Command",
        0x38 => "Shift",
        0x39 => "CapsLock",
        0x3A => "Option",
        0x3B => "Control",
        0x3C => "RightShift",
        0x3D => "RightOption",
        0x3E => "RightControl",
        0x3F => "Function",
        0x7A => "F1",
        0x78 => "F2",
        0x63 => "F3",
        0x76 => "F4",
        0x60 => "F5",
        0x61 => "F6",
        0x62 => "F7",
        0x64 => "F8",
        0x65 => "F9",
        0x6D => "F10",
        0x67 => "F11",
        0x6F => "F12",
        0x7B => "LeftArrow",
        0x7C => "RightArrow",
        0x7D => "DownArrow",
        0x7E => "UpArrow",
        _ => "Unknown",
    }
}

/// The key that a name stands for, told by the name's length and one of its
/// characters; no key is numbered `NO_KEY`.
spec fn key_named(name: Seq<char>) -> u16 {
    if name.len() == 1 {
        match name[0] {
            'A' => 0x00,
            'S' => 0x01,
            'D' => 0x02,
            'F' => 0x03,
            'H' => 0x04,
            'G' => 0x05,
            'Z' => 0x06,
            'X' => 0x07,
            'C' => 0x08,
            'V' => 0x09,
            'B' => 0x0B,
            'Q' => 0x0C,
            'W' => 0x0D,
            'E' => 0x0E,
            'R' => 0x0F,
            'Y' => 0x10,
            'T' => 0x11,
            '1' => 0x12,
            '2' => 0x13,
            '3' => 0x14,
            '4' => 0x15,
            '6' => 0x16,
            '5' => 0x17,
            '=' => 0x18,
            '9' => 0x19,
            '7' => 0x1A,
            '-' => 0x1B,
            '8' => 0x1C,
            '0' => 0x1D,
            ']' => 0x1E,
            'O' => 0x1F,
            'U' => 0x20,
            '[' => 0x21,
            'I' => 0x22,
            'P' => 0x23,
            'L' => 0x25,
            'J' => 0x26,
            '\'' => 0x27,
            'K' => 0x28,
            ';' => 0x29,
            '\\' => 0x2A,
            ',' => 0x2B,
            '/' => 0x2C,
            'N' => 0x2D,
            'M' => 0x2E,
            '.' => 0x2F,
            '`' => 0x32,
            _ => NO_KEY,
        }
    } else if name.len() == 2 {
        match name[1] {
            '1' => 0x7A,
            '2' => 0x78,
            '3' => 0x63,
            '4' => 0x76,
            '5' => 0x60,
            '6' => 0x61,
            '7' => 0x62,
            '8' => 0x64,
            '9' => 0x65,
            _ => NO_KEY,
        }
    } else if name.len() == 3 {
        match name[2] {
            'b' => 0x30,
            '0' => 0x6D,
            '1' => 0x67,
            '2' => 0x6F,
            _ => NO_KEY,
        }
    } else if name.len() == 5 {
        match name[1] {
            'p' => 0x31,
            'h' => 0x38,
            _ => NO_KEY,
        }
    } else if name.len() == 6 {
        match name[0] {
            'R' => 0x24,
            'D' => 0x33,
            'E' => 0x35,
            'O' => 0x3A,
            _ => NO_KEY,
        }
    } else if name.len() == 7 {
        match name[2] {
            'm' => 0x37,
            'n' => 0x3B,
            'A' => 0x7E,
            _ => NO_KEY,
        }
    } else if name.len() == 8 {
        match name[0] {
            'C' => 0x39,
            'F' => 0x3F,
            _ => NO_KEY,
        }
    } else if name.len() == 9 {
        match name[0] {
            'L' => 0x7B,
            'D' => 0x7D,
            _ => NO_KEY,
        }
    } else if name.len() == 10 {
        match name[5] {
            'S' => 0x3C,
            'A' => 0x7C,
            _ => NO_KEY,
        }
    } else if name.len() == 11 {
        0x3D
    } else if name.len() == 12 {
        match name[7] {
            'm' => 0x36,
            'n' => 0x3E,
            _ => NO_KEY,
        }
    } else {
        NO_KEY
    }
}

/// A known key is the one that its name stands for.
proof fn lemma_key_of_its_name(keycode: u16)
    requires
        is_known_key(keycode),
    ensures
        key_named(key_name(keycode)) == keycode,
{
    match keycode {
        0x00 => {
            reveal_strlit("A");
        },
        0x01 => {
            reveal_strlit("S");
        },
        0x02 => {
            reveal_strlit("D");
        },
        0x03 => {
            reveal_strlit("F");
        },
        0x04 => {
            reveal_strlit("H");
        },
        0x05 => {
            reveal_strlit("G");
        },
        0x06 => {
            reveal_strlit("Z");
        },
        0x07 => {
            reveal_strlit("X");
        },
        0x08 => {
            reveal_strlit("C");
        },
        0x09 => {
            reveal_strlit("V");
        },
        0x0B => {
            reveal_strlit("B");
        },
        0x0C => {
            reveal_strlit("Q");
        },
        0x0D => {
            reveal_strlit("W");
        },
        0x0E => {
            reveal_strlit("E");
        },
        0x0F => {
            reveal_strlit("R");
        },
        0x10 => {
            reveal_strlit("Y");
        },
        0x11 => {
            reveal_strlit("T");
        },
        0x12 => {
            reveal_strlit("1");
        },
        0x13 => {
            reveal_strlit("2");
        },
        0x14 => {
            reveal_strlit("3");
        },
        0x15 => {
            reveal_strlit("4");
        },
        0x16 => {
            reveal_strlit("6");
        },
        0x17 => {
            reveal_strlit("5");
        },
        0x18 => {
            reveal_strlit("=");
        },
        0x19 => {
            reveal_strlit("9");
        },
        0x1A => {
            reveal_strlit("7");
        },
        0x1B => {
            reveal_strlit("-");
        },
        0x1C => {
            reveal_strlit("8");
        },
        0x1D => {
            reveal_strlit("0");
        },
        0x1E => {
            reveal_strlit("]");
        },
        0x1F => {
            reveal_strlit("O");
        },
        0x20 => {
            reveal_strlit("U");
        },
        0x21 => {
            reveal_strlit("[");
        },
        0x22 => {
            reveal_strlit("I");
        },
        0x23 => {
            reveal_strlit("P");
        },
        0x24 => {
            reveal_strlit("Return");
        },
        0x25 => {
            reveal_strlit("L");
        },
        0x26 => {
            reveal_strlit("J");
        },
        0x27 => {
            reveal_strlit("'");
        },
        0x28 => {
            reveal_strlit("K");
        },
        0x29 => {
            reveal_strlit(";");
        },
        0x2A => {
            reveal_strlit("\\");
        },
        0x2B => {
            reveal_strlit(",");
        },
        0x2C => {
            reveal_strlit("/");
        },
        0x2D => {
            reveal_strlit("N");
        },
        0x2E => {
            reveal_strlit("M");
        },
        0x2F => {
            reveal_strlit(".");
        },
        0x30 => {
            reveal_strlit("Tab");
        },
        0x31 => {
            reveal_strlit("Space");
        },
        0x32 => {
            reveal_strlit("`");
        },
        0x33 => {
            reveal_strlit("Delete");
        },
        0x35 => {
            reveal_strlit("Escape");
        },
        0x36 => {
            reveal_strlit("RightCommand");
        },
        0x37 => {
            reveal_strlit("Command");
        },
        0x38 => {
            reveal_strlit("Shift");
        },
        0x39 => {
            reveal_strlit("CapsLock");
        },
        0x3A => {
            reveal_strlit("Option");
        },
        0x3B => {
            reveal_strlit("Control");
        },
        0x3C => {
            reveal_strlit("RightShift");
        },
        0x3D => {
            reveal_strlit("RightOption");
        },
        0x3E => {
            reveal_strlit("RightControl");
        },
        0x3F => {
            reveal_strlit("Function");
        },
        0x7A => {
            reveal_strlit("F1");
        },
        0x78 => {
            reveal_strlit("F2");
        },
        0x63 => {
            reveal_strlit("F3");
        },
        0x76 => {
            reveal_strlit("F4");
        },
        0x60 => {
            reveal_strlit("F5");
        },
        0x61 => {
            reveal_strlit("F6");
        },
        0x62 => {
            reveal_strlit("F7");
        },
        0x64 => {
            reveal_strlit("F8");
        },
        0x65 => {
            reveal_strlit("F9");
        },
        0x6D => {
            reveal_strlit("F10");
        },
        0x67 => {
            reveal_strlit("F11");
        },
        0x6F => {
            reveal_strlit("F12");
        },
        0x7B => {
            reveal_strlit("LeftArrow");
        },
        0x7C => {
            reveal_strlit("RightArrow");
        },
        0x7D => {
            reveal_strlit("DownArrow");
        },
        0x7E => {
            reveal_strlit("UpArrow");
        },
        _ => {},
    }
}

/// The keys that have a name are those that have a Linux code; any other is
/// `Unknown`, and none of the named ones is called that.
pub proof fn law_named_keys_can_be_injected(keycode: u16)
    ensures
        is_known_key(keycode) <==> linux_keycode(keycode) != KEY_RESERVED,
        is_known_key(keycode) <==> key_name(keycode) != "Unknown"@,
{
    reveal_strlit("Unknown");
    if is_known_key(keycode) {
        lemma_key_of_its_name(keycode);
        assert(key_named("Unknown"@) == NO_KEY);
    }
}

/// No two known keys have the same name.
pub proof fn law_key_names_are_unique(a: u16, b: u16)
    requires
        is_known_key(a),
        is_known_key(b),
        key_name(a) == key_name(b),
    ensures
        a == b,
{
    lemma_key_of_its_name(a);
    lemma_key_of_its_name(b);
}

/// Linux numbers the keys of a row from left to right: the key that is named by a
/// character has the code of its place in the rows of the keyboard.
pub proof fn law_typing_keys_keep_their_place(keycode: u16, i: int)
    requires
        is_known_key(keycode),
    ensures
        0 <= i < 12 && key_name(keycode) == seq!["1234567890-="@[i]] ==> linux_keycode(keycode) == 2 + i,
        0 <= i < 12 && key_name(keycode) == seq!["QWERTYUIOP[]"@[i]] ==> linux_keycode(keycode) == 16 + i,
        0 <= i < 11 && key_name(keycode) == seq!["ASDFGHJKL;'"@[i]] ==> linux_keycode(keycode) == 30 + i,
        0 <= i < 10 && key_name(keycode) == seq!["ZXCVBNM,./"@[i]] ==> linux_keycode(keycode) == 44 + i,
{
    lemma_key_of_its_name(keycode);
    reveal_strlit("1234567890-=");
    reveal_strlit("QWERTYUIOP[]");
    reveal_strlit("ASDFGHJKL;'");
    reveal_strlit("ZXCVBNM,./");
    if 0 <= i < 12 && key_name(keycode) == seq!["1234567890-="@[i]] {
        assert(key_name(keycode)[0] == "1234567890-="@[i]);
        if i == 0 {
            assert(key_name(keycode)[0] == '1');
        }
        if i == 1 {
            assert(key_name(keycode)[0] == '2');
        }
        if i == 2 {
            assert(key_name(keycode)[0] == '3');
        }
        if i == 3 {
            assert(key_name(keycode)[0] == '4');
        }
        if i == 4 {
            assert(key_name(keycode)[0] == '5');
        }
        if i == 5 {
            assert(key_name(keycode)[0] == '6');
        }
        if i == 6 {
            assert(key_name(keycode)[0] == '7');
        }
        if i == 7 {
            assert(key_name(keycode)[0] == '8');
        }
        if i == 8 {
            assert(key_name(keycode)[0] == '9');
        }
        if i == 9 {
            assert(key_name(keycode)[0] == '0');
        }
        if i == 10 {
            assert(key_name(keycode)[0] == '-');
        }
        if i == 11 {
            assert(key_name(keycode)[0] == '=');
        }
    }
    if 0 <= i < 12 && key_name(keycode) == seq!["QWERTYUIOP[]"@[i]] {
        assert(key_name(keycode)[0] == "QWERTYUIOP[]"@[i]);
        if i == 0 {
            assert(key_name(keycode)[0] == 'Q');
        }
        if i == 1 {
            assert(key_name(keycode)[0] == 'W');
        }
        if i == 2 {
            assert(key_name(keycode)[0] == 'E');
        }
        if i == 3 {
            assert(key_name(keycode)[0] == 'R');
        }
        if i == 4 {
            assert(key_name(keycode)[0] == 'T');
        }
        if i == 5 {
            assert(key_name(keycode)[0] == 'Y');
        }
        if i == 6 {
            assert(key_name(keycode)[0] == 'U');
        }
        if i == 7 {
            assert(key_name(keycode)[0] == 'I');
        }
        if i == 8 {
            assert(key_name(keycode)[0] == 'O');
        }
        if i == 9 {
            assert(key_name(keycode)[0] == 'P');
        }
        if i == 10 {
            assert(key_name(keycode)[0] == '[');
        }
        if i == 11 {
            assert(key_name(keycode)[0] == ']');
        }
    }
    if 0 <= i < 11 && key_name(keycode) == seq!["ASDFGHJKL;'"@[i]] {
        assert(key_name(keycode)[0] == "ASDFGHJKL;'"@[i]);
        if i == 0 {
            assert(key_name(keycode)[0] == 'A');
        }
        if i == 1 {
            assert(key_name(keycode)[0] == 'S');
        }
        if i == 2 {
            assert(key_name(keycode)[0] == 'D');
        }
        if i == 3 {
            assert(key_name(keycode)[0] == 'F');
        }
        if i == 4 {
            assert(key_name(keycode)[0] == 'G');
        }
        if i == 5 {
            assert(key_name(keycode)[0] == 'H');
        }
        if i == 6 {
            assert(key_name(keycode)[0] == 'J');
        }
        if i == 7 {
            assert(key_name(keycode)[0] == 'K');
        }
        if i == 8 {
            assert(key_name(keycode)[0] == 'L');
        }
        if i == 9 {
            assert(key_name(keycode)[0] == ';');
        }
        if i == 10 {
            assert(key_name(keycode)[0] == '\'');
        }
    }
    if 0 <= i < 10 && key_name(keycode) == seq!["ZXCVBNM,./"@[i]] {
        assert(key_name(keycode)[0] == "ZXCVBNM,./"@[i]);
        if i == 0 {
            assert(key_name(keycode)[0] == 'Z');
        }
        if i == 1 {
            assert(key_name(keycode)[0] == 'X');
        }
        if i == 2 {
            assert(key_name(keycode)[0] == 'C');
        }
        if i == 3 {
            assert(key_name(keycode)[0] == 'V');
        }
        if i == 4 {
            assert(key_name(keycode)[0] == 'B');
        }
        if i == 5 {
            assert(key_name(keycode)[0] == 'N');
        }
        if i == 6 {
            assert(key_name(keycode)[0] == 'M');
        }
        if i == 7 {
            assert(key_name(keycode)[0] == ',');
        }
        if i == 8 {
            assert(key_name(keycode)[0] == '.');
        }
        if i == 9 {
            assert(key_name(keycode)[0] == '/');
        }
    }
}

/// A key that is named by a word has the code that Linux gives to the key of that
/// name.
pub proof fn law_named_keys_have_the_codes_of_their_names(keycode: u16)
    requires
        is_known_key(keycode),
    ensures
        key_name(keycode) == "Escape"@ ==> linux_keycode(keycode) == 1,
        key_name(keycode) == "Delete"@ ==> linux_keycode(keycode) == 14,
        key_name(keycode) == "Tab"@ ==> linux_keycode(keycode) == 15,
        key_name(keycode) == "Return"@ ==> linux_keycode(keycode) == 28,
        key_name(keycode) == "Control"@ ==> linux_keycode(keycode) == 29,
        key_name(keycode) == "Shift"@ ==> linux_keycode(keycode) == 42,
        key_name(keycode) == "RightShift"@ ==> linux_keycode(keycode) == 54,
        key_name(keycode) == "Option"@ ==> linux_keycode(keycode) == 56,
        key_name(keycode) == "Space"@ ==> linux_keycode(keycode) == 57,
        key_name(keycode) == "CapsLock"@ ==> linux_keycode(keycode) == 58,
        key_name(keycode) == "RightControl"@ ==> linux_keycode(keycode) == 97,
        key_name(keycode) == "RightOption"@ ==> linux_keycode(keycode) == 100,
        key_name(keycode) == "UpArrow"@ ==> linux_keycode(keycode) == 103,
        key_name(keycode) == "LeftArrow"@ ==> linux_keycode(keycode) == 105,
        key_name(keycode) == "RightArrow"@ ==> linux_keycode(keycode) == 106,
        key_name(keycode) == "DownArrow"@ ==> linux_keycode(keycode) == 108,
        key_name(keycode) == "Command"@ ==> linux_keycode(keycode) == 125,
        key_name(keycode) == "RightCommand"@ ==> linux_keycode(keycode) == 126,
        key_name(keycode) == "Function"@ ==> linux_keycode(keycode) == 464,
        key_name(keycode) == "`"@ ==> linux_keycode(keycode) == 41,
        key_name(keycode) == "\\"@ ==> linux_keycode(keycode) == 43,
        key_name(keycode) == "F1"@ ==> linux_keycode(keycode) == 59,
        key_name(keycode) == "F2"@ ==> linux_keycode(keycode) == 60,
        key_name(keycode) == "F3"@ ==> linux_keycode(keycode) == 61,
        key_name(keycode) == "F4"@ ==> linux_keycode(keycode) == 62,
        key_name(keycode) == "F5"@ ==> linux_keycode(keycode) == 63,
        key_name(keycode) == "F6"@ ==> linux_keycode(keycode) == 64,
        key_name(keycode) == "F7"@ ==> linux_keycode(keycode) == 65,
        key_name(keycode) == "F8"@ ==> linux_keycode(keycode) == 66,
        key_name(keycode) == "F9"@ ==> linux_keycode(keycode) == 67,
        key_name(keycode) == "F10"@ ==> linux_keycode(keycode) == 68,
        key_name(keycode) == "F11"@ ==> linux_keycode(keycode) == 87,
        key_name(keycode) == "F12"@ ==> linux_keycode(keycode) == 88,
{
    lemma_key_of_its_name(keycode);
    reveal_strlit("Escape");
    reveal_strlit("Delete");
    reveal_strlit("Tab");
    reveal_strlit("Return");
    reveal_strlit("Control");
    reveal_strlit("Shift");
    reveal_strlit("RightShift");
    reveal_strlit("Option");
    reveal_strlit("Space");
    reveal_strlit("CapsLock");
    reveal_strlit("RightControl");
    reveal_strlit("RightOption");
    reveal_strlit("UpArrow");
    reveal_strlit("LeftArrow");
    reveal_strlit("RightArrow");
    reveal_strlit("DownArrow");
    reveal_strlit("Command");
    reveal_strlit("RightCommand");
    reveal_strlit("Function");
    reveal_strlit("`");
    reveal_strlit("\\");
    reveal_strlit("F1");
    reveal_strlit("F2");
    reveal_strlit("F3");
    reveal_strlit("F4");
    reveal_strlit("F5");
    reveal_strlit("F6");
    reveal_strlit("F7");
    reveal_strlit("F8");
    reveal_strlit("F9");
    reveal_strlit("F10");
    reveal_strlit("F11");
    reveal_strlit("F12");
}

/// The codes of macOS number the typing keys in this order.
pub proof fn law_key_codes_number_the_typing_keys(keycode: u16)
    ensures
        keycode <= 9 ==> key_name(keycode) == seq!["ASDFHGZXCV"@[keycode as int]],
        11 <= keycode <= 17 ==> key_name(keycode) == seq!["BQWERYT"@[keycode - 11]],
        18 <= keycode <= 35 ==> key_name(keycode) == seq!["123465=97-80]OU[IP"@[keycode - 18]],
        37 <= keycode <= 47 ==> key_name(keycode) == seq!["LJ'K;\\,/NM."@[keycode - 37]],
{
    reveal_strlit("ASDFHGZXCV");
    reveal_strlit("BQWERYT");
    reveal_strlit("123465=97-80]OU[IP");
    reveal_strlit("LJ'K;\\,/NM.");
    if keycode == 0 {
        reveal_strlit("A");
        assert(key_name(keycode) =~= seq!["ASDFHGZXCV"@[0]]);
    }
    if keycode == 1 {
        reveal_strlit("S");
        assert(key_name(keycode) =~= seq!["ASDFHGZXCV"@[1]]);
    }
    if keycode == 2 {
        reveal_strlit("D");
        assert(key_name(keycode) =~= seq!["ASDFHGZXCV"@[2]]);
    }
    if keycode == 3 {
        reveal_strlit("F");
        assert(key_name(keycode) =~= seq!["ASDFHGZXCV"@[3]]);
    }
    if keycode == 4 {
        reveal_strlit("H");
        assert(key_name(keycode) =~= seq!["ASDFHGZXCV"@[4]]);
    }
    if keycode == 5 {
        reveal_strlit("G");
        assert(key_name(keycode) =~= seq!["ASDFHGZXCV"@[5]]);
    }
    if keycode == 6 {
        reveal_strlit("Z");
        assert(key_name(keycode) =~= seq!["ASDFHGZXCV"@[6]]);
    }
    if keycode == 7 {
        reveal_strlit("X");
        assert(key_name(keycode) =~= seq!["ASDFHGZXCV"@[7]]);
    }
    if keycode == 8 {
        reveal_strlit("C");
        assert(key_name(keycode) =~= seq!["ASDFHGZXCV"@[8]]);
    }
    if keycode == 9 {
        reveal_strlit("V");
        assert(key_name(keycode) =~= seq!["ASDFHGZXCV"@[9]]);
    }
    if keycode == 11 {
        reveal_strlit("B");
        assert(key_name(keycode) =~= seq!["BQWERYT"@[0]]);
    }
    if keycode == 12 {
        reveal_strlit("Q");
        assert(key_name(keycode) =~= seq!["BQWERYT"@[1]]);
    }
    if keycode == 13 {
        reveal_strlit("W");
        assert(key_name(keycode) =~= seq!["BQWERYT"@[2]]);
    }
    if keycode == 14 {
        reveal_strlit("E");
        assert(key_name(keycode) =~= seq!["BQWERYT"@[3]]);
    }
    if keycode == 15 {
        reveal_strlit("R");
        assert(key_name(keycode) =~= seq!["BQWERYT"@[4]]);
    }
    if keycode == 16 {
        reveal_strlit("Y");
        assert(key_name(keycode) =~= seq!["BQWERYT"@[5]]);
    }
    if keycode == 17 {
        reveal_strlit("T");
        assert(key_name(keycode) =~= seq!["BQWERYT"@[6]]);
    }
    if keycode == 18 {
        reveal_strlit("1");
        assert(key_name(keycode) =~= seq!["123465=97-80]OU[IP"@[0]]);
    }
    if keycode == 19 {
        reveal_strlit("2");
        assert(key_name(keycode) =~= seq!["123465=97-80]OU[IP"@[1]]);
    }
    if keycode == 20 {
        reveal_strlit("3");
        assert(key_name(keycode) =~= seq!["123465=97-80]OU[IP"@[2]]);
    }
    if keycode == 21 {
        reveal_strlit("4");
        assert(key_name(keycode) =~= seq!["123465=97-80]OU[IP"@[3]]);
    }
    if keycode == 22 {
        reveal_strlit("6");
        assert(key_name(keycode) =~= seq!["123465=97-80]OU[IP"@[4]]);
    }
    if keycode == 23 {
        reveal_strlit("5");
        assert(key_name(keycode) =~= seq!["123465=97-80]OU[IP"@[5]]);
    }
    if keycode == 24 {
        reveal_strlit("=");
        assert(key_name(keycode) =~= seq!["123465=97-80]OU[IP"@[6]]);
    }
    if keycode == 25 {
        reveal_strlit("9");
        assert(key_name(keycode) =~= seq!["123465=97-80]OU[IP"@[7]]);
    }
    if keycode == 26 {
        reveal_strlit("7");
        assert(key_name(keycode) =~= seq!["123465=97-80]OU[IP"@[8]]);
    }
    if keycode == 27 {
        reveal_strlit("-");
        assert(key_name(keycode) =~= seq!["123465=97-80]OU[IP"@[9]]);
    }
    if keycode == 28 {
        reveal_strlit("8");
        assert(key_name(keycode) =~= seq!["123465=97-80]OU[IP"@[10]]);
    }
    if keycode == 29 {
        reveal_strlit("0");
        assert(key_name(keycode) =~= seq!["123465=97-80]OU[IP"@[11]]);
    }
    if keycode == 30 {
        reveal_strlit("]");
        assert(key_name(keycode) =~= seq!["123465=97-80]OU[IP"@[12]]);
    }
    if keycode == 31 {
        reveal_strlit("O");
        assert(key_name(keycode) =~= seq!["123465=97-80]OU[IP"@[13]]);
    }
    if keycode == 32 {
        reveal_strlit("U");
        assert(key_name(keycode) =~= seq!["123465=97-80]OU[IP"@[14]]);
    }
    if keycode == 33 {
        reveal_strlit("[");
        assert(key_name(keycode) =~= seq!["123465=97-80]OU[IP"@[15]]);
    }
    if keycode == 34 {
        reveal_strlit("I");
        assert(key_name(keycode) =~= seq!["123465=97-80]OU[IP"@[16]]);
    }
    if keycode == 35 {
        reveal_strlit("P");
        assert(key_name(keycode) =~= seq!["123465=97-80]OU[IP"@[17]]);
    }
    if keycode == 37 {
        reveal_strlit("L");
        assert(key_name(keycode) =~= seq!["LJ'K;\\,/NM."@[0]]);
    }
    if keycode == 38 {
        reveal_strlit("J");
        assert(key_name(keycode) =~= seq!["LJ'K;\\,/NM."@[1]]);
    }
    if keycode == 39 {
        reveal_strlit("'");
        assert(key_name(keycode) =~= seq!["LJ'K;\\,/NM."@[2]]);
    }
    if keycode == 40 {
        reveal_strlit("K");
        assert(key_name(keycode) =~= seq!["LJ'K;\\,/NM."@[3]]);
    }
    if keycode == 41 {
        reveal_strlit(";");
        assert(key_name(keycode) =~= seq!["LJ'K;\\,/NM."@[4]]);
    }
    if keycode == 42 {
        reveal_strlit("\\");
        assert(key_name(keycode) =~= seq!["LJ'K;\\,/NM."@[5]]);
    }
    if keycode == 43 {
        reveal_strlit(",");
        assert(key_name(keycode) =~= seq!["LJ'K;\\,/NM."@[6]]);
    }
    if keycode == 44 {
        reveal_strlit("/");
        assert(key_name(keycode) =~= seq!["LJ'K;\\,/NM."@[7]]);
    }
    if keycode == 45 {
        reveal_strlit("N");
        assert(key_name(keycode) =~= seq!["LJ'K;\\,/NM."@[8]]);
    }
    if keycode == 46 {
        reveal_strlit("M");
        assert(key_name(keycode) =~= seq!["LJ'K;\\,/NM."@[9]]);
    }
    if keycode == 47 {
        reveal_strlit(".");
        assert(key_name(keycode) =~= seq!["LJ'K;\\,/NM."@[10]]);
    }
}

/// The codes of macOS name the other keys so.
pub proof fn law_key_codes_name_the_other_keys(keycode: u16)
    ensures
        keycode == 0x24 ==> key_name(keycode) == "Return"@,
        keycode == 0x30 ==> key_name(keycode) == "Tab"@,
        keycode == 0x31 ==> key_name(keycode) == "Space"@,
        keycode == 0x32 ==> key_name(keycode) == "`"@,
        keycode == 0x33 ==> key_name(keycode) == "Delete"@,
        keycode == 0x35 ==> key_name(keycode) == "Escape"@,
        keycode == 0x36 ==> key_name(keycode) == "RightCommand"@,
        keycode == 0x37 ==> key_name(keycode) == "Command"@,
        keycode == 0x38 ==> key_name(keycode) == "Shift"@,
        keycode == 0x39 ==> key_name(keycode) == "CapsLock"@,
        keycode == 0x3A ==> key_name(keycode) == "Option"@,
        keycode == 0x3B ==> key_name(keycode) == "Control"@,
        keycode == 0x3C ==> key_name(keycode) == "RightShift"@,
        keycode == 0x3D ==> key_name(keycode) == "RightOption"@,
        keycode == 0x3E ==> key_name(keycode) == "RightControl"@,
        keycode == 0x3F ==> key_name(keycode) == "Function"@,
        keycode == 0x7A ==> key_name(keycode) == "F1"@,
        keycode == 0x78 ==> key_name(keycode) == "F2"@,
        keycode == 0x63 ==> key_name(keycode) == "F3"@,
        keycode == 0x76 ==> key_name(keycode) == "F4"@,
        keycode == 0x60 ==> key_name(keycode) == "F5"@,
        keycode == 0x61 ==> key_name(keycode) == "F6"@,
        keycode == 0x62 ==> key_name(keycode) == "F7"@,
        keycode == 0x64 ==> key_name(keycode) == "F8"@,
        keycode == 0x65 ==> key_name(keycode) == "F9"@,
        keycode == 0x6D ==> key_name(keycode) == "F10"@,
        keycode == 0x67 ==> key_name(keycode) == "F11"@,
        keycode == 0x6F ==> key_name(keycode) == "F12"@,
        keycode == 0x7B ==> key_name(keycode) == "LeftArrow"@,
        keycode == 0x7C ==> key_name(keycode) == "RightArrow"@,
        keycode == 0x7D ==> key_name(keycode) == "DownArrow"@,
        keycode == 0x7E ==> key_name(keycode) == "UpArrow"@,
{
}

} // verus!
