//! The keyboard decoder: raw scan codes become logical key events through
//! two lookup tables (unshifted and shifted) and a small modifier-state
//! register: a shift-press counter and a caps-lock toggle.

use vstd::prelude::*;

verus! {

/// The modifier-key register. The shift counter counts presses minus
/// releases with wrapping byte arithmetic, so overlapping left and right
/// shift presses work. A release without a matching press (a dropped scan
/// code, say) wraps the counter around instead of clamping it at zero;
/// the wrap-around is deliberate, and the round-trip law below holds of
/// every starting state, wrapped ones included.
#[derive(Debug, Clone, Copy, PartialEq, Eq, Structural)]
pub struct KeyboardState {
    pub shift: u8,
    pub caps: bool,
}

/// The logical event one scan code decodes to.
#[derive(Debug, Clone, Copy, PartialEq, Eq, Structural)]
pub enum KeyAction {
    /// Scroll one line into history.
    ScrollUp,
    /// Scroll one line toward the live view.
    ScrollDown,
    /// Move the editing cursor one column left.
    CursorLeft,
    /// Move the editing cursor one column right.
    CursorRight,
    /// A modifier key changed state; nothing is emitted.
    Modifier,
    /// A character byte selected from the active lookup table.
    Emit(u8),
    /// A scan code outside every table; nothing happens.
    Nothing,
}

/// The modifier state after one scan code: shift makes increment the
/// counter, shift breaks decrement it (both wrapping), the caps-lock make
/// code toggles the caps flag, and every other code leaves the state alone.
pub open spec fn ks_next(ks: KeyboardState, scan: u8) -> KeyboardState {
    if scan == 42 || scan == 54 {
        KeyboardState { shift: ((ks.shift + 1) % 256) as u8, caps: ks.caps }
    } else if scan == 170 || scan == 182 {
        KeyboardState { shift: ((ks.shift + 255) % 256) as u8, caps: ks.caps }
    } else if scan == 58 {
        KeyboardState { shift: ks.shift, caps: !ks.caps }
    } else {
        ks
    }
}

/// The shifted table is active whenever a shift is held or caps lock is on;
/// the two do not cancel each other.
pub open spec fn shifted_active(ks: KeyboardState) -> bool {
    !(ks.shift == 0 && !ks.caps)
}

/// The byte a make code emits: from the shifted or unshifted table by the
/// modifier state at the time the code arrives. Zero stands for a key with
/// no character.
pub open spec fn table_byte(scan: u8, shifted: bool) -> u8 {
    if scan == 1 {
        27u8
    } else if scan == 2 {
        if shifted {
            33u8
        } else {
            49u8
        }
    } else if scan == 3 {
        if shifted {
            64u8
        } else {
            50u8
        }
    } else if scan == 4 {
        if shifted {
            35u8
        } else {
            51u8
        }
    } else if scan == 5 {
        if shifted {
            36u8
        } else {
            52u8
        }
    } else if scan == 6 {
        if shifted {
            37u8
        } else {
            53u8
        }
    } else if scan == 7 {
        if shifted {
            94u8
        } else {
            54u8
        }
    } else if scan == 8 {
        if shifted {
            38u8
        } else {
            55u8
        }
    } else if scan == 9 {
        if shifted {
            42u8
        } else {
            56u8
        }
    } else if scan == 10 {
        if shifted {
            40u8
        } else {
            57u8
        }
    } else if scan == 11 {
        if shifted {
            41u8
        } else {
            48u8
        }
    } else if scan == 12 {
        if shifted {
            95u8
        } else {
            45u8
        }
    } else if scan == 13 {
        if shifted {
            43u8
        } else {
            61u8
        }
    } else if scan == 14 {
        8u8
    } else if scan == 15 {
        9u8
    } else if scan == 16 {
        if shifted {
            81u8
        } else {
            113u8
        }
    } else if scan == 17 {
        if shifted {
            87u8
        } else {
            119u8
        }
    } else if scan == 18 {
        if shifted {
            69u8
        } else {
            101u8
        }
    } else if scan == 19 {
        if shifted {
            82u8
        } else {
            114u8
        }
    } else if scan == 20 {
        if shifted {
            84u8
        } else {
            116u8
        }
    } else if scan == 21 {
        if shifted {
            89u8
        } else {
            121u8
        }
    } else if scan == 22 {
        if shifted {
            85u8
        } else {
            117u8
        }
    } else if scan == 23 {
        if shifted {
            73u8
        } else {
            105u8
        }
    } else if scan == 24 {
        if shifted {
            79u8
        } else {
            111u8
        }
    } else if scan == 25 {
        if shifted {
            80u8
        } else {
            112u8
        }
    } else if scan == 26 {
        if shifted {
            123u8
        } else {
            91u8
        }
    } else if scan == 27 {
        if shifted {
            125u8
        } else {
            93u8
        }
    } else if scan == 28 {
        10u8
    } else if scan == 30 {
        if shifted {
            65u8
        } else {
            97u8
        }
    } else if scan == 31 {
        if shifted {
            83u8
        } else {
            115u8
        }
    } else if scan == 32 {
        if shifted {
            68u8
        } else {
            100u8
        }
    } else if scan == 33 {
        if shifted {
            70u8
        } else {
            102u8
        }
    } else if scan == 34 {
        if shifted {
            71u8
        } else {
            103u8
        }
    } else if scan == 35 {
        if shifted {
            72u8
        } else {
            104u8
        }
    } else if scan == 36 {
        if shifted {
            74u8
        } else {
            106u8
        }
    } else if scan == 37 {
        if shifted {
            75u8
        } else {
            107u8
        }
    } else if scan == 38 {
        if shifted {
            76u8
        } else {
            108u8
        }
    } else if scan == 39 {
        if shifted {
            58u8
        } else {
            59u8
        }
    } else if scan == 40 {
        if shifted {
            34u8
        } else {
            39u8
        }
    } else if scan == 41 {
        if shifted {
            126u8
        } else {
            96u8
        }
    } else if scan == 43 {
        if shifted {
            124u8
        } else {
            92u8
        }
    } else if scan == 44 {
        if shifted {
            90u8
        } else {
            122u8
        }
    } else if scan == 45 {
        if shifted {
            88u8
        } else {
            120u8
        }
    } else if scan == 46 {
        if shifted {
            67u8
        } else {
            99u8
        }
    } else if scan == 47 {
        if shifted {
            86u8
        } else {
            118u8
        }
    } else if scan == 48 {
        if shifted {
            66u8
        } else {
            98u8
        }
    } else if scan == 49 {
        if shifted {
            78u8
        } else {
            110u8
        }
    } else if scan == 50 {
        if shifted {
            77u8
        } else {
            109u8
        }
    } else if scan == 51 {
        if shifted {
            60u8
        } else {
            44u8
        }
    } else if scan == 52 {
        if shifted {
            62u8
        } else {
            46u8
        }
    } else if scan == 53 {
        if shifted {
            63u8
        } else {
            47u8
        }
    } else if scan == 57 {
        32u8
    } else {
        0u8
    }
}

/// The logical event a scan code produces under a given modifier state:
/// arrow-like codes map to scroll and cursor motion and bypass the tables,
/// modifier codes only change state, and any other make code below the
/// table size emits its table byte.
pub open spec fn spec_decode(ks: KeyboardState, scan: u8) -> KeyAction {
    if scan == 72 {
        KeyAction::ScrollUp
    } else if scan == 80 {
        KeyAction::ScrollDown
    } else if scan == 75 {
        KeyAction::CursorLeft
    } else if scan == 77 {
        KeyAction::CursorRight
    } else if scan == 42 || scan == 54 || scan == 170 || scan == 182 || scan == 58 {
        KeyAction::Modifier
    } else if scan < 59 && scan != 0 {
        KeyAction::Emit(table_byte(scan, shifted_active(ks)))
    } else {
        KeyAction::Nothing
    }
}

impl KeyboardState {
    /// The state at power-up: no shift held, caps lock off.
    pub fn new() -> (r: KeyboardState)
        ensures
            r == (KeyboardState { shift: 0u8, caps: false }),
    {
        KeyboardState { shift: 0, caps: false }
    }
}

/// Applies one scan code to the modifier state and returns the logical
/// event it decodes to. The table byte is chosen by the modifier state as
/// it was when the code arrived.
pub fn decode(ks: &mut KeyboardState, scan: u8) -> (a: KeyAction)
    ensures
        *final(ks) == ks_next(*old(ks), scan),
        a == spec_decode(*old(ks), scan),
{
    if scan == 72 {
        return KeyAction::ScrollUp;
    }
    if scan == 80 {
        return KeyAction::ScrollDown;
    }
    if scan == 75 {
        return KeyAction::CursorLeft;
    }
    if scan == 77 {
        return KeyAction::CursorRight;
    }
    if scan == 42 || scan == 54 {
        ks.shift = ks.shift.wrapping_add(1);
        return KeyAction::Modifier;
    }
    if scan == 170 || scan == 182 {
        ks.shift = ks.shift.wrapping_sub(1);
        return KeyAction::Modifier;
    }
    if scan == 58 {
        ks.caps = !ks.caps;
        return KeyAction::Modifier;
    }
    if scan < 59 && scan != 0 {
        let shifted = !(ks.shift == 0 && !ks.caps);
        return KeyAction::Emit(table_lookup(scan, shifted));
    }
    KeyAction::Nothing
}

/// The table byte for a make code below the table size.
fn table_lookup(scan: u8, shifted: bool) -> (b: u8)
    requires
        scan < 59,
    ensures
        b == table_byte(scan, shifted),
{
    if shifted {
        match scan {
            1 => 27,
            2 => 33,
            3 => 64,
            4 => 35,
            5 => 36,
            6 => 37,
            7 => 94,
            8 => 38,
            9 => 42,
            10 => 40,
            11 => 41,
            12 => 95,
            13 => 43,
            14 => 8,
            15 => 9,
            16 => 81,
            17 => 87,
            18 => 69,
            19 => 82,
            20 => 84,
            21 => 89,
            22 => 85,
            23 => 73,
            24 => 79,
            25 => 80,
            26 => 123,
            27 => 125,
            28 => 10,
            30 => 65,
            31 => 83,
            32 => 68,
            33 => 70,
            34 => 71,
            35 => 72,
            36 => 74,
            37 => 75,
            38 => 76,
            39 => 58,
            40 => 34,
            41 => 126,
            43 => 124,
            44 => 90,
            45 => 88,
            46 => 67,
            47 => 86,
            48 => 66,
            49 => 78,
            50 => 77,
            51 => 60,
            52 => 62,
            53 => 63,
            57 => 32,
            _ => 0,
        }
    } else {
        match scan {
            1 => 27,
            2 => 49,
            3 => 50,
            4 => 51,
            5 => 52,
            6 => 53,
            7 => 54,
            8 => 55,
            9 => 56,
            10 => 57,
            11 => 48,
            12 => 45,
            13 => 61,
            14 => 8,
            15 => 9,
            16 => 113,
            17 => 119,
            18 => 101,
            19 => 114,
            20 => 116,
            21 => 121,
            22 => 117,
            23 => 105,
            24 => 111,
            25 => 112,
            26 => 91,
            27 => 93,
            28 => 10,
            30 => 97,
            31 => 115,
            32 => 100,
            33 => 102,
            34 => 103,
            35 => 104,
            36 => 106,
            37 => 107,
            38 => 108,
            39 => 59,
            40 => 39,
            41 => 96,
            43 => 92,
            44 => 122,
            45 => 120,
            46 => 99,
            47 => 118,
            48 => 98,
            49 => 110,
            50 => 109,
            51 => 44,
            52 => 46,
            53 => 47,
            57 => 32,
            _ => 0,
        }
    }
}

/// Law: a shift make followed immediately by the matching shift break
/// returns the modifier state to its value before the press, and toggling
/// caps lock twice returns to the original case mode. This holds for every
/// starting state, including a wrapped shift counter.
pub proof fn lemma_modifier_roundtrip(ks: KeyboardState)
    ensures
        ks_next(ks_next(ks, 42), 170) == ks,
        ks_next(ks_next(ks, 54), 182) == ks,
        ks_next(ks_next(ks, 58), 58) == ks,
{
}

} // verus!
