//! The fixed layout that binds keyboard keys to the sixteen keypad keys.
//!
//! ```text
//! Keypad       Keyboard
//! 1 2 3 C      1 2 3 4
//! 4 5 6 D      Q W E R
//! 7 8 9 E  =>  A S D F
//! A 0 B F      Z X C V
//! ```
use vstd::prelude::*;

use crate::model::KEYPAD_SIZE;

verus! {

/// The keypad key bound to the keyboard key named `c`, if any.
pub open spec fn key_binding(c: char) -> Option<u8> {
    if c == '1' {
        Some(0x1u8)
    } else if c == '2' {
        Some(0x2u8)
    } else if c == '3' {
        Some(0x3u8)
    } else if c == '4' {
        Some(0xCu8)
    } else if c == 'Q' {
        Some(0x4u8)
    } else if c == 'W' {
        Some(0x5u8)
    } else if c == 'E' {
        Some(0x6u8)
    } else if c == 'R' {
        Some(0xDu8)
    } else if c == 'A' {
        Some(0x7u8)
    } else if c == 'S' {
        Some(0x8u8)
    } else if c == 'D' {
        Some(0x9u8)
    } else if c == 'F' {
        Some(0xEu8)
    } else if c == 'Z' {
        Some(0xAu8)
    } else if c == 'X' {
        Some(0x0u8)
    } else if c == 'C' {
        Some(0xBu8)
    } else if c == 'V' {
        Some(0xFu8)
    } else {
        None
    }
}

/// Whether keypad key `k` is bound to one of the keyboard keys in `pressed`.
pub open spec fn key_down(pressed: Seq<char>, k: int) -> bool {
    exists|j: int| 0 <= j < pressed.len() && #[trigger] key_binding(pressed[j]) == Some(k as u8)
}

/// The keypad key bound to the keyboard key named `c`, if any.
pub fn keypad_index(c: char) -> (r: Option<u8>)
    ensures
        r == key_binding(c),
{
    match c {
        '1' => Some(0x1),
        '2' => Some(0x2),
        '3' => Some(0x3),
        '4' => Some(0xC),
        'Q' => Some(0x4),
        'W' => Some(0x5),
        'E' => Some(0x6),
        'R' => Some(0xD),
        'A' => Some(0x7),
        'S' => Some(0x8),
        'D' => Some(0x9),
        'F' => Some(0xE),
        'Z' => Some(0xA),
        'X' => Some(0x0),
        'C' => Some(0xB),
        'V' => Some(0xF),
        _ => None,
    }
}

/// The keypad snapshot for the keyboard keys named in `pressed`: a keypad
/// key is down exactly when a key bound to it is among them.
pub fn keypad_state(pressed: &Vec<char>) -> (r: [bool; KEYPAD_SIZE])
    ensures
        forall|k: int| 0 <= k < KEYPAD_SIZE ==> #[trigger] r@[k] == key_down(pressed@, k),
{
    let mut keys = [false; KEYPAD_SIZE];
    let mut j: usize = 0;
    while j < pressed.len()
        invariant
            j <= pressed@.len(),
            forall|k: int|
                0 <= k < KEYPAD_SIZE ==> #[trigger] keys@[k] == exists|i: int|
                    0 <= i < j && #[trigger] key_binding(pressed@[i]) == Some(k as u8),
        decreases pressed@.len() - j,
    {
        if let Some(k) = keypad_index(pressed[j]) {
            keys[k as usize] = true;
            assert(key_binding(pressed@[j as int]) == Some(k));
        }
        j = j + 1;
    }
    keys
}

} // verus!
