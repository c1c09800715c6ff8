//! The sixteen-key keypad and the keyboard keys that stand for it.

use vstd::prelude::*;

verus! {

/// A key of the host keyboard, as far as the keypad is concerned.
#[derive(Clone, Copy, Debug, PartialEq, Eq, Structural)]
pub enum KeyCode {
    Key1,
    Key2,
    Key3,
    Key4,
    Q,
    W,
    E,
    R,
    A,
    S,
    D,
    F,
    Z,
    X,
    C,
    V,
    /// Any key that stands for no key of the keypad.
    Other,
}

/// The value of the keypad key that a keyboard key stands for. The keypad
///
/// ```text
/// 1 2 3 C        1 2 3 4
/// 4 5 6 D   is   Q W E R
/// 7 8 9 E        A S D F
/// A 0 B F        Z X C V
/// ```
///
/// on the keyboard.
pub open spec fn key_value(code: KeyCode) -> Option<u8> {
    match code {
        KeyCode::X => Some(0x0u8),
        KeyCode::Key1 => Some(0x1u8),
        KeyCode::Key2 => Some(0x2u8),
        KeyCode::Key3 => Some(0x3u8),
        KeyCode::Q => Some(0x4u8),
        KeyCode::W => Some(0x5u8),
        KeyCode::E => Some(0x6u8),
        KeyCode::A => Some(0x7u8),
        KeyCode::S => Some(0x8u8),
        KeyCode::D => Some(0x9u8),
        KeyCode::Z => Some(0xAu8),
        KeyCode::C => Some(0xBu8),
        KeyCode::Key4 => Some(0xCu8),
        KeyCode::R => Some(0xDu8),
        KeyCode::F => Some(0xEu8),
        KeyCode::V => Some(0xFu8),
        KeyCode::Other => None,
    }
}

/// Looks a keyboard key up among the keys of the keypad.
pub fn logical_key(current_keycode: KeyCode) -> (value: Option<u8>)
    ensures
        value == key_value(current_keycode),
        value matches Some(key) ==> key < 16,
{
    let keycode_map: [KeyCode; 16] = [
        KeyCode::X,
        KeyCode::Key1,
        KeyCode::Key2,
        KeyCode::Key3,
        KeyCode::Q,
        KeyCode::W,
        KeyCode::E,
        KeyCode::A,
        KeyCode::S,
        KeyCode::D,
        KeyCode::Z,
        KeyCode::C,
        KeyCode::Key4,
        KeyCode::R,
        KeyCode::F,
        KeyCode::V,
    ];
    let mut value: u8 = 0;
    while value < 16
        invariant
            value <= 16,
            forall|i: int| 0 <= i < 16 ==> key_value(#[trigger] keycode_map@[i]) == Some(i as u8),
            forall|i: int| 0 <= i < value ==> keycode_map@[i] != current_keycode,
        decreases 16 - value,
    {
        if keycode_map[value as usize] == current_keycode {
            return Some(value);
        }
        value += 1;
    }
    None
}

} // verus!
