//! The host keyboard layout of the sixteen-key hexadecimal keypad.
use vstd::prelude::*;

verus! {

/// The keypad code of a host key, upper or lower case; `None` for a key
/// outside the layout.
///
/// ```text
/// 1 2 3 4      1 2 3 C
/// Q W E R  ->  4 5 6 D
/// A S D F      7 8 9 E
/// Z X C V      A 0 B F
/// ```
pub open spec fn key_code_spec(key: char) -> Option<u8> {
    match key {
        'x' | 'X' => Some(0x0u8),
        '1' => Some(0x1u8),
        '2' => Some(0x2u8),
        '3' => Some(0x3u8),
        'q' | 'Q' => Some(0x4u8),
        'w' | 'W' => Some(0x5u8),
        'e' | 'E' => Some(0x6u8),
        'a' | 'A' => Some(0x7u8),
        's' | 'S' => Some(0x8u8),
        'd' | 'D' => Some(0x9u8),
        'z' | 'Z' => Some(0xau8),
        'c' | 'C' => Some(0xbu8),
        '4' => Some(0xcu8),
        'r' | 'R' => Some(0xdu8),
        'f' | 'F' => Some(0xeu8),
        'v' | 'V' => Some(0xfu8),
        _ => None,
    }
}

/// Maps a host key to its keypad code.
pub fn key_code(key: char) -> (r: Option<u8>)
    ensures
        r == key_code_spec(key),
        r matches Some(c) ==> c < 16,
{
    match key {
        'x' | 'X' => Some(0x0),
        '1' => Some(0x1),
        '2' => Some(0x2),
        '3' => Some(0x3),
        'q' | 'Q' => Some(0x4),
        'w' | 'W' => Some(0x5),
        'e' | 'E' => Some(0x6),
        'a' | 'A' => Some(0x7),
        's' | 'S' => Some(0x8),
        'd' | 'D' => Some(0x9),
        'z' | 'Z' => Some(0xa),
        'c' | 'C' => Some(0xb),
        '4' => Some(0xc),
        'r' | 'R' => Some(0xd),
        'f' | 'F' => Some(0xe),
        'v' | 'V' => Some(0xf),
        _ => None,
    }
}

} // verus!
