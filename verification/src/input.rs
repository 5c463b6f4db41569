//! The CHIP-8 keypad and its layout on a keyboard.
use vstd::prelude::*;

verus! {

/// A keyboard key that stands for one of the sixteen keys of the CHIP-8 keypad.
///
/// The keypad is laid out on the left of a keyboard:
/// `1 2 3 4 / Q W E R / A S D F / Y X C V`.
#[derive(Clone, Copy, Debug, PartialEq, Eq, Structural)]
pub enum Key {
    Key1,
    Key2,
    Key3,
    Key4,
    Q,
    W,
    E,
    R,
    A,
    S,
    D,
    F,
    Y,
    X,
    C,
    V,
}

/// The keyboard key of keypad key `nibble` (a value below 16).
pub open spec fn key_of(nibble: u8) -> Key {
    if nibble == 0 {
        Key::Key1
    } else if nibble == 1 {
        Key::Key2
    } else if nibble == 2 {
        Key::Key3
    } else if nibble == 3 {
        Key::Key4
    } else if nibble == 4 {
        Key::Q
    } else if nibble == 5 {
        Key::W
    } else if nibble == 6 {
        Key::E
    } else if nibble == 7 {
        Key::R
    } else if nibble == 8 {
        Key::A
    } else if nibble == 9 {
        Key::S
    } else if nibble == 10 {
        Key::D
    } else if nibble == 11 {
        Key::F
    } else if nibble == 12 {
        Key::Y
    } else if nibble == 13 {
        Key::X
    } else if nibble == 14 {
        Key::C
    } else {
        Key::V
    }
}

/// Maps a keypad nibble to its keyboard key.
pub fn to_key(nibble: u8) -> (key: Key)
    requires
        nibble < 16,
    ensures
        key == key_of(nibble),
{
    match nibble {
        0 => Key::Key1,
        1 => Key::Key2,
        2 => Key::Key3,
        3 => Key::Key4,
        4 => Key::Q,
        5 => Key::W,
        6 => Key::E,
        7 => Key::R,
        8 => Key::A,
        9 => Key::S,
        10 => Key::D,
        11 => Key::F,
        12 => Key::Y,
        13 => Key::X,
        14 => Key::C,
        _ => Key::V,
    }
}

/// No two keypad keys share a keyboard key.
pub proof fn lemma_key_of_injective(a: u8, b: u8)
    requires
        a < 16,
        b < 16,
        key_of(a) == key_of(b),
    ensures
        a == b,
{
}

} // verus!
