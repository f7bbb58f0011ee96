//! The keys of a keyboard that stand for the sixteen keys of the keypad.

use vstd::prelude::*;

verus! {

/// The key of the keypad that the keyboard key marked `name` stands for: the
/// four rows `1234`, `QWER`, `ASDF`, `ZXCV` of a keyboard laid over the four
/// rows `123C`, `456D`, `789E`, `A0BF` of the keypad. Other keys stand for
/// none.
pub open spec fn key_of(name: char) -> Option<u8> {
    if name == '1' {
        Some(0x1u8)
    } else if name == '2' {
        Some(0x2u8)
    } else if name == '3' {
        Some(0x3u8)
    } else if name == '4' {
        Some(0xCu8)
    } else if name == 'Q' {
        Some(0x4u8)
    } else if name == 'W' {
        Some(0x5u8)
    } else if name == 'E' {
        Some(0x6u8)
    } else if name == 'R' {
        Some(0xDu8)
    } else if name == 'A' {
        Some(0x7u8)
    } else if name == 'S' {
        Some(0x8u8)
    } else if name == 'D' {
        Some(0x9u8)
    } else if name == 'F' {
        Some(0xEu8)
    } else if name == 'Z' {
        Some(0xAu8)
    } else if name == 'X' {
        Some(0x0u8)
    } else if name == 'C' {
        Some(0xBu8)
    } else if name == 'V' {
        Some(0xFu8)
    } else {
        None
    }
}

/// The key of the keypad that the keyboard key marked `name` stands for, if
/// it stands for one. The index is always one of the sixteen.
pub fn key_for(name: char) -> (key: Option<u8>)
    ensures
        key == key_of(name),
        key.is_some() ==> key.unwrap() < 16,
{
    match name {
        '1' => Some(0x1),
        '2' => Some(0x2),
        '3' => Some(0x3),
        '4' => Some(0xC),
        'Q' => Some(0x4),
        'W' => Some(0x5),
        'E' => Some(0x6),
        'R' => Some(0xD),
        'A' => Some(0x7),
        'S' => Some(0x8),
        'D' => Some(0x9),
        'F' => Some(0xE),
        'Z' => Some(0xA),
        'X' => Some(0x0),
        'C' => Some(0xB),
        'V' => Some(0xF),
        _ => None,
    }
}

/// No two keyboard keys stand for the same key of the keypad.
pub proof fn law_keys_are_distinct(a: char, b: char)
    requires
        key_of(a).is_some(),
        key_of(a) == key_of(b),
    ensures
        a == b,
{
}

/// What a keyboard reports: the window is closed, the escape key goes down,
/// the key marked with a character goes down or up, or anything else.
#[derive(Clone, Copy, Debug, PartialEq, Eq)]
pub enum KeyEvent {
    Quit,
    Escape,
    Down(char),
    Up(char),
    Other,
}

/// The key state after `event`: a key that stands for one of the keypad is
/// pressed when it goes down and released when it goes up; nothing else
/// changes the keys.
pub open spec fn keys_after(keys: Seq<bool>, event: KeyEvent) -> Seq<bool> {
    match event {
        KeyEvent::Down(name) => match key_of(name) {
            Some(key) => keys.update(key as int, true),
            None => keys,
        },
        KeyEvent::Up(name) => match key_of(name) {
            Some(key) => keys.update(key as int, false),
            None => keys,
        },
        _ => keys,
    }
}

/// Whether `event` ends the session: closing the window and the escape key
/// do.
pub open spec fn ends_session(event: KeyEvent) -> bool {
    event is Quit || event is Escape
}

/// Takes `event` into the key state and tells whether the session goes on.
pub fn apply_key_event(keys: &mut [bool; 16], event: KeyEvent) -> (running: bool)
    ensures
        running == !ends_session(event),
        final(keys)@ == keys_after(old(keys)@, event),
{
    match event {
        KeyEvent::Quit => false,
        KeyEvent::Escape => false,
        KeyEvent::Down(name) => {
            if let Some(key) = key_for(name) {
                keys[key as usize] = true;
            }
            true
        },
        KeyEvent::Up(name) => {
            if let Some(key) = key_for(name) {
                keys[key as usize] = false;
            }
            true
        },
        KeyEvent::Other => true,
    }
}

} // verus!
