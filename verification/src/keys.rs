//! The keys that the editor knows.

use crate::editor::state;
use vstd::prelude::*;

verus! {

// X11 key symbols.
pub const KEY_SPACE: u32 = 0x20;

pub const KEY_PLUS: u32 = 0x2b;

pub const KEY_MINUS: u32 = 0x2d;

pub const KEY_EQUAL: u32 = 0x3d;

pub const KEY_RETURN: u32 = 0xff0d;

pub const KEY_ESCAPE: u32 = 0xff1b;

pub const KEY_KP_ENTER: u32 = 0xff8d;

pub const KEY_KP_ADD: u32 = 0xffab;

pub const KEY_KP_SUBTRACT: u32 = 0xffad;

/// The key symbol of a small letter, or of the capital letter.
pub open spec fn is_letter(k: u32, c: char) -> bool {
    k == c as u32 || k == c as u32 - 32
}

/// The character that a key stands for, if it is one that the editor knows.
pub open spec fn key_char(k: u32) -> Option<char> {
    if is_letter(k, 'c') {
        Some('c')
    } else if is_letter(k, 'r') {
        Some('r')
    } else if is_letter(k, 'l') {
        Some('l')
    } else if is_letter(k, 'a') {
        Some('a')
    } else if is_letter(k, 'f') {
        Some('f')
    } else if is_letter(k, 'h') {
        Some('h')
    } else if is_letter(k, 'b') {
        Some('b')
    } else if is_letter(k, 'e') {
        Some('e')
    } else if is_letter(k, 'z') {
        Some('z')
    } else if k == KEY_MINUS || k == KEY_KP_SUBTRACT {
        Some('-')
    } else if k == KEY_EQUAL {
        Some('=')
    } else if k == KEY_PLUS || k == KEY_KP_ADD {
        Some('+')
    } else {
        None
    }
}

/// The character that a key stands for, if it is one that the editor knows.
pub fn keysym_to_ch(k: u32) -> (r: Option<&'static str>)
    ensures
        r is Some <==> key_char(k) is Some,
        state::letter(r) == key_char(k),
{
    proof {
        reveal_strlit("c");
        reveal_strlit("r");
        reveal_strlit("l");
        reveal_strlit("a");
        reveal_strlit("f");
        reveal_strlit("h");
        reveal_strlit("b");
        reveal_strlit("e");
        reveal_strlit("z");
        reveal_strlit("-");
        reveal_strlit("=");
        reveal_strlit("+");
    }
    match k {
        0x63 | 0x43 => Some("c"),
        0x72 | 0x52 => Some("r"),
        0x6c | 0x4c => Some("l"),
        0x61 | 0x41 => Some("a"),
        0x66 | 0x46 => Some("f"),
        0x68 | 0x48 => Some("h"),
        0x62 | 0x42 => Some("b"),
        0x65 | 0x45 => Some("e"),
        0x7a | 0x5a => Some("z"),
        KEY_MINUS | KEY_KP_SUBTRACT => Some("-"),
        KEY_EQUAL => Some("="),
        KEY_PLUS | KEY_KP_ADD => Some("+"),
        _ => None,
    }
}

/// Whether the key cancels.
pub fn is_escape(k: u32) -> (r: bool)
    ensures
        r == (k == KEY_ESCAPE),
{
    k == KEY_ESCAPE
}

/// The key is one of those that save.
pub open spec fn saves(k: u32) -> bool {
    k == KEY_RETURN || k == KEY_KP_ENTER || k == KEY_SPACE
}

/// Whether the key is one of those that save.
pub fn is_enter_or_space(k: u32) -> (r: bool)
    ensures
        r == saves(k),
{
    k == KEY_RETURN || k == KEY_KP_ENTER || k == KEY_SPACE
}

/// Small and capital letters mean the same.
pub proof fn law_case_does_not_matter(c: char)
    requires
        'a' <= c <= 'z',
    ensures
        key_char(c as u32) == key_char((c as u32 - 32) as u32),
{
}

/// No key both saves or cancels and stands for a character.
pub proof fn law_keys_are_distinct(k: u32)
    ensures
        key_char(k) is Some ==> k != KEY_ESCAPE && !saves(k),
        k == KEY_ESCAPE ==> !saves(k),
{
}

/// Which keys stand for a character: the small and the capital letter, the keys of the main block
/// and those of the keypad. No other key stands for one.
pub proof fn law_key_table(k: u32)
    ensures
        key_char(k) == Some('c') <==> k == 0x63 || k == 0x43,
        key_char(k) == Some('r') <==> k == 0x72 || k == 0x52,
        key_char(k) == Some('l') <==> k == 0x6c || k == 0x4c,
        key_char(k) == Some('a') <==> k == 0x61 || k == 0x41,
        key_char(k) == Some('f') <==> k == 0x66 || k == 0x46,
        key_char(k) == Some('h') <==> k == 0x68 || k == 0x48,
        key_char(k) == Some('b') <==> k == 0x62 || k == 0x42,
        key_char(k) == Some('e') <==> k == 0x65 || k == 0x45,
        key_char(k) == Some('z') <==> k == 0x7a || k == 0x5a,
        key_char(k) == Some('-') <==> k == 0x2d || k == 0xffad,
        key_char(k) == Some('=') <==> k == 0x3d,
        key_char(k) == Some('+') <==> k == 0x2b || k == 0xffab,
        key_char(k) matches Some(c) ==> {
            ||| c == 'c' || c == 'r' || c == 'l' || c == 'a' || c == 'f' || c == 'h'
            ||| c == 'b' || c == 'e' || c == 'z' || c == '-' || c == '=' || c == '+'
        },
        saves(k) <==> k == 0xff0d || k == 0xff8d || k == 0x20,
        KEY_ESCAPE == 0xff1b,
{
}

} // verus!
