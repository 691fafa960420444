use sharew::keys;
use sharew::keys::{is_enter_or_space, is_escape, keysym_to_ch};
use xkeysym::key;

#[test]
fn letters_of_either_case_stand_for_the_small_letter() {
    let pairs = [
        (key::c, key::C, "c"),
        (key::r, key::R, "r"),
        (key::l, key::L, "l"),
        (key::a, key::A, "a"),
        (key::f, key::F, "f"),
        (key::h, key::H, "h"),
        (key::b, key::B, "b"),
        (key::e, key::E, "e"),
        (key::z, key::Z, "z"),
    ];
    for (small, capital, ch) in pairs {
        assert_eq!(keysym_to_ch(small), Some(ch));
        assert_eq!(keysym_to_ch(capital), Some(ch));
    }
}

#[test]
fn signs_also_come_from_the_keypad() {
    assert_eq!(keysym_to_ch(key::minus), Some("-"));
    assert_eq!(keysym_to_ch(key::KP_Subtract), Some("-"));
    assert_eq!(keysym_to_ch(key::equal), Some("="));
    assert_eq!(keysym_to_ch(key::plus), Some("+"));
    assert_eq!(keysym_to_ch(key::KP_Add), Some("+"));
}

#[test]
fn other_keys_stand_for_nothing() {
    for k in [key::d, key::x, key::F1, key::Escape, key::Return, key::space, key::underscore, 0] {
        assert_eq!(keysym_to_ch(k), None);
    }
}

#[test]
fn special_keys() {
    assert!(is_escape(key::Escape));
    assert!(!is_escape(key::Return));
    assert!(is_enter_or_space(key::Return));
    assert!(is_enter_or_space(key::KP_Enter));
    assert!(is_enter_or_space(key::space));
    assert!(!is_enter_or_space(key::Escape));
    assert!(!is_enter_or_space(key::c));
}

#[test]
fn key_symbols_are_those_of_the_protocol() {
    assert_eq!(keys::KEY_SPACE, key::space);
    assert_eq!(keys::KEY_PLUS, key::plus);
    assert_eq!(keys::KEY_MINUS, key::minus);
    assert_eq!(keys::KEY_EQUAL, key::equal);
    assert_eq!(keys::KEY_RETURN, key::Return);
    assert_eq!(keys::KEY_ESCAPE, key::Escape);
    assert_eq!(keys::KEY_KP_ENTER, key::KP_Enter);
    assert_eq!(keys::KEY_KP_ADD, key::KP_Add);
    assert_eq!(keys::KEY_KP_SUBTRACT, key::KP_Subtract);
}
