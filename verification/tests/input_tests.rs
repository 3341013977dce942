use wheat::input::{key_from_keycode, InputError, SdlInputImpl};
use wheat::traits::Input;
use wheat::Key;

/// Presses one key of the keyboard and looks for the key of the keypad
/// that should be down.
fn update_test(keyboard_key: char, keypad_key: Key) {
    let mut input = SdlInputImpl::new();
    let key = key_from_keycode(keyboard_key as i32).unwrap();
    assert_eq!(key, keypad_key);
    input.set_pressed(key, true);
    assert_eq!(input.is_pressed(keypad_key), true);

    let mut input = SdlInputImpl::new();
    input.update(&vec![keyboard_key as i32]);
    for code in 0..16u8 {
        let key = Key::try_from(code).unwrap();
        assert_eq!(input.is_pressed(key), key == keypad_key);
    }
}

#[test]
fn test_num1() {
    update_test('1', Key::Num1);
}

#[test]
fn test_num2() {
    update_test('2', Key::Num2);
}

#[test]
fn test_num3() {
    update_test('3', Key::Num3);
}

#[test]
fn test_num4() {
    update_test('4', Key::C);
}

#[test]
fn test_q() {
    update_test('q', Key::Num4);
}

#[test]
fn test_w() {
    update_test('w', Key::Num5);
}

#[test]
fn test_e() {
    update_test('e', Key::Num6);
}

#[test]
fn test_r() {
    update_test('r', Key::D);
}

#[test]
fn test_a() {
    update_test('a', Key::Num7);
}

#[test]
fn test_s() {
    update_test('s', Key::Num8);
}

#[test]
fn test_d() {
    update_test('d', Key::Num9);
}

#[test]
fn test_f() {
    update_test('f', Key::E);
}

#[test]
fn test_z() {
    update_test('z', Key::A);
}

#[test]
fn test_x() {
    update_test('x', Key::Num0);
}

#[test]
fn test_c() {
    update_test('c', Key::B);
}

#[test]
fn test_v() {
    update_test('v', Key::F);
}

#[test]
fn test_unsupported_keys() {
    for keycode in [0, 13, 27, 32, '0' as i32, '5' as i32, 'b' as i32, 'Q' as i32, -1, i32::MAX] {
        assert_eq!(key_from_keycode(keycode), Err(InputError::UnsupportedKey));
    }
}

#[test]
fn test_update_replaces_the_reading() {
    let mut input = SdlInputImpl::new();
    input.update(&vec!['q' as i32, 13, 'v' as i32, 'q' as i32]);
    assert!(input.is_pressed(Key::Num4));
    assert!(input.is_pressed(Key::F));
    assert!(!input.is_pressed(Key::Num1));

    input.update(&vec!['1' as i32]);
    assert!(input.is_pressed(Key::Num1));
    assert!(!input.is_pressed(Key::Num4));
    assert!(!input.is_pressed(Key::F));

    input.update(&vec![]);
    for code in 0..16u8 {
        assert!(!input.is_pressed(Key::try_from(code).unwrap()));
    }
}
