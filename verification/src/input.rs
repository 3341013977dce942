//! The keypad as the machine sees it: which of the sixteen keys are down.
use vstd::prelude::*;
use crate::traits::Input;
use crate::Key;

verus! {

pub const NUM_KEYS: usize = 16;

#[derive(Debug, PartialEq)]
pub enum InputError {
    /// The key of the keyboard stands for no key of the keypad.
    UnsupportedKey,
}

/// The key of the keypad that a key of the keyboard stands for, if it
/// stands for one. The sixteen keys lie on the keyboard as they do on the
/// keypad, in four rows of four:
///
/// | Keys   | Keys   | Keys   | Keys   |
/// |--------|--------|--------|--------|
/// | 1 (0x1) | 2 (0x2) | 3 (0x3) | 4 (0xC) |
/// | Q (0x4) | W (0x5) | E (0x6) | R (0xD) |
/// | A (0x7) | S (0x8) | D (0x9) | F (0xE) |
/// | Z (0xA) | X (0x0) | C (0xB) | V (0xF) |
///
/// A key of the keyboard is given by its keycode, which for these keys is
/// the code of the character on it: of the digit, or of the small letter.
pub open spec fn keypad_key(keycode: i32) -> Option<Key> {
    if keycode == '1' as i32 {
        Some(Key::Num1)
    } else if keycode == '2' as i32 {
        Some(Key::Num2)
    } else if keycode == '3' as i32 {
        Some(Key::Num3)
    } else if keycode == '4' as i32 {
        Some(Key::C)
    } else if keycode == 'q' as i32 {
        Some(Key::Num4)
    } else if keycode == 'w' as i32 {
        Some(Key::Num5)
    } else if keycode == 'e' as i32 {
        Some(Key::Num6)
    } else if keycode == 'r' as i32 {
        Some(Key::D)
    } else if keycode == 'a' as i32 {
        Some(Key::Num7)
    } else if keycode == 's' as i32 {
        Some(Key::Num8)
    } else if keycode == 'd' as i32 {
        Some(Key::Num9)
    } else if keycode == 'f' as i32 {
        Some(Key::E)
    } else if keycode == 'z' as i32 {
        Some(Key::A)
    } else if keycode == 'x' as i32 {
        Some(Key::Num0)
    } else if keycode == 'c' as i32 {
        Some(Key::B)
    } else if keycode == 'v' as i32 {
        Some(Key::F)
    } else {
        None
    }
}

/// The keycode of the key of the keyboard that stands for `key`.
pub open spec fn keycode_of(key: Key) -> i32 {
    match key {
        Key::Num0 => 'x' as i32,
        Key::Num1 => '1' as i32,
        Key::Num2 => '2' as i32,
        Key::Num3 => '3' as i32,
        Key::Num4 => 'q' as i32,
        Key::Num5 => 'w' as i32,
        Key::Num6 => 'e' as i32,
        Key::Num7 => 'a' as i32,
        Key::Num8 => 's' as i32,
        Key::Num9 => 'd' as i32,
        Key::A => 'z' as i32,
        Key::B => 'c' as i32,
        Key::C => '4' as i32,
        Key::D => 'r' as i32,
        Key::E => 'f' as i32,
        Key::F => 'v' as i32,
    }
}

/// Every key of the keypad has one key of the keyboard, and only one.
pub proof fn lemma_one_keyboard_key_each(key: Key, keycode: i32)
    ensures
        keypad_key(keycode_of(key)) == Some(key),
        keypad_key(keycode) == Some(key) ==> keycode == keycode_of(key),
{
}

/// The key of the keypad that the key of the keyboard with this keycode
/// stands for.
pub fn key_from_keycode(keycode: i32) -> (key: Result<Key, InputError>)
    ensures
        key == match keypad_key(keycode) {
            Some(key) => Ok::<Key, InputError>(key),
            None => Err::<Key, InputError>(InputError::UnsupportedKey),
        },
{
    match keycode {
        49 => Ok(Key::Num1),
        50 => Ok(Key::Num2),
        51 => Ok(Key::Num3),
        52 => Ok(Key::C),
        113 => Ok(Key::Num4),
        119 => Ok(Key::Num5),
        101 => Ok(Key::Num6),
        114 => Ok(Key::D),
        97 => Ok(Key::Num7),
        115 => Ok(Key::Num8),
        100 => Ok(Key::Num9),
        102 => Ok(Key::E),
        122 => Ok(Key::A),
        120 => Ok(Key::Num0),
        99 => Ok(Key::B),
        118 => Ok(Key::F),
        _ => Err(InputError::UnsupportedKey),
    }
}

/// The keys of the keypad that are down when the keys of the keyboard
/// with these keycodes are.
pub open spec fn keys_held(keys_pressed: Seq<i32>) -> Set<Key> {
    Set::new(
        |key: Key|
            exists|i: int|
                0 <= i < keys_pressed.len() && keypad_key(#[trigger] keys_pressed[i]) == Some(key),
    )
}

/// The state of the sixteen keys, one flag a key, in the order of their
/// codes.
#[derive(Debug)]
pub struct SdlInputImpl {
    keys: [bool; 16],
}

impl SdlInputImpl {
    /// Creates a new `Input` with all key states set to `false`.
    pub fn new() -> (input: Self)
        ensures
            input.held() == Set::<Key>::empty(),
    {
        let input = Self { keys: [false; NUM_KEYS] };
        assert(input.held() =~= Set::<Key>::empty());
        input
    }

    /// Marks every key as released.
    pub fn release_all(&mut self)
        ensures
            final(self).held() == Set::<Key>::empty(),
    {
        self.keys = [false; NUM_KEYS];
        assert(self.held() =~= Set::<Key>::empty());
    }

    /// Takes a new reading of the keyboard: the keys of the keypad whose
    /// keyboard key is among `keys_pressed` are down, all others are up.
    pub fn update(&mut self, keys_pressed: &Vec<i32>)
        ensures
            final(self).held() == keys_held(keys_pressed@),
    {
        self.release_all();
        let mut i: usize = 0;
        assert(self.held() =~= keys_held(keys_pressed@.take(0)));
        while i < keys_pressed.len()
            invariant
                i <= keys_pressed.len(),
                self.held() == keys_held(keys_pressed@.take(i as int)),
            decreases keys_pressed.len() - i,
        {
            let ghost before = keys_pressed@.take(i as int);
            let ghost after = keys_pressed@.take(i + 1);
            proof {
                assert forall|key: Key| keys_held(after).contains(key) implies keys_held(
                    before,
                ).contains(key) || keypad_key(keys_pressed@[i as int]) == Some(key) by {
                    let j = choose|j: int|
                        0 <= j < after.len() && keypad_key(#[trigger] after[j]) == Some(key);
                    if j < i {
                        assert(before[j] == after[j]);
                    }
                }
                assert forall|key: Key| keys_held(before).contains(key) implies keys_held(
                    after,
                ).contains(key) by {
                    let j = choose|j: int|
                        0 <= j < before.len() && keypad_key(#[trigger] before[j]) == Some(key);
                    assert(after[j] == before[j]);
                }
                assert(after[i as int] == keys_pressed@[i as int]);
            }
            match key_from_keycode(keys_pressed[i]) {
                Ok(chip8_key) => {
                    self.set_pressed(chip8_key, true);
                    assert(self.held() =~= keys_held(after));
                },
                Err(_) => {
                    assert(self.held() =~= keys_held(after));
                },
            }
            i += 1;
        }
        assert(keys_pressed@.take(i as int) =~= keys_pressed@);
    }

    /// Records that `key` is down, or that it is up.
    pub fn set_pressed(&mut self, key: Key, pressed: bool)
        ensures
            final(self).held() == if pressed {
                old(self).held().insert(key)
            } else {
                old(self).held().remove(key)
            },
    {
        let code = key.code();
        self.keys[code as usize] = pressed;
        proof {
            assert forall|k: Key| k.index() == key.index() implies k == key by {
                Key::lemma_index_round_trip(k, 0);
                Key::lemma_index_round_trip(key, 0);
            }
            if pressed {
                assert(self.held() =~= old(self).held().insert(key));
            } else {
                assert(self.held() =~= old(self).held().remove(key));
            }
        }
    }
}

impl Input for SdlInputImpl {
    closed spec fn held(&self) -> Set<Key> {
        Set::new(|key: Key| self.keys@[key.index() as int])
    }

    fn is_pressed(&self, key: Key) -> (pressed: bool) {
        self.keys[key.code() as usize]
    }
}

} // verus!
