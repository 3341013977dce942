//! A CHIP-8 virtual machine: memory, registers, a call stack, two countdown
//! timers, a 64x32 monochrome screen and the interpreter that drives them.
//!
//! The machine is small enough to be described exactly. Every instruction is
//! given as a function on an abstract [`machine::State`], and the executable
//! interpreter in [`chip8`] is proved to compute that function.
use vstd::prelude::*;

pub mod chip8;
pub mod graphics;
pub mod input;
pub mod machine;
pub mod rom;
pub mod theorems;
pub mod timer;
pub mod traits;

verus! {

/// Screen is 64 pixels wide
pub const SCREEN_WIDTH: u16 = 64;

/// Screen is 32 pixels high
pub const SCREEN_HEIGHT: u16 = 32;

pub const SCREEN_SIZE: u16 = SCREEN_WIDTH * SCREEN_HEIGHT;

/// All sprites are 8 pixels wide
pub const SPRITE_WIDTH: u8 = 8;

/// The sixteen keys of the hexadecimal keypad, named by the digit printed
/// on them. Their order is the order of their codes, `0x0` to `0xF`.
#[derive(Debug, Copy, Clone, PartialEq, Eq)]
pub enum Key {
    Num0,
    Num1,
    Num2,
    Num3,
    Num4,
    Num5,
    Num6,
    Num7,
    Num8,
    Num9,
    A,
    B,
    C,
    D,
    E,
    F,
}

/// What can stop the machine.
#[derive(Debug, PartialEq)]
pub enum Chip8Error {
    /// A register that should name a key holds a value above `0xF`.
    InternalKeyError(u8),
    /// The program does not fit between the load address and the end of
    /// memory; the payload is the first address that has no room.
    RomTooBig(u16),
    /// The instruction word matches no instruction.
    UnsupportedOpcode(u16),
    /// A subroutine call while sixteen calls are already open.
    StackOverflow,
    /// A return while no call is open.
    StackUnderflow,
    /// An instruction reads or writes memory past its end; the payload is
    /// the address at which the access starts.
    MemoryOutOfBounds(u16),
}

impl Key {
    /// The code of the key, `0x0` to `0xF`.
    pub open spec fn index(self) -> u8 {
        match self {
            Key::Num0 => 0x0,
            Key::Num1 => 0x1,
            Key::Num2 => 0x2,
            Key::Num3 => 0x3,
            Key::Num4 => 0x4,
            Key::Num5 => 0x5,
            Key::Num6 => 0x6,
            Key::Num7 => 0x7,
            Key::Num8 => 0x8,
            Key::Num9 => 0x9,
            Key::A => 0xA,
            Key::B => 0xB,
            Key::C => 0xC,
            Key::D => 0xD,
            Key::E => 0xE,
            Key::F => 0xF,
        }
    }

    /// The key with the given code. Codes above `0xF` name no key; for
    /// them the result is `Key::F` and carries no meaning.
    pub open spec fn from_index(code: u8) -> Key {
        match code {
            0x0 => Key::Num0,
            0x1 => Key::Num1,
            0x2 => Key::Num2,
            0x3 => Key::Num3,
            0x4 => Key::Num4,
            0x5 => Key::Num5,
            0x6 => Key::Num6,
            0x7 => Key::Num7,
            0x8 => Key::Num8,
            0x9 => Key::Num9,
            0xA => Key::A,
            0xB => Key::B,
            0xC => Key::C,
            0xD => Key::D,
            0xE => Key::E,
            _ => Key::F,
        }
    }

    /// The code of the key, `0x0` to `0xF`.
    pub fn code(self) -> (code: u8)
        ensures
            code == self.index(),
            code <= 0xF,
    {
        match self {
            Key::Num0 => 0x0,
            Key::Num1 => 0x1,
            Key::Num2 => 0x2,
            Key::Num3 => 0x3,
            Key::Num4 => 0x4,
            Key::Num5 => 0x5,
            Key::Num6 => 0x6,
            Key::Num7 => 0x7,
            Key::Num8 => 0x8,
            Key::Num9 => 0x9,
            Key::A => 0xA,
            Key::B => 0xB,
            Key::C => 0xC,
            Key::D => 0xD,
            Key::E => 0xE,
            Key::F => 0xF,
        }
    }

    /// Codes and keys correspond one to one: every key is the key of its
    /// own code, and every code up to `0xF` is the code of its own key.
    pub proof fn lemma_index_round_trip(key: Key, code: u8)
        ensures
            key.index() <= 0xF,
            Key::from_index(key.index()) == key,
            code <= 0xF ==> Key::from_index(code).index() == code,
    {
    }
}

impl TryFrom<u8> for Key {
    type Error = Chip8Error;

    fn try_from(value: u8) -> (key: Result<Key, Chip8Error>) {
        match value {
            0 => Ok(Key::Num0),
            1 => Ok(Key::Num1),
            2 => Ok(Key::Num2),
            3 => Ok(Key::Num3),
            4 => Ok(Key::Num4),
            5 => Ok(Key::Num5),
            6 => Ok(Key::Num6),
            7 => Ok(Key::Num7),
            8 => Ok(Key::Num8),
            9 => Ok(Key::Num9),
            0xA => Ok(Key::A),
            0xB => Ok(Key::B),
            0xC => Ok(Key::C),
            0xD => Ok(Key::D),
            0xE => Ok(Key::E),
            0xF => Ok(Key::F),
            e => Err(Chip8Error::InternalKeyError(e)),
        }
    }
}

impl vstd::std_specs::convert::TryFromSpecImpl<u8> for Key {
    open spec fn obeys_try_from_spec() -> bool {
        true
    }

    /// A code up to `0xF` gives its key; any other value is handed back
    /// inside `InternalKeyError`.
    open spec fn try_from_spec(value: u8) -> Result<Key, Chip8Error> {
        if value <= 0xF {
            Ok(Key::from_index(value))
        } else {
            Err(Chip8Error::InternalKeyError(value))
        }
    }
}

/// Chip 8 has various quirks that differ from extension to extension.
/// This struct contains them, and can be adjusted depending on the game
/// being run.
///
/// A `Default` implementation is provided for the COSMAC VIP, the first Chip 8 platform.
#[derive(Debug, Copy, Clone)]
pub struct Quirks {
    /// Should the `AND`, `OR`, and `XOR` instructions reset the `VF` register?
    ///
    /// Default: `true`.
    pub reset_vf: bool,
    /// Should the `Fx55` and `Fx65` opcodes increment the index register? The
    /// COSMAC VIP incremented the index register for these opcodes.
    /// Games from the 1970s and 1980s might rely on it being incremented.
    /// Modern games might rely on it not being incremented.
    ///
    /// Default: `true`.
    pub increment_ir: bool,
    /// This applies to the shift instructions, `8XY6` and `8XYE`. Should register `VX` be
    /// set to the value of register `VY` before shifting?
    /// The COSMAC VIP would set `VX` to `VY` and then perform the shift. Starting with
    /// CHIP-48 and SUPER-CHIP, `VX` was shifted in place, and `VY` was ignored completely.
    ///
    /// Default: `true`.
    pub use_vy_in_shift: bool,
    /// The COSMAC VIP used `Bnnn` as jump to `nnn + V0`. Turning this option on
    /// uses the value of `Vx` as part of the jump instead of `V0`, where `x` is the
    /// second digit of the instruction.
    ///
    /// Default: `false`.
    pub use_vx_in_jump: bool,
    /// The COSMAC VIP clipped sprites if part of them extended past the screen.
    /// With clipping turned off, the part past the edge is drawn on the opposite side.
    ///
    /// Default: `true`.
    pub clipping: bool,
}

impl Quirks {
    pub fn new(
        reset_vf: bool,
        increment_ir: bool,
        use_vy_in_shift: bool,
        use_vx_in_jump: bool,
        clipping: bool,
    ) -> (quirks: Self)
        ensures
            quirks == (Quirks { reset_vf, increment_ir, use_vy_in_shift, use_vx_in_jump, clipping }),
    {
        Self { reset_vf, increment_ir, use_vy_in_shift, use_vx_in_jump, clipping }
    }

    /// The behaviour of the COSMAC VIP.
    pub open spec fn cosmac_vip() -> Quirks {
        Quirks {
            reset_vf: true,
            increment_ir: true,
            use_vy_in_shift: true,
            use_vx_in_jump: false,
            clipping: true,
        }
    }
}

impl Default for Quirks {
    fn default() -> (quirks: Self)
        ensures
            quirks == Quirks::cosmac_vip(),
    {
        Self {
            reset_vf: true,
            increment_ir: true,
            use_vy_in_shift: true,
            use_vx_in_jump: false,
            clipping: true,
        }
    }
}

/// Options to debug programs and emulator. The machine only carries them:
/// acting on them is left to whoever drives it.
#[derive(Debug, Copy, Clone)]
pub struct DebugOptions {
    /// Prints opcodes as they're interpreted.
    pub print_opcodes: bool,
    /// Dumps the graphics buffer after every draw opcode.
    pub dump_graphics: bool,
}

impl Default for DebugOptions {
    fn default() -> (options: Self)
        ensures
            options == (DebugOptions { print_opcodes: false, dump_graphics: false }),
    {
        Self { print_opcodes: false, dump_graphics: false }
    }
}

} // verus!
