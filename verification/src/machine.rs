//! The machine as a mathematical object: its state, and what every
//! instruction makes of it.
//!
//! Nothing here runs. The interpreter in [`crate::chip8`] is proved to
//! follow these definitions step by step.
use vstd::prelude::*;
use crate::chip8::{OpcodeResult, ProgramCounter, WaitForKeyState, HEX_DIGITS};
use crate::graphics::{draw_sprite, sprite_collides, valid_grid, blank_grid};
use crate::timer::{drained, TimerOperation};
use crate::{Chip8Error, DebugOptions, Key, Quirks};

verus! {

/// Everything the machine holds at one moment.
pub struct State {
    /// The instruction word that was fetched last.
    pub opcode: u16,
    /// The 4096 bytes of memory.
    pub memory: Seq<u8>,
    /// The index register (I).
    pub ir: u16,
    /// The program counter.
    pub pc: u16,
    pub delay_timer: u8,
    /// The registers `V0` to `VF`.
    pub registers: Seq<u8>,
    pub sound_timer: u8,
    /// The sixteen slots for return addresses.
    pub stack: Seq<u16>,
    /// The number of calls that are open; the next free slot of the stack.
    pub sp: u8,
    /// The screen, 32 rows of 64 pixels.
    pub screen: Seq<Seq<u8>>,
    /// Whether the screen was drawn on in the current cycle.
    pub draw_on_screen: bool,
    /// The register that the key awaited by `Fx0A` goes to.
    pub wait_for_keypress_register: u8,
    /// Where the wait for a key stands.
    pub wait_for_key_state: WaitForKeyState,
    pub quirks: Quirks,
    pub options: DebugOptions,
}

/// The second hexadecimal digit of an instruction: the register `x`.
pub open spec fn reg_x(opcode: u16) -> int {
    (opcode as int / 0x100) % 0x10
}

/// The third hexadecimal digit of an instruction: the register `y`.
pub open spec fn reg_y(opcode: u16) -> int {
    (opcode as int / 0x10) % 0x10
}

/// The first hexadecimal digit of an instruction, which selects its family.
pub open spec fn family(opcode: u16) -> u8 {
    (opcode / 0x1000) as u8
}

/// The last hexadecimal digit of an instruction.
pub open spec fn low_nibble(opcode: u16) -> u8 {
    (opcode % 0x10) as u8
}

/// The last two hexadecimal digits of an instruction: the constant `kk`.
pub open spec fn low_byte(opcode: u16) -> u8 {
    (opcode % 0x100) as u8
}

/// The last three hexadecimal digits of an instruction: the address `nnn`.
pub open spec fn address(opcode: u16) -> u16 {
    opcode % 0x1000
}

/// The instruction word made of two bytes, the first one in front.
pub open spec fn word(high: u8, low: u8) -> u16 {
    (high * 0x100 + low) as u16
}

/// Memory when the machine is switched on: the sixteen digit sprites, five
/// bytes each, and zeros after them.
pub open spec fn initial_memory() -> Seq<u8> {
    Seq::new(
        4096,
        |a: int|
            if a < 80 {
                HEX_DIGITS[a]
            } else {
                0u8
            },
    )
}

/// Whether any key is held.
pub open spec fn any_held(held: Set<Key>) -> bool {
    exists|key: Key| held.contains(key)
}

/// Whether a key with a code below `bound` is held.
pub open spec fn held_below(held: Set<Key>, bound: int) -> bool {
    exists|code: u8| code < bound && code < 16 && #[trigger] held.contains(Key::from_index(code))
}

/// A key is held exactly if one of the sixteen codes names a key that is
/// held.
pub proof fn lemma_any_held(held: Set<Key>)
    ensures
        any_held(held) == held_below(held, 16),
{
    if any_held(held) {
        let key = choose|key: Key| held.contains(key);
        Key::lemma_index_round_trip(key, 0);
        assert(held.contains(Key::from_index(key.index())));
    }
}

/// The lowest code from `from` on whose key is held, if there is one.
pub open spec fn first_held_from(held: Set<Key>, from: u8) -> Option<u8>
    decreases 16 - from,
{
    if from >= 16 {
        None
    } else if held.contains(Key::from_index(from)) {
        Some(from)
    } else {
        first_held_from(held, (from + 1) as u8)
    }
}

/// The lowest code whose key is held, if there is one.
pub open spec fn first_held(held: Set<Key>) -> Option<u8> {
    first_held_from(held, 0)
}

/// The instruction is done and the next one follows.
pub open spec fn next(s: State) -> (State, OpcodeResult) {
    (s, Ok(ProgramCounter::Next))
}

/// The instruction is done; the next one is passed over if `skip` holds.
pub open spec fn skip_if(s: State, skip: bool) -> (State, OpcodeResult) {
    (
        s,
        Ok(
            if skip {
                ProgramCounter::Skip
            } else {
                ProgramCounter::Next
            },
        ),
    )
}

/// The instruction word names no instruction: nothing changes.
pub open spec fn unknown_opcode(s: State) -> (State, OpcodeResult) {
    (s, Err(Chip8Error::UnsupportedOpcode(s.opcode)))
}

/// The instruction fails with `error`: nothing changes.
pub open spec fn fails(s: State, error: Chip8Error) -> (State, OpcodeResult) {
    (s, Err(error))
}

impl State {
    /// The sizes are right, the stack pointer is within the stack, the
    /// screen is a grid, and while a key is awaited the program counter
    /// stays on the instruction that waits.
    pub open spec fn wf(self) -> bool {
        &&& self.memory.len() == 4096
        &&& self.registers.len() == 16
        &&& self.stack.len() == 16
        &&& self.sp <= 16
        &&& self.wait_for_keypress_register < 16
        &&& valid_grid(self.screen)
        &&& !(self.wait_for_key_state is Idle) ==> self.fetchable()
    }

    /// Whether the two bytes at the program counter lie within memory.
    pub open spec fn fetchable(self) -> bool {
        self.pc + 1 < 4096
    }

    /// The state of a machine that was just switched on.
    pub open spec fn initial(screen: Seq<Seq<u8>>, quirks: Quirks, options: DebugOptions) -> State {
        State {
            opcode: 0,
            memory: initial_memory(),
            ir: 0,
            pc: 0x200,
            delay_timer: 0,
            registers: Seq::new(16, |i: int| 0u8),
            sound_timer: 0,
            stack: Seq::new(16, |i: int| 0u16),
            sp: 0,
            screen,
            draw_on_screen: false,
            wait_for_keypress_register: 0,
            wait_for_key_state: WaitForKeyState::Idle,
            quirks,
            options,
        }
    }

    /// The value of register `x` of the current instruction.
    pub open spec fn vx(self) -> u8 {
        self.registers[reg_x(self.opcode)]
    }

    /// The value of register `y` of the current instruction.
    pub open spec fn vy(self) -> u8 {
        self.registers[reg_y(self.opcode)]
    }

    /// This state with register `i` set to `value`.
    pub open spec fn with_register(self, i: int, value: u8) -> State {
        State { registers: self.registers.update(i, value), ..self }
    }

    /// This state with the flag register `VF` set to 1 if `flag` holds and
    /// to 0 if not.
    pub open spec fn with_flag(self, flag: bool) -> State {
        self.with_register(
            0xF,
            if flag {
                1
            } else {
                0
            },
        )
    }

    /// This state with register `x` of the current instruction set to
    /// `value`.
    pub open spec fn with_vx(self, value: u8) -> State {
        self.with_register(reg_x(self.opcode), value)
    }

    /// This state with the index register set to `ir`.
    pub open spec fn with_ir(self, ir: u16) -> State {
        State { ir, ..self }
    }

    /// This state with the wait for a key at `wait`.
    pub open spec fn with_wait(self, wait: WaitForKeyState) -> State {
        State { wait_for_key_state: wait, ..self }
    }

    /// This state with a program loaded: the bytes of `rom` from `0x200`
    /// on, as many as there is room for.
    pub open spec fn with_rom(self, rom: Seq<u8>) -> State {
        State {
            memory: Seq::new(
                4096,
                |a: int|
                    if 0x200 <= a < 0x200 + rom.len() {
                        rom[a - 0x200]
                    } else {
                        self.memory[a]
                    },
            ),
            ..self
        }
    }

    /// This state after the timer events `ops`: each of them counts both
    /// timers down, and neither goes below zero.
    pub open spec fn with_timers_drained(self, ops: Seq<TimerOperation>) -> State {
        State {
            delay_timer: drained(self.delay_timer, ops),
            sound_timer: drained(self.sound_timer, ops),
            ..self
        }
    }

    /// This state with the program counter moved as `action` says.
    pub open spec fn with_pc_moved(self, action: ProgramCounter) -> State {
        match action {
            ProgramCounter::Next => State { pc: (self.pc + 2) as u16, ..self },
            ProgramCounter::Skip => State { pc: (self.pc + 4) as u16, ..self },
            ProgramCounter::Jump(addr) => State { pc: addr, ..self },
            ProgramCounter::Unchanged | ProgramCounter::Pause => self,
        }
    }
}

/// `00E0` clears the screen. `00EE` returns from a subroutine: the last
/// return address leaves the stack and becomes the program counter; with
/// no call open it fails.
pub open spec fn opcode_0x0yyy(s: State) -> (State, OpcodeResult) {
    if address(s.opcode) == 0x0E0 {
        next(State { screen: blank_grid(), draw_on_screen: true, ..s })
    } else if address(s.opcode) == 0x0EE {
        if s.sp == 0 {
            fails(s, Chip8Error::StackUnderflow)
        } else {
            (State { sp: (s.sp - 1) as u8, ..s }, Ok(ProgramCounter::Jump(s.stack[s.sp - 1])))
        }
    } else {
        unknown_opcode(s)
    }
}

/// `1nnn` jumps to `nnn`.
pub open spec fn opcode_0x1yyy(s: State) -> (State, OpcodeResult) {
    (s, Ok(ProgramCounter::Jump(address(s.opcode))))
}

/// `2nnn` calls the subroutine at `nnn`: the address of the instruction
/// after this one goes on the stack. With sixteen calls open it fails.
pub open spec fn opcode_0x2yyy(s: State) -> (State, OpcodeResult) {
    if s.sp >= 16 {
        fails(s, Chip8Error::StackOverflow)
    } else {
        (
            State {
                stack: s.stack.update(s.sp as int, (s.pc + 2) as u16),
                sp: (s.sp + 1) as u8,
                ..s
            },
            Ok(ProgramCounter::Jump(address(s.opcode))),
        )
    }
}

/// `3xkk` skips the next instruction if `Vx == kk`.
pub open spec fn opcode_0x3yyy(s: State) -> (State, OpcodeResult) {
    skip_if(s, s.vx() == low_byte(s.opcode))
}

/// `4xkk` skips the next instruction if `Vx != kk`.
pub open spec fn opcode_0x4yyy(s: State) -> (State, OpcodeResult) {
    skip_if(s, s.vx() != low_byte(s.opcode))
}

/// `5xy0` skips the next instruction if `Vx == Vy`.
pub open spec fn opcode_0x5yyy(s: State) -> (State, OpcodeResult) {
    if low_nibble(s.opcode) == 0 {
        skip_if(s, s.vx() == s.vy())
    } else {
        unknown_opcode(s)
    }
}

/// `6xkk` sets `Vx` to `kk`.
pub open spec fn opcode_0x6yyy(s: State) -> (State, OpcodeResult) {
    next(s.with_vx(low_byte(s.opcode)))
}

/// `7xkk` adds `kk` to `Vx`, dropping the carry and leaving `VF` alone.
pub open spec fn opcode_0x7yyy(s: State) -> (State, OpcodeResult) {
    next(s.with_vx(((s.vx() + low_byte(s.opcode)) % 256) as u8))
}

/// The value that a shift instruction shifts: `Vy`, or with the quirk
/// switched off `Vx`.
pub open spec fn shift_source(s: State) -> u8 {
    if s.quirks.use_vy_in_shift {
        s.vy()
    } else {
        s.vx()
    }
}

/// After `8xy1`, `8xy2` and `8xy3`: `VF` is cleared if the quirk asks for it.
pub open spec fn after_logic(s: State) -> State {
    if s.quirks.reset_vf {
        s.with_flag(false)
    } else {
        s
    }
}

/// The instructions `8xy0` to `8xy7` and `8xyE`, which combine `Vx` and
/// `Vy`. Where an instruction sets the flag, `Vx` is written first and
/// `VF` after it, so that with `x == 0xF` the flag is what stays.
pub open spec fn opcode_0x8yyy(s: State) -> (State, OpcodeResult) {
    let vx = s.vx();
    let vy = s.vy();
    match low_nibble(s.opcode) {
        0x0 => next(s.with_vx(vy)),
        0x1 => next(after_logic(s.with_vx(vx | vy))),
        0x2 => next(after_logic(s.with_vx(vx & vy))),
        0x3 => next(after_logic(s.with_vx(vx ^ vy))),
        0x4 => next(s.with_vx(((vx + vy) % 256) as u8).with_flag(vx + vy > 255)),
        0x5 => next(s.with_vx(((vx - vy) % 256) as u8).with_flag(vx >= vy)),
        0x6 => {
            let v = shift_source(s);
            next(s.with_vx(v / 2).with_flag(v % 2 == 1))
        },
        0x7 => next(s.with_vx(((vy - vx) % 256) as u8).with_flag(vy >= vx)),
        0xE => {
            let v = shift_source(s);
            next(s.with_vx(((v * 2) % 256) as u8).with_flag(v >= 128))
        },
        _ => unknown_opcode(s),
    }
}

/// `9xy0` skips the next instruction if `Vx != Vy`.
pub open spec fn opcode_0x9yyy(s: State) -> (State, OpcodeResult) {
    if low_nibble(s.opcode) == 0 {
        skip_if(s, s.vx() != s.vy())
    } else {
        unknown_opcode(s)
    }
}

/// `Annn` sets the index register to `nnn`.
pub open spec fn opcode_0xayyy(s: State) -> (State, OpcodeResult) {
    next(s.with_ir(address(s.opcode)))
}

/// `Bnnn` jumps to `nnn + V0`, or with the quirk to `nnn + Vx`.
pub open spec fn opcode_0xbyyy(s: State) -> (State, OpcodeResult) {
    let offset = if s.quirks.use_vx_in_jump {
        s.vx()
    } else {
        s.registers[0]
    };
    (s, Ok(ProgramCounter::Jump((address(s.opcode) + offset) as u16)))
}

/// `Cxkk` sets `Vx` to the bits of `random` that `kk` lets through.
pub open spec fn opcode_0xcyyy(s: State, random: u8) -> (State, OpcodeResult) {
    next(s.with_vx(random & low_byte(s.opcode)))
}

/// `Dxyn` draws the `n` bytes at the index register as a sprite at column
/// `Vx`, row `Vy`, and sets `VF` to 1 if a lit pixel went dark and to 0 if
/// none did. It fails if the sprite is not all within memory.
pub open spec fn opcode_0xdyyy(s: State) -> (State, OpcodeResult) {
    let n = low_nibble(s.opcode);
    if s.ir + n > 4096 {
        fails(s, Chip8Error::MemoryOutOfBounds(s.ir))
    } else {
        let x0 = s.vx() as int % 64;
        let y0 = s.vy() as int % 32;
        let sprite = s.memory.subrange(s.ir as int, s.ir + n);
        let drawn = State {
            screen: draw_sprite(s.screen, x0, y0, sprite, s.quirks.clipping),
            draw_on_screen: true,
            ..s
        };
        next(drawn.with_flag(sprite_collides(s.screen, x0, y0, sprite, s.quirks.clipping)))
    }
}

/// `Ex9E` skips the next instruction if the key whose code is in `Vx` is
/// held, `ExA1` if it is not. Both fail if `Vx` is no key code.
pub open spec fn opcode_0xeyyy(s: State, held: Set<Key>) -> (State, OpcodeResult) {
    let pressed = held.contains(Key::from_index(s.vx()));
    if low_byte(s.opcode) != 0x9E && low_byte(s.opcode) != 0xA1 {
        unknown_opcode(s)
    } else if s.vx() > 0xF {
        fails(s, Chip8Error::InternalKeyError(s.vx()))
    } else if low_byte(s.opcode) == 0x9E {
        skip_if(s, pressed)
    } else {
        skip_if(s, !pressed)
    }
}

/// Memory after `Fx33`: the hundreds, tens and ones of `Vx` at the index
/// register and the two bytes after it.
pub open spec fn with_decimal_digits(s: State) -> State {
    let v = s.vx();
    State {
        memory: s.memory.update(s.ir as int, v / 100).update(s.ir + 1, (v / 10) % 10).update(
            s.ir + 2,
            v % 10,
        ),
        ..s
    }
}

/// The index register after `Fx55` and `Fx65`: moved past the last byte
/// that was copied, or with the quirk switched off left where it was.
pub open spec fn after_bulk_copy(s: State) -> State {
    if s.quirks.increment_ir {
        s.with_ir((s.ir + reg_x(s.opcode) + 1) as u16)
    } else {
        s
    }
}

/// Memory with the first `count` registers written from the index
/// register on.
pub open spec fn memory_with_registers(s: State, count: int) -> Seq<u8> {
    Seq::new(
        4096,
        |a: int|
            if s.ir <= a < s.ir + count {
                s.registers[a - s.ir]
            } else {
                s.memory[a]
            },
    )
}

/// The registers with the first `count` of them read from memory, from
/// the index register on.
pub open spec fn registers_from_memory(s: State, count: int) -> Seq<u8> {
    Seq::new(
        16,
        |i: int|
            if i < count {
                s.memory[s.ir + i]
            } else {
                s.registers[i]
            },
    )
}

/// The state after `Fx55` has written `V0` to `Vx` to memory.
pub open spec fn with_registers_stored(s: State) -> State {
    State { memory: memory_with_registers(s, reg_x(s.opcode) + 1), ..s }
}

/// The state after `Fx65` has read `V0` to `Vx` from memory.
pub open spec fn with_registers_loaded(s: State) -> State {
    State { registers: registers_from_memory(s, reg_x(s.opcode) + 1), ..s }
}

/// The instructions `Fx07` to `Fx65`: the timers, the index register, and
/// the wait for a key. Those that touch memory fail if they would pass
/// its end.
pub open spec fn opcode_0xfyyy(s: State) -> (State, OpcodeResult) {
    let x = reg_x(s.opcode);
    let vx = s.vx();
    match low_byte(s.opcode) {
        0x07 => next(s.with_vx(s.delay_timer)),
        0x0A => (
            if s.wait_for_key_state is Idle {
                State {
                    wait_for_keypress_register: x as u8,
                    wait_for_key_state: WaitForKeyState::WaitForNoKeyPressed,
                    ..s
                }
            } else {
                s
            },
            Ok(ProgramCounter::Pause),
        ),
        0x15 => next(State { delay_timer: vx, ..s }),
        0x18 => next(State { sound_timer: vx, ..s }),
        0x1E => next(s.with_ir(((s.ir + vx) % 0x10000) as u16)),
        0x29 => next(s.with_ir((vx * 5) as u16)),
        0x33 => if s.ir + 2 >= 4096 {
            fails(s, Chip8Error::MemoryOutOfBounds(s.ir))
        } else {
            next(with_decimal_digits(s))
        },
        0x55 => if s.ir + x >= 4096 {
            fails(s, Chip8Error::MemoryOutOfBounds(s.ir))
        } else {
            next(after_bulk_copy(with_registers_stored(s)))
        },
        0x65 => if s.ir + x >= 4096 {
            fails(s, Chip8Error::MemoryOutOfBounds(s.ir))
        } else {
            next(after_bulk_copy(with_registers_loaded(s)))
        },
        _ => unknown_opcode(s),
    }
}

/// One step of the wait for a key, given the keys that are held.
///
/// Not waiting, nothing happens. Otherwise the machine first waits until
/// no key is held, then until one is, whose code goes to the register that
/// `Fx0A` named, and then until no key is held again; only then does the
/// program go on, with the instruction after `Fx0A`.
pub open spec fn check_and_process_0xfx0a(s: State, held: Set<Key>) -> (State, OpcodeResult) {
    match s.wait_for_key_state {
        WaitForKeyState::Idle => (s, Ok(ProgramCounter::Unchanged)),
        WaitForKeyState::WaitForNoKeyPressed => (
            if any_held(held) {
                s
            } else {
                s.with_wait(WaitForKeyState::CheckForKeyPressed)
            },
            Ok(ProgramCounter::Pause),
        ),
        WaitForKeyState::CheckForKeyPressed => (
            match first_held(held) {
                Some(code) => s.with_register(s.wait_for_keypress_register as int, code).with_wait(
                    WaitForKeyState::WaitForKeyRelease,
                ),
                None => s,
            },
            Ok(ProgramCounter::Pause),
        ),
        WaitForKeyState::WaitForKeyRelease => if any_held(held) {
            (s, Ok(ProgramCounter::Pause))
        } else {
            (s.with_wait(WaitForKeyState::Idle), Ok(ProgramCounter::Next))
        },
    }
}

/// The instruction in `s.opcode`, carried out. `random` is the byte that
/// `Cxkk` draws; no other instruction looks at it.
pub open spec fn dispatch(s: State, held: Set<Key>, random: u8) -> (State, OpcodeResult) {
    match family(s.opcode) {
        0x0 => opcode_0x0yyy(s),
        0x1 => opcode_0x1yyy(s),
        0x2 => opcode_0x2yyy(s),
        0x3 => opcode_0x3yyy(s),
        0x4 => opcode_0x4yyy(s),
        0x5 => opcode_0x5yyy(s),
        0x6 => opcode_0x6yyy(s),
        0x7 => opcode_0x7yyy(s),
        0x8 => opcode_0x8yyy(s),
        0x9 => opcode_0x9yyy(s),
        0xA => opcode_0xayyy(s),
        0xB => opcode_0xbyyy(s),
        0xC => opcode_0xcyyy(s, random),
        0xD => opcode_0xdyyy(s),
        0xE => opcode_0xeyyy(s, held),
        _ => opcode_0xfyyy(s),
    }
}

/// The instruction at the program counter, fetched and carried out. It
/// fails if its two bytes are not both within memory.
pub open spec fn emulate_instruction(s: State, held: Set<Key>, random: u8) -> (State, OpcodeResult) {
    if !s.fetchable() {
        fails(s, Chip8Error::MemoryOutOfBounds(s.pc))
    } else {
        dispatch(
            State { opcode: word(s.memory[s.pc as int], s.memory[s.pc + 1]), ..s },
            held,
            random,
        )
    }
}

/// The part of a cycle that belongs to the program: the wait for a key
/// moves one step or, if the machine is not waiting, one instruction is
/// carried out; then the program counter moves.
pub open spec fn run_instruction(s: State, held: Set<Key>, random: u8) -> (State, Result<
    (),
    Chip8Error,
>) {
    let fresh = State { draw_on_screen: false, ..s };
    let (after, action) = if fresh.wait_for_key_state is Idle {
        emulate_instruction(fresh, held, random)
    } else {
        check_and_process_0xfx0a(fresh, held)
    };
    match action {
        Ok(action) => (after.with_pc_moved(action), Ok(())),
        Err(error) => (after, Err(error)),
    }
}

/// One whole cycle: the program's part, and after it the timer events
/// that have arrived. A cycle that fails leaves the timers alone.
pub open spec fn emulate_cycle(
    s: State,
    held: Set<Key>,
    random: u8,
    ops: Seq<TimerOperation>,
) -> (State, Result<(), Chip8Error>) {
    let (after, result) = run_instruction(s, held, random);
    match result {
        Ok(_) => (after.with_timers_drained(ops), Ok(())),
        Err(error) => (after, Err(error)),
    }
}

} // verus!
