//! The interpreter: the machine's state held in memory, and the code that
//! moves it from one cycle to the next.
use vstd::prelude::*;
use rand::Rng;
use std::sync::mpsc::Receiver;
use crate::graphics::valid_grid;
use crate::machine;
use crate::machine::State;
use crate::timer::{drain, pending, TimerOperation};
use crate::traits::{GraphicsBuffer, Input, Rom};
use crate::{Chip8Error, DebugOptions, Key, Quirks};

verus! {

/// The default address at which the application is loaded at
pub const APP_LOCATION: u16 = 0x200;

/// Total memory available to Chip8
pub const MEMORY_SIZE: usize = 4096;

/// Total size of the stack
pub const STACK_SIZE: usize = 16;

/// Number of registers available
pub const NUM_REGISTERS: usize = 16;

/// Register size in bytes.
pub const REG_SIZE: u16 = 1;

pub const OPCODE_SIZE: u16 = 2;

pub const FLAG_REGISTER: usize = 0xF;

/// Chip8 provides hexadecimal digit sprites stored in memory from 0x000 on.
pub const HEX_DIGITS: [u8; 80] = [
    0xF0, 0x90, 0x90, 0x90, 0xF0, // Number: 0
    0x20, 0x60, 0x20, 0x20, 0x70, // Number: 1
    0xF0, 0x10, 0xF0, 0x80, 0xF0, // Number: 2
    0xF0, 0x10, 0xF0, 0x10, 0xF0, // Number: 3
    0x90, 0x90, 0xF0, 0x10, 0x10, // Number: 4
    0xF0, 0x80, 0xF0, 0x10, 0xF0, // Number: 5
    0xF0, 0x80, 0xF0, 0x90, 0xF0, // Number: 6
    0xF0, 0x10, 0x20, 0x40, 0x40, // Number: 7
    0xF0, 0x90, 0xF0, 0x90, 0xF0, // Number: 8
    0xF0, 0x90, 0xF0, 0x10, 0xF0, // Number: 9
    0xF0, 0x90, 0xF0, 0x90, 0x90, // Letter: A
    0xE0, 0x90, 0xE0, 0x90, 0xE0, // Letter: B
    0xF0, 0x80, 0x80, 0x80, 0xF0, // Letter: C
    0xE0, 0x90, 0x90, 0x90, 0xE0, // Letter: D
    0xF0, 0x80, 0xF0, 0x80, 0xF0, // Letter: E
    0xF0, 0x80, 0xF0, 0x80, 0x80, // Letter: F
];

/// Used for keycode `0xFX0A` (wait for keypress). This opcode
/// requires halting the whole emulator until a key is pressed
/// and released. This is part of a state machine that achieves that.
#[derive(Debug, Copy, Clone, PartialEq)]
pub enum WaitForKeyState {
    Idle,
    WaitForNoKeyPressed,
    CheckForKeyPressed,
    WaitForKeyRelease,
}

/// What an instruction asks of the program counter.
#[derive(Debug, Copy, Clone, PartialEq)]
pub enum ProgramCounter {
    /// Nothing was carried out.
    Unchanged,
    /// Go on with the next instruction.
    Next,
    /// Pass over the next instruction.
    Skip,
    /// Go on at this address.
    Jump(u16),
    /// Stay on this instruction.
    Pause,
}

pub type OpcodeResult = Result<ProgramCounter, Chip8Error>;

/// What a cycle hands to whoever drives the machine.
pub struct Chip8OutputState<'a, G> {
    /// Whether the buzzer sounds: the sound timer is above zero.
    pub sound_on: bool,
    /// Whether the screen was drawn on in this cycle.
    pub draw_on_screen: bool,
    pub graphics: &'a G,
}

impl<'a, G> Chip8OutputState<'a, G> {
    pub fn new(sound_on: bool, draw_on_screen: bool, graphics_buffer: &'a G) -> (output: Self)
        ensures
            output.sound_on == sound_on,
            output.draw_on_screen == draw_on_screen,
            output.graphics == graphics_buffer,
    {
        Self { sound_on, draw_on_screen, graphics: graphics_buffer }
    }
}

/// A number from 0 to 255, drawn with `Rng::gen_range` from the generator
/// of the current thread, `rand::thread_rng`. Which number it is cannot
/// be known: only the range is.
#[verifier::external_body]
fn random_below_256() -> (value: i32)
    ensures
        0 <= value < 256,
{
    rand::thread_rng().gen_range(0..256)
}

/// The sum of two bytes without its carry, and the carry: 1 if the sum is
/// above 255, else 0.
fn add_with_carry(a: u8, b: u8) -> (sum: (u8, u8))
    ensures
        sum.0 == (a + b) % 256,
        sum.1 == (if a + b > 255 { 1u8 } else { 0u8 }),
{
    let flag: u8 = if a > u8::MAX - b {
        1
    } else {
        0
    };
    (a.wrapping_add(b), flag)
}

/// The difference `a - b` of two bytes, taken modulo 256, and the flag
/// that no borrow was needed: 1 if `a >= b`, else 0.
fn sub_with_borrow(a: u8, b: u8) -> (difference: (u8, u8))
    ensures
        difference.0 == (a - b) % 256,
        difference.1 == (if a >= b { 1u8 } else { 0u8 }),
{
    let flag: u8 = if a >= b {
        1
    } else {
        0
    };
    (a.wrapping_sub(b), flag)
}

/// A byte shifted right by one bit, and the bit that fell out.
fn shift_right(value: u8) -> (shifted: (u8, u8))
    ensures
        shifted.0 == value / 2,
        shifted.1 == (if value % 2 == 1 { 1u8 } else { 0u8 }),
{
    let flag = value & 0x1;
    assert(value & 0x1 == value % 2) by (bit_vector);
    assert(value >> 1 == value / 2) by (bit_vector);
    (value >> 1, flag)
}

/// A byte shifted left by one bit, and the bit that fell out.
fn shift_left(value: u8) -> (shifted: (u8, u8))
    ensures
        shifted.0 == (value * 2) % 256,
        shifted.1 == (if value >= 128 { 1u8 } else { 0u8 }),
{
    let flag = (value >> 7) & 0x1;
    assert((value >> 7) & 0x1 == (if value >= 128 { 1u8 } else { 0u8 })) by (bit_vector);
    assert(value << 1 == (value * 2) % 256) by (bit_vector);
    (value << 1, flag)
}

/// Whether any of the sixteen keys is held.
fn any_key_pressed(input: &impl Input) -> (pressed: bool)
    ensures
        pressed == machine::any_held(input.held()),
{
    let mut key_pressed = false;
    let mut i: u8 = 0;
    while i < 16
        invariant
            i <= 16,
            key_pressed == machine::held_below(input.held(), i as int),
        decreases 16 - i,
    {
        match Key::try_from(i) {
            Ok(key) => {
                if input.is_pressed(key) {
                    key_pressed = true;
                }
            },
            Err(_) => {},
        }
        i += 1;
    }
    proof {
        machine::lemma_any_held(input.held());
    }
    key_pressed
}

/// The lowest code whose key is held, if any is.
fn first_key_pressed(input: &impl Input) -> (code: Option<u8>)
    ensures
        code == machine::first_held(input.held()),
{
    let mut i: u8 = 0;
    while i < 16
        invariant
            i <= 16,
            machine::first_held(input.held()) == machine::first_held_from(input.held(), i),
        decreases 16 - i,
    {
        match Key::try_from(i) {
            Ok(key) => {
                if input.is_pressed(key) {
                    return Some(i);
                }
            },
            Err(_) => {},
        }
        i += 1;
    }
    None
}

#[derive(Debug)]
pub struct Chip8<G> {
    /// Current opcode
    opcode: u16,
    /// The system has 4096 bytes of memory.
    memory: Vec<u8>,
    /// The index register (I)
    ir: u16,
    /// The program counter
    pc: u16,
    delay_timer: u8,
    registers: Vec<u8>,
    /// When this timer reaches 0, the system's buzzer sounds
    sound_timer: u8,
    /// Function call stack. When a jump is performed, the current location
    /// is pushed on the stack so it can be retrieved later.
    stack: Vec<u16>,
    /// The stack pointer
    sp: u8,
    /// Screen that sprites get drawn on. 64x32 pixels
    graphics: G,
    timer_rx: Receiver<TimerOperation>,
    draw_on_screen: bool,
    wait_for_keypress_register: u8,
    wait_for_key_state: WaitForKeyState,
    quirks: Quirks,
    options: DebugOptions,
}

impl<G: GraphicsBuffer> View for Chip8<G> {
    type V = State;

    closed spec fn view(&self) -> State {
        State {
            opcode: self.opcode,
            memory: self.memory@,
            ir: self.ir,
            pc: self.pc,
            delay_timer: self.delay_timer,
            registers: self.registers@,
            sound_timer: self.sound_timer,
            stack: self.stack@,
            sp: self.sp,
            screen: self.graphics.grid(),
            draw_on_screen: self.draw_on_screen,
            wait_for_keypress_register: self.wait_for_keypress_register,
            wait_for_key_state: self.wait_for_key_state,
            quirks: self.quirks,
            options: self.options,
        }
    }
}

// Throughout the code, Vx refers to the general purpose registers. There are
// 15 general purpose registers from V0 to VE. The 16th register is used to
// represent the carry flag.
impl<G: GraphicsBuffer> Chip8<G> {
    /// The machine is in a state that it can reach.
    pub open spec fn wf(&self) -> bool {
        self@.wf()
    }

    /// A machine that was just switched on: the digit sprites are in
    /// memory, everything else is zero, and the program counter is at the
    /// address where programs are loaded. It draws on `graphics` and takes
    /// its timer events from `timer_rx`.
    pub fn new(
        graphics: G,
        timer_rx: Receiver<TimerOperation>,
        quirks: Quirks,
        options: DebugOptions,
    ) -> (chip8: Self)
        requires
            valid_grid(graphics.grid()),
        ensures
            chip8.wf(),
            chip8@ == State::initial(graphics.grid(), quirks, options),
    {
        let mut memory = vec![0u8; MEMORY_SIZE];

        for i in 0..80usize
            invariant
                memory@.len() == 4096,
                forall|a: int| 0 <= a < i ==> memory@[a] == HEX_DIGITS[a],
                forall|a: int| i <= a < 4096 ==> memory@[a] == 0,
        {
            memory[i] = HEX_DIGITS[i];
        }

        let chip8 = Chip8 {
            opcode: 0,
            memory,
            ir: 0,
            pc: APP_LOCATION,
            graphics,
            delay_timer: 0,
            registers: vec![0u8; NUM_REGISTERS],
            sound_timer: 0,
            stack: vec![0u16; STACK_SIZE],
            sp: 0,
            timer_rx,
            draw_on_screen: false,
            wait_for_keypress_register: 0,
            wait_for_key_state: WaitForKeyState::Idle,
            quirks,
            options,
        };
        proof {
            assert(chip8@.memory =~= machine::initial_memory());
            assert(chip8@.registers =~= Seq::new(16, |i: int| 0u8));
            assert(chip8@.stack =~= Seq::new(16, |i: int| 0u16));
        }
        chip8
    }

    /// Utility function to return the number of registers x and y.
    pub fn get_regs_x_y(&self) -> (regs: (usize, usize))
        ensures
            regs.0 == machine::reg_x(self@.opcode),
            regs.1 == machine::reg_y(self@.opcode),
            regs.0 < 16,
            regs.1 < 16,
    {
        let opcode = self.opcode;
        assert((opcode & 0x0F00) >> 8 == (opcode / 0x100) % 0x10) by (bit_vector);
        assert((opcode & 0x00F0) >> 4 == (opcode / 0x10) % 0x10) by (bit_vector);
        return (((self.opcode & 0x0F00) >> 8) as usize, ((self.opcode & 0x00F0) >> 4) as usize);
    }

    /// The last hexadecimal digit of the current opcode.
    fn low_nibble(&self) -> (n: u8)
        ensures
            n == machine::low_nibble(self@.opcode),
            n <= 0xF,
    {
        let opcode = self.opcode;
        assert(opcode & 0x000F == opcode % 0x10) by (bit_vector);
        (self.opcode & 0x000F) as u8
    }

    /// The last two hexadecimal digits of the current opcode.
    fn low_byte(&self) -> (kk: u8)
        ensures
            kk == machine::low_byte(self@.opcode),
    {
        let opcode = self.opcode;
        assert(opcode & 0x00FF == opcode % 0x100) by (bit_vector);
        (self.opcode & 0x00FF) as u8
    }

    /// The last three hexadecimal digits of the current opcode.
    fn address(&self) -> (nnn: u16)
        ensures
            nnn == machine::address(self@.opcode),
            nnn <= 0xFFF,
    {
        let opcode = self.opcode;
        assert(opcode & 0x0FFF == opcode % 0x1000) by (bit_vector);
        self.opcode & 0x0FFF
    }

    /// The error for an instruction word that names no instruction.
    pub fn unknown_opcode(&self) -> (result: OpcodeResult)
        ensures
            (self@, result) == machine::unknown_opcode(self@),
    {
        Err(Chip8Error::UnsupportedOpcode(self.opcode))
    }

    /// Takes care of opcodes that start with 0x0.
    pub fn opcode_0x0yyy(&mut self) -> (result: OpcodeResult)
        requires
            old(self).wf(),
        ensures
            final(self).wf(),
            (final(self)@, result) == machine::opcode_0x0yyy(old(self)@),
    {
        match self.address() {
            // Clear the screen
            0x00E0 => {
                self.graphics.clear();
                self.draw_on_screen = true;
                Ok(ProgramCounter::Next)
            },
            // Return from subroutine
            0x00EE => {
                if self.sp == 0 {
                    return Err(Chip8Error::StackUnderflow);
                }
                // Restore program counter to previous location on stack
                // before subroutine was called
                self.sp -= 1;
                Ok(ProgramCounter::Jump(self.stack[self.sp as usize]))
            },
            // No other opcodes start with 0x0
            _ => self.unknown_opcode(),
        }
    }

    /// Takes care of opcodes that start with 0x1.
    pub fn opcode_0x1yyy(&mut self) -> (result: OpcodeResult)
        ensures
            (final(self)@, result) == machine::opcode_0x1yyy(old(self)@),
    {
        // Only 1 opcode that starts with 0x1: 0x1nnn
        // 0x1nnn - Jump to location nnn
        let addr = self.address();
        Ok(ProgramCounter::Jump(addr))
    }

    /// Takes care of opcodes that start with 0x2.
    pub fn opcode_0x2yyy(&mut self) -> (result: OpcodeResult)
        requires
            old(self).wf(),
            old(self)@.fetchable(),
        ensures
            final(self).wf(),
            (final(self)@, result) == machine::opcode_0x2yyy(old(self)@),
    {
        // 0x2adr - Call subroutine at adr
        // Put instruction after program counter on stack and then jump to subroutine
        // location. This prevents the VM from entering into an endless loop.
        if self.sp as usize >= STACK_SIZE {
            return Err(Chip8Error::StackOverflow);
        }
        self.stack[self.sp as usize] = self.pc + OPCODE_SIZE;
        self.sp += 1;
        let addr = self.address();
        Ok(ProgramCounter::Jump(addr))
    }

    /// Takes care of opcodes that start with 0x3.
    pub fn opcode_0x3yyy(&mut self) -> (result: OpcodeResult)
        requires
            old(self).wf(),
        ensures
            (final(self)@, result) == machine::opcode_0x3yyy(old(self)@),
    {
        // 3xkk - SE Vx, byte
        // Skip next instruction if Vx == kk
        // Get register value and constant
        let (x, _) = self.get_regs_x_y();
        let register_val = self.registers[x];
        let comp_val = self.low_byte();

        // If equal, skip next instruction (increment program
        // counter by 2)
        if register_val == comp_val {
            return Ok(ProgramCounter::Skip);
        }
        Ok(ProgramCounter::Next)
    }

    /// Takes care of opcodes that start with 0x4.
    pub fn opcode_0x4yyy(&mut self) -> (result: OpcodeResult)
        requires
            old(self).wf(),
        ensures
            (final(self)@, result) == machine::opcode_0x4yyy(old(self)@),
    {
        // 4xkk - SNE Vx, byte
        // Skip next instruction if Vx != kk
        // Get register value and constant
        let (x, _) = self.get_regs_x_y();
        let register_val = self.registers[x];
        let comp_val = self.low_byte();

        // If not equal, skip next instruction (increment program
        // counter by 2)
        if register_val != comp_val {
            return Ok(ProgramCounter::Skip);
        }
        Ok(ProgramCounter::Next)
    }

    /// Takes care of opcodes that start with 0x5.
    pub fn opcode_0x5yyy(&mut self) -> (result: OpcodeResult)
        requires
            old(self).wf(),
        ensures
            (final(self)@, result) == machine::opcode_0x5yyy(old(self)@),
    {
        // 5xy0 - SE Vx, Vy
        // Skip next instruction if Vx == Vy
        if self.low_nibble() != 0 {
            return self.unknown_opcode();
        }
        let (x, y) = self.get_regs_x_y();
        let vx_val = self.registers[x];
        let vy_val = self.registers[y];

        // If values are equal, skip next instruction (increment
        // program counter by 2)
        if vx_val == vy_val {
            return Ok(ProgramCounter::Skip);
        }
        Ok(ProgramCounter::Next)
    }

    /// Takes care of opcodes that start with 0x6.
    pub fn opcode_0x6yyy(&mut self) -> (result: OpcodeResult)
        requires
            old(self).wf(),
        ensures
            final(self).wf(),
            (final(self)@, result) == machine::opcode_0x6yyy(old(self)@),
    {
        // 6xkk - LD Vx, byte
        // Set Vx = kk
        let val = self.low_byte();
        let (x, _) = self.get_regs_x_y();

        // Set register to value
        self.registers[x] = val;
        Ok(ProgramCounter::Next)
    }

    /// Takes care of opcodes that start with 0x7.
    pub fn opcode_0x7yyy(&mut self) -> (result: OpcodeResult)
        requires
            old(self).wf(),
        ensures
            final(self).wf(),
            (final(self)@, result) == machine::opcode_0x7yyy(old(self)@),
    {
        // 7xkk - ADD Vx, byte
        // Set Vx = Vx + kk
        // Get value and register
        let val = self.low_byte();
        let (x, _) = self.get_regs_x_y();

        let (sum, _) = add_with_carry(self.registers[x], val);
        self.registers[x] = sum;
        Ok(ProgramCounter::Next)
    }

    /// Sets `VF` to zero after a logic instruction, where the quirk asks
    /// for it.
    fn reset_flag_after_logic(&mut self)
        requires
            old(self).wf(),
        ensures
            final(self).wf(),
            final(self)@ == machine::after_logic(old(self)@),
    {
        if self.quirks.reset_vf {
            self.registers[FLAG_REGISTER] = 0;
        }
    }

    /// The value that the shift instructions work on.
    fn shift_source(&self) -> (value: u8)
        requires
            self.wf(),
        ensures
            value == machine::shift_source(self@),
    {
        let (x, y) = self.get_regs_x_y();
        if self.quirks.use_vy_in_shift {
            self.registers[y]
        } else {
            self.registers[x]
        }
    }

    /// Takes care of opcodes that start with 0x8.
    #[verifier::rlimit(40)]
    pub fn opcode_0x8yyy(&mut self) -> (result: OpcodeResult)
        requires
            old(self).wf(),
        ensures
            final(self).wf(),
            (final(self)@, result) == machine::opcode_0x8yyy(old(self)@),
    {
        let (x, y) = self.get_regs_x_y();
        // Last nibble identifies what the opcode does
        match self.low_nibble() {
            // 8xy0 - LD Vx, Vy
            // Set Vx = Vy
            0x0 => {
                self.registers[x] = self.registers[y];
                Ok(ProgramCounter::Next)
            },
            // 8xy1 - OR Vx, Vy
            // Perform bitwise OR on Vx and Vy and store result in Vx.
            0x1 => {
                self.registers[x] = self.registers[x] | self.registers[y];
                self.reset_flag_after_logic();
                Ok(ProgramCounter::Next)
            },
            // 8xy2 - AND Vx, Vy
            // Perform bitwise AND on Vx and Vy and store result in Vx.
            0x2 => {
                self.registers[x] = self.registers[x] & self.registers[y];
                self.reset_flag_after_logic();
                Ok(ProgramCounter::Next)
            },
            // 8xy3 - XOR Vx, Vy
            // Performs bitwise XOR on Vx and Vy and stores result in Vx.
            0x3 => {
                self.registers[x] = self.registers[x] ^ self.registers[y];
                self.reset_flag_after_logic();
                Ok(ProgramCounter::Next)
            },
            // 8xy4 - ADD Vx, Vy
            // Vx = Vx + Vy, set VF = carry
            // If the result of Vx and Vy is greater than 8 bits (255)
            // VF is set to 1, otherwise it's set to 0
            0x4 => {
                let (val, flag) = add_with_carry(self.registers[x], self.registers[y]);

                self.registers[x] = val;
                self.registers[FLAG_REGISTER] = flag;

                Ok(ProgramCounter::Next)
            },
            // 8xy5 - SUB Vx, Vy
            // Vx= Vx - Vy, set VF = NOT borrow
            // If Vx >= Vy, then VF is set to 1, otherwise 0
            0x5 => {
                let (val, flag) = sub_with_borrow(self.registers[x], self.registers[y]);

                self.registers[x] = val;
                self.registers[FLAG_REGISTER] = flag;

                Ok(ProgramCounter::Next)
            },
            // 8xy6 - SHR Vx {, Vy}
            // Set Vx = Vy SHR 1, or Vx SHR 1 where Vy stays out of it
            // If the least significant bit is 1, then VF is set to 1,
            // otherwise 0. Then the value is divided by 2
            0x6 => {
                let (val, flag) = shift_right(self.shift_source());

                self.registers[x] = val;
                self.registers[FLAG_REGISTER] = flag;

                Ok(ProgramCounter::Next)
            },
            // 8xy7 - SUBN Vx, Vy
            // Set Vx = Vy - Vx, set VF = NOT borrow
            // If Vy >= Vx, then VF = 1, otherwise VF = 0.
            0x7 => {
                let (val, flag) = sub_with_borrow(self.registers[y], self.registers[x]);

                self.registers[x] = val;
                self.registers[FLAG_REGISTER] = flag;

                Ok(ProgramCounter::Next)
            },
            // 8xyE - SHL Vx {, Vy}
            // Set Vx = Vy SHL 1, or Vx SHL 1 where Vy stays out of it
            // If the most significant bit is 1, set VF to 1, otherwise 0.
            0xE => {
                let (val, flag) = shift_left(self.shift_source());

                self.registers[x] = val;
                self.registers[FLAG_REGISTER] = flag;

                Ok(ProgramCounter::Next)
            },
            // No other opcodes start with 0x8
            _ => self.unknown_opcode(),
        }
    }

    /// Takes care of opcodes that start with 0x9
    pub fn opcode_0x9yyy(&mut self) -> (result: OpcodeResult)
        requires
            old(self).wf(),
        ensures
            (final(self)@, result) == machine::opcode_0x9yyy(old(self)@),
    {
        // 9xy0 - SNE Vx, Vy
        // Skip next instruction if Vx != Vy
        if self.low_nibble() != 0 {
            return self.unknown_opcode();
        }
        let (x, y) = self.get_regs_x_y();

        if self.registers[x] != self.registers[y] {
            return Ok(ProgramCounter::Skip);
        }
        Ok(ProgramCounter::Next)
    }

    /// Takes care of opcodes that start with 0xA
    pub fn opcode_0xayyy(&mut self) -> (result: OpcodeResult)
        ensures
            (final(self)@, result) == machine::opcode_0xayyy(old(self)@),
    {
        // Annn - LD I, addr
        // Set I = nnn
        // Get address and set index register
        let val = self.address();
        self.ir = val;
        Ok(ProgramCounter::Next)
    }

    /// Takes care of opcodes that start with 0xB
    pub fn opcode_0xbyyy(&mut self) -> (result: OpcodeResult)
        requires
            old(self).wf(),
        ensures
            (final(self)@, result) == machine::opcode_0xbyyy(old(self)@),
    {
        // Bnnn - JP V0, nnn
        // Jump to location nnn + V0 (set pc = nnn + V0)
        let val = self.address();
        let (x, _) = self.get_regs_x_y();
        let offset = if self.quirks.use_vx_in_jump {
            self.registers[x]
        } else {
            self.registers[0x0]
        };
        Ok(ProgramCounter::Jump(val + offset as u16))
    }

    /// Takes care of opcodes that start with 0xC
    pub fn opcode_0xcyyy(&mut self) -> (result: OpcodeResult)
        requires
            old(self).wf(),
        ensures
            final(self).wf(),
            exists|random: u8|
                (final(self)@, result) == #[trigger] machine::opcode_0xcyyy(old(self)@, random),
    {
        // Cxkk - RND, byte
        // Set Vx = random byte AND kk
        // Interpreter generates a random number between 0 and 255, which
        // is then ANDed with kk and the result is stored in Vx.
        let rand_val = random_below_256() as u8;
        self.store_random(rand_val)
    }

    /// What `Cxkk` does once the random byte is drawn: `Vx` gets the bits
    /// of `rand_val` that `kk` lets through.
    pub fn store_random(&mut self, rand_val: u8) -> (result: OpcodeResult)
        requires
            old(self).wf(),
        ensures
            final(self).wf(),
            (final(self)@, result) == machine::opcode_0xcyyy(old(self)@, rand_val),
    {
        let kk: u8 = self.low_byte();
        let (x, _) = self.get_regs_x_y();

        self.registers[x] = rand_val & kk;
        Ok(ProgramCounter::Next)
    }

    /// Takes care of opcodes that start with 0xD
    pub fn opcode_0xdyyy(&mut self) -> (result: OpcodeResult)
        requires
            old(self).wf(),
        ensures
            final(self).wf(),
            (final(self)@, result) == machine::opcode_0xdyyy(old(self)@),
    {
        // Dxyn - DRW Vx, Vy, nibble
        // Display n-byte sprite starting at memory location I at (Vx, Vy),
        // set VF = collision
        let (x_reg, y_reg) = self.get_regs_x_y();
        let num_rows = self.low_nibble();

        if self.ir as usize + num_rows as usize > MEMORY_SIZE {
            return Err(Chip8Error::MemoryOutOfBounds(self.ir));
        }
        let x = self.registers[x_reg];
        let y = self.registers[y_reg];

        let flipped = self.graphics.draw(
            x,
            y,
            num_rows,
            self.ir,
            self.memory.as_slice(),
            self.quirks.clipping,
        );
        self.draw_on_screen = true;

        if flipped {
            self.registers[FLAG_REGISTER] = 1;
        } else {
            self.registers[FLAG_REGISTER] = 0;
        }

        Ok(ProgramCounter::Next)
    }

    /// Takes care of opcodes that are related to input such as checking whether
    /// a key is pressed or not pressed.
    pub fn opcode_0xeyyy(&mut self, input: &impl Input) -> (result: OpcodeResult)
        requires
            old(self).wf(),
        ensures
            (final(self)@, result) == machine::opcode_0xeyyy(old(self)@, input.held()),
    {
        let (x, _) = self.get_regs_x_y();
        match self.low_byte() {
            // Ex9E - SKP Vx
            // Skips the next instruction if the key with the value of Vx is
            // pressed. If the key corresponding to the value of Vx is currently
            // in the down position, PC is increased by 2.
            0x9E => {
                match Key::try_from(self.registers[x]) {
                    Ok(key) => {
                        if input.is_pressed(key) {
                            return Ok(ProgramCounter::Skip);
                        }
                        Ok(ProgramCounter::Next)
                    },
                    Err(error) => Err(error),
                }
            },
            // ExA1 - SKNP Vx
            // Skip next instruction if key with value Vx is not pressed. If the
            // key with value Vx is not pressed, the program counter is incremented
            // by 2.
            0xA1 => {
                match Key::try_from(self.registers[x]) {
                    Ok(key) => {
                        if !input.is_pressed(key) {
                            return Ok(ProgramCounter::Skip);
                        }
                        Ok(ProgramCounter::Next)
                    },
                    Err(error) => Err(error),
                }
            },
            _ => self.unknown_opcode(),
        }
    }

    /// Fx33 - LD B, Vx
    /// Store BCD representation of Vx in memory locations I, I+1, and I+2.
    fn store_decimal_digits(&mut self) -> (result: OpcodeResult)
        requires
            old(self).wf(),
            machine::low_byte(old(self)@.opcode) == 0x33,
        ensures
            final(self).wf(),
            (final(self)@, result) == machine::opcode_0xfyyy(old(self)@),
    {
        let (x, _) = self.get_regs_x_y();
        let val = self.registers[x];
        if self.ir as usize + 2 >= MEMORY_SIZE {
            return Err(Chip8Error::MemoryOutOfBounds(self.ir));
        }
        let hundreds = val / 100;
        let tens = (val / 10) % 10;
        let ones = val % 10;

        self.memory[self.ir as usize] = hundreds;
        self.memory[self.ir as usize + 1] = tens;
        self.memory[self.ir as usize + 2] = ones;

        Ok(ProgramCounter::Next)
    }

    /// Fx55 - LD [I], Vx
    /// Store registers V0 through Vx in memory starting at location I.
    fn store_registers(&mut self) -> (result: OpcodeResult)
        requires
            old(self).wf(),
            machine::low_byte(old(self)@.opcode) == 0x55,
        ensures
            final(self).wf(),
            (final(self)@, result) == machine::opcode_0xfyyy(old(self)@),
    {
        let (x, _) = self.get_regs_x_y();
        if self.ir as usize + x >= MEMORY_SIZE {
            return Err(Chip8Error::MemoryOutOfBounds(self.ir));
        }
        let mut addr = self.ir;
        let mut i: usize = 0;
        assert(self@.memory =~= machine::memory_with_registers(self@, 0));
        while i <= x
            invariant
                i <= x + 1,
                x < 16,
                x == machine::reg_x(old(self)@.opcode),
                old(self).wf(),
                old(self)@.ir + x < 4096,
                addr == old(self)@.ir + i,
                self@ == (State {
                    memory: machine::memory_with_registers(old(self)@, i as int),
                    ..old(self)@
                }),
            decreases x + 1 - i,
        {
            self.memory[addr as usize] = self.registers[i];
            addr += REG_SIZE;
            i += 1;
            assert(self@.memory =~= machine::memory_with_registers(old(self)@, i as int));
        }
        if self.quirks.increment_ir {
            self.ir = addr;
        }
        Ok(ProgramCounter::Next)
    }

    /// Fx65 - LD Vx, [I]
    /// Read registers V0 through Vx from memory starting at location I.
    fn load_registers(&mut self) -> (result: OpcodeResult)
        requires
            old(self).wf(),
            machine::low_byte(old(self)@.opcode) == 0x65,
        ensures
            final(self).wf(),
            (final(self)@, result) == machine::opcode_0xfyyy(old(self)@),
    {
        let (x, _) = self.get_regs_x_y();
        if self.ir as usize + x >= MEMORY_SIZE {
            return Err(Chip8Error::MemoryOutOfBounds(self.ir));
        }
        let mut addr = self.ir;
        let mut i: usize = 0;
        assert(self@.registers =~= machine::registers_from_memory(self@, 0));
        while i <= x
            invariant
                i <= x + 1,
                x < 16,
                x == machine::reg_x(old(self)@.opcode),
                old(self).wf(),
                old(self)@.ir + x < 4096,
                addr == old(self)@.ir + i,
                self@ == (State {
                    registers: machine::registers_from_memory(old(self)@, i as int),
                    ..old(self)@
                }),
            decreases x + 1 - i,
        {
            self.registers[i] = self.memory[addr as usize];
            addr += REG_SIZE;
            i += 1;
            assert(self@.registers =~= machine::registers_from_memory(old(self)@, i as int));
        }
        if self.quirks.increment_ir {
            self.ir = addr;
        }
        Ok(ProgramCounter::Next)
    }

    /// Takes care of opcodes that start with 0xF: the timers, the index
    /// register, memory, and the wait for a key.
    pub fn opcode_0xfyyy(&mut self) -> (result: OpcodeResult)
        requires
            old(self).wf(),
            old(self)@.fetchable(),
        ensures
            final(self).wf(),
            (final(self)@, result) == machine::opcode_0xfyyy(old(self)@),
    {
        let (x, _) = self.get_regs_x_y();
        match self.low_byte() {
            // Fx07 - LD Vx, DT
            // Set Vx = delay timer value.
            // The value of DT is placed into Vx.
            0x07 => {
                self.registers[x] = self.delay_timer;
                Ok(ProgramCounter::Next)
            },
            // Fx0A - LD Vx, K
            // Wait for a key press, store the value of the key in Vx.
            // All execution stops until a key is pressed, then the value
            // of that key is stored in Vx.
            0x0A => {
                match self.wait_for_key_state {
                    WaitForKeyState::Idle => {
                        self.wait_for_keypress_register = x as u8;
                        self.wait_for_key_state = WaitForKeyState::WaitForNoKeyPressed;
                    },
                    _ => {},
                }
                Ok(ProgramCounter::Pause)
            },
            // Fx15 - LD DT, Vx
            // Set delay timer = Vx
            // DT is set equal to the value of Vx.
            0x15 => {
                self.delay_timer = self.registers[x];
                Ok(ProgramCounter::Next)
            },
            // Fx18 - LD ST, Vx
            // Set sound timer = Vx
            // ST is set equal to the value of Vx.
            0x18 => {
                self.sound_timer = self.registers[x];
                Ok(ProgramCounter::Next)
            },
            // Fx1E - ADD I, Vx
            // Set I = I + Vx
            // The values of I and Vx are added, and the results are stored in I.
            0x1E => {
                self.ir = self.ir.wrapping_add(self.registers[x] as u16);
                Ok(ProgramCounter::Next)
            },
            // Fx29 - LD F, Vx
            // Set I = location of sprite for digit Vx.
            // The value of I is set to the location for the hexadecimal sprite
            // corresponding to the value of Vx.
            0x29 => {
                // Each hex sprite takes up 5 bytes, and they start at address
                // 0x0, so multiplying the value in Vx by 5 will get us the
                // address of the sprite
                self.ir = self.registers[x] as u16 * 5;
                Ok(ProgramCounter::Next)
            },
            0x33 => self.store_decimal_digits(),
            0x55 => self.store_registers(),
            0x65 => self.load_registers(),
            _ => self.unknown_opcode(),
        }
    }

    /// 0xFX0A requires special handling. It has to wait for the key
    /// to be released before registering the key pressed. It also
    /// needs to halt the whole emulator, except for timers.
    /// Timers need to continue to decrement.
    pub fn check_and_process_0xfx0a(&mut self, input: &impl Input) -> (result: OpcodeResult)
        requires
            old(self).wf(),
        ensures
            final(self).wf(),
            (final(self)@, result) == machine::check_and_process_0xfx0a(old(self)@, input.held()),
    {
        match self.wait_for_key_state {
            WaitForKeyState::WaitForNoKeyPressed => {
                if !any_key_pressed(input) {
                    self.wait_for_key_state = WaitForKeyState::CheckForKeyPressed;
                }
                Ok(ProgramCounter::Pause)
            },
            WaitForKeyState::CheckForKeyPressed => {
                match first_key_pressed(input) {
                    Some(i) => {
                        self.registers[self.wait_for_keypress_register as usize] = i;
                        self.wait_for_key_state = WaitForKeyState::WaitForKeyRelease;
                    },
                    None => {},
                }
                Ok(ProgramCounter::Pause)
            },
            WaitForKeyState::WaitForKeyRelease => {
                if !any_key_pressed(input) {
                    self.wait_for_key_state = WaitForKeyState::Idle;
                    Ok(ProgramCounter::Next)
                } else {
                    Ok(ProgramCounter::Pause)
                }
            },
            WaitForKeyState::Idle => Ok(ProgramCounter::Unchanged),
        }
    }

    /// Loads a program into memory, from `0x200` on. A program that does
    /// not fit is loaded as far as there is room, and reported.
    pub fn load_rom(&mut self, rom: &impl Rom) -> (result: Result<(), Chip8Error>)
        requires
            old(self).wf(),
        ensures
            final(self).wf(),
            final(self)@ == old(self)@.with_rom(rom.bytes()),
            rom.bytes().len() <= 4096 - 0x200 ==> result == Ok::<(), Chip8Error>(()),
            rom.bytes().len() > 4096 - 0x200 ==> result == Err::<(), Chip8Error>(
                Chip8Error::RomTooBig(4096),
            ),
    {
        let data = rom.data();
        let mut i: usize = 0;
        assert(self@.memory =~= old(self)@.with_rom(data@.take(0)).memory);
        while i < data.len()
            invariant
                i <= data.len(),
                i <= 4096 - 0x200,
                old(self).wf(),
                data@ == rom.bytes(),
                self@ == old(self)@.with_rom(data@.take(i as int)),
            decreases data.len() - i,
        {
            if i < MEMORY_SIZE - APP_LOCATION as usize {
                let addr = APP_LOCATION as usize + i;
                self.memory[addr] = data[i];
                assert(self@.memory =~= old(self)@.with_rom(data@.take(i + 1)).memory);
            } else {
                assert(self@.memory =~= old(self)@.with_rom(data@).memory);
                return Err(Chip8Error::RomTooBig((APP_LOCATION as usize + i) as u16));
            }
            i += 1;
        }
        assert(data@.take(i as int) =~= data@);

        Ok(())
    }

    /// Fetches the instruction at the program counter and carries it out.
    /// The program counter itself stays: the result says where it goes.
    pub fn emulate_instruction(&mut self, input: &impl Input) -> (result: OpcodeResult)
        requires
            old(self).wf(),
        ensures
            final(self).wf(),
            final(self)@.pc == old(self)@.pc,
            result is Ok ==> old(self)@.fetchable(),
            exists|random: u8|
                (final(self)@, result) == #[trigger] machine::emulate_instruction(
                    old(self)@,
                    input.held(),
                    random,
                ),
    {
        if self.pc as usize + 1 >= MEMORY_SIZE {
            assert((self@, Err::<ProgramCounter, Chip8Error>(Chip8Error::MemoryOutOfBounds(self.pc)))
                == machine::emulate_instruction(old(self)@, input.held(), 0));
            return Err(Chip8Error::MemoryOutOfBounds(self.pc));
        }
        let high = self.memory[self.pc as usize];
        let low = self.memory[self.pc as usize + 1];
        self.opcode = ((high as u16) << 8) | low as u16;
        let opcode = self.opcode;
        assert(opcode == high * 0x100 + low) by (bit_vector)
            requires
                opcode == ((high as u16) << 8) | low as u16,
        ;
        assert(opcode & 0xF000 == (opcode / 0x1000) * 0x1000) by (bit_vector);
        let ghost fetched = self@;

        if self.opcode & 0xF000 == 0xC000 {
            // Cxkk - RND, byte
            // Set Vx = random byte AND kk
            let result = self.opcode_0xcyyy();
            proof {
                let random = choose|random: u8|
                    (self@, result) == #[trigger] machine::opcode_0xcyyy(fetched, random);
                assert((self@, result) == machine::emulate_instruction(
                    old(self)@,
                    input.held(),
                    random,
                ));
            }
            return result;
        }
        let result = match self.opcode & 0xF000 {
            // Opcode starts with 0x0
            0x0000 => self.opcode_0x0yyy(),
            // Opcode starts with 0x1
            0x1000 => self.opcode_0x1yyy(),
            // Opcode starts with 0x2
            0x2000 => self.opcode_0x2yyy(),
            // 3xkk - SE Vx, byte
            // Skip next instruction if Vx == kk
            0x3000 => self.opcode_0x3yyy(),
            // Opcodes that start with 0x4
            0x4000 => self.opcode_0x4yyy(),
            // Opcodes that start with 0x5
            0x5000 => self.opcode_0x5yyy(),
            // Opcodes that start with 0x6
            0x6000 => self.opcode_0x6yyy(),
            // Opcodes that start with 0x7
            0x7000 => self.opcode_0x7yyy(),
            // Opcodes that start with 0x8
            0x8000 => self.opcode_0x8yyy(),
            // Opcodes that start with 0x9
            0x9000 => self.opcode_0x9yyy(),
            // Opcodes that start with 0xA
            0xA000 => self.opcode_0xayyy(),
            // Opcodes that start with 0xB
            0xB000 => self.opcode_0xbyyy(),
            0xD000 => self.opcode_0xdyyy(),
            0xE000 => self.opcode_0xeyyy(input),
            _ => self.opcode_0xfyyy(),
        };
        assert((self@, result) == machine::emulate_instruction(old(self)@, input.held(), 0));
        result
    }

    /// The program's part of a cycle: one step of the wait for a key or,
    /// when the machine is not waiting, one instruction; then the program
    /// counter moves.
    #[verifier::rlimit(40)]
    pub fn run_instruction(&mut self, input: &impl Input) -> (result: Result<(), Chip8Error>)
        requires
            old(self).wf(),
        ensures
            final(self).wf(),
            exists|random: u8|
                (final(self)@, result) == #[trigger] machine::run_instruction(
                    old(self)@,
                    input.held(),
                    random,
                ),
    {
        self.draw_on_screen = false;
        let ghost fresh = self@;

        let input_result = match self.check_and_process_0xfx0a(input) {
            Ok(action) => action,
            Err(error) => {
                return Err(error);
            },
        };
        let ghost mut random = 0u8;
        let stack_operation = match input_result {
            ProgramCounter::Unchanged => {
                let emulated = self.emulate_instruction(input);
                proof {
                    random = choose|random: u8|
                        (self@, emulated) == #[trigger] machine::emulate_instruction(
                            fresh,
                            input.held(),
                            random,
                        );
                }
                match emulated {
                    Ok(action) => action,
                    Err(error) => {
                        assert((self@, Err::<(), Chip8Error>(error)) == machine::run_instruction(
                            old(self)@,
                            input.held(),
                            random,
                        ));
                        return Err(error);
                    },
                }
            },
            waiting => waiting,
        };

        match stack_operation {
            ProgramCounter::Next => self.pc += OPCODE_SIZE,
            ProgramCounter::Skip => self.pc += OPCODE_SIZE * 2,
            ProgramCounter::Jump(addr) => self.pc = addr,
            ProgramCounter::Unchanged | ProgramCounter::Pause => (),
        }
        assert((self@, Ok::<(), Chip8Error>(())) == machine::run_instruction(
            old(self)@,
            input.held(),
            random,
        ));
        Ok(())
    }

    /// Counts both timers down by the events in `ops`, none of them below
    /// zero.
    pub fn update_timers(&mut self, ops: &Vec<TimerOperation>)
        ensures
            final(self)@ == old(self)@.with_timers_drained(ops@),
    {
        self.sound_timer = drain(self.sound_timer, ops);
        self.delay_timer = drain(self.delay_timer, ops);
    }

    /// What the machine shows after a cycle.
    pub fn output(&self) -> (output: Chip8OutputState<'_, G>)
        ensures
            output.sound_on == (self@.sound_timer > 0),
            output.draw_on_screen == self@.draw_on_screen,
            output.graphics.grid() == self@.screen,
    {
        let sound_on = self.sound_timer > 0;
        Chip8OutputState::new(sound_on, self.draw_on_screen, &self.graphics)
    }

    /// One cycle of the machine: the wait for a key moves on or one
    /// instruction is carried out, then the timer events that have arrived
    /// are applied. A cycle that fails leaves the timers alone.
    pub fn emulate_cycle(&mut self, input: &impl Input) -> (result: Result<
        Chip8OutputState<'_, G>,
        Chip8Error,
    >)
        requires
            old(self).wf(),
        ensures
            final(self).wf(),
            exists|random: u8, ops: Seq<TimerOperation>|
                {
                    let (state, outcome) = #[trigger] machine::emulate_cycle(
                        old(self)@,
                        input.held(),
                        random,
                        ops,
                    );
                    &&& final(self)@ == state
                    &&& match result {
                        Ok(_) => outcome == Ok::<(), Chip8Error>(()),
                        Err(error) => outcome == Err::<(), Chip8Error>(error),
                    }
                },
            match result {
                Ok(output) => {
                    &&& output.sound_on == (final(self)@.sound_timer > 0)
                    &&& output.draw_on_screen == final(self)@.draw_on_screen
                    &&& output.graphics.grid() == final(self)@.screen
                },
                Err(_) => true,
            },
    {
        let ran = self.run_instruction(input);
        let ghost random = choose|random: u8|
            (self@, ran) == #[trigger] machine::run_instruction(old(self)@, input.held(), random);
        match ran {
            Ok(_) => {},
            Err(error) => {
                proof {
                    let (state, outcome) = machine::emulate_cycle(
                        old(self)@,
                        input.held(),
                        random,
                        Seq::empty(),
                    );
                    assert(self@ == state && outcome == Err::<(), Chip8Error>(error));
                }
                return Err(error);
            },
        }

        // If there's a timer message, update the timers
        let ops = pending(&self.timer_rx);
        self.update_timers(&ops);
        proof {
            let (state, outcome) = machine::emulate_cycle(old(self)@, input.held(), random, ops@);
            assert(self@ == state && outcome == Ok::<(), Chip8Error>(()));
        }

        Ok(self.output())
    }

    /// The instruction word that was fetched last.
    pub fn opcode(&self) -> (opcode: u16)
        ensures
            opcode == self@.opcode,
    {
        self.opcode
    }

    /// Makes `opcode` the current instruction, as if it had been fetched.
    pub fn set_opcode(&mut self, opcode: u16)
        ensures
            final(self)@ == (State { opcode, ..old(self)@ }),
    {
        self.opcode = opcode;
    }

    /// The registers `V0` to `VF`.
    pub fn registers(&self) -> (registers: &Vec<u8>)
        ensures
            registers@ == self@.registers,
    {
        &self.registers
    }

    /// Sets register `x` to `value`.
    pub fn set_register(&mut self, x: usize, value: u8)
        requires
            old(self).wf(),
            x < 16,
        ensures
            final(self)@ == old(self)@.with_register(x as int, value),
    {
        self.registers[x] = value;
    }

    /// The 4096 bytes of memory.
    pub fn memory(&self) -> (memory: &Vec<u8>)
        ensures
            memory@ == self@.memory,
    {
        &self.memory
    }

    /// Sets the byte of memory at `addr` to `value`.
    pub fn set_memory(&mut self, addr: usize, value: u8)
        requires
            old(self).wf(),
            addr < 4096,
        ensures
            final(self)@ == (State {
                memory: old(self)@.memory.update(addr as int, value),
                ..old(self)@
            }),
    {
        self.memory[addr] = value;
    }

    /// The index register.
    pub fn ir(&self) -> (ir: u16)
        ensures
            ir == self@.ir,
    {
        self.ir
    }

    /// Sets the index register.
    pub fn set_ir(&mut self, ir: u16)
        ensures
            final(self)@ == old(self)@.with_ir(ir),
    {
        self.ir = ir;
    }

    /// The program counter.
    pub fn pc(&self) -> (pc: u16)
        ensures
            pc == self@.pc,
    {
        self.pc
    }

    /// Sets the program counter. While the machine waits for a key the
    /// program counter has to stay on an instruction that lies within
    /// memory.
    pub fn set_pc(&mut self, pc: u16)
        requires
            old(self)@.wait_for_key_state is Idle || pc + 1 < 4096,
        ensures
            final(self)@ == (State { pc, ..old(self)@ }),
            old(self).wf() ==> final(self).wf(),
    {
        self.pc = pc;
    }

    /// The sixteen slots of the call stack; the first `sp()` of them hold
    /// the return addresses of the calls that are open.
    pub fn stack(&self) -> (stack: &Vec<u16>)
        ensures
            stack@ == self@.stack,
    {
        &self.stack
    }

    /// The stack pointer: the number of calls that are open.
    pub fn sp(&self) -> (sp: u8)
        ensures
            sp == self@.sp,
    {
        self.sp
    }

    pub fn delay_timer(&self) -> (timer: u8)
        ensures
            timer == self@.delay_timer,
    {
        self.delay_timer
    }

    pub fn sound_timer(&self) -> (timer: u8)
        ensures
            timer == self@.sound_timer,
    {
        self.sound_timer
    }

    /// Where the wait for a key stands.
    pub fn wait_for_key_state(&self) -> (state: WaitForKeyState)
        ensures
            state == self@.wait_for_key_state,
    {
        self.wait_for_key_state
    }

    pub fn quirks(&self) -> (quirks: Quirks)
        ensures
            quirks == self@.quirks,
    {
        self.quirks
    }

    pub fn options(&self) -> (options: DebugOptions)
        ensures
            options == self@.options,
    {
        self.options
    }

    /// The screen.
    pub fn graphics(&self) -> (graphics: &G)
        ensures
            graphics.grid() == self@.screen,
    {
        &self.graphics
    }

    /// The screen, to draw on. The machine takes the screen as it is left.
    pub fn graphics_mut(&mut self) -> (graphics: &mut G)
        ensures
            graphics.grid() == old(self)@.screen,
            final(self)@ == (State { screen: final(graphics).grid(), ..old(self)@ }),
    {
        &mut self.graphics
    }
}

} // verus!
