//! What follows from the definitions in [`crate::machine`]: facts about
//! single instructions, about the wait for a key, and about whole cycles.
use vstd::prelude::*;
use crate::chip8::{OpcodeResult, ProgramCounter, WaitForKeyState};
use crate::graphics::lemma_draw_sprite_valid;
use crate::machine::{
    address, any_held, check_and_process_0xfx0a, dispatch, emulate_cycle, emulate_instruction,
    family, first_held, first_held_from, lemma_any_held, low_byte, low_nibble, opcode_0x0yyy,
    opcode_0x1yyy, opcode_0x2yyy, opcode_0x3yyy, opcode_0x4yyy, opcode_0x5yyy, opcode_0x6yyy,
    opcode_0x7yyy, opcode_0x8yyy, opcode_0x9yyy, opcode_0xayyy, opcode_0xbyyy, opcode_0xcyyy,
    opcode_0xdyyy, opcode_0xeyyy, opcode_0xfyyy, reg_x, reg_y, run_instruction, shift_source,
    with_decimal_digits, with_registers_loaded, with_registers_stored, word, State,
};
use crate::timer::{drained, TimerOperation};
use crate::{Chip8Error, Key};

verus! {

/// The digits of an instruction word, read off the two bytes it is made
/// of.
pub proof fn lemma_word_digits(high: u8, low: u8)
    ensures
        family(word(high, low)) == high / 16,
        reg_x(word(high, low)) == high % 16,
        reg_y(word(high, low)) == low / 16,
        low_nibble(word(high, low)) == low % 16,
        low_byte(word(high, low)) == low,
        address(word(high, low)) == (high % 16) * 256 + low,
{
    let w = word(high, low);
    assert(w == high * 256 + low);
    assert(w / 0x100 == high && w % 0x100 == low);
    assert(w / 0x1000 == high / 16 && w % 0x1000 == (high % 16) * 256 + low) by {
        assert(high == 16 * (high / 16) + high % 16);
    }
    assert(w / 0x10 == high * 16 + low / 16 && w % 0x10 == low % 16) by {
        assert(low == 16 * (low / 16) + low % 16);
    }
}

/// `6xkk`: afterwards register `x` holds `kk` exactly, whatever it held
/// before, and no other register has changed.
pub proof fn lemma_load_constant(s: State, held: Set<Key>, random: u8)
    requires
        s.wf(),
        family(s.opcode) == 0x6,
    ensures
        dispatch(s, held, random).1 == Ok::<ProgramCounter, Chip8Error>(ProgramCounter::Next),
        dispatch(s, held, random).0.registers[reg_x(s.opcode)] == low_byte(s.opcode),
        forall|i: int|
            0 <= i < 16 && i != reg_x(s.opcode) ==> dispatch(s, held, random).0.registers[i]
                == s.registers[i],
{
}

/// `8xy4`: afterwards `VF` is 1 if `Vx + Vy` is above 255 and 0 if it is
/// not, and `Vx`, unless it is `VF` itself, holds `Vx + Vy` modulo 256.
pub proof fn lemma_add_registers(s: State, held: Set<Key>, random: u8)
    requires
        s.wf(),
        family(s.opcode) == 0x8,
        low_nibble(s.opcode) == 0x4,
    ensures
        dispatch(s, held, random).1 == Ok::<ProgramCounter, Chip8Error>(ProgramCounter::Next),
        dispatch(s, held, random).0.registers[0xF] == 1 <==> s.vx() + s.vy() > 255,
        dispatch(s, held, random).0.registers[0xF] == 0 <==> s.vx() + s.vy() <= 255,
        reg_x(s.opcode) != 0xF ==> dispatch(s, held, random).0.registers[reg_x(s.opcode)] == (s.vx()
            + s.vy()) % 256,
{
}

/// `8xy5`: afterwards `VF` is 1 if `Vx >= Vy` and 0 if not, and `Vx`,
/// unless it is `VF` itself, holds `Vx - Vy` modulo 256.
pub proof fn lemma_subtract_registers(s: State, held: Set<Key>, random: u8)
    requires
        s.wf(),
        family(s.opcode) == 0x8,
        low_nibble(s.opcode) == 0x5,
    ensures
        dispatch(s, held, random).1 == Ok::<ProgramCounter, Chip8Error>(ProgramCounter::Next),
        dispatch(s, held, random).0.registers[0xF] == 1 <==> s.vx() >= s.vy(),
        dispatch(s, held, random).0.registers[0xF] == 0 <==> s.vx() < s.vy(),
        reg_x(s.opcode) != 0xF ==> dispatch(s, held, random).0.registers[reg_x(s.opcode)] == (s.vx()
            - s.vy()) % 256,
{
}

/// `8xy7`: afterwards `VF` is 1 if `Vy >= Vx` and 0 if not, and `Vx`,
/// unless it is `VF` itself, holds `Vy - Vx` modulo 256.
pub proof fn lemma_subtract_reversed(s: State, held: Set<Key>, random: u8)
    requires
        s.wf(),
        family(s.opcode) == 0x8,
        low_nibble(s.opcode) == 0x7,
    ensures
        dispatch(s, held, random).1 == Ok::<ProgramCounter, Chip8Error>(ProgramCounter::Next),
        dispatch(s, held, random).0.registers[0xF] == 1 <==> s.vy() >= s.vx(),
        dispatch(s, held, random).0.registers[0xF] == 0 <==> s.vy() < s.vx(),
        reg_x(s.opcode) != 0xF ==> dispatch(s, held, random).0.registers[reg_x(s.opcode)] == (s.vy()
            - s.vx()) % 256,
{
}

/// `8xy6`: the value moves right by one bit and no more. Afterwards `VF`
/// holds the lowest bit of the value that was shifted, and `Vx`, unless it
/// is `VF` itself, holds half of it, rounded down.
pub proof fn lemma_shift_right(s: State, held: Set<Key>, random: u8)
    requires
        s.wf(),
        family(s.opcode) == 0x8,
        low_nibble(s.opcode) == 0x6,
    ensures
        dispatch(s, held, random).1 == Ok::<ProgramCounter, Chip8Error>(ProgramCounter::Next),
        dispatch(s, held, random).0.registers[0xF] == shift_source(s) % 2,
        reg_x(s.opcode) != 0xF ==> dispatch(s, held, random).0.registers[reg_x(s.opcode)]
            == shift_source(s) / 2,
        reg_x(s.opcode) != 0xF ==> shift_source(s) == 2 * dispatch(
            s,
            held,
            random,
        ).0.registers[reg_x(s.opcode)] + dispatch(s, held, random).0.registers[0xF],
{
}

/// `8xyE`: the value moves left by one bit and no more. Afterwards `VF`
/// holds the highest bit of the value that was shifted, and `Vx`, unless
/// it is `VF` itself, holds twice the value without that bit.
pub proof fn lemma_shift_left(s: State, held: Set<Key>, random: u8)
    requires
        s.wf(),
        family(s.opcode) == 0x8,
        low_nibble(s.opcode) == 0xE,
    ensures
        dispatch(s, held, random).1 == Ok::<ProgramCounter, Chip8Error>(ProgramCounter::Next),
        dispatch(s, held, random).0.registers[0xF] == shift_source(s) / 128,
        reg_x(s.opcode) != 0xF ==> dispatch(s, held, random).0.registers[reg_x(s.opcode)] == (2
            * shift_source(s)) % 256,
        reg_x(s.opcode) != 0xF ==> 2 * shift_source(s) == 256 * dispatch(
            s,
            held,
            random,
        ).0.registers[0xF] + dispatch(s, held, random).0.registers[reg_x(s.opcode)],
{
}

/// A call succeeds exactly while fewer than sixteen calls are open, and
/// then one more is open; with sixteen open it is a stack overflow and
/// changes nothing.
pub proof fn lemma_call_depth(s: State)
    requires
        s.wf(),
    ensures
        opcode_0x2yyy(s).1 is Ok <==> s.sp < 16,
        s.sp < 16 ==> opcode_0x2yyy(s).0.sp == s.sp + 1,
        s.sp >= 16 ==> opcode_0x2yyy(s) == (s, Err::<ProgramCounter, Chip8Error>(Chip8Error::StackOverflow)),
{
}

/// A return succeeds exactly while a call is open, and then one fewer is;
/// with none open it is a stack underflow and changes nothing.
pub proof fn lemma_return_depth(s: State)
    requires
        s.wf(),
        address(s.opcode) == 0x0EE,
    ensures
        opcode_0x0yyy(s).1 is Ok <==> s.sp > 0,
        s.sp > 0 ==> opcode_0x0yyy(s).0.sp == s.sp - 1,
        s.sp == 0 ==> opcode_0x0yyy(s) == (s, Err::<ProgramCounter, Chip8Error>(Chip8Error::StackUnderflow)),
{
}

/// A return undoes the call before it: it goes to the instruction after
/// the call and leaves as many calls open as there were.
pub proof fn lemma_call_then_return(s: State, return_opcode: u16)
    requires
        s.wf(),
        s.fetchable(),
        s.sp < 16,
        address(return_opcode) == 0x0EE,
    ensures
        ({
            let called = State { opcode: return_opcode, ..opcode_0x2yyy(s).0 };
            &&& opcode_0x0yyy(called).1 == Ok::<ProgramCounter, Chip8Error>(
                ProgramCounter::Jump((s.pc + 2) as u16),
            )
            &&& opcode_0x0yyy(called).0.sp == s.sp
        }),
{
}

/// The state after `depth` calls, one inside the other, each made from
/// wherever the one before it went.
pub open spec fn after_nested_calls(s: State, depth: nat) -> (State, OpcodeResult)
    decreases depth,
{
    if depth == 0 {
        (s, Ok(ProgramCounter::Unchanged))
    } else {
        let (before, result) = after_nested_calls(s, (depth - 1) as nat);
        match result {
            Ok(action) => opcode_0x2yyy(before.with_pc_moved(action)),
            Err(error) => (before, Err(error)),
        }
    }
}

/// From an empty stack, up to sixteen nested calls all succeed, and the
/// seventeenth is a stack overflow.
pub proof fn lemma_sixteen_nested_calls(s: State, depth: nat)
    requires
        s.wf(),
        s.sp == 0,
    ensures
        depth <= 16 ==> after_nested_calls(s, depth).1 is Ok && after_nested_calls(s, depth).0.sp
            == depth,
        depth <= 16 ==> after_nested_calls(s, depth).0.opcode == s.opcode,
        depth > 16 ==> after_nested_calls(s, depth).1 == Err::<ProgramCounter, Chip8Error>(
            Chip8Error::StackOverflow,
        ),
    decreases depth,
{
    if depth > 0 {
        lemma_sixteen_nested_calls(s, (depth - 1) as nat);
    }
}

/// `Fx33`: the three bytes written are decimal digits, and read as
/// hundreds, tens and ones they give back `Vx`.
pub proof fn lemma_decimal_digits(s: State)
    requires
        s.wf(),
        s.ir + 2 < 4096,
    ensures
        ({
            let memory = with_decimal_digits(s).memory;
            &&& memory[s.ir as int] <= 9
            &&& memory[s.ir + 1] <= 9
            &&& memory[s.ir + 2] <= 9
            &&& memory[s.ir as int] * 100 + memory[s.ir + 1] * 10 + memory[s.ir + 2] == s.vx()
            &&& forall|a: int|
                0 <= a < 4096 && !(s.ir <= a <= s.ir + 2) ==> memory[a] == s.memory[a]
        }),
{
}

/// `Fx55` followed by `Fx65` with the same `x` and the index register
/// where it was brings every register back to what it held.
pub proof fn lemma_store_then_load(s: State)
    requires
        s.wf(),
        s.ir + reg_x(s.opcode) < 4096,
    ensures
        with_registers_loaded(with_registers_stored(s)).registers == s.registers,
        with_registers_loaded(with_registers_stored(s)).memory == with_registers_stored(s).memory,
        forall|i: int|
            0 <= i <= reg_x(s.opcode) ==> with_registers_stored(s).memory[s.ir + i]
                == s.registers[i],
        forall|a: int|
            0 <= a < 4096 && !(s.ir <= a <= s.ir + reg_x(s.opcode)) ==> with_registers_stored(
                s,
            ).memory[a] == s.memory[a],
{
    assert(with_registers_loaded(with_registers_stored(s)).registers =~= s.registers);
}

/// What the lowest held key is: none if no key is held; otherwise a code
/// whose key is held while no key with a lower code is.
pub proof fn lemma_first_held(held: Set<Key>)
    ensures
        first_held(held) is None <==> !any_held(held),
        first_held(held) matches Some(code) ==> {
            &&& code < 16
            &&& held.contains(Key::from_index(code))
            &&& forall|lower: u8| lower < code ==> !held.contains(Key::from_index(lower))
        },
{
    lemma_any_held(held);
    lemma_first_held_from(held, 0);
}

/// The same for the scan that starts at `from`.
pub proof fn lemma_first_held_from(held: Set<Key>, from: u8)
    requires
        from <= 16,
    ensures
        first_held_from(held, from) is None <==> forall|code: u8|
            from <= code < 16 ==> !held.contains(Key::from_index(code)),
        first_held_from(held, from) matches Some(code) ==> {
            &&& from <= code < 16
            &&& held.contains(Key::from_index(code))
            &&& forall|lower: u8| from <= lower < code ==> !held.contains(Key::from_index(lower))
        },
    decreases 16 - from,
{
    if from < 16 && !held.contains(Key::from_index(from)) {
        lemma_first_held_from(held, (from + 1) as u8);
    }
}

/// With one key held and no other, that key is the one found.
pub proof fn lemma_first_held_single(key: Key)
    ensures
        first_held(set![key]) == Some(key.index()),
        any_held(set![key]),
        !any_held(Set::<Key>::empty()),
{
    let held = set![key];
    lemma_first_held(held);
    assert(held.contains(key));
    Key::lemma_index_round_trip(key, 0);
    match first_held(held) {
        Some(code) => {
            Key::lemma_index_round_trip(key, code);
        },
        None => {},
    }
}

/// The wait for a key, from the cycle after `Fx0A` on. While a key is
/// still held from before, nothing moves. Once none is held, key `key`
/// going down puts its code into the register that `Fx0A` named; while it
/// stays down the program stays where it is; and when it is up again the
/// wait is over and the program goes on with the next instruction.
pub proof fn lemma_wait_for_key(s: State, key: Key)
    requires
        s.wf(),
        s.wait_for_key_state is WaitForNoKeyPressed,
    ensures
        ({
            let down = set![key];
            let up = Set::<Key>::empty();
            let (polling, first) = check_and_process_0xfx0a(s, up);
            let (pressed, second) = check_and_process_0xfx0a(polling, down);
            let (still_pressed, third) = check_and_process_0xfx0a(pressed, down);
            let (released, fourth) = check_and_process_0xfx0a(still_pressed, up);
            &&& check_and_process_0xfx0a(s, down) == (s, Ok::<ProgramCounter, Chip8Error>(ProgramCounter::Pause))
            &&& polling == s.with_wait(WaitForKeyState::CheckForKeyPressed)
            &&& check_and_process_0xfx0a(polling, up) == (polling, Ok::<ProgramCounter, Chip8Error>(ProgramCounter::Pause))
            &&& pressed.registers[s.wait_for_keypress_register as int] == key.index()
            &&& pressed.wait_for_key_state is WaitForKeyRelease
            &&& still_pressed == pressed
            &&& released == pressed.with_wait(WaitForKeyState::Idle)
            &&& first == Ok::<ProgramCounter, Chip8Error>(ProgramCounter::Pause)
            &&& second == Ok::<ProgramCounter, Chip8Error>(ProgramCounter::Pause)
            &&& third == Ok::<ProgramCounter, Chip8Error>(ProgramCounter::Pause)
            &&& fourth == Ok::<ProgramCounter, Chip8Error>(ProgramCounter::Next)
        }),
{
    lemma_first_held_single(key);
    let down = set![key];
    let up = Set::<Key>::empty();
    let polling = s.with_wait(WaitForKeyState::CheckForKeyPressed);
    assert(check_and_process_0xfx0a(s, up).0 == polling);
    assert(first_held(up) is None) by {
        lemma_first_held(up);
    }
    let pressed = polling.with_register(
        s.wait_for_keypress_register as int,
        key.index(),
    ).with_wait(WaitForKeyState::WaitForKeyRelease);
    assert(check_and_process_0xfx0a(polling, down).0 == pressed);
    assert(check_and_process_0xfx0a(pressed, down).0 == pressed);
}

/// Only `Cxkk` looks at the random byte: an instruction of any other
/// family does the same whatever that byte is.
pub proof fn lemma_random_only_matters_to_cxkk(s: State, held: Set<Key>, one: u8, other: u8)
    requires
        s.fetchable() ==> s.memory[s.pc as int] / 16 != 0xC,
    ensures
        emulate_instruction(s, held, one) == emulate_instruction(s, held, other),
        run_instruction(s, held, one) == run_instruction(s, held, other),
{
    if s.fetchable() {
        lemma_word_digits(s.memory[s.pc as int], s.memory[s.pc + 1]);
    }
}

/// What holds of every instruction. It leaves the program counter, the
/// record of the instruction and the configuration alone; if it fails it
/// leaves everything alone; and from a well-formed state whose
/// instruction could be fetched it leads to a well-formed state.
pub open spec fn well_behaved(s: State, outcome: (State, OpcodeResult)) -> bool {
    let (after, result) = outcome;
    &&& after.pc == s.pc
    &&& after.opcode == s.opcode
    &&& after.quirks == s.quirks
    &&& after.options == s.options
    &&& result is Err ==> after == s
    &&& s.wf() && s.fetchable() ==> after.wf()
}

/// Clearing, returning, jumping and calling are well behaved.
proof fn lemma_flow_instructions_well_behaved(s: State)
    ensures
        well_behaved(s, opcode_0x0yyy(s)),
        well_behaved(s, opcode_0x1yyy(s)),
        well_behaved(s, opcode_0x2yyy(s)),
        well_behaved(s, opcode_0xbyyy(s)),
{
}

/// The instructions that only decide whether to skip are well behaved.
proof fn lemma_skip_instructions_well_behaved(s: State, held: Set<Key>)
    ensures
        well_behaved(s, opcode_0x3yyy(s)),
        well_behaved(s, opcode_0x4yyy(s)),
        well_behaved(s, opcode_0x5yyy(s)),
        well_behaved(s, opcode_0x9yyy(s)),
        well_behaved(s, opcode_0xeyyy(s, held)),
{
}

/// The instructions that set one register or the index register are
/// well behaved.
proof fn lemma_load_instructions_well_behaved(s: State, random: u8)
    ensures
        well_behaved(s, opcode_0x6yyy(s)),
        well_behaved(s, opcode_0x7yyy(s)),
        well_behaved(s, opcode_0xayyy(s)),
        well_behaved(s, opcode_0xcyyy(s, random)),
{
}

/// The instructions that combine two registers are well behaved.
proof fn lemma_arithmetic_well_behaved(s: State)
    ensures
        well_behaved(s, opcode_0x8yyy(s)),
{
}

/// Drawing is well behaved.
proof fn lemma_draw_well_behaved(s: State)
    ensures
        well_behaved(s, opcode_0xdyyy(s)),
{
    if s.wf() && s.ir + low_nibble(s.opcode) <= 4096 {
        lemma_draw_sprite_valid(
            s.screen,
            s.vx() as int % 64,
            s.vy() as int % 32,
            s.memory.subrange(s.ir as int, s.ir + low_nibble(s.opcode)),
            s.quirks.clipping,
        );
    }
}

/// The timer, index, memory and key-wait instructions are well behaved.
proof fn lemma_misc_well_behaved(s: State)
    ensures
        well_behaved(s, opcode_0xfyyy(s)),
{
}

/// Every instruction is well behaved.
pub proof fn lemma_dispatch_well_behaved(s: State, held: Set<Key>, random: u8)
    ensures
        well_behaved(s, dispatch(s, held, random)),
{
    lemma_flow_instructions_well_behaved(s);
    lemma_skip_instructions_well_behaved(s, held);
    lemma_load_instructions_well_behaved(s, random);
    lemma_arithmetic_well_behaved(s);
    lemma_draw_well_behaved(s);
    lemma_misc_well_behaved(s);
}

/// Whether an instruction word names an instruction: its first digit
/// selects a family, and the digits that the family does not use for
/// registers or constants are those of one of its instructions.
pub open spec fn is_instruction(opcode: u16) -> bool {
    let n = low_nibble(opcode);
    let kk = low_byte(opcode);
    match family(opcode) {
        0x0 => address(opcode) == 0x0E0 || address(opcode) == 0x0EE,
        0x5 => n == 0,
        0x8 => n <= 0x7 || n == 0xE,
        0x9 => n == 0,
        0xE => kk == 0x9E || kk == 0xA1,
        0xF => kk == 0x07 || kk == 0x0A || kk == 0x15 || kk == 0x18 || kk == 0x1E || kk == 0x29
            || kk == 0x33 || kk == 0x55 || kk == 0x65,
        _ => true,
    }
}

/// The errors of the families that change no register.
proof fn lemma_errors_of_flow_and_skips(s: State, held: Set<Key>, error: Chip8Error)
    requires
        family(s.opcode) <= 0x5 || family(s.opcode) == 0x9 || family(s.opcode) == 0xE,
    ensures
        instruction_fails_with(s, error) <==> dispatch(s, held, 0).1 == Err::<
            ProgramCounter,
            Chip8Error,
        >(error),
{
}

/// The errors of the other families.
proof fn lemma_errors_of_the_rest(s: State, held: Set<Key>, random: u8, error: Chip8Error)
    requires
        !(family(s.opcode) <= 0x5 || family(s.opcode) == 0x9 || family(s.opcode) == 0xE),
    ensures
        instruction_fails_with(s, error) <==> dispatch(s, held, random).1 == Err::<
            ProgramCounter,
            Chip8Error,
        >(error),
{
}

/// When the instruction in `s.opcode` fails with `error`, said for each
/// error by itself.
pub open spec fn instruction_fails_with(s: State, error: Chip8Error) -> bool {
    let x = reg_x(s.opcode);
    let kk = low_byte(s.opcode);
    match error {
        Chip8Error::UnsupportedOpcode(opcode) => opcode == s.opcode && !is_instruction(s.opcode),
        Chip8Error::StackOverflow => family(s.opcode) == 0x2 && s.sp >= 16,
        Chip8Error::StackUnderflow => s.opcode == 0x00EE && s.sp == 0,
        Chip8Error::InternalKeyError(code) => {
            &&& family(s.opcode) == 0xE
            &&& is_instruction(s.opcode)
            &&& code == s.vx()
            &&& code > 0xF
        },
        Chip8Error::MemoryOutOfBounds(addr) => {
            &&& addr == s.ir
            &&& {
                ||| family(s.opcode) == 0xD && s.ir + low_nibble(s.opcode) > 4096
                ||| family(s.opcode) == 0xF && kk == 0x33 && s.ir + 2 >= 4096
                ||| family(s.opcode) == 0xF && (kk == 0x55 || kk == 0x65) && s.ir + x >= 4096
            }
        },
        Chip8Error::RomTooBig(_) => false,
    }
}

/// An instruction fails exactly when it is no instruction, when the
/// stack has no room or nothing on it, when a register names no key, or
/// when it would pass the end of memory; and it then fails with the error
/// that says so.
pub proof fn lemma_instruction_errors(s: State, held: Set<Key>, random: u8, error: Chip8Error)
    ensures
        dispatch(s, held, random).1 == Err::<ProgramCounter, Chip8Error>(error)
            <==> instruction_fails_with(s, error),
{
    if family(s.opcode) <= 0x5 || family(s.opcode) == 0x9 || family(s.opcode) == 0xE {
        lemma_errors_of_flow_and_skips(s, held, error);
    } else {
        lemma_errors_of_the_rest(s, held, random, error);
    }
}

/// No instruction moves the program counter by itself: it says where the
/// program counter is to go. And only an instruction that could be
/// fetched is carried out.
pub proof fn lemma_instruction_keeps_pc(s: State, held: Set<Key>, random: u8)
    ensures
        emulate_instruction(s, held, random).0.pc == s.pc,
        emulate_instruction(s, held, random).0.quirks == s.quirks,
        emulate_instruction(s, held, random).0.options == s.options,
        emulate_instruction(s, held, random).1 is Ok ==> s.fetchable(),
{
    if s.fetchable() {
        let fetched = State { opcode: word(s.memory[s.pc as int], s.memory[s.pc + 1]), ..s };
        lemma_dispatch_well_behaved(fetched, held, random);
    }
}

/// An instruction that fails changes nothing but the record of which
/// instruction it was.
pub proof fn lemma_failed_instruction_changes_nothing(s: State, held: Set<Key>, random: u8)
    requires
        emulate_instruction(s, held, random).1 is Err,
    ensures
        emulate_instruction(s, held, random).0 == (State {
            opcode: emulate_instruction(s, held, random).0.opcode,
            ..s
        }),
{
    if s.fetchable() {
        let fetched = State { opcode: word(s.memory[s.pc as int], s.memory[s.pc + 1]), ..s };
        lemma_dispatch_well_behaved(fetched, held, random);
    }
}

/// Carrying out an instruction keeps the state well formed.
pub proof fn lemma_instruction_preserves_wf(s: State, held: Set<Key>, random: u8)
    requires
        s.wf(),
    ensures
        emulate_instruction(s, held, random).0.wf(),
{
    if s.fetchable() {
        let fetched = State { opcode: word(s.memory[s.pc as int], s.memory[s.pc + 1]), ..s };
        assert(fetched.wf() && fetched.fetchable());
        lemma_dispatch_well_behaved(fetched, held, random);
    }
}

/// A step of the wait for a key keeps the state well formed.
pub proof fn lemma_wait_preserves_wf(s: State, held: Set<Key>)
    requires
        s.wf(),
    ensures
        check_and_process_0xfx0a(s, held).0.wf(),
{
    lemma_first_held(held);
}

/// The program's part of a cycle keeps the state well formed.
#[verifier::rlimit(40)]
pub proof fn lemma_run_instruction_preserves_wf(s: State, held: Set<Key>, random: u8)
    requires
        s.wf(),
    ensures
        run_instruction(s, held, random).0.wf(),
{
    let fresh = State { draw_on_screen: false, ..s };
    assert(fresh.wf());
    if fresh.wait_for_key_state is Idle {
        lemma_instruction_preserves_wf(fresh, held, random);
        lemma_instruction_keeps_pc(fresh, held, random);
        let (after, action) = emulate_instruction(fresh, held, random);
        assert(after.wait_for_key_state is Idle || after.fetchable());
        if action is Ok {
            assert(after.with_pc_moved(action->Ok_0).wf());
        }
    } else {
        lemma_wait_preserves_wf(fresh, held);
    }
}

/// A machine in a state that it can reach stays in one: whatever the
/// instruction, the keys, the random byte and the timer events, the state
/// after a cycle is well formed.
pub proof fn lemma_cycle_preserves_wf(s: State, held: Set<Key>, random: u8, ops: Seq<TimerOperation>)
    requires
        s.wf(),
    ensures
        emulate_cycle(s, held, random, ops).0.wf(),
{
    lemma_run_instruction_preserves_wf(s, held, random);
}

/// A cycle that carries out an instruction which neither jumps nor skips
/// moves the program counter by exactly two, and one that skips by
/// exactly four. A jump puts it where the instruction says, and a pause
/// or a failure leaves it where it is.
pub proof fn lemma_pc_advances_by_two(s: State, held: Set<Key>, random: u8)
    requires
        s.wf(),
        s.wait_for_key_state is Idle,
    ensures
        ({
            let fresh = State { draw_on_screen: false, ..s };
            let action = emulate_instruction(fresh, held, random).1;
            let after = run_instruction(s, held, random).0;
            &&& action == Ok::<ProgramCounter, Chip8Error>(ProgramCounter::Next) ==> after.pc == s.pc + 2
            &&& action == Ok::<ProgramCounter, Chip8Error>(ProgramCounter::Skip) ==> after.pc == s.pc + 4
            &&& action == Ok::<ProgramCounter, Chip8Error>(ProgramCounter::Pause) ==> after.pc == s.pc
            &&& action is Err ==> after.pc == s.pc
            &&& action matches Ok(ProgramCounter::Jump(addr)) ==> after.pc == addr
        }),
{
    let fresh = State { draw_on_screen: false, ..s };
    lemma_instruction_keeps_pc(fresh, held, random);
}

/// While the machine waits for a key no instruction is carried out:
/// memory, the index register, the stack and the screen stay as they are,
/// and so does the program counter until the wait is over, when it moves
/// past the instruction that waited. The timers still count down with the
/// events of the cycle.
pub proof fn lemma_waiting_freezes_the_program(
    s: State,
    held: Set<Key>,
    random: u8,
    ops: Seq<TimerOperation>,
)
    requires
        s.wf(),
        !(s.wait_for_key_state is Idle),
    ensures
        ({
            let (after, result) = emulate_cycle(s, held, random, ops);
            &&& result is Ok
            &&& after.memory == s.memory
            &&& after.ir == s.ir
            &&& after.stack == s.stack
            &&& after.sp == s.sp
            &&& after.screen == s.screen
            &&& after.opcode == s.opcode
            &&& !after.draw_on_screen
            &&& after.delay_timer == drained(s.delay_timer, ops)
            &&& after.sound_timer == drained(s.sound_timer, ops)
            &&& after.pc == if after.wait_for_key_state is Idle {
                (s.pc + 2) as u16
            } else {
                s.pc
            }
            &&& after.wait_for_key_state is Idle <==> s.wait_for_key_state is WaitForKeyRelease
                && !any_held(held)
        }),
{
}

/// A cycle that fails leaves the timers, the program counter, memory, the
/// registers, the stack and the screen as they were.
pub proof fn lemma_failed_cycle(s: State, held: Set<Key>, random: u8, ops: Seq<TimerOperation>)
    requires
        s.wf(),
        emulate_cycle(s, held, random, ops).1 is Err,
    ensures
        emulate_cycle(s, held, random, ops).0 == (State {
            opcode: emulate_cycle(s, held, random, ops).0.opcode,
            draw_on_screen: false,
            ..s
        }),
        s.wait_for_key_state is Idle,
{
    let fresh = State { draw_on_screen: false, ..s };
    if fresh.wait_for_key_state is Idle {
        lemma_failed_instruction_changes_nothing(fresh, held, random);
    }
}

} // verus!
