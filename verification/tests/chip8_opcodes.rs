use std::sync::mpsc;

use wheat::chip8::{Chip8, ProgramCounter, FLAG_REGISTER};
use wheat::graphics::Graphics;
use wheat::input::SdlInputImpl;
use wheat::traits::GraphicsBuffer;
use wheat::{Chip8Error, DebugOptions, Key, Quirks};

fn create_chip8_with(opcode: u16, quirks: Quirks) -> Chip8<Graphics> {
    let graphics = Graphics::new();
    let (_, timer_rx) = mpsc::channel();
    let mut chip8 = Chip8::new(graphics, timer_rx, quirks, DebugOptions::default());
    chip8.set_opcode(opcode);
    chip8
}

fn create_chip8(opcode: u16) -> Chip8<Graphics> {
    create_chip8_with(opcode, Quirks::default())
}

fn shift_in_place() -> Quirks {
    Quirks::new(true, true, false, false, true)
}

/// Runs an `8xyn` instruction on the given register values and compares
/// register x, the flag register and the result.
fn check_arithmetic(chip8: &mut Chip8<Graphics>, vx: u8, vy: u8, vx_end: u8, carry: u8) {
    let (x, y) = chip8.get_regs_x_y();

    chip8.set_register(x, vx);
    chip8.set_register(y, vy);

    let result = chip8.opcode_0x8yyy();
    assert_eq!(chip8.registers()[x], vx_end);
    assert_eq!(chip8.registers()[FLAG_REGISTER], carry);
    assert_eq!(result, Ok(ProgramCounter::Next));
}

fn arithmetic(opcode: u16, vx: u8, vy: u8, vx_end: u8, carry: u8) {
    let mut chip8 = create_chip8(opcode);
    check_arithmetic(&mut chip8, vx, vy, vx_end, carry);
}

fn arithmetic_shifting_in_place(opcode: u16, vx: u8, vy: u8, vx_end: u8, carry: u8) {
    let mut chip8 = create_chip8_with(opcode, shift_in_place());
    check_arithmetic(&mut chip8, vx, vy, vx_end, carry);
}

#[test]
fn test_0x00e0() {
    let mut chip8 = create_chip8(0x00e0);
    // Draw the first sprite digit - digits are loaded starting at 0x0 and are all 5 bytes tall
    let memory = chip8.memory().clone();
    chip8.graphics_mut().draw(0, 0, 5, 0, &memory, true);
    assert_eq!(chip8.graphics().buffer()[0][0], 1);

    let pc_op = chip8.opcode_0x0yyy();

    assert_eq!(pc_op, Ok(ProgramCounter::Next));

    let screen = chip8.graphics().buffer();

    for i in screen {
        for j in i {
            assert_eq!(*j, 0);
        }
    }
}

#[test]
fn test_regs_x_y() {
    let chip8 = create_chip8(0x0FA0);

    let (x, y) = chip8.get_regs_x_y();
    assert_eq!(x, 0xF);
    assert_eq!(y, 0xA);
}

#[test]
fn test_bcd() {
    let mut chip8 = create_chip8(0xF133);
    let (x, _) = chip8.get_regs_x_y();

    chip8.set_register(x, 123);
    chip8.set_ir(0x500);

    let result = chip8.opcode_0xfyyy();

    assert_eq!(result, Ok(ProgramCounter::Next));
    assert_eq!(chip8.memory()[chip8.ir() as usize], 1);
    assert_eq!(chip8.memory()[chip8.ir() as usize + 1], 2);
    assert_eq!(chip8.memory()[chip8.ir() as usize + 2], 3);
}

#[test]
fn test_copy_to_mem() {
    let mut chip8 = create_chip8(0xF555);

    for i in 0..=5 {
        chip8.set_register(i, (i + 1) as u8);
    }

    let ir: usize = 0x500;
    chip8.set_ir(0x500);

    let result = chip8.opcode_0xfyyy();

    assert_eq!(result, Ok(ProgramCounter::Next));
    assert_eq!(chip8.memory()[ir], 1);
    assert_eq!(chip8.memory()[ir + 1], 2);
    assert_eq!(chip8.memory()[ir + 2], 3);
    assert_eq!(chip8.memory()[ir + 3], 4);
    assert_eq!(chip8.memory()[ir + 4], 5);
    assert_eq!(chip8.memory()[ir + 5], 6);
}

#[test]
fn test_copy_from_mem() {
    let mut chip8 = create_chip8(0xF565);

    chip8.set_ir(0x500);

    for i in 0..=5 {
        chip8.set_memory(chip8.ir() as usize + i, (i + 1) as u8);
    }

    let result = chip8.opcode_0xfyyy();

    assert_eq!(result, Ok(ProgramCounter::Next));

    assert_eq!(chip8.registers()[0], 1);
    assert_eq!(chip8.registers()[1], 2);
    assert_eq!(chip8.registers()[2], 3);
    assert_eq!(chip8.registers()[3], 4);
    assert_eq!(chip8.registers()[4], 5);
    assert_eq!(chip8.registers()[5], 6);
}

#[test]
fn test_1nnn_opcode() {
    let mut chip8 = create_chip8(0x1200);
    chip8.set_pc(0x300);

    let result = chip8.opcode_0x1yyy();
    assert_eq!(result, Ok(ProgramCounter::Jump(0x200)));
}

#[test]
fn test_2nnn_opcode() {
    let mut chip8 = create_chip8(0x2300);
    let result = chip8.opcode_0x2yyy();

    assert_eq!(result, Ok(ProgramCounter::Jump(0x300)));
    assert_eq!(chip8.stack()[0], 0x202);
    assert_eq!(chip8.sp(), 1);
}

fn skip_value(opcode: u16, reg_start_val: u8) -> Chip8<Graphics> {
    let mut chip8 = create_chip8(opcode);
    let (x, _) = chip8.get_regs_x_y();
    chip8.set_register(x, reg_start_val);
    chip8
}

#[test]
fn test_0x3yyy_eq() {
    assert_eq!(skip_value(0x3012, 0x12).opcode_0x3yyy(), Ok(ProgramCounter::Skip));
}

#[test]
fn test_0x3yyy_neq() {
    assert_eq!(skip_value(0x3012, 0x10).opcode_0x3yyy(), Ok(ProgramCounter::Next));
}

#[test]
fn test_0x4yyy_eq() {
    assert_eq!(skip_value(0x3012, 0x12).opcode_0x4yyy(), Ok(ProgramCounter::Next));
}

#[test]
fn test_0x4yyy_neq() {
    assert_eq!(skip_value(0x3012, 0x10).opcode_0x4yyy(), Ok(ProgramCounter::Skip));
}

fn skip_register(opcode: u16, reg1_start_val: u8, reg2_start_val: u8) -> Chip8<Graphics> {
    let mut chip8 = create_chip8(opcode);
    let (x, y) = chip8.get_regs_x_y();
    chip8.set_register(x, reg1_start_val);
    chip8.set_register(y, reg2_start_val);
    chip8
}

#[test]
fn test_0x3xyy_eq() {
    assert_eq!(skip_register(0x3110, 0x10, 0x10).opcode_0x3yyy(), Ok(ProgramCounter::Skip));
}

#[test]
fn test_0x3xyy_neq() {
    assert_eq!(skip_register(0x3120, 0x10, 0x10).opcode_0x3yyy(), Ok(ProgramCounter::Next));
}

#[test]
fn test_0x4xyy_eq() {
    assert_eq!(skip_register(0x3110, 0x10, 0x10).opcode_0x4yyy(), Ok(ProgramCounter::Next));
}

#[test]
fn test_0x4xyy_neq() {
    assert_eq!(skip_register(0x3120, 0x10, 0x10).opcode_0x4yyy(), Ok(ProgramCounter::Skip));
}

#[test]
fn test_0x5yyy_eq() {
    assert_eq!(skip_register(0x5120, 0x10, 0x10).opcode_0x5yyy(), Ok(ProgramCounter::Skip));
}

#[test]
fn test_0x5yyy_neq() {
    assert_eq!(skip_register(0x5120, 0x11, 0x10).opcode_0x5yyy(), Ok(ProgramCounter::Next));
}

#[test]
fn test_0x9yyy_eq() {
    assert_eq!(skip_register(0x5120, 0x10, 0x10).opcode_0x9yyy(), Ok(ProgramCounter::Next));
}

#[test]
fn test_0x9yyy_neq() {
    assert_eq!(skip_register(0x5120, 0x11, 0x10).opcode_0x9yyy(), Ok(ProgramCounter::Skip));
}

#[test]
fn test_skip_registers_needs_zero_low_digit() {
    assert_eq!(
        skip_register(0x5121, 0x10, 0x10).opcode_0x5yyy(),
        Err(Chip8Error::UnsupportedOpcode(0x5121))
    );
    assert_eq!(
        skip_register(0x912F, 0x11, 0x10).opcode_0x9yyy(),
        Err(Chip8Error::UnsupportedOpcode(0x912F))
    );
}

#[test]
fn test_0x6yyy_opcode() {
    let mut chip8 = create_chip8(0x6120);
    let (x, _) = chip8.get_regs_x_y();

    chip8.set_register(x, 0);
    let result = chip8.opcode_0x6yyy();

    assert_eq!(chip8.registers()[1], 0x20);
    assert_eq!(result, Ok(ProgramCounter::Next));
}

#[test]
fn test_0x6yyy_every_constant() {
    for kk in 0..=255u16 {
        let mut chip8 = create_chip8(0x6700 | kk);
        assert_eq!(chip8.opcode_0x6yyy(), Ok(ProgramCounter::Next));
        assert_eq!(chip8.registers()[7], kk as u8);
    }
}

#[test]
fn test_0x7yyy_opcode() {
    let mut chip8 = create_chip8(0x7120);
    let (x, _) = chip8.get_regs_x_y();

    chip8.set_register(x, 0x10);
    let result = chip8.opcode_0x7yyy();

    assert_eq!(chip8.registers()[1], 0x30);
    assert_eq!(result, Ok(ProgramCounter::Next));
}

#[test]
fn test_0x7yyy_wraps_without_flag() {
    let mut chip8 = create_chip8(0x71FF);
    chip8.set_register(1, 0x02);
    chip8.set_register(FLAG_REGISTER, 7);

    assert_eq!(chip8.opcode_0x7yyy(), Ok(ProgramCounter::Next));
    assert_eq!(chip8.registers()[1], 0x01);
    assert_eq!(chip8.registers()[FLAG_REGISTER], 7);
}

#[test]
fn test_0xayyy() {
    let mut chip8 = create_chip8(0xA120);
    let result = chip8.opcode_0xayyy();

    assert_eq!(chip8.ir(), 0x120);
    assert_eq!(result, Ok(ProgramCounter::Next));
}

#[test]
fn test_0xbyyy() {
    let mut chip8 = create_chip8(0xB120);
    chip8.set_register(0, 0xFF);

    let result = chip8.opcode_0xbyyy();

    assert_eq!(result, Ok(ProgramCounter::Jump(0xFF + 0x120)));
}

#[test]
fn test_0xbyyy_with_vx() {
    let mut chip8 = create_chip8_with(0xB120, Quirks::new(true, true, true, true, true));
    chip8.set_register(0, 0xFF);
    chip8.set_register(1, 0x03);

    assert_eq!(chip8.opcode_0xbyyy(), Ok(ProgramCounter::Jump(0x123)));
}

#[test]
fn test_store() {
    arithmetic(0x8AB0, 1, 2, 2, 0);
}

#[test]
fn test_or_1_1() {
    arithmetic(0x8AB1, 1, 1, 1, 0);
}

#[test]
fn test_or_0_0() {
    arithmetic(0x8AB1, 0, 0, 0, 0);
}

#[test]
fn test_or_0_1() {
    arithmetic(0x8AB1, 0, 1, 1, 0);
}

#[test]
fn test_or_1_0() {
    arithmetic(0x8AB1, 1, 0, 1, 0);
}

#[test]
fn test_and_1_1() {
    arithmetic(0x8AB2, 1, 1, 1, 0);
}

#[test]
fn test_and_0_0() {
    arithmetic(0x8AB2, 0, 0, 0, 0);
}

#[test]
fn test_and_0_1() {
    arithmetic(0x8AB2, 0, 1, 0, 0);
}

#[test]
fn test_and_1_0() {
    arithmetic(0x8AB2, 1, 0, 0, 0);
}

#[test]
fn test_xor_1_1() {
    arithmetic(0x8AB3, 1, 1, 0, 0);
}

#[test]
fn test_xor_0_0() {
    arithmetic(0x8AB3, 0, 0, 0, 0);
}

#[test]
fn test_xor_0_1() {
    arithmetic(0x8AB3, 0, 1, 1, 0);
}

#[test]
fn test_xor_1_0() {
    arithmetic(0x8AB3, 1, 0, 1, 0);
}

#[test]
fn test_logic_resets_flag_only_with_quirk() {
    let mut chip8 = create_chip8(0x8AB1);
    chip8.set_register(FLAG_REGISTER, 1);
    check_arithmetic(&mut chip8, 0xF0, 0x0F, 0xFF, 0);

    let mut chip8 = create_chip8_with(0x8AB1, Quirks::new(false, true, true, false, true));
    chip8.set_register(FLAG_REGISTER, 1);
    check_arithmetic(&mut chip8, 0xF0, 0x0F, 0xFF, 1);
}

#[test]
fn test_add_1_1() {
    arithmetic(0x8AB4, 1, 1, 2, 0);
}

#[test]
fn test_add_254_3() {
    arithmetic(0x8AB4, 254, 3, 1, 1);
}

#[test]
fn test_add_every_pair() {
    for vx in 0..=255u16 {
        for vy in (0..=255u16).step_by(5) {
            let mut chip8 = create_chip8(0x8AB4);
            let carry = if vx + vy > 255 { 1 } else { 0 };
            check_arithmetic(&mut chip8, vx as u8, vy as u8, ((vx + vy) % 256) as u8, carry);
        }
    }
}

#[test]
fn test_add_into_flag_register_keeps_the_flag() {
    let mut chip8 = create_chip8(0x8FA4);
    chip8.set_register(0xF, 200);
    chip8.set_register(0xA, 100);

    assert_eq!(chip8.opcode_0x8yyy(), Ok(ProgramCounter::Next));
    assert_eq!(chip8.registers()[0xF], 1);
}

#[test]
fn test_sub_1_1() {
    arithmetic(0x8AB5, 1, 1, 0, 1);
}

#[test]
fn test_sub_2_1() {
    arithmetic(0x8AB5, 2, 1, 1, 1);
}

#[test]
fn test_sub_2_3() {
    arithmetic(0x8AB5, 2, 3, 255, 0);
}

#[test]
fn test_sub_v3_vf_1() {
    arithmetic(0x83F5, 5, 5, 0, 1);
}

#[test]
fn test_sub_v3_vf_2() {
    arithmetic(0x83F5, 5, 6, 255, 0);
}

#[test]
fn test_sub_v3_vf_3() {
    arithmetic(0x83F5, 5, 4, 1, 1);
}

#[test]
fn test_sub_every_pair() {
    for vx in 0..=255i32 {
        for vy in (0..=255i32).step_by(3) {
            let mut chip8 = create_chip8(0x8AB5);
            let no_borrow = if vx >= vy { 1 } else { 0 };
            check_arithmetic(&mut chip8, vx as u8, vy as u8, (vx - vy).rem_euclid(256) as u8, no_borrow);
        }
    }
}

#[test]
fn test_shr_0() {
    arithmetic_shifting_in_place(0x8AB6, 0, 0, 0, 0);
}

#[test]
fn test_shr_1() {
    arithmetic_shifting_in_place(0x8AB6, 1, 0, 0, 1);
}

#[test]
fn test_shr_2() {
    arithmetic_shifting_in_place(0x8AB6, 2, 0, 1, 0);
}

#[test]
fn test_shr_3() {
    arithmetic_shifting_in_place(0x8AB6, 3, 0, 1, 1);
}

#[test]
fn test_shr_takes_vy_with_quirk() {
    arithmetic(0x8AB6, 1, 0, 0, 0);
    arithmetic(0x8AB6, 0, 7, 3, 1);
    arithmetic(0x8AB6, 0xFF, 0x80, 0x40, 0);
}

#[test]
fn test_subn_1_1() {
    arithmetic(0x8AB7, 1, 1, 0, 1);
}

#[test]
fn test_subn_1_2() {
    arithmetic(0x8AB7, 1, 2, 1, 1);
}

#[test]
fn test_subn_2_1() {
    arithmetic(0x8AB7, 2, 1, 255, 0);
}

#[test]
fn test_subn_v3_vf() {
    arithmetic(0x83F7, 5, 4, 255, 0);
}

#[test]
fn test_shl_0() {
    arithmetic_shifting_in_place(0x8ABE, 0, 0, 0, 0);
}

#[test]
fn test_shl_1() {
    arithmetic_shifting_in_place(0x8ABE, 1, 0, 2, 0);
}

#[test]
fn test_shl_2() {
    arithmetic_shifting_in_place(0x8ABE, 2, 0, 4, 0);
}

#[test]
fn test_shl_3() {
    arithmetic_shifting_in_place(0x8ABE, 128, 0, 0, 1);
}

#[test]
fn test_shl_4() {
    arithmetic_shifting_in_place(0x8ABE, 129, 0, 2, 1);
}

#[test]
fn test_shl_takes_vy_with_quirk() {
    arithmetic(0x8ABE, 1, 0, 0, 0);
    arithmetic(0x8ABE, 0, 0x81, 2, 1);
    arithmetic(0x8ABE, 0xFF, 0x40, 0x80, 0);
}

#[test]
fn test_shifts_move_one_bit_for_every_value() {
    for v in 0..=255u16 {
        let mut right = create_chip8_with(0x8AB6, shift_in_place());
        check_arithmetic(&mut right, v as u8, 0, (v / 2) as u8, (v % 2) as u8);
        let mut left = create_chip8_with(0x8ABE, shift_in_place());
        check_arithmetic(&mut left, v as u8, 0, ((v * 2) % 256) as u8, (v / 128) as u8);
    }
}

#[test]
fn test_0x8yyy_unknown() {
    for n in [0x8u16, 0x9, 0xA, 0xB, 0xC, 0xD, 0xF] {
        let mut chip8 = create_chip8(0x8AB0 | n);
        chip8.set_register(0xA, 3);
        assert_eq!(chip8.opcode_0x8yyy(), Err(Chip8Error::UnsupportedOpcode(0x8AB0 | n)));
        assert_eq!(chip8.registers()[0xA], 3);
    }
}

#[test]
fn test_0x0yyy_unknown() {
    let mut chip8 = create_chip8(0x0123);
    assert_eq!(chip8.opcode_0x0yyy(), Err(Chip8Error::UnsupportedOpcode(0x0123)));
    let mut chip8 = create_chip8(0x01E0);
    assert_eq!(chip8.opcode_0x0yyy(), Err(Chip8Error::UnsupportedOpcode(0x01E0)));
}

#[test]
fn test_return_with_empty_stack() {
    let mut chip8 = create_chip8(0x00EE);
    assert_eq!(chip8.opcode_0x0yyy(), Err(Chip8Error::StackUnderflow));
    assert_eq!(chip8.sp(), 0);
}

#[test]
fn test_call_then_return() {
    let mut chip8 = create_chip8(0x2300);
    chip8.set_pc(0x24A);
    assert_eq!(chip8.opcode_0x2yyy(), Ok(ProgramCounter::Jump(0x300)));
    chip8.set_opcode(0x00EE);
    assert_eq!(chip8.opcode_0x0yyy(), Ok(ProgramCounter::Jump(0x24C)));
    assert_eq!(chip8.sp(), 0);
}

#[test]
fn test_sixteen_calls_fit_and_one_more_does_not() {
    let mut chip8 = create_chip8(0x2300);
    for depth in 0..16u8 {
        assert_eq!(chip8.sp(), depth);
        assert_eq!(chip8.opcode_0x2yyy(), Ok(ProgramCounter::Jump(0x300)));
    }
    assert_eq!(chip8.sp(), 16);
    assert_eq!(chip8.opcode_0x2yyy(), Err(Chip8Error::StackOverflow));
    assert_eq!(chip8.sp(), 16);
}

#[test]
fn test_random_is_masked() {
    for _ in 0..200 {
        let mut chip8 = create_chip8(0xC30F);
        chip8.set_register(3, 0xFF);
        assert_eq!(chip8.opcode_0xcyyy(), Ok(ProgramCounter::Next));
        assert!(chip8.registers()[3] <= 0x0F);

        let mut chip8 = create_chip8(0xC300);
        chip8.set_register(3, 0xFF);
        assert_eq!(chip8.opcode_0xcyyy(), Ok(ProgramCounter::Next));
        assert_eq!(chip8.registers()[3], 0);
    }
}

#[test]
fn test_random_takes_more_than_one_value() {
    let mut seen = [false; 256];
    for _ in 0..2000 {
        let mut chip8 = create_chip8(0xC3FF);
        assert_eq!(chip8.opcode_0xcyyy(), Ok(ProgramCounter::Next));
        seen[chip8.registers()[3] as usize] = true;
    }
    assert!(seen.iter().filter(|s| **s).count() > 100);
}

#[test]
fn test_store_random() {
    let mut chip8 = create_chip8(0xC35A);
    assert_eq!(chip8.store_random(0xF3), Ok(ProgramCounter::Next));
    assert_eq!(chip8.registers()[3], 0x52);
}

#[test]
fn test_draw_opcode_sets_collision_flag() {
    let mut chip8 = create_chip8(0xD125);
    chip8.set_register(1, 4);
    chip8.set_register(2, 6);
    chip8.set_ir(0);

    assert_eq!(chip8.opcode_0xdyyy(), Ok(ProgramCounter::Next));
    assert_eq!(chip8.registers()[FLAG_REGISTER], 0);
    // The digit 0 is 0xF0, 0x90, 0x90, 0x90, 0xF0
    assert_eq!(chip8.graphics().buffer()[6][4..12], [1, 1, 1, 1, 0, 0, 0, 0]);
    assert_eq!(chip8.graphics().buffer()[7][4..12], [1, 0, 0, 1, 0, 0, 0, 0]);
    assert_eq!(chip8.graphics().buffer()[10][4..12], [1, 1, 1, 1, 0, 0, 0, 0]);
    assert_eq!(chip8.graphics().buffer()[11][4..12], [0, 0, 0, 0, 0, 0, 0, 0]);

    assert_eq!(chip8.opcode_0xdyyy(), Ok(ProgramCounter::Next));
    assert_eq!(chip8.registers()[FLAG_REGISTER], 1);
    for row in chip8.graphics().buffer() {
        for pixel in row {
            assert_eq!(*pixel, 0);
        }
    }
}

#[test]
fn test_draw_opcode_past_memory() {
    let mut chip8 = create_chip8(0xD125);
    chip8.set_ir(4092);
    assert_eq!(chip8.opcode_0xdyyy(), Err(Chip8Error::MemoryOutOfBounds(4092)));
    chip8.set_ir(4091);
    assert_eq!(chip8.opcode_0xdyyy(), Ok(ProgramCounter::Next));
}

#[test]
fn test_skip_if_key_pressed() {
    let mut input = SdlInputImpl::new();
    input.set_pressed(Key::B, true);

    let mut chip8 = create_chip8(0xE39E);
    chip8.set_register(3, 0xB);
    assert_eq!(chip8.opcode_0xeyyy(&input), Ok(ProgramCounter::Skip));
    chip8.set_register(3, 0xC);
    assert_eq!(chip8.opcode_0xeyyy(&input), Ok(ProgramCounter::Next));

    chip8.set_opcode(0xE3A1);
    assert_eq!(chip8.opcode_0xeyyy(&input), Ok(ProgramCounter::Skip));
    chip8.set_register(3, 0xB);
    assert_eq!(chip8.opcode_0xeyyy(&input), Ok(ProgramCounter::Next));
}

#[test]
fn test_key_opcode_with_bad_key() {
    let input = SdlInputImpl::new();
    let mut chip8 = create_chip8(0xE39E);
    chip8.set_register(3, 0x10);
    assert_eq!(chip8.opcode_0xeyyy(&input), Err(Chip8Error::InternalKeyError(0x10)));
    chip8.set_opcode(0xE3A1);
    assert_eq!(chip8.opcode_0xeyyy(&input), Err(Chip8Error::InternalKeyError(0x10)));
    chip8.set_opcode(0xE3A2);
    assert_eq!(chip8.opcode_0xeyyy(&input), Err(Chip8Error::UnsupportedOpcode(0xE3A2)));
}

#[test]
fn test_timer_opcodes() {
    let mut chip8 = create_chip8(0xF415);
    chip8.set_register(4, 77);
    assert_eq!(chip8.opcode_0xfyyy(), Ok(ProgramCounter::Next));
    assert_eq!(chip8.delay_timer(), 77);
    assert_eq!(chip8.sound_timer(), 0);

    chip8.set_opcode(0xF418);
    chip8.set_register(4, 9);
    assert_eq!(chip8.opcode_0xfyyy(), Ok(ProgramCounter::Next));
    assert_eq!(chip8.sound_timer(), 9);

    chip8.set_opcode(0xF507);
    assert_eq!(chip8.opcode_0xfyyy(), Ok(ProgramCounter::Next));
    assert_eq!(chip8.registers()[5], 77);
}

#[test]
fn test_index_opcodes() {
    let mut chip8 = create_chip8(0xF41E);
    chip8.set_ir(0x0FFF);
    chip8.set_register(4, 0xFF);
    assert_eq!(chip8.opcode_0xfyyy(), Ok(ProgramCounter::Next));
    assert_eq!(chip8.ir(), 0x10FE);

    chip8.set_ir(0xFFFF);
    chip8.set_register(4, 2);
    assert_eq!(chip8.opcode_0xfyyy(), Ok(ProgramCounter::Next));
    assert_eq!(chip8.ir(), 1);

    chip8.set_opcode(0xF429);
    chip8.set_register(4, 0xB);
    assert_eq!(chip8.opcode_0xfyyy(), Ok(ProgramCounter::Next));
    assert_eq!(chip8.ir(), 55);
    assert_eq!(chip8.memory()[55..60], [0xE0, 0x90, 0xE0, 0x90, 0xE0]);
}

#[test]
fn test_bcd_digits() {
    for (value, digits) in [(0u8, [0u8, 0, 0]), (7, [0, 0, 7]), (40, [0, 4, 0]), (255, [2, 5, 5])] {
        let mut chip8 = create_chip8(0xF133);
        chip8.set_register(1, value);
        chip8.set_ir(0x300);
        assert_eq!(chip8.opcode_0xfyyy(), Ok(ProgramCounter::Next));
        assert_eq!(chip8.memory()[0x300..0x303], digits);
        assert_eq!(chip8.ir(), 0x300);
    }
}

#[test]
fn test_memory_opcodes_past_memory() {
    let mut chip8 = create_chip8(0xF133);
    chip8.set_ir(4094);
    assert_eq!(chip8.opcode_0xfyyy(), Err(Chip8Error::MemoryOutOfBounds(4094)));
    chip8.set_ir(4093);
    assert_eq!(chip8.opcode_0xfyyy(), Ok(ProgramCounter::Next));

    chip8.set_opcode(0xF355);
    chip8.set_ir(4093);
    assert_eq!(chip8.opcode_0xfyyy(), Err(Chip8Error::MemoryOutOfBounds(4093)));
    assert_eq!(chip8.ir(), 4093);
    chip8.set_ir(4092);
    assert_eq!(chip8.opcode_0xfyyy(), Ok(ProgramCounter::Next));
    assert_eq!(chip8.ir(), 4096);

    chip8.set_opcode(0xF365);
    chip8.set_ir(4093);
    assert_eq!(chip8.opcode_0xfyyy(), Err(Chip8Error::MemoryOutOfBounds(4093)));
}

#[test]
fn test_bulk_copy_moves_index_only_with_quirk() {
    let mut chip8 = create_chip8(0xF255);
    chip8.set_ir(0x400);
    assert_eq!(chip8.opcode_0xfyyy(), Ok(ProgramCounter::Next));
    assert_eq!(chip8.ir(), 0x403);
    chip8.set_opcode(0xF065);
    assert_eq!(chip8.opcode_0xfyyy(), Ok(ProgramCounter::Next));
    assert_eq!(chip8.ir(), 0x404);

    let mut chip8 = create_chip8_with(0xF255, Quirks::new(true, false, true, false, true));
    chip8.set_ir(0x400);
    assert_eq!(chip8.opcode_0xfyyy(), Ok(ProgramCounter::Next));
    assert_eq!(chip8.ir(), 0x400);
    chip8.set_opcode(0xF265);
    assert_eq!(chip8.opcode_0xfyyy(), Ok(ProgramCounter::Next));
    assert_eq!(chip8.ir(), 0x400);
}

#[test]
fn test_bulk_copy_leaves_other_registers() {
    let mut chip8 = create_chip8(0xF165);
    chip8.set_ir(0x400);
    chip8.set_memory(0x400, 11);
    chip8.set_memory(0x401, 12);
    chip8.set_memory(0x402, 13);
    chip8.set_register(2, 99);
    assert_eq!(chip8.opcode_0xfyyy(), Ok(ProgramCounter::Next));
    assert_eq!(chip8.registers()[0..3], [11, 12, 99]);
}

#[test]
fn test_0xfyyy_unknown() {
    let mut chip8 = create_chip8(0xF1FF);
    assert_eq!(chip8.opcode_0xfyyy(), Err(Chip8Error::UnsupportedOpcode(0xF1FF)));
    assert_eq!(chip8.unknown_opcode(), Err(Chip8Error::UnsupportedOpcode(0xF1FF)));
}
