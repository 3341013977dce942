use std::sync::mpsc::{self, Sender};

use wheat::chip8::{Chip8, WaitForKeyState};
use wheat::graphics::Graphics;
use wheat::input::SdlInputImpl;
use wheat::rom::RomDriver;
use wheat::timer::{drain, TimerOperation};
use wheat::traits::{GraphicsBuffer, Input, Rom};
use wheat::{Chip8Error, DebugOptions, Key, Quirks};

fn machine(program: &[u8]) -> (Chip8<Graphics>, Sender<TimerOperation>) {
    let (timer_tx, timer_rx) = mpsc::channel();
    let mut chip8 =
        Chip8::new(Graphics::new(), timer_rx, Quirks::default(), DebugOptions::default());
    let rom = RomDriver { rom: program.to_vec() };
    assert_eq!(chip8.load_rom(&rom), Ok(()));
    (chip8, timer_tx)
}

fn step(chip8: &mut Chip8<Graphics>, input: &SdlInputImpl) {
    assert!(chip8.emulate_cycle(input).is_ok());
}

#[test]
fn test_new_machine() {
    let (_, timer_rx) = mpsc::channel();
    let chip8 = Chip8::new(
        Graphics::new(),
        timer_rx,
        Quirks::new(false, true, false, true, false),
        DebugOptions { print_opcodes: true, dump_graphics: false },
    );
    assert_eq!(chip8.pc(), 0x200);
    assert_eq!(chip8.ir(), 0);
    assert_eq!(chip8.sp(), 0);
    assert_eq!(chip8.opcode(), 0);
    assert_eq!(chip8.delay_timer(), 0);
    assert_eq!(chip8.sound_timer(), 0);
    assert_eq!(chip8.registers(), &vec![0u8; 16]);
    assert_eq!(chip8.stack(), &vec![0u16; 16]);
    assert_eq!(chip8.memory().len(), 4096);
    assert_eq!(chip8.memory()[0..5], [0xF0, 0x90, 0x90, 0x90, 0xF0]);
    assert_eq!(chip8.memory()[75..80], [0xF0, 0x80, 0xF0, 0x80, 0x80]);
    assert!(chip8.memory()[80..].iter().all(|b| *b == 0));
    assert_eq!(chip8.wait_for_key_state(), WaitForKeyState::Idle);
    assert!(!chip8.quirks().reset_vf);
    assert!(chip8.quirks().increment_ir);
    assert!(!chip8.quirks().use_vy_in_shift);
    assert!(chip8.quirks().use_vx_in_jump);
    assert!(!chip8.quirks().clipping);
    assert!(chip8.options().print_opcodes);
    assert!(!chip8.options().dump_graphics);
}

#[test]
fn test_default_quirks() {
    let quirks = Quirks::default();
    assert!(quirks.reset_vf);
    assert!(quirks.increment_ir);
    assert!(quirks.use_vy_in_shift);
    assert!(!quirks.use_vx_in_jump);
    assert!(quirks.clipping);
    let options = DebugOptions::default();
    assert!(!options.print_opcodes);
    assert!(!options.dump_graphics);
}

#[test]
fn test_key_codes() {
    let keys = [
        Key::Num0,
        Key::Num1,
        Key::Num2,
        Key::Num3,
        Key::Num4,
        Key::Num5,
        Key::Num6,
        Key::Num7,
        Key::Num8,
        Key::Num9,
        Key::A,
        Key::B,
        Key::C,
        Key::D,
        Key::E,
        Key::F,
    ];
    for (code, key) in keys.iter().enumerate() {
        assert_eq!(key.code(), code as u8);
        assert_eq!(Key::try_from(code as u8), Ok(*key));
    }
    assert_eq!(Key::try_from(16), Err(Chip8Error::InternalKeyError(16)));
    assert_eq!(Key::try_from(255), Err(Chip8Error::InternalKeyError(255)));
}

#[test]
fn test_input_snapshot() {
    let mut input = SdlInputImpl::new();
    assert!(!input.is_pressed(Key::Num5));
    input.set_pressed(Key::Num5, true);
    input.set_pressed(Key::F, true);
    assert!(input.is_pressed(Key::Num5));
    assert!(input.is_pressed(Key::F));
    assert!(!input.is_pressed(Key::Num4));
    input.set_pressed(Key::Num5, false);
    assert!(!input.is_pressed(Key::Num5));
    assert!(input.is_pressed(Key::F));
    input.release_all();
    assert!(!input.is_pressed(Key::F));
}

#[test]
fn test_rom_driver_data() {
    let rom = RomDriver { rom: vec![1, 2, 3] };
    assert_eq!(rom.data(), &vec![1u8, 2, 3]);
}

#[test]
fn test_load_rom() {
    let (chip8, _tx) = machine(&[0x60, 0x05, 0x12, 0x00]);
    assert_eq!(chip8.memory()[0x1FF], 0);
    assert_eq!(chip8.memory()[0x200..0x205], [0x60, 0x05, 0x12, 0x00, 0x00]);
    assert_eq!(chip8.memory()[0..5], [0xF0, 0x90, 0x90, 0x90, 0xF0]);
    assert_eq!(chip8.pc(), 0x200);
}

#[test]
fn test_load_rom_that_just_fits() {
    let program = vec![0xABu8; 4096 - 0x200];
    let (chip8, _tx) = machine(&program);
    assert_eq!(chip8.memory()[0x200], 0xAB);
    assert_eq!(chip8.memory()[4095], 0xAB);
}

#[test]
fn test_load_rom_too_big() {
    let (_, timer_rx) = mpsc::channel();
    let mut chip8 =
        Chip8::new(Graphics::new(), timer_rx, Quirks::default(), DebugOptions::default());
    let rom = RomDriver { rom: vec![0xCDu8; 4096 - 0x200 + 1] };
    assert_eq!(chip8.load_rom(&rom), Err(Chip8Error::RomTooBig(0x1000)));
    // What had room was loaded
    assert_eq!(chip8.memory()[0x200], 0xCD);
    assert_eq!(chip8.memory()[4095], 0xCD);
    assert_eq!(chip8.memory()[0x1FF], 0);
}

#[test]
fn test_load_and_loop() {
    let (mut chip8, _tx) = machine(&[0x60, 0x05, 0x12, 0x00]);
    let input = SdlInputImpl::new();

    step(&mut chip8, &input);
    assert_eq!(chip8.registers()[0], 5);
    assert_eq!(chip8.pc(), 0x202);

    step(&mut chip8, &input);
    assert_eq!(chip8.pc(), 0x200);
}

#[test]
fn test_index_then_store_registers() {
    let (mut chip8, _tx) = machine(&[0x60, 0x01, 0x61, 0x02, 0x62, 0x03, 0xA2, 0xF0, 0xF2, 0x55]);
    let input = SdlInputImpl::new();

    for _ in 0..4 {
        step(&mut chip8, &input);
    }
    assert_eq!(chip8.ir(), 0x2F0);
    assert_eq!(chip8.opcode(), 0xA2F0);

    step(&mut chip8, &input);
    assert_eq!(chip8.memory()[0x2F0..0x2F3], [1, 2, 3]);
    assert_eq!(chip8.memory()[0x2F3], 0);
    assert_eq!(chip8.pc(), 0x20A);
}

#[test]
fn test_skip_moves_two_instructions() {
    let (mut chip8, _tx) = machine(&[0x30, 0x00, 0x60, 0x01, 0x40, 0x00, 0x61, 0x01]);
    let input = SdlInputImpl::new();

    step(&mut chip8, &input);
    assert_eq!(chip8.pc(), 0x204);
    step(&mut chip8, &input);
    assert_eq!(chip8.pc(), 0x206);
    step(&mut chip8, &input);
    assert_eq!(chip8.pc(), 0x208);
    assert_eq!(chip8.registers()[0], 0);
    assert_eq!(chip8.registers()[1], 1);
}

#[test]
fn test_nested_calls_through_cycles() {
    // 0x200: call 0x200, over and over
    let (mut chip8, _tx) = machine(&[0x22, 0x00]);
    let input = SdlInputImpl::new();

    for depth in 1..=16u8 {
        step(&mut chip8, &input);
        assert_eq!(chip8.sp(), depth);
        assert_eq!(chip8.pc(), 0x200);
        assert_eq!(chip8.stack()[depth as usize - 1], 0x202);
    }
    assert_eq!(chip8.emulate_cycle(&input).err(), Some(Chip8Error::StackOverflow));
    assert_eq!(chip8.sp(), 16);
    assert_eq!(chip8.pc(), 0x200);
}

#[test]
fn test_return_without_call_through_cycle() {
    let (mut chip8, _tx) = machine(&[0x00, 0xEE]);
    let input = SdlInputImpl::new();
    assert_eq!(chip8.emulate_cycle(&input).err(), Some(Chip8Error::StackUnderflow));
    assert_eq!(chip8.pc(), 0x200);
}

#[test]
fn test_call_and_return_through_cycles() {
    // 0x200: call 0x204; 0x202: jump 0x202; 0x204: return
    let (mut chip8, _tx) = machine(&[0x22, 0x04, 0x12, 0x02, 0x00, 0xEE]);
    let input = SdlInputImpl::new();
    step(&mut chip8, &input);
    assert_eq!(chip8.pc(), 0x204);
    assert_eq!(chip8.sp(), 1);
    step(&mut chip8, &input);
    assert_eq!(chip8.pc(), 0x202);
    assert_eq!(chip8.sp(), 0);
}

#[test]
fn test_unsupported_opcode_through_cycle() {
    let (mut chip8, timer_tx) = machine(&[0x6A, 0x09, 0xFA, 0x15, 0x8A, 0xB8]);
    let input = SdlInputImpl::new();
    step(&mut chip8, &input);
    step(&mut chip8, &input);
    assert_eq!(chip8.delay_timer(), 9);

    timer_tx.send(TimerOperation::Decrement(1)).unwrap();
    assert_eq!(chip8.emulate_cycle(&input).err(), Some(Chip8Error::UnsupportedOpcode(0x8AB8)));
    assert_eq!(chip8.pc(), 0x204);
    // A cycle that fails leaves the timers alone
    assert_eq!(chip8.delay_timer(), 9);
}

#[test]
fn test_running_off_the_end_of_memory() {
    // Jump to the last byte of memory
    let (mut chip8, _tx) = machine(&[0x1F, 0xFF]);
    let input = SdlInputImpl::new();
    step(&mut chip8, &input);
    assert_eq!(chip8.pc(), 0xFFF);
    assert_eq!(chip8.emulate_cycle(&input).err(), Some(Chip8Error::MemoryOutOfBounds(0xFFF)));
}

#[test]
fn test_output_of_a_cycle() {
    // V0 := 3; sound := V0; draw digit 0; jump to self
    let (mut chip8, timer_tx) = machine(&[0x60, 0x03, 0xF0, 0x18, 0xD1, 0x15, 0x12, 0x06]);
    let input = SdlInputImpl::new();

    let output = chip8.emulate_cycle(&input).unwrap();
    assert!(!output.sound_on);
    assert!(!output.draw_on_screen);

    let output = chip8.emulate_cycle(&input).unwrap();
    assert!(output.sound_on);
    assert!(!output.draw_on_screen);

    let output = chip8.emulate_cycle(&input).unwrap();
    assert!(output.sound_on);
    assert!(output.draw_on_screen);
    assert_eq!(output.graphics.buffer()[0][0..8], [1, 1, 1, 1, 0, 0, 0, 0]);

    timer_tx.send(TimerOperation::Decrement(3)).unwrap();
    let output = chip8.emulate_cycle(&input).unwrap();
    assert!(!output.sound_on);
    assert!(!output.draw_on_screen);
    assert_eq!(output.graphics.buffer()[4][0..8], [1, 1, 1, 1, 0, 0, 0, 0]);
}

#[test]
fn test_clear_screen_asks_for_redraw() {
    let (mut chip8, _tx) = machine(&[0x00, 0xE0, 0x12, 0x02]);
    let input = SdlInputImpl::new();
    assert!(chip8.emulate_cycle(&input).unwrap().draw_on_screen);
    assert!(!chip8.emulate_cycle(&input).unwrap().draw_on_screen);
}

#[test]
fn test_timers_count_down_and_stop_at_zero() {
    // V0 := 5; delay := V0; V1 := 2; sound := V1; jump to self
    let (mut chip8, timer_tx) =
        machine(&[0x60, 0x05, 0xF0, 0x15, 0x61, 0x02, 0xF1, 0x18, 0x12, 0x08]);
    let input = SdlInputImpl::new();
    for _ in 0..4 {
        step(&mut chip8, &input);
    }
    assert_eq!(chip8.delay_timer(), 5);
    assert_eq!(chip8.sound_timer(), 2);

    timer_tx.send(TimerOperation::Decrement(1)).unwrap();
    step(&mut chip8, &input);
    assert_eq!(chip8.delay_timer(), 4);
    assert_eq!(chip8.sound_timer(), 1);

    for _ in 0..3 {
        timer_tx.send(TimerOperation::Decrement(1)).unwrap();
    }
    step(&mut chip8, &input);
    assert_eq!(chip8.delay_timer(), 1);
    assert_eq!(chip8.sound_timer(), 0);

    for _ in 0..10 {
        timer_tx.send(TimerOperation::Decrement(1)).unwrap();
    }
    step(&mut chip8, &input);
    assert_eq!(chip8.delay_timer(), 0);
    assert_eq!(chip8.sound_timer(), 0);

    // No event, no change
    step(&mut chip8, &input);
    assert_eq!(chip8.delay_timer(), 0);
}

#[test]
fn test_timers_after_the_sender_is_gone() {
    let (mut chip8, timer_tx) = machine(&[0x60, 0x05, 0xF0, 0x15, 0x12, 0x04]);
    let input = SdlInputImpl::new();
    step(&mut chip8, &input);
    timer_tx.send(TimerOperation::Decrement(2)).unwrap();
    drop(timer_tx);
    step(&mut chip8, &input);
    assert_eq!(chip8.delay_timer(), 3);
    step(&mut chip8, &input);
    assert_eq!(chip8.delay_timer(), 3);
}

#[test]
fn test_update_timers() {
    let (mut chip8, _tx) = machine(&[0x60, 0xC8, 0xF0, 0x15, 0x61, 0x64, 0xF1, 0x18]);
    let input = SdlInputImpl::new();
    for _ in 0..4 {
        step(&mut chip8, &input);
    }
    chip8.update_timers(&vec![TimerOperation::Decrement(99), TimerOperation::Decrement(50)]);
    assert_eq!(chip8.delay_timer(), 51);
    assert_eq!(chip8.sound_timer(), 0);
}

#[test]
fn test_drain() {
    assert_eq!(drain(10, &vec![]), 10);
    assert_eq!(drain(10, &vec![TimerOperation::Decrement(3), TimerOperation::Decrement(4)]), 3);
    assert_eq!(drain(10, &vec![TimerOperation::Decrement(1); 10]), 0);
    assert_eq!(drain(10, &vec![TimerOperation::Decrement(1); 11]), 0);
    assert_eq!(drain(255, &vec![TimerOperation::Decrement(255); 300]), 0);
    assert_eq!(drain(0, &vec![TimerOperation::Decrement(0)]), 0);
}

#[test]
fn test_wait_for_key() {
    // 0x200: wait for a key into V3; 0x202: V0 := 9; 0x204: jump to self
    let (mut chip8, timer_tx) = machine(&[0xF3, 0x0A, 0x60, 0x09, 0x12, 0x04]);
    let mut input = SdlInputImpl::new();

    // A key that was down before the instruction does not count
    input.set_pressed(Key::Num7, true);
    step(&mut chip8, &input);
    assert_eq!(chip8.wait_for_key_state(), WaitForKeyState::WaitForNoKeyPressed);
    assert_eq!(chip8.pc(), 0x200);
    step(&mut chip8, &input);
    assert_eq!(chip8.wait_for_key_state(), WaitForKeyState::WaitForNoKeyPressed);

    input.set_pressed(Key::Num7, false);
    step(&mut chip8, &input);
    assert_eq!(chip8.wait_for_key_state(), WaitForKeyState::CheckForKeyPressed);
    step(&mut chip8, &input);
    assert_eq!(chip8.wait_for_key_state(), WaitForKeyState::CheckForKeyPressed);
    assert_eq!(chip8.registers()[3], 0);

    // Key 5 held
    input.set_pressed(Key::Num5, true);
    step(&mut chip8, &input);
    assert_eq!(chip8.wait_for_key_state(), WaitForKeyState::WaitForKeyRelease);
    assert_eq!(chip8.registers()[3], 5);
    assert_eq!(chip8.pc(), 0x200);
    step(&mut chip8, &input);
    assert_eq!(chip8.wait_for_key_state(), WaitForKeyState::WaitForKeyRelease);
    assert_eq!(chip8.pc(), 0x200);

    // Timers go on counting while the program waits
    chip8.update_timers(&vec![]);
    timer_tx.send(TimerOperation::Decrement(1)).unwrap();
    step(&mut chip8, &input);
    assert_eq!(chip8.pc(), 0x200);

    // Key 5 released: the wait ends and the program counter moves on
    input.set_pressed(Key::Num5, false);
    step(&mut chip8, &input);
    assert_eq!(chip8.wait_for_key_state(), WaitForKeyState::Idle);
    assert_eq!(chip8.registers()[3], 5);
    assert_eq!(chip8.pc(), 0x202);
    assert_eq!(chip8.registers()[0], 0);

    // One cycle later the program runs again
    step(&mut chip8, &input);
    assert_eq!(chip8.registers()[0], 9);
    assert_eq!(chip8.pc(), 0x204);
}

#[test]
fn test_wait_for_key_takes_the_lowest_key() {
    let (mut chip8, _tx) = machine(&[0xFE, 0x0A]);
    let mut input = SdlInputImpl::new();
    step(&mut chip8, &input);
    step(&mut chip8, &input);
    input.set_pressed(Key::C, true);
    input.set_pressed(Key::Num2, true);
    input.set_pressed(Key::F, true);
    step(&mut chip8, &input);
    assert_eq!(chip8.registers()[0xE], 2);

    // The wait goes on until every key is up
    input.set_pressed(Key::Num2, false);
    step(&mut chip8, &input);
    assert_eq!(chip8.wait_for_key_state(), WaitForKeyState::WaitForKeyRelease);
    input.release_all();
    step(&mut chip8, &input);
    assert_eq!(chip8.wait_for_key_state(), WaitForKeyState::Idle);
    assert_eq!(chip8.pc(), 0x202);
}

#[test]
fn test_timers_drain_while_waiting_for_key() {
    // V0 := 4; delay := V0; wait for key into V1
    let (mut chip8, timer_tx) = machine(&[0x60, 0x04, 0xF0, 0x15, 0xF1, 0x0A]);
    let input = SdlInputImpl::new();
    for _ in 0..3 {
        step(&mut chip8, &input);
    }
    assert_eq!(chip8.wait_for_key_state(), WaitForKeyState::WaitForNoKeyPressed);
    for left in [3u8, 2, 1, 0, 0] {
        timer_tx.send(TimerOperation::Decrement(1)).unwrap();
        step(&mut chip8, &input);
        assert_eq!(chip8.delay_timer(), left);
        assert_eq!(chip8.pc(), 0x204);
    }
}

#[test]
fn test_check_and_process_when_idle() {
    let (mut chip8, _tx) = machine(&[]);
    let input = SdlInputImpl::new();
    assert_eq!(chip8.check_and_process_0xfx0a(&input), Ok(wheat::chip8::ProgramCounter::Unchanged));
    assert_eq!(chip8.wait_for_key_state(), WaitForKeyState::Idle);
}

#[test]
fn test_run_instruction_clears_redraw() {
    let (mut chip8, _tx) = machine(&[0x00, 0xE0, 0x60, 0x01]);
    let input = SdlInputImpl::new();
    assert_eq!(chip8.run_instruction(&input), Ok(()));
    assert!(chip8.output().draw_on_screen);
    assert_eq!(chip8.run_instruction(&input), Ok(()));
    assert!(!chip8.output().draw_on_screen);
    assert_eq!(chip8.pc(), 0x204);
}

#[test]
fn test_emulate_instruction_leaves_the_program_counter() {
    let (mut chip8, _tx) = machine(&[0x12, 0x34]);
    let input = SdlInputImpl::new();
    assert_eq!(chip8.emulate_instruction(&input), Ok(wheat::chip8::ProgramCounter::Jump(0x234)));
    assert_eq!(chip8.pc(), 0x200);
    assert_eq!(chip8.opcode(), 0x1234);
}

#[test]
fn test_output_state_new() {
    let graphics = Graphics::new();
    let output = wheat::chip8::Chip8OutputState::new(true, false, &graphics);
    assert!(output.sound_on);
    assert!(!output.draw_on_screen);
    assert_eq!(output.graphics.buffer().len(), 32);
}
