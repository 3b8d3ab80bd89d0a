use chip8::cpu::{FONT_START, MAX_ROM_SIZE, ROM_START, SCREEN_SIZE};
use chip8::{decode, Cpu, Fault, Instruction, LoadError};

fn machine(rom: &[u8]) -> Cpu {
    let mut cpu = Cpu::new();
    assert_eq!(cpu.load(rom), Ok(()));
    cpu
}

fn run(cpu: &mut Cpu, steps: usize) {
    for _ in 0..steps {
        assert_eq!(cpu.step_with(0), Ok(()));
    }
}

#[test]
fn fresh_machine_has_font_and_start_address() {
    let mut cpu = Cpu::new();
    assert_eq!(cpu.pc(), 0x200);
    assert_eq!(cpu.memory_at(FONT_START), 0xF0);
    assert_eq!(cpu.memory_at(FONT_START + 79), 0x80);
    assert_eq!(cpu.memory_at(FONT_START + 80), 0);
    assert_eq!(cpu.memory_at(ROM_START), 0);
    assert_eq!(cpu.index_register(), 0);
    assert_eq!(cpu.stack_depth(), 0);
    assert!(cpu.new_frame().is_none());
}

#[test]
fn load_copies_image_at_program_area() {
    let cpu = machine(&[0xAB, 0xCD]);
    assert_eq!(cpu.memory_at(ROM_START), 0xAB);
    assert_eq!(cpu.memory_at(ROM_START + 1), 0xCD);
    assert_eq!(cpu.memory_at(ROM_START + 2), 0);
}

#[test]
fn load_refuses_image_as_long_as_program_area() {
    let mut cpu = Cpu::new();
    let rom = vec![0x11u8; MAX_ROM_SIZE];
    assert_eq!(cpu.load(&rom), Err(LoadError::RomTooLarge));
    assert_eq!(cpu.memory_at(ROM_START), 0);
    let rom = vec![0x11u8; MAX_ROM_SIZE - 1];
    assert_eq!(cpu.load(&rom), Ok(()));
    assert_eq!(cpu.memory_at(4094), 0x11);
    assert_eq!(cpu.memory_at(4095), 0);
}

#[test]
fn set_key_rejects_index_sixteen() {
    let mut cpu = Cpu::new();
    assert_eq!(cpu.set_key(16, true), Err(Fault::KeyOutOfRange));
    assert_eq!(cpu.set_key(15, true), Ok(()));
}

#[test]
fn decode_extracts_fields() {
    assert_eq!(decode(0x8AB4), Some(Instruction::AddReg { x: 10, y: 11 }));
    assert_eq!(decode(0x8AB4), decode(0x8AB4));
    assert_eq!(decode(0xD12F), Some(Instruction::Draw { x: 1, y: 2, n: 15 }));
    assert_eq!(decode(0x1ABC), Some(Instruction::Jump { addr: 0xABC }));
    assert_eq!(decode(0x7C5E), Some(Instruction::AddImm { x: 12, nn: 0x5E }));
    assert_eq!(decode(0x5AB1), Some(Instruction::SkipEqReg { x: 10, y: 11 }));
    assert_eq!(decode(0x00E0), Some(Instruction::ClearScreen));
    assert_eq!(decode(0x00EE), Some(Instruction::Return));
    assert_eq!(decode(0xF765), Some(Instruction::LoadRegs { x: 7 }));
    assert_eq!(decode(0xE09F), None);
    assert_eq!(decode(0x8008), None);
    assert_eq!(decode(0x0000), None);
}

#[test]
fn add_with_carry_sets_flag() {
    let mut cpu = machine(&[0x60, 0x07, 0x61, 0xFF, 0x80, 0x14]);
    run(&mut cpu, 3);
    assert_eq!(cpu.register(0), 0x06);
    assert_eq!(cpu.register(0xF), 1);
    let mut cpu = machine(&[0x60, 0x01, 0x61, 0x01, 0x80, 0x14]);
    run(&mut cpu, 3);
    assert_eq!(cpu.register(0), 0x02);
    assert_eq!(cpu.register(0xF), 0);
}

#[test]
fn subtract_flag_means_no_borrow() {
    let mut cpu = machine(&[0x60, 0x05, 0x61, 0x03, 0x80, 0x15]);
    run(&mut cpu, 3);
    assert_eq!(cpu.register(0), 2);
    assert_eq!(cpu.register(0xF), 1);
    let mut cpu = machine(&[0x60, 0x03, 0x61, 0x05, 0x80, 0x15]);
    run(&mut cpu, 3);
    assert_eq!(cpu.register(0), 254);
    assert_eq!(cpu.register(0xF), 0);
}

#[test]
fn reverse_subtract_swaps_operands() {
    let mut cpu = machine(&[0x60, 0x03, 0x61, 0x05, 0x80, 0x17]);
    run(&mut cpu, 3);
    assert_eq!(cpu.register(0), 2);
    assert_eq!(cpu.register(0xF), 1);
}

#[test]
fn shifts_report_shifted_bit() {
    let mut cpu = machine(&[0x60, 0x81, 0x80, 0x06]);
    run(&mut cpu, 2);
    assert_eq!(cpu.register(0), 0x40);
    assert_eq!(cpu.register(0xF), 1);
    let mut cpu = machine(&[0x60, 0x81, 0x80, 0x0E]);
    run(&mut cpu, 2);
    assert_eq!(cpu.register(0), 0x02);
    assert_eq!(cpu.register(0xF), 0x80);
}

#[test]
fn add_immediate_wraps_without_flag() {
    let mut cpu = machine(&[0x6F, 0x09, 0x60, 0xFE, 0x70, 0x03]);
    run(&mut cpu, 3);
    assert_eq!(cpu.register(0), 0x01);
    assert_eq!(cpu.register(0xF), 0x09);
}

#[test]
fn drawing_twice_restores_screen_and_collides() {
    // I = glyph 0, V0 = V1 = 0, draw 5 rows twice.
    let mut cpu = machine(&[0xA0, 0x50, 0x60, 0x00, 0x61, 0x00, 0xD0, 0x15, 0xD0, 0x15]);
    run(&mut cpu, 4);
    assert_eq!(cpu.register(0xF), 0);
    let first = *cpu.new_frame().unwrap();
    assert_eq!(&first[0..4], &[1, 1, 1, 1]);
    assert_eq!(first[4], 0);
    assert_eq!(&first[64..68], &[1, 0, 0, 1]);
    assert_eq!(first.iter().filter(|&&c| c == 1).count(), 14);
    assert!(cpu.new_frame().is_none());
    run(&mut cpu, 1);
    assert_eq!(cpu.register(0xF), 1);
    let second = *cpu.new_frame().unwrap();
    assert!(second.iter().all(|&c| c == 0));
}

#[test]
fn drawing_wraps_through_linear_index() {
    // V0 = 63, V1 = 31: the top row of glyph 0 starts on the last cell and
    // runs on at the first.
    let mut cpu = machine(&[0xA0, 0x50, 0x60, 0x3F, 0x61, 0x1F, 0xD0, 0x11]);
    run(&mut cpu, 4);
    let frame = *cpu.new_frame().unwrap();
    assert_eq!(frame[SCREEN_SIZE - 1], 1);
    assert_eq!(&frame[0..4], &[1, 1, 1, 0]);
    assert_eq!(frame.iter().filter(|&&c| c == 1).count(), 4);
}

#[test]
fn clear_screen_blanks_and_marks_frame() {
    let mut cpu = machine(&[0xA0, 0x50, 0xD0, 0x01, 0x00, 0xE0]);
    run(&mut cpu, 2);
    assert!(cpu.new_frame().is_some());
    run(&mut cpu, 1);
    let frame = *cpu.new_frame().unwrap();
    assert!(frame.iter().all(|&c| c == 0));
    assert!(cpu.new_frame().is_none());
}

#[test]
fn call_then_return_resumes_after_call() {
    // 0x200: call 0x206; 0x202: V0 = 1; 0x204: jump 0x204; 0x206: return.
    let mut cpu = machine(&[0x22, 0x06, 0x60, 0x01, 0x12, 0x04, 0x00, 0xEE]);
    run(&mut cpu, 1);
    assert_eq!(cpu.pc(), 0x206);
    assert_eq!(cpu.stack_depth(), 1);
    run(&mut cpu, 1);
    assert_eq!(cpu.pc(), 0x202);
    assert_eq!(cpu.stack_depth(), 0);
    run(&mut cpu, 1);
    assert_eq!(cpu.register(0), 1);
}

#[test]
fn nested_calls_return_in_order() {
    // 0x200: call 0x206; 0x202: V1 = 9; 0x204: jump 0x204;
    // 0x206: call 0x20C; 0x208: V2 = 7; 0x20A: return; 0x20C: return.
    let mut cpu = machine(&[
        0x22, 0x06, 0x61, 0x09, 0x12, 0x04, 0x22, 0x0C, 0x62, 0x07, 0x00, 0xEE, 0x00, 0xEE,
    ]);
    run(&mut cpu, 2);
    assert_eq!(cpu.stack_depth(), 2);
    run(&mut cpu, 1);
    assert_eq!(cpu.pc(), 0x208);
    run(&mut cpu, 2);
    assert_eq!(cpu.pc(), 0x202);
    assert_eq!(cpu.register(2), 7);
    run(&mut cpu, 1);
    assert_eq!(cpu.register(1), 9);
}

#[test]
fn seventeenth_nested_call_is_fatal() {
    let mut cpu = machine(&[0x22, 0x00]);
    run(&mut cpu, 16);
    assert_eq!(cpu.stack_depth(), 16);
    assert_eq!(cpu.step(), Err(Fault::StackOverflow));
    assert_eq!(cpu.stack_depth(), 16);
    assert_eq!(cpu.pc(), 0x200);
}

#[test]
fn return_with_empty_stack_is_fatal() {
    let mut cpu = machine(&[0x00, 0xEE]);
    assert_eq!(cpu.step(), Err(Fault::StackUnderflow));
    assert_eq!(cpu.pc(), 0x200);
}

#[test]
fn unknown_word_is_fatal() {
    let mut cpu = machine(&[0x00, 0x00]);
    assert_eq!(cpu.step(), Err(Fault::UnknownOpcode { op: 0x0000 }));
    let mut cpu = machine(&[0xE0, 0x9F]);
    assert_eq!(cpu.step(), Err(Fault::UnknownOpcode { op: 0xE09F }));
}

#[test]
fn program_counter_past_memory_is_fatal() {
    let mut cpu = machine(&[0x1F, 0xFF]);
    run(&mut cpu, 1);
    assert_eq!(cpu.pc(), 0xFFF);
    assert_eq!(cpu.step(), Err(Fault::PcOutOfRange));
}

#[test]
fn access_past_memory_through_index_is_fatal() {
    let mut cpu = machine(&[0xAF, 0xFE, 0xF0, 0x33]);
    run(&mut cpu, 1);
    assert_eq!(cpu.step(), Err(Fault::MemoryOutOfRange));
    let mut cpu = machine(&[0xAF, 0xFF, 0xD0, 0x02]);
    run(&mut cpu, 1);
    assert_eq!(cpu.step(), Err(Fault::MemoryOutOfRange));
    let mut cpu = machine(&[0xAF, 0xFE, 0xF2, 0x55]);
    run(&mut cpu, 1);
    assert_eq!(cpu.step(), Err(Fault::MemoryOutOfRange));
    let mut cpu = machine(&[0xAF, 0xFE, 0xF1, 0x65]);
    run(&mut cpu, 1);
    assert_eq!(cpu.step_with(0), Ok(()));
}

#[test]
fn delay_timer_counts_down_to_zero_and_stays() {
    // V0 = 5; delay = V0; then jump to self.
    let mut cpu = machine(&[0x60, 0x05, 0xF0, 0x15, 0x12, 0x04]);
    run(&mut cpu, 2);
    assert_eq!(cpu.delay_timer(), 4);
    run(&mut cpu, 4);
    assert_eq!(cpu.delay_timer(), 0);
    run(&mut cpu, 3);
    assert_eq!(cpu.delay_timer(), 0);
}

#[test]
fn get_delay_reads_timer() {
    let mut cpu = machine(&[0x60, 0x09, 0xF0, 0x15, 0xF3, 0x07]);
    run(&mut cpu, 3);
    assert_eq!(cpu.register(3), 8);
}

#[test]
fn load_immediate_then_step_once() {
    let mut cpu = machine(&[0x6A, 0x02, 0x00, 0xEE]);
    assert_eq!(cpu.step(), Ok(()));
    assert_eq!(cpu.register(0xA), 2);
    assert_eq!(cpu.pc(), 0x202);
}

#[test]
fn wait_for_key_blocks_until_pressed() {
    let mut cpu = machine(&[0xF5, 0x0A]);
    run(&mut cpu, 3);
    assert_eq!(cpu.pc(), 0x200);
    assert_eq!(cpu.register(5), 0);
    assert_eq!(cpu.set_key(3, true), Ok(()));
    assert_eq!(cpu.set_key(9, true), Ok(()));
    run(&mut cpu, 1);
    assert_eq!(cpu.register(5), 3);
    assert_eq!(cpu.pc(), 0x202);
}

#[test]
fn key_skips_use_low_nibble() {
    // V0 = 0x13 names key 3.
    let mut cpu = machine(&[0x60, 0x13, 0xE0, 0x9E]);
    cpu.set_key(3, true).unwrap();
    run(&mut cpu, 2);
    assert_eq!(cpu.pc(), 0x206);
    let mut cpu = machine(&[0x60, 0x13, 0xE0, 0xA1]);
    run(&mut cpu, 2);
    assert_eq!(cpu.pc(), 0x206);
    let mut cpu = machine(&[0x60, 0x13, 0xE0, 0xA1]);
    cpu.set_key(3, true).unwrap();
    run(&mut cpu, 2);
    assert_eq!(cpu.pc(), 0x204);
}

#[test]
fn conditional_skips() {
    let mut cpu = machine(&[0x30, 0x00]);
    run(&mut cpu, 1);
    assert_eq!(cpu.pc(), 0x204);
    let mut cpu = machine(&[0x40, 0x00]);
    run(&mut cpu, 1);
    assert_eq!(cpu.pc(), 0x202);
    let mut cpu = machine(&[0x61, 0x01, 0x50, 0x10]);
    run(&mut cpu, 2);
    assert_eq!(cpu.pc(), 0x204);
    let mut cpu = machine(&[0x61, 0x01, 0x90, 0x10]);
    run(&mut cpu, 2);
    assert_eq!(cpu.pc(), 0x206);
}

#[test]
fn jump_with_offset_adds_v0() {
    let mut cpu = machine(&[0x60, 0x10, 0xB3, 0x00]);
    run(&mut cpu, 2);
    assert_eq!(cpu.pc(), 0x310);
}

#[test]
fn random_masks_drawn_byte() {
    let mut cpu = machine(&[0xC0, 0x0F]);
    assert_eq!(cpu.step_with(0xAB), Ok(()));
    assert_eq!(cpu.register(0), 0x0B);
    let mut cpu = machine(&[0xC0, 0x00]);
    assert_eq!(cpu.step(), Ok(()));
    assert_eq!(cpu.register(0), 0);
}

#[test]
fn bitwise_register_operations() {
    let mut cpu = machine(&[0x60, 0x0C, 0x61, 0x0A, 0x80, 0x11]);
    run(&mut cpu, 3);
    assert_eq!(cpu.register(0), 0x0E);
    let mut cpu = machine(&[0x60, 0x0C, 0x61, 0x0A, 0x80, 0x12]);
    run(&mut cpu, 3);
    assert_eq!(cpu.register(0), 0x08);
    let mut cpu = machine(&[0x60, 0x0C, 0x61, 0x0A, 0x80, 0x13]);
    run(&mut cpu, 3);
    assert_eq!(cpu.register(0), 0x06);
    let mut cpu = machine(&[0x61, 0x0A, 0x80, 0x10]);
    run(&mut cpu, 2);
    assert_eq!(cpu.register(0), 0x0A);
}

#[test]
fn add_to_index_wraps_and_sets_sound() {
    let mut cpu = machine(&[0xAF, 0xF0, 0x60, 0x20, 0xF0, 0x1E]);
    run(&mut cpu, 3);
    assert_eq!(cpu.index_register(), 0x010);
    assert_eq!(cpu.register(0xF), 1);
    assert_eq!(cpu.sound_timer(), 0x1F);
    let mut cpu = machine(&[0xA1, 0x00, 0x60, 0x20, 0xF0, 0x1E]);
    run(&mut cpu, 3);
    assert_eq!(cpu.index_register(), 0x120);
    assert_eq!(cpu.register(0xF), 0);
}

#[test]
fn sound_timer_set_and_ticks() {
    let mut cpu = machine(&[0x60, 0x03, 0xF0, 0x18]);
    run(&mut cpu, 2);
    assert_eq!(cpu.sound_timer(), 2);
}

#[test]
fn glyph_address_uses_low_nibble() {
    let mut cpu = machine(&[0x60, 0x1A, 0xF0, 0x29]);
    run(&mut cpu, 2);
    assert_eq!(cpu.index_register(), 0x50 + 10 * 5);
}

#[test]
fn decimal_digits_stored_at_index() {
    let mut cpu = machine(&[0x60, 0xFE, 0xA3, 0x00, 0xF0, 0x33]);
    run(&mut cpu, 3);
    assert_eq!(cpu.memory_at(0x300), 2);
    assert_eq!(cpu.memory_at(0x301), 5);
    assert_eq!(cpu.memory_at(0x302), 4);
}

#[test]
fn bulk_store_and_load_registers() {
    let mut cpu = machine(&[
        0x60, 0x11, 0x61, 0x22, 0x62, 0x33, 0xA3, 0x00, 0xF1, 0x55, 0x60, 0x00, 0x61, 0x00, 0x62,
        0x00, 0xF2, 0x65,
    ]);
    run(&mut cpu, 5);
    assert_eq!(cpu.memory_at(0x300), 0x11);
    assert_eq!(cpu.memory_at(0x301), 0x22);
    assert_eq!(cpu.memory_at(0x302), 0);
    run(&mut cpu, 4);
    assert_eq!(cpu.register(0), 0x11);
    assert_eq!(cpu.register(1), 0x22);
    assert_eq!(cpu.register(2), 0);
}
