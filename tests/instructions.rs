use chip8::display_bus::AppEvents;
use chip8::hardware::{Fault, Generation, Hardware};

const FRAME_LEN: usize = 64 * 32 * 4;

fn machine_with(program: &[u8], generation: Generation) -> Hardware {
    let mut h = Hardware::default();
    h.set_generation(generation);
    h.load_program(program);
    h
}

fn run(h: &mut Hardware, frame: &[u8], keys: u16) -> Result<Option<AppEvents>, Fault> {
    let instr = h.fetch();
    h.decode(instr, frame, keys)
}

#[test]
fn power_on_state() {
    let h = Hardware::default();
    assert_eq!(h.pc, 0x200);
    assert_eq!(&h.memory[0..5], &[0xF0, 0x90, 0x90, 0x90, 0xF0]);
    assert_eq!(&h.memory[75..80], &[0xF0, 0x80, 0xF0, 0x80, 0x80]);
    assert_eq!(h.memory[80], 0);
    assert_eq!(h.registers, [0; 16]);
    assert!(h.display_sync);
    assert_eq!(h.generation, Generation::Super);
}

#[test]
fn fetch_reads_big_endian_and_advances() {
    let mut h = machine_with(&[0x12, 0x34], Generation::Super);
    assert_eq!(h.fetch(), 0x1234);
    assert_eq!(h.pc, 0x202);
}

#[test]
fn add_immediate_wraps_without_flag() {
    let mut h = machine_with(&[0x73, 0x01], Generation::Super);
    h.registers[3] = 0xFF;
    h.registers[15] = 0x42;
    let frame = vec![0u8; FRAME_LEN];
    assert_eq!(run(&mut h, &frame, 0), Ok(None));
    assert_eq!(h.registers[3], 0x00);
    assert_eq!(h.registers[15], 0x42);
}

#[test]
fn add_with_carry_sets_flag() {
    let frame = vec![0u8; FRAME_LEN];
    let mut h = machine_with(&[0x81, 0x24, 0x81, 0x24], Generation::Super);
    h.registers[1] = 0xF0;
    h.registers[2] = 0x20;
    run(&mut h, &frame, 0).unwrap();
    assert_eq!(h.registers[1], 0x10);
    assert_eq!(h.registers[15], 1);
    run(&mut h, &frame, 0).unwrap();
    assert_eq!(h.registers[1], 0x30);
    assert_eq!(h.registers[15], 0);
}

#[test]
fn subtract_sets_no_borrow_flag() {
    let frame = vec![0u8; FRAME_LEN];
    let mut h = machine_with(&[0x81, 0x25, 0x83, 0x45], Generation::Super);
    h.registers[1] = 5;
    h.registers[2] = 3;
    h.registers[3] = 3;
    h.registers[4] = 5;
    run(&mut h, &frame, 0).unwrap();
    assert_eq!(h.registers[1], 2);
    assert_eq!(h.registers[15], 1);
    run(&mut h, &frame, 0).unwrap();
    assert_eq!(h.registers[3], 254);
    assert_eq!(h.registers[15], 0);
}

#[test]
fn reverse_subtract() {
    let frame = vec![0u8; FRAME_LEN];
    let mut h = machine_with(&[0x81, 0x27], Generation::Super);
    h.registers[1] = 3;
    h.registers[2] = 10;
    run(&mut h, &frame, 0).unwrap();
    assert_eq!(h.registers[1], 7);
    assert_eq!(h.registers[15], 1);
}

#[test]
fn equal_register_subtract_has_no_borrow() {
    let frame = vec![0u8; FRAME_LEN];
    let mut h = machine_with(&[0x81, 0x25], Generation::Super);
    h.registers[1] = 9;
    h.registers[2] = 9;
    run(&mut h, &frame, 0).unwrap();
    assert_eq!(h.registers[1], 0);
    assert_eq!(h.registers[15], 1);
}

#[test]
fn shift_right_legacy_copies_y() {
    let frame = vec![0u8; FRAME_LEN];
    let mut h = machine_with(&[0x81, 0x26], Generation::COSMAC);
    h.registers[1] = 0x01;
    h.registers[2] = 0x04;
    run(&mut h, &frame, 0).unwrap();
    assert_eq!(h.registers[1], 0x02);
    assert_eq!(h.registers[15], 0);
}

#[test]
fn shift_right_extended_in_place() {
    let frame = vec![0u8; FRAME_LEN];
    let mut h = machine_with(&[0x81, 0x26], Generation::Super);
    h.registers[1] = 0x01;
    h.registers[2] = 0x04;
    run(&mut h, &frame, 0).unwrap();
    assert_eq!(h.registers[1], 0x00);
    assert_eq!(h.registers[15], 1);
}

#[test]
fn shift_quirk_branches_differ() {
    let frame = vec![0u8; FRAME_LEN];
    let mut legacy = machine_with(&[0x81, 0x26], Generation::COSMAC);
    let mut extended = machine_with(&[0x81, 0x26], Generation::Super);
    for h in [&mut legacy, &mut extended] {
        h.registers[1] = 0x01;
        h.registers[2] = 0x04;
        run(h, &frame, 0).unwrap();
    }
    assert_ne!(legacy.registers[1], extended.registers[1]);
}

#[test]
fn shift_left_sets_high_bit_flag() {
    let frame = vec![0u8; FRAME_LEN];
    let mut h = machine_with(&[0x81, 0x2E], Generation::Super);
    h.registers[1] = 0x81;
    run(&mut h, &frame, 0).unwrap();
    assert_eq!(h.registers[1], 0x02);
    assert_eq!(h.registers[15], 1);
}

#[test]
fn logic_operations() {
    let frame = vec![0u8; FRAME_LEN];
    let mut h = machine_with(&[0x81, 0x21, 0x83, 0x22, 0x85, 0x63, 0x87, 0x60], Generation::Super);
    h.registers[1] = 0b1010;
    h.registers[2] = 0b0101;
    h.registers[3] = 0b1100;
    h.registers[4] = 0b0110;
    h.registers[5] = 0b1111;
    h.registers[6] = 0b0101;
    for _ in 0..4 {
        run(&mut h, &frame, 0).unwrap();
    }
    assert_eq!(h.registers[1], 0b1111);
    assert_eq!(h.registers[3], 0b1100 & 0b0101);
    assert_eq!(h.registers[5], 0b1010);
    assert_eq!(h.registers[7], 0b0101);
}

#[test]
fn skips_compare_registers_and_constants() {
    let frame = vec![0u8; FRAME_LEN];
    let mut h = machine_with(&[0x31, 0x07, 0x00, 0x00, 0x41, 0x07, 0x51, 0x20, 0x00, 0x00, 0x91, 0x20], Generation::Super);
    h.registers[1] = 7;
    h.registers[2] = 7;
    run(&mut h, &frame, 0).unwrap();
    assert_eq!(h.pc, 0x204);
    run(&mut h, &frame, 0).unwrap();
    assert_eq!(h.pc, 0x206);
    run(&mut h, &frame, 0).unwrap();
    assert_eq!(h.pc, 0x20A);
    run(&mut h, &frame, 0).unwrap();
    assert_eq!(h.pc, 0x20C);
}

#[test]
fn call_and_return() {
    let frame = vec![0u8; FRAME_LEN];
    let mut h = machine_with(&[0x22, 0x04, 0x00, 0x00, 0x00, 0xEE], Generation::Super);
    run(&mut h, &frame, 0).unwrap();
    assert_eq!(h.pc, 0x204);
    assert_eq!(h.stack_frame, 1);
    assert_eq!(h.stack[0], 0x202);
    run(&mut h, &frame, 0).unwrap();
    assert_eq!(h.pc, 0x202);
    assert_eq!(h.stack_frame, 0);
}

#[test]
fn stack_overflow_is_a_fault() {
    let frame = vec![0u8; FRAME_LEN];
    let mut h = machine_with(&[0x22, 0x00], Generation::Super);
    for _ in 0..32 {
        h.pc = 0x200;
        assert_eq!(run(&mut h, &frame, 0), Ok(None));
    }
    assert_eq!(h.stack_frame, 32);
    h.pc = 0x200;
    assert_eq!(run(&mut h, &frame, 0), Err(Fault::StackOverflow));
    assert_eq!(h.stack_frame, 32);
}

#[test]
fn return_on_empty_stack_is_a_fault() {
    let frame = vec![0u8; FRAME_LEN];
    let mut h = machine_with(&[0x00, 0xEE], Generation::Super);
    assert_eq!(run(&mut h, &frame, 0), Err(Fault::StackUnderflow));
}

#[test]
fn jump_below_program_area_is_a_fault() {
    let frame = vec![0u8; FRAME_LEN];
    let mut h = machine_with(&[0x11, 0x00], Generation::Super);
    let instr = h.fetch();
    let before_pc = h.pc;
    assert_eq!(h.decode(instr, &frame, 0), Err(Fault::PcOutOfRange));
    assert_eq!(h.pc, before_pc);
}

#[test]
fn unknown_opcode_is_a_fault() {
    let frame = vec![0u8; FRAME_LEN];
    let mut h = machine_with(&[0x51, 0x21], Generation::Super);
    assert_eq!(run(&mut h, &frame, 0), Err(Fault::UnknownOpcode(0x5121)));
    let mut h = machine_with(&[0x81, 0x28], Generation::Super);
    assert_eq!(run(&mut h, &frame, 0), Err(Fault::UnknownOpcode(0x8128)));
}

#[test]
fn memory_past_the_end_is_a_fault() {
    let frame = vec![0u8; FRAME_LEN];
    let mut h = machine_with(&[0xF1, 0x33], Generation::Super);
    h.i = 0xFFE;
    assert_eq!(run(&mut h, &frame, 0), Err(Fault::MemoryOutOfRange));
}

#[test]
fn jump_and_offset_jump() {
    let frame = vec![0u8; FRAME_LEN];
    let mut h = machine_with(&[0x13, 0x00], Generation::Super);
    run(&mut h, &frame, 0).unwrap();
    assert_eq!(h.pc, 0x300);
    let mut legacy = machine_with(&[0xB3, 0x00], Generation::COSMAC);
    legacy.registers[0] = 4;
    legacy.registers[3] = 8;
    run(&mut legacy, &frame, 0).unwrap();
    assert_eq!(legacy.pc, 0x304);
    let mut extended = machine_with(&[0xB3, 0x00], Generation::Super);
    extended.registers[0] = 4;
    extended.registers[3] = 8;
    run(&mut extended, &frame, 0).unwrap();
    assert_eq!(extended.pc, 0x308);
}

#[test]
fn index_and_font_address() {
    let frame = vec![0u8; FRAME_LEN];
    let mut h = machine_with(&[0xA1, 0x23, 0xF2, 0x1E, 0xF3, 0x29], Generation::Super);
    h.registers[2] = 5;
    h.registers[3] = 0xB;
    run(&mut h, &frame, 0).unwrap();
    assert_eq!(h.i, 0x123);
    run(&mut h, &frame, 0).unwrap();
    assert_eq!(h.i, 0x128);
    run(&mut h, &frame, 0).unwrap();
    assert_eq!(h.i, 55);
}

#[test]
fn binary_coded_decimal() {
    let frame = vec![0u8; FRAME_LEN];
    let mut h = machine_with(&[0xF4, 0x33], Generation::Super);
    h.registers[4] = 254;
    h.i = 0x300;
    run(&mut h, &frame, 0).unwrap();
    assert_eq!(&h.memory[0x300..0x303], &[2, 5, 4]);
}

#[test]
fn store_and_load_registers_by_profile() {
    let frame = vec![0u8; FRAME_LEN];
    let mut legacy = machine_with(&[0xF2, 0x55], Generation::COSMAC);
    legacy.registers[0] = 9;
    legacy.registers[1] = 8;
    legacy.registers[2] = 7;
    legacy.i = 0x400;
    run(&mut legacy, &frame, 0).unwrap();
    assert_eq!(&legacy.memory[0x400..0x404], &[9, 8, 7, 0]);
    assert_eq!(legacy.i, 0x403);

    let mut extended = machine_with(&[0xF1, 0x65], Generation::Super);
    extended.memory[0x400] = 1;
    extended.memory[0x401] = 2;
    extended.memory[0x402] = 3;
    extended.i = 0x400;
    run(&mut extended, &frame, 0).unwrap();
    assert_eq!(&extended.registers[0..3], &[1, 2, 0]);
    assert_eq!(extended.i, 0x400);
}

#[test]
fn timers_transfer_and_saturate() {
    let frame = vec![0u8; FRAME_LEN];
    let mut h = machine_with(&[0xF1, 0x15, 0xF1, 0x18, 0xF2, 0x07], Generation::Super);
    h.registers[1] = 1;
    run(&mut h, &frame, 0).unwrap();
    run(&mut h, &frame, 0).unwrap();
    assert_eq!(h.delay_timer, 1);
    assert_eq!(h.sound_timer, 1);
    h.tick_cpu_clock();
    h.tick_cpu_clock();
    assert_eq!(h.delay_timer, 0);
    assert_eq!(h.sound_timer, 0);
    run(&mut h, &frame, 0).unwrap();
    assert_eq!(h.registers[2], 0);
}

#[test]
fn key_skips_follow_pressed_mask() {
    let frame = vec![0u8; FRAME_LEN];
    let mut h = machine_with(&[0xE1, 0x9E, 0x00, 0x00, 0xE1, 0xA1], Generation::Super);
    h.registers[1] = 0x15;
    run(&mut h, &frame, 1 << 5).unwrap();
    assert_eq!(h.pc, 0x204);
    run(&mut h, &frame, 1 << 5).unwrap();
    assert_eq!(h.pc, 0x206);
}

#[test]
fn key_wait_retries_until_a_key_is_down() {
    let frame = vec![0u8; FRAME_LEN];
    let mut h = machine_with(&[0xF3, 0x0A], Generation::Super);
    run(&mut h, &frame, 0).unwrap();
    assert_eq!(h.pc, 0x200);
    run(&mut h, &frame, 0b1000_0100).unwrap();
    assert_eq!(h.pc, 0x202);
    assert_eq!(h.registers[3], 2);
}

#[test]
fn random_is_masked() {
    let frame = vec![0u8; FRAME_LEN];
    for _ in 0..20 {
        let mut h = machine_with(&[0xC1, 0x0F, 0xC2, 0x00], Generation::Super);
        h.registers[2] = 0xAA;
        run(&mut h, &frame, 0).unwrap();
        assert!(h.registers[1] <= 0x0F);
        run(&mut h, &frame, 0).unwrap();
        assert_eq!(h.registers[2], 0);
    }
}

#[test]
fn clear_emits_effect() {
    let frame = vec![0u8; FRAME_LEN];
    let mut h = machine_with(&[0x00, 0xE0], Generation::Super);
    assert_eq!(run(&mut h, &frame, 0), Ok(Some(AppEvents::ClearScreen)));
}

#[test]
fn draw_waits_for_credit() {
    let frame = vec![0u8; FRAME_LEN];
    let mut h = machine_with(&[0xD1, 0x21, 0xD1, 0x21], Generation::Super);
    h.i = 0;
    h.registers[1] = 70;
    h.registers[2] = 33;
    let first = run(&mut h, &frame, 0).unwrap();
    let mut sprite = [0u8; 16];
    sprite[0] = 0xF0;
    assert_eq!(first, Some(AppEvents::DrawSprite { sprite, x: 6, y: 1 }));
    assert!(!h.display_sync);
    assert_eq!(h.pc, 0x202);
    let registers = h.registers;
    assert_eq!(run(&mut h, &frame, 0), Ok(None));
    assert_eq!(h.pc, 0x202);
    assert_eq!(h.registers, registers);
    h.display_sync = true;
    assert!(matches!(run(&mut h, &frame, 0), Ok(Some(AppEvents::DrawSprite { .. }))));
    assert_eq!(h.pc, 0x204);
}

#[test]
fn draw_reports_collision() {
    let mut frame = vec![0u8; FRAME_LEN];
    let mut h = machine_with(&[0xD1, 0x11, 0xD1, 0x11], Generation::Super);
    h.i = 0;
    run(&mut h, &frame, 0).unwrap();
    assert_eq!(h.registers[15], 0);
    frame[3] = 255;
    h.display_sync = true;
    run(&mut h, &frame, 0).unwrap();
    assert_eq!(h.registers[15], 1);
}
