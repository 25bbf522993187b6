use chip8::machine::Chip8;
use chip8::model::{Fault, DISP_WIDTH, MAX_ROM_LEN, START_ADDR};

fn machine_with(program: &[u8]) -> Chip8 {
    let mut chip = Chip8::new();
    assert_eq!(chip.load_rom(program), Ok(()));
    chip
}

#[test]
fn new_loads_glyphs_and_starts_at_program() {
    let chip = Chip8::new();
    assert_eq!(&chip.ram[0..5], &[0xF0, 0x90, 0x90, 0x90, 0xF0]);
    assert_eq!(&chip.ram[75..80], &[0xF0, 0x80, 0xF0, 0x80, 0x80]);
    assert!(chip.ram[80..].iter().all(|b| *b == 0));
    assert_eq!(chip.pc, 0x200);
    assert_eq!(chip.sp, 0);
    assert!(chip.video.iter().all(|p| !*p));
}

#[test]
fn load_rom_copies_from_start_address() {
    let chip = machine_with(&[1, 2, 3]);
    assert_eq!(&chip.ram[START_ADDR..START_ADDR + 4], &[1, 2, 3, 0]);
}

#[test]
fn load_rom_takes_largest_program() {
    let mut chip = Chip8::new();
    let rom = vec![7u8; MAX_ROM_LEN];
    assert_eq!(chip.load_rom(&rom), Ok(()));
    assert_eq!(chip.ram[0xFFF], 7);
}

#[test]
fn load_rom_refuses_oversized_program() {
    let mut chip = Chip8::new();
    let rom = vec![7u8; MAX_ROM_LEN + 1];
    assert_eq!(chip.load_rom(&rom), Err(Fault::RomTooLarge));
    assert_eq!(chip.ram[0x200], 0);
}

#[test]
fn plain_instruction_moves_pc_by_two() {
    let mut chip = machine_with(&[0x6A, 0x42]);
    assert_eq!(chip.cycle_with(0), Ok(()));
    assert_eq!(chip.pc, 0x202);
    assert_eq!(chip.registers[0xA], 0x42);
    assert_eq!(chip.opcode, 0x6A42);
}

#[test]
fn clear_darkens_every_cell() {
    let mut chip = machine_with(&[0x00, 0xE0]);
    for p in 0..2048 {
        chip.video[p] = p % 3 == 0;
    }
    assert_eq!(chip.cycle_with(0), Ok(()));
    assert!(chip.video.iter().all(|p| !*p));
}

#[test]
fn add_registers_sets_carry() {
    let mut chip = machine_with(&[0x81, 0x24, 0x83, 0x44]);
    chip.registers[1] = 0xFF;
    chip.registers[2] = 0x01;
    chip.registers[3] = 0x01;
    chip.registers[4] = 0x01;
    assert_eq!(chip.cycle_with(0), Ok(()));
    assert_eq!(chip.registers[1], 0x00);
    assert_eq!(chip.registers[0xF], 1);
    assert_eq!(chip.cycle_with(0), Ok(()));
    assert_eq!(chip.registers[3], 0x02);
    assert_eq!(chip.registers[0xF], 0);
}

#[test]
fn sub_registers_sets_no_borrow_flag() {
    let mut chip = machine_with(&[0x81, 0x25, 0x83, 0x45]);
    chip.registers[1] = 5;
    chip.registers[2] = 3;
    chip.registers[3] = 3;
    chip.registers[4] = 5;
    assert_eq!(chip.cycle_with(0), Ok(()));
    assert_eq!(chip.registers[1], 2);
    assert_eq!(chip.registers[0xF], 1);
    assert_eq!(chip.cycle_with(0), Ok(()));
    assert_eq!(chip.registers[3], 0xFE);
    assert_eq!(chip.registers[0xF], 0);
}

#[test]
fn subn_and_shifts() {
    let mut chip = machine_with(&[0x81, 0x27, 0x83, 0x06, 0x84, 0x0E]);
    chip.registers[1] = 3;
    chip.registers[2] = 5;
    chip.registers[3] = 0x05;
    chip.registers[4] = 0x81;
    assert_eq!(chip.cycle_with(0), Ok(()));
    assert_eq!(chip.registers[1], 2);
    assert_eq!(chip.registers[0xF], 1);
    assert_eq!(chip.cycle_with(0), Ok(()));
    assert_eq!(chip.registers[3], 0x02);
    assert_eq!(chip.registers[0xF], 1);
    assert_eq!(chip.cycle_with(0), Ok(()));
    assert_eq!(chip.registers[4], 0x02);
    assert_eq!(chip.registers[0xF], 1);
}

#[test]
fn add_immediate_wraps_without_flag() {
    let mut chip = machine_with(&[0x71, 0x02]);
    chip.registers[1] = 0xFF;
    chip.registers[0xF] = 9;
    assert_eq!(chip.cycle_with(0), Ok(()));
    assert_eq!(chip.registers[1], 0x01);
    assert_eq!(chip.registers[0xF], 9);
}

#[test]
fn call_and_return() {
    let mut chip = machine_with(&[0x23, 0x00]);
    chip.ram[0x300] = 0x00;
    chip.ram[0x301] = 0xEE;
    assert_eq!(chip.cycle_with(0), Ok(()));
    assert_eq!(chip.pc, 0x300);
    assert_eq!(chip.sp, 1);
    assert_eq!(chip.stack[0], 0x202);
    assert_eq!(chip.cycle_with(0), Ok(()));
    assert_eq!(chip.pc, 0x202);
    assert_eq!(chip.sp, 0);
}

#[test]
fn return_on_empty_stack_underflows() {
    let mut chip = machine_with(&[0x00, 0xEE]);
    assert_eq!(chip.cycle_with(0), Err(Fault::StackUnderflow));
    assert_eq!(chip.pc, 0x200);
}

#[test]
fn call_on_full_stack_overflows() {
    let mut chip = machine_with(&[0x22, 0x00]);
    for _ in 0..16 {
        assert_eq!(chip.cycle_with(0), Ok(()));
    }
    assert_eq!(chip.sp, 16);
    assert_eq!(chip.cycle_with(0), Err(Fault::StackOverflow));
    assert_eq!(chip.sp, 16);
}

#[test]
fn skips_and_jumps() {
    let mut chip = machine_with(&[0x31, 0x07, 0x00, 0x00, 0xB3, 0x00]);
    chip.registers[1] = 7;
    chip.registers[0] = 0x10;
    assert_eq!(chip.cycle_with(0), Ok(()));
    assert_eq!(chip.pc, 0x204);
    assert_eq!(chip.cycle_with(0), Ok(()));
    assert_eq!(chip.pc, 0x310);
}

#[test]
fn fetch_past_memory_faults() {
    let mut chip = Chip8::new();
    chip.pc = 0xFFF;
    assert_eq!(chip.cycle_with(0), Err(Fault::AddressFault));
    assert_eq!(chip.pc, 0xFFF);
}

#[test]
fn draw_twice_restores_and_collides() {
    let mut chip = machine_with(&[0xA3, 0x00, 0xD0, 0x11, 0xD0, 0x11]);
    chip.ram[0x300] = 0b1010_0000;
    chip.registers[0] = 10;
    chip.registers[1] = 4;
    chip.video[4 * DISP_WIDTH + 12] = true;
    let before = chip.video;
    assert_eq!(chip.cycle_with(0), Ok(()));
    assert_eq!(chip.cycle_with(0), Ok(()));
    assert!(chip.video[4 * DISP_WIDTH + 10]);
    assert!(!chip.video[4 * DISP_WIDTH + 12]);
    assert_eq!(chip.registers[0xF], 1);
    assert_eq!(chip.cycle_with(0), Ok(()));
    assert_eq!(chip.video, before);
    assert_eq!(chip.registers[0xF], 1);
}

#[test]
fn draw_without_collision_clears_flag() {
    let mut chip = machine_with(&[0xA3, 0x00, 0xD0, 0x11]);
    chip.ram[0x300] = 0x80;
    chip.registers[0xF] = 1;
    assert_eq!(chip.cycle_with(0), Ok(()));
    assert_eq!(chip.cycle_with(0), Ok(()));
    assert!(chip.video[0]);
    assert_eq!(chip.registers[0xF], 0);
}

#[test]
fn draw_wraps_at_the_edges() {
    let mut chip = machine_with(&[0xA3, 0x00, 0xD0, 0x11]);
    chip.ram[0x300] = 0xFF;
    chip.registers[0] = 63;
    chip.registers[1] = 31;
    assert_eq!(chip.cycle_with(0), Ok(()));
    assert_eq!(chip.cycle_with(0), Ok(()));
    let row = 31 * DISP_WIDTH;
    assert!(chip.video[row + 63]);
    for x in 0..7 {
        assert!(chip.video[row + x]);
    }
    assert!(!chip.video[row + 7]);
    assert_eq!(chip.video.iter().filter(|p| **p).count(), 8);
}

#[test]
fn draw_past_memory_faults() {
    let mut chip = machine_with(&[0xAF, 0xFE, 0xD0, 0x13]);
    assert_eq!(chip.cycle_with(0), Ok(()));
    assert_eq!(chip.cycle_with(0), Err(Fault::AddressFault));
    assert_eq!(chip.pc, 0x202);
}

#[test]
fn bcd_writes_digits() {
    let mut chip = machine_with(&[0xA3, 0x00, 0xF0, 0x33]);
    chip.registers[0] = 234;
    assert_eq!(chip.cycle_with(0), Ok(()));
    assert_eq!(chip.cycle_with(0), Ok(()));
    assert_eq!(&chip.ram[0x300..0x303], &[2, 3, 4]);
}

#[test]
fn bcd_past_memory_faults() {
    let mut chip = machine_with(&[0xAF, 0xFE, 0xF0, 0x33]);
    assert_eq!(chip.cycle_with(0), Ok(()));
    assert_eq!(chip.cycle_with(0), Err(Fault::AddressFault));
    assert_eq!(chip.ram[0xFFE], 0);
}

#[test]
fn store_then_load_round_trip() {
    let mut chip = machine_with(&[0xA3, 0x00, 0xF3, 0x55, 0x60, 0x00, 0x61, 0x00, 0xF3, 0x65]);
    chip.registers[0] = 11;
    chip.registers[1] = 22;
    chip.registers[2] = 33;
    chip.registers[3] = 44;
    chip.registers[4] = 55;
    assert_eq!(chip.cycle_with(0), Ok(()));
    assert_eq!(chip.cycle_with(0), Ok(()));
    assert_eq!(chip.i, 0x300);
    assert_eq!(&chip.ram[0x300..0x305], &[11, 22, 33, 44, 0]);
    assert_eq!(chip.cycle_with(0), Ok(()));
    assert_eq!(chip.cycle_with(0), Ok(()));
    assert_eq!(chip.registers[0], 0);
    assert_eq!(chip.cycle_with(0), Ok(()));
    assert_eq!(&chip.registers[0..5], &[11, 22, 33, 44, 55]);
    assert_eq!(chip.i, 0x304);
}

#[test]
fn key_wait_spins_until_pressed() {
    let mut chip = machine_with(&[0xF3, 0x0A]);
    for _ in 0..3 {
        assert_eq!(chip.cycle_with(0), Ok(()));
        assert_eq!(chip.pc, 0x200);
    }
    chip.set_key_value(3, 1);
    assert_eq!(chip.cycle_with(0), Ok(()));
    assert_eq!(chip.pc, 0x202);
    assert_eq!(chip.registers[3], 3);
}

#[test]
fn skip_on_key_state() {
    let mut chip = machine_with(&[0xE1, 0x9E, 0x00, 0x00, 0xE1, 0xA1]);
    chip.registers[1] = 0xB;
    chip.set_key_value(0xB, 1);
    assert_eq!(chip.cycle_with(0), Ok(()));
    assert_eq!(chip.pc, 0x204);
    assert_eq!(chip.cycle_with(0), Ok(()));
    assert_eq!(chip.pc, 0x206);
}

#[test]
fn key_beyond_keypad_is_never_down() {
    let mut chip = machine_with(&[0xE1, 0x9E]);
    chip.registers[1] = 0x40;
    assert_eq!(chip.cycle_with(0), Ok(()));
    assert_eq!(chip.pc, 0x202);
}

#[test]
fn unknown_word_faults_and_changes_nothing() {
    let mut chip = machine_with(&[0x50, 0x01]);
    chip.registers[0] = 5;
    assert_eq!(chip.cycle_with(0), Err(Fault::IllegalOpcode(0x5001)));
    assert_eq!(chip.pc, 0x200);
    assert_eq!(chip.opcode, 0);
    assert_eq!(chip.registers[0], 5);
}

#[test]
fn random_masked_by_immediate() {
    let mut chip = machine_with(&[0xC2, 0x0F, 0xC3, 0x00]);
    assert_eq!(chip.cycle_with(0xAB), Ok(()));
    assert_eq!(chip.registers[2], 0x0B);
    chip.registers[3] = 9;
    assert_eq!(chip.cycle(), Ok(()));
    assert_eq!(chip.registers[3], 0);
}

#[test]
fn timers_count_down_to_zero() {
    let mut chip = machine_with(&[0x61, 0x02, 0xF1, 0x15, 0xF1, 0x18, 0xF2, 0x07]);
    for _ in 0..3 {
        assert_eq!(chip.cycle_with(0), Ok(()));
    }
    assert!(chip.sound_on());
    chip.tick_timers();
    assert_eq!((chip.dt, chip.st), (1, 1));
    chip.tick_timers();
    chip.tick_timers();
    assert_eq!((chip.dt, chip.st), (0, 0));
    assert!(!chip.sound_on());
    assert_eq!(chip.cycle_with(0), Ok(()));
    assert_eq!(chip.registers[2], 0);
}

#[test]
fn index_register_ops() {
    let mut chip = machine_with(&[0xAF, 0xF0, 0xF1, 0x1E, 0xF2, 0x29]);
    chip.registers[1] = 0x20;
    chip.registers[2] = 0xA;
    assert_eq!(chip.cycle_with(0), Ok(()));
    assert_eq!(chip.cycle_with(0), Ok(()));
    assert_eq!(chip.i, 0x1010);
    assert_eq!(chip.cycle_with(0), Ok(()));
    assert_eq!(chip.i, 50);
}

#[test]
fn bitwise_register_ops() {
    let mut chip = machine_with(&[0x81, 0x21, 0x83, 0x22, 0x84, 0x23, 0x85, 0x20]);
    chip.registers[1] = 0b1100;
    chip.registers[2] = 0b1010;
    chip.registers[3] = 0b1100;
    chip.registers[4] = 0b1100;
    assert_eq!(chip.cycle_with(0), Ok(()));
    assert_eq!(chip.cycle_with(0), Ok(()));
    assert_eq!(chip.cycle_with(0), Ok(()));
    assert_eq!(chip.cycle_with(0), Ok(()));
    assert_eq!(chip.registers[1], 0b1110);
    assert_eq!(chip.registers[3], 0b1000);
    assert_eq!(chip.registers[4], 0b0110);
    assert_eq!(chip.registers[5], 0b1010);
}
