use ch8_rs::ch8::{shift_i32, shift_u8, Chip8, LoadError};
use ch8_rs::decode::{decode, Instruction};
use ch8_rs::tickrate::Tickrate;

#[test]
fn construction_loads_font_and_entry_point() {
    let m = Chip8::new(false);
    assert_eq!(m.get_pc(), 512);
    assert_eq!(m.get_sp(), 0);
    assert_eq!(m.get_index(), 0);
    assert_eq!(m.get_delay_timer(), 0);
    assert_eq!(m.get_sound_timer(), 0);
    assert!(!m.should_draw());
    assert!(!m.debug_enabled());
    assert!(Chip8::new(true).debug_enabled());
    assert_eq!(m.get_memory(0), 0xF0);
    assert_eq!(m.get_memory(4), 0xF0);
    assert_eq!(m.get_memory(5), 0x20);
    assert_eq!(m.get_memory(79), 0x80);
    assert_eq!(m.get_memory(80), 0);
    assert_eq!(m.get_memory(512), 0);
    for i in 0..16 {
        assert_eq!(m.get_register(i), 0);
    }
}

#[test]
fn rom_of_exact_capacity_loads() {
    let mut m = Chip8::new(false);
    let mut rom = vec![0xABu8; 3584];
    rom[0] = 0x11;
    rom[3583] = 0x22;
    assert!(m.read_rom(&rom).is_ok());
    assert_eq!(m.get_memory(512), 0x11);
    assert_eq!(m.get_memory(513), 0xAB);
    assert_eq!(m.get_memory(4095), 0x22);
    let fresh = Chip8::new(false);
    for i in 0..512 {
        assert_eq!(m.get_memory(i), fresh.get_memory(i));
    }
}

#[test]
fn empty_rom_loads_and_changes_nothing() {
    let mut m = Chip8::new(false);
    let rom: Vec<u8> = Vec::new();
    assert!(m.read_rom(&rom).is_ok());
    let fresh = Chip8::new(false);
    for i in 0..4096 {
        assert_eq!(m.get_memory(i), fresh.get_memory(i));
    }
}

#[test]
fn oversized_rom_is_refused_without_partial_write() {
    let mut m = Chip8::new(false);
    let rom = vec![0xCDu8; 3585];
    assert_eq!(m.read_rom(&rom), Err(LoadError::TooLarge));
    let fresh = Chip8::new(false);
    for i in 0..4096 {
        assert_eq!(m.get_memory(i), fresh.get_memory(i));
    }
    assert_eq!(m.get_pc(), 512);
}

#[test]
fn cycle_runs_a_small_program() {
    let mut m = Chip8::new(false);
    // V0 <- 5; V0 <- V0 + 1; jump back to the entry point.
    let rom = vec![0x60, 0x05, 0x70, 0x01, 0x12, 0x00];
    assert!(m.read_rom(&rom).is_ok());
    assert!(m.can_step());
    m.cycle();
    assert_eq!(m.get_register(0), 5);
    assert_eq!(m.get_pc(), 514);
    m.cycle();
    assert_eq!(m.get_register(0), 6);
    assert_eq!(m.get_pc(), 516);
    m.cycle();
    assert_eq!(m.get_pc(), 0x200);
}

#[test]
fn wait_key_holds_pc_until_a_press() {
    let mut m = Chip8::new(false);
    let rom = vec![0xF0, 0x0A];
    assert!(m.read_rom(&rom).is_ok());
    m.cycle();
    m.cycle();
    m.cycle();
    assert_eq!(m.get_pc(), 512);
    m.set_input(4, true);
    m.cycle();
    assert_eq!(m.get_pc(), 514);
    assert_eq!(m.get_register(0), 4);
}

#[test]
fn delay_timer_floors_at_zero() {
    let mut m = Chip8::new(false);
    assert_eq!(m.get_delay_timer(), 0);
    // An unrecognized encoding: a no-op step that still ticks the timers.
    let rom = vec![0x00, 0x00, 0x00, 0x00, 0x00, 0x00];
    assert!(m.read_rom(&rom).is_ok());
    m.cycle();
    assert_eq!(m.get_delay_timer(), 0);
    assert_eq!(m.get_pc(), 514);
    m.ld_reg(0, 2);
    m.set_delay(0);
    m.jmp(512);
    m.cycle();
    assert_eq!(m.get_delay_timer(), 1);
    m.cycle();
    assert_eq!(m.get_delay_timer(), 0);
    m.cycle();
    assert_eq!(m.get_delay_timer(), 0);
}

#[test]
fn drawing_twice_restores_the_display() {
    let mut m = Chip8::new(false);
    // Draw the font glyph for 0 at (5, 2), twice.
    m.ld_indx(0);
    m.ld_reg(0, 5);
    m.ld_reg(1, 2);
    m.draw_pixel(0, 1, 5);
    assert!(m.should_draw());
    // Top row of the glyph is 0xF0: four pixels starting at (5, 2).
    assert_eq!(m.get_display(5 + 2 * 64), 1);
    assert_eq!(m.get_display(6 + 2 * 64), 1);
    assert_eq!(m.get_display(7 + 2 * 64), 1);
    assert_eq!(m.get_display(8 + 2 * 64), 1);
    assert_eq!(m.get_display(9 + 2 * 64), 0);
    m.set_should_draw(false);
    m.draw_pixel(0, 1, 5);
    assert!(m.should_draw());
    for i in 0..2048 {
        assert_eq!(m.get_display(i), 0);
    }
    // The collision signal is discarded after the loop: VF ends at 0.
    assert_eq!(m.get_register(15), 0);
}

#[test]
fn sprite_draw_wraps_through_the_flat_buffer() {
    let mut m = Chip8::new(false);
    m.ld_indx(0);
    m.ld_reg(0, 62);
    m.ld_reg(1, 31);
    m.draw_pixel(0, 1, 1);
    // Row 0 of the glyph is 0xF0: targets (62 + 31 * 64 + j) mod 2048.
    assert_eq!(m.get_display(2046), 1);
    assert_eq!(m.get_display(2047), 1);
    assert_eq!(m.get_display(0), 1);
    assert_eq!(m.get_display(1), 1);
    assert_eq!(m.get_display(2), 0);
}

#[test]
fn decode_recognizes_each_family() {
    assert_eq!(decode(0x00E0), Instruction::Cls);
    assert_eq!(decode(0x00EE), Instruction::Ret);
    assert_eq!(decode(0x0123), Instruction::Unknown);
    assert_eq!(decode(0x1ABC), Instruction::Jmp(0xABC));
    assert_eq!(decode(0x2DEF), Instruction::Call(0xDEF));
    assert_eq!(decode(0x3A42), Instruction::SeVal(0xA, 0x42));
    assert_eq!(decode(0x4A42), Instruction::SneVal(0xA, 0x42));
    assert_eq!(decode(0x5AB7), Instruction::SeReg(0xA, 0xB));
    assert_eq!(decode(0x6A42), Instruction::LdReg(0xA, 0x42));
    assert_eq!(decode(0x7A42), Instruction::AddVal(0xA, 0x42));
    assert_eq!(decode(0x8AB0), Instruction::Copy(0xA, 0xB));
    assert_eq!(decode(0x8AB1), Instruction::Or(0xA, 0xB));
    assert_eq!(decode(0x8AB2), Instruction::And(0xA, 0xB));
    assert_eq!(decode(0x8AB3), Instruction::Xor(0xA, 0xB));
    assert_eq!(decode(0x8AB4), Instruction::AddReg(0xA, 0xB));
    assert_eq!(decode(0x8AB5), Instruction::SubRegXY(0xA, 0xB));
    assert_eq!(decode(0x8AB6), Instruction::ShiftR(0xA));
    assert_eq!(decode(0x8AB7), Instruction::SubRegYX(0xA, 0xB));
    assert_eq!(decode(0x8ABE), Instruction::ShiftL(0xA));
    assert_eq!(decode(0x8AB8), Instruction::Unknown);
    assert_eq!(decode(0x9AB0), Instruction::SneReg(0xA, 0xB));
    assert_eq!(decode(0xAABC), Instruction::LdIndx(0xABC));
    assert_eq!(decode(0xBABC), Instruction::JmpAdd(0xABC));
    assert_eq!(decode(0xCA42), Instruction::RandAnd(0xA, 0x42));
    assert_eq!(decode(0xDAB5), Instruction::Draw(0xA, 0xB, 5));
    assert_eq!(decode(0xE09E), Instruction::Unknown);
    assert_eq!(decode(0xFA07), Instruction::GetDelay(0xA));
    assert_eq!(decode(0xFA0A), Instruction::WaitKey(0xA));
    assert_eq!(decode(0xFA15), Instruction::SetDelay(0xA));
    assert_eq!(decode(0xFA18), Instruction::SetSound(0xA));
    assert_eq!(decode(0xFA1E), Instruction::AddIndx(0xA));
    assert_eq!(decode(0xFA33), Instruction::EncodeSave(0xA));
    assert_eq!(decode(0xFA55), Instruction::Save(0xA));
    assert_eq!(decode(0xFA65), Instruction::Load(0xA));
    assert_eq!(decode(0xFA99), Instruction::Unknown);
}

#[test]
fn can_step_guards_bounds() {
    let mut m = Chip8::new(false);
    // jump to 4095: the second opcode byte would fall outside memory.
    let rom = vec![0x1F, 0xFF];
    assert!(m.read_rom(&rom).is_ok());
    assert!(m.can_step());
    m.cycle();
    assert_eq!(m.get_pc(), 4095);
    assert!(!m.can_step());
    // return with an empty stack is refused as well.
    let mut m2 = Chip8::new(false);
    let rom2 = vec![0x00, 0xEE];
    assert!(m2.read_rom(&rom2).is_ok());
    assert!(!m2.can_step());
}

#[test]
fn tick_counts_frames_inside_one_second() {
    let mut t = Tickrate::new();
    assert_eq!(t.tick(0), 1);
    assert_eq!(t.tick(500_000), 2);
    assert_eq!(t.tick(1_000_000), 3);
    assert_eq!(t.tick(1_600_000), 2);
    assert_eq!(t.tick(1_600_000), 3);
}

#[test]
fn opcode_field_extraction() {
    assert_eq!(shift_u8(0x1234, 8, 0x0F00), 0x2);
    assert_eq!(shift_u8(0x1234, 0, 0x00FF), 0x34);
    assert_eq!(shift_u8(0x1234, 4, 0x00F0), 0x3);
    assert_eq!(shift_i32(0x8123, 12, 0xF000), 8);
    assert_eq!(shift_i32(0x8123, 0, 0x000F), 3);
}
