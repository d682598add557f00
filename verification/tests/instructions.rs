use ch8_rs::ch8::Chip8;

#[test]
fn add_immediate_wraps_and_keeps_flag() {
    let mut m = Chip8::new(false);
    m.ld_reg(0, 0xFF);
    m.ld_reg(15, 7);
    m.add_val(0, 0x02);
    assert_eq!(m.get_register(0), 0x01);
    assert_eq!(m.get_register(15), 7);
}

#[test]
fn add_registers_sets_overflow_flag() {
    let mut m = Chip8::new(false);
    m.ld_reg(0, 0xFF);
    m.ld_reg(1, 0x01);
    m.add_reg(0, 1);
    assert_eq!(m.get_register(0), 0x00);
    assert_eq!(m.get_register(15), 1);
    m.ld_reg(0, 0x01);
    m.ld_reg(1, 0x01);
    m.add_reg(0, 1);
    assert_eq!(m.get_register(0), 0x02);
    assert_eq!(m.get_register(15), 0);
}

#[test]
fn sub_registers_wraps_and_reports_borrow() {
    let mut m = Chip8::new(false);
    m.ld_reg(0, 0x01);
    m.ld_reg(1, 0x02);
    m.sub_regxy(0, 1);
    assert_eq!(m.get_register(0), 0xFF);
    assert_eq!(m.get_register(15), 1);
    m.ld_reg(0, 0x02);
    m.ld_reg(1, 0x01);
    m.sub_regxy(0, 1);
    assert_eq!(m.get_register(0), 0x01);
    assert_eq!(m.get_register(15), 0);
}

#[test]
fn sub_reversed_wraps_and_reports_borrow() {
    let mut m = Chip8::new(false);
    m.ld_reg(0, 0x01);
    m.ld_reg(1, 0x03);
    m.sub_regyx(0, 1);
    assert_eq!(m.get_register(0), 0x02);
    assert_eq!(m.get_register(15), 0);
    m.ld_reg(0, 0x03);
    m.ld_reg(1, 0x01);
    m.sub_regyx(0, 1);
    assert_eq!(m.get_register(0), 0xFE);
    assert_eq!(m.get_register(15), 1);
}

#[test]
fn logic_ops_always_clear_flag() {
    let mut m = Chip8::new(false);
    m.ld_reg(0, 0b1100);
    m.ld_reg(1, 0b1010);
    m.ld_reg(15, 9);
    m.or(0, 1);
    assert_eq!(m.get_register(0), 0b1110);
    assert_eq!(m.get_register(15), 0);
    m.ld_reg(0, 0b1100);
    m.ld_reg(15, 9);
    m.and(0, 1);
    assert_eq!(m.get_register(0), 0b1000);
    assert_eq!(m.get_register(15), 0);
    m.ld_reg(0, 0b1100);
    m.ld_reg(15, 9);
    m.xor(0, 1);
    assert_eq!(m.get_register(0), 0b0110);
    assert_eq!(m.get_register(15), 0);
}

#[test]
fn shift_right_captures_low_bit_first() {
    let mut m = Chip8::new(false);
    m.ld_reg(0, 0b0000_0011);
    m.shift_r(0);
    assert_eq!(m.get_register(0), 0b0000_0001);
    assert_eq!(m.get_register(15), 1);
    m.ld_reg(0, 0b0000_0100);
    m.shift_r(0);
    assert_eq!(m.get_register(0), 0b0000_0010);
    assert_eq!(m.get_register(15), 0);
}

#[test]
fn shift_left_captures_high_bit_first() {
    let mut m = Chip8::new(false);
    m.ld_reg(0, 0x81);
    m.shift_l(0);
    assert_eq!(m.get_register(0), 0x02);
    assert_eq!(m.get_register(15), 1);
    m.ld_reg(0, 0x41);
    m.shift_l(0);
    assert_eq!(m.get_register(0), 0x82);
    assert_eq!(m.get_register(15), 0);
}

#[test]
fn skip_equal_immediate_advances_four_or_two() {
    let mut m = Chip8::new(false);
    m.ld_reg(0, 5);
    let pc = m.get_pc();
    m.se_val(0, 5);
    assert_eq!(m.get_pc(), pc + 4);
    let pc = m.get_pc();
    m.se_val(0, 6);
    assert_eq!(m.get_pc(), pc + 2);
}

#[test]
fn skip_not_equal_immediate_advances_four_or_two() {
    let mut m = Chip8::new(false);
    m.ld_reg(0, 5);
    let pc = m.get_pc();
    m.sne_val(0, 6);
    assert_eq!(m.get_pc(), pc + 4);
    let pc = m.get_pc();
    m.sne_val(0, 5);
    assert_eq!(m.get_pc(), pc + 2);
}

#[test]
fn skip_on_register_compare_advances_four_or_two() {
    let mut m = Chip8::new(false);
    m.ld_reg(0, 5);
    m.ld_reg(1, 5);
    m.ld_reg(2, 6);
    let pc = m.get_pc();
    m.se_reg(0, 1);
    assert_eq!(m.get_pc(), pc + 4);
    let pc = m.get_pc();
    m.se_reg(0, 2);
    assert_eq!(m.get_pc(), pc + 2);
    let pc = m.get_pc();
    m.sne_reg(0, 2);
    assert_eq!(m.get_pc(), pc + 4);
    let pc = m.get_pc();
    m.sne_reg(0, 1);
    assert_eq!(m.get_pc(), pc + 2);
}

#[test]
fn copy_register_moves_value() {
    let mut m = Chip8::new(false);
    m.ld_reg(1, 42);
    m.copy(0, 1);
    assert_eq!(m.get_register(0), 42);
}

#[test]
fn jump_sets_pc_absolutely() {
    let mut m = Chip8::new(false);
    m.jmp(0x300);
    assert_eq!(m.get_pc(), 0x300);
}

#[test]
fn call_pushes_and_ret_restores() {
    let mut m = Chip8::new(false);
    assert_eq!(m.get_pc(), 0x200);
    m.call(0x400);
    assert_eq!(m.get_pc(), 0x400);
    assert_eq!(m.get_sp(), 1);
    m.ret();
    assert_eq!(m.get_pc(), 0x202);
    assert_eq!(m.get_sp(), 0);
}

#[test]
fn jump_plus_v0_offsets_target() {
    let mut m = Chip8::new(false);
    m.ld_reg(0, 0x10);
    m.jmpadd(0x300);
    assert_eq!(m.get_pc(), 0x310);
}

#[test]
fn index_add_wraps_and_flags_past_fff() {
    let mut m = Chip8::new(false);
    m.ld_indx(0xFFF);
    m.ld_reg(0, 0x10);
    m.add_indx(0);
    assert_eq!(m.get_index(), 0x100F);
    assert_eq!(m.get_register(15), 1);
    m.ld_indx(0x100);
    m.add_indx(0);
    assert_eq!(m.get_index(), 0x110);
    assert_eq!(m.get_register(15), 0);
}

#[test]
fn bcd_writes_three_digits() {
    let mut m = Chip8::new(false);
    m.ld_reg(3, 123);
    m.ld_indx(0x300);
    m.encode_save(3);
    assert_eq!(m.get_memory(0x300), 1);
    assert_eq!(m.get_memory(0x301), 2);
    assert_eq!(m.get_memory(0x302), 3);
    m.ld_reg(3, 7);
    m.ld_indx(0x310);
    m.encode_save(3);
    assert_eq!(m.get_memory(0x310), 0);
    assert_eq!(m.get_memory(0x311), 0);
    assert_eq!(m.get_memory(0x312), 7);
}

#[test]
fn store_then_load_round_trips_registers() {
    let mut m = Chip8::new(false);
    m.ld_indx(0x300);
    m.ld_reg(0, 10);
    m.ld_reg(1, 20);
    m.ld_reg(2, 30);
    m.ld_reg(3, 40);
    m.ld_reg(4, 99);
    m.save(3);
    assert_eq!(m.get_index(), 0x304);
    assert_eq!(m.get_memory(0x300), 10);
    assert_eq!(m.get_memory(0x301), 20);
    assert_eq!(m.get_memory(0x302), 30);
    assert_eq!(m.get_memory(0x303), 40);
    assert_eq!(m.get_memory(0x304), 0);
    m.ld_reg(0, 1);
    m.ld_reg(1, 2);
    m.ld_reg(2, 3);
    m.ld_reg(3, 4);
    m.ld_indx(0x300);
    m.load(3);
    assert_eq!(m.get_index(), 0x304);
    assert_eq!(m.get_register(0), 10);
    assert_eq!(m.get_register(1), 20);
    assert_eq!(m.get_register(2), 30);
    assert_eq!(m.get_register(3), 40);
    assert_eq!(m.get_register(4), 99);
}

#[test]
fn wait_key_stores_lowest_pressed_key() {
    let mut m = Chip8::new(false);
    let pc = m.get_pc();
    m.wait_key(0);
    assert_eq!(m.get_pc(), pc);
    m.set_input(7, true);
    m.set_input(3, true);
    m.wait_key(0);
    assert_eq!(m.get_register(0), 3);
    assert_eq!(m.get_pc(), pc + 2);
    m.set_input(3, false);
    m.wait_key(1);
    assert_eq!(m.get_register(1), 7);
}

#[test]
fn random_and_respects_mask() {
    let mut m = Chip8::new(false);
    m.ld_reg(0, 0xAA);
    m.rand_and(0, 0x00);
    assert_eq!(m.get_register(0), 0);
    for _ in 0..32 {
        m.rand_and(1, 0x0F);
        assert!(m.get_register(1) < 16);
    }
}

#[test]
fn timer_set_and_read_through_registers() {
    let mut m = Chip8::new(false);
    m.ld_reg(0, 7);
    m.set_delay(0);
    assert_eq!(m.get_delay_timer(), 7);
    m.get_delay(1);
    assert_eq!(m.get_register(1), 7);
    m.ld_reg(2, 9);
    m.set_sound(2);
    assert_eq!(m.get_sound_timer(), 9);
}

#[test]
fn clear_display_zeroes_and_flags_redraw() {
    let mut m = Chip8::new(false);
    m.ld_indx(0);
    m.ld_reg(0, 0);
    m.ld_reg(1, 0);
    m.draw_pixel(0, 1, 5);
    assert_eq!(m.get_display(0), 1);
    m.set_should_draw(false);
    m.cls();
    for i in 0..2048 {
        assert_eq!(m.get_display(i), 0);
    }
    assert!(m.should_draw());
}
