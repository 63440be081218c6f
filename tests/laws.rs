use chip8_tismith::cpu::Cpu;

#[test]
fn pc_advances_by_two_and_wraps() {
    let mut cpu = Cpu::new();
    cpu.mov_const(0, 0x12);
    assert_eq!(cpu.pc(), 0x202);
    cpu.jmp(0xFFFE);
    cpu.mov_const(0, 0x12);
    assert_eq!(cpu.pc(), 0x0000);
}

#[test]
fn skip_advances_by_four_or_two() {
    let mut cpu = Cpu::new();
    *cpu.reg_mut(3) = 0x42;
    cpu.execute(0x3342, 0);
    assert_eq!(cpu.pc(), 0x204);
    cpu.execute(0x3343, 0);
    assert_eq!(cpu.pc(), 0x206);
    cpu.execute(0x4343, 0);
    assert_eq!(cpu.pc(), 0x20A);
}

#[test]
fn add_const_wraps_without_flag() {
    let mut cpu = Cpu::new();
    *cpu.reg_mut(0xF) = 0x07;
    *cpu.reg_mut(2) = 0xFF;
    cpu.add_const(2, 0x02);
    assert_eq!(cpu.reg(2), 0x01);
    assert_eq!(cpu.reg(0xF), 0x07);
}

#[test]
fn add_reg_without_carry_clears_flag() {
    let mut cpu = Cpu::new();
    *cpu.reg_mut(0xF) = 0x01;
    *cpu.reg_mut(0) = 0x01;
    *cpu.reg_mut(1) = 0x02;
    cpu.add_reg(0, 1);
    assert_eq!(cpu.reg(0), 0x03);
    assert_eq!(cpu.reg(0xF), 0x00);
}

#[test]
fn add_reg_into_flag_register_keeps_carry() {
    let mut cpu = Cpu::new();
    *cpu.reg_mut(0xF) = 0xFF;
    *cpu.reg_mut(1) = 0x01;
    cpu.add_reg(0xF, 1);
    assert_eq!(cpu.reg(0xF), 0x01);
}

#[test]
fn sub_reg_equal_values_do_not_borrow() {
    let mut cpu = Cpu::new();
    *cpu.reg_mut(4) = 0x33;
    *cpu.reg_mut(5) = 0x33;
    cpu.sub_reg(4, 5);
    assert_eq!(cpu.reg(4), 0x00);
    assert_eq!(cpu.reg(0xF), 0x01);
}

#[test]
fn rsb_without_borrow_sets_flag() {
    let mut cpu = Cpu::new();
    *cpu.reg_mut(8) = 0x01;
    *cpu.reg_mut(9) = 0x10;
    cpu.rsb(8, 9);
    assert_eq!(cpu.reg(8), 0x0F);
    assert_eq!(cpu.reg(0xF), 0x01);
}

#[test]
fn shifts_clear_flag_when_bit_is_zero() {
    let mut cpu = Cpu::new();
    *cpu.reg_mut(0xF) = 0x01;
    *cpu.reg_mut(2) = 0x40;
    cpu.shl(2, 0);
    assert_eq!(cpu.reg(2), 0x80);
    assert_eq!(cpu.reg(0xF), 0x00);
    *cpu.reg_mut(0xF) = 0x01;
    cpu.shr(2, 0);
    assert_eq!(cpu.reg(2), 0x40);
    assert_eq!(cpu.reg(0xF), 0x00);
}

#[test]
fn shift_of_flag_register_keeps_shifted_value() {
    let mut cpu = Cpu::new();
    *cpu.reg_mut(0xF) = 0x06;
    cpu.shr(0xF, 0);
    assert_eq!(cpu.reg(0xF), 0x03);
}

#[test]
fn call_then_return_restores_pc_plus_two() {
    let mut cpu = Cpu::new();
    cpu.jmp(0x2A0);
    cpu.jsr(0x700);
    assert_eq!(cpu.pc(), 0x700);
    cpu.rts();
    assert_eq!(cpu.pc(), 0x2A2);
}

#[test]
fn return_with_empty_stack_keeps_pc() {
    let mut cpu = Cpu::new();
    cpu.rts();
    assert_eq!(cpu.pc(), 0x200);
}

#[test]
fn bcd_digits_give_back_value() {
    for v in [0u8, 7, 10, 99, 100, 255] {
        let mut cpu = Cpu::new();
        *cpu.reg_mut(3) = v;
        cpu.set_index(0x400);
        cpu.bcd(3);
        let total = cpu.mem(0x400) as u32 * 100 + cpu.mem(0x401) as u32 * 10 + cpu.mem(0x402) as u32;
        assert_eq!(total, v as u32);
        assert_eq!(cpu.index(), 0x400);
    }
}

#[test]
fn bcd_255_digits() {
    let mut cpu = Cpu::new();
    *cpu.reg_mut(0) = 255;
    cpu.set_index(0x300);
    cpu.bcd(0);
    assert_eq!([cpu.mem(0x300), cpu.mem(0x301), cpu.mem(0x302)], [2, 5, 5]);
}

#[test]
fn bcd_with_index_past_4092_writes_nothing() {
    let mut cpu = Cpu::new();
    *cpu.reg_mut(0) = 123;
    cpu.set_index(4093);
    cpu.bcd(0);
    assert_eq!(cpu.mem(4093), 0);
    assert_eq!(cpu.mem(4094), 0);
    assert_eq!(cpu.mem(4095), 0);
    assert_eq!(cpu.pc(), 0x202);
}

#[test]
fn sprite_drawn_twice_restores_screen() {
    let mut cpu = Cpu::new();
    *cpu.reg_mut(1) = 10;
    *cpu.reg_mut(2) = 5;
    cpu.screen_mut()[5 * 64 + 11] = true;
    cpu.screen_mut()[100] = true;
    let before = *cpu.screen();
    cpu.set_index(0x50);
    cpu.sprite(1, 2, 5);
    assert_ne!(*cpu.screen(), before);
    cpu.sprite(1, 2, 5);
    assert_eq!(*cpu.screen(), before);
}

#[test]
fn sprite_draws_glyph_pixels() {
    let mut cpu = Cpu::new();
    cpu.set_index(0x50);
    cpu.sprite(1, 2, 5);
    let screen = cpu.screen();
    assert!(screen[0] && screen[1] && screen[2] && screen[3]);
    assert!(!screen[4]);
    assert!(screen[64] && !screen[65] && !screen[66] && screen[67]);
    assert!(screen[4 * 64] && screen[4 * 64 + 3]);
    assert!(!screen[5 * 64]);
    assert_eq!(screen.iter().filter(|&&p| p).count(), 14);
    assert_eq!(cpu.reg(0xF), 0);
}

#[test]
fn sprite_collision_sets_flag() {
    let mut cpu = Cpu::new();
    cpu.set_index(0x50);
    cpu.sprite(1, 2, 5);
    assert_eq!(cpu.reg(0xF), 0);
    cpu.sprite(1, 2, 5);
    assert_eq!(cpu.reg(0xF), 1);
    assert!(cpu.screen().iter().all(|&p| !p));
}

#[test]
fn sprite_on_blank_region_clears_stale_flag() {
    let mut cpu = Cpu::new();
    *cpu.reg_mut(0xF) = 1;
    cpu.screen_mut()[0] = true;
    *cpu.reg_mut(1) = 20;
    cpu.set_index(0x50);
    cpu.sprite(1, 2, 5);
    assert_eq!(cpu.reg(0xF), 0);
    assert!(cpu.screen()[0]);
}

#[test]
fn sprite_wraps_around_edges() {
    let mut cpu = Cpu::new();
    *cpu.mem_mut(0x300) = 0xFF;
    *cpu.mem_mut(0x301) = 0x80;
    cpu.set_index(0x300);
    *cpu.reg_mut(1) = 62 + 64;
    *cpu.reg_mut(2) = 31;
    cpu.sprite(1, 2, 2);
    let screen = cpu.screen();
    assert!(screen[31 * 64 + 62] && screen[31 * 64 + 63]);
    assert!(screen[31 * 64] && screen[31 * 64 + 5]);
    assert!(!screen[31 * 64 + 6] && !screen[30 * 64 + 63]);
    assert!(screen[62]);
    assert!(!screen[63]);
    assert_eq!(screen.iter().filter(|&&p| p).count(), 9);
    assert_eq!(cpu.pc(), 0x202);
}

#[test]
fn font_points_at_glyph() {
    let expected: [[u8; 5]; 3] = [
        [0xF0, 0x90, 0x90, 0x90, 0xF0],
        [0xF0, 0x90, 0xF0, 0x90, 0x90],
        [0xF0, 0x80, 0xF0, 0x80, 0x80],
    ];
    for (d, glyph) in [0u8, 0xA, 0xF].iter().zip(expected.iter()) {
        let mut cpu = Cpu::new();
        *cpu.reg_mut(4) = *d;
        cpu.font(4);
        let i = cpu.index();
        assert_eq!(i, 0x50 + 5 * *d as u16);
        let bytes: Vec<u8> = (0..5).map(|k| cpu.mem(i + k)).collect();
        assert_eq!(bytes, glyph.to_vec());
    }
}
