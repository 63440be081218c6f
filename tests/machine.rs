use chip8_tismith::cpu::Cpu;

#[test]
fn new_cpu_starts_at_program_area_with_font() {
    let cpu = Cpu::new();
    assert_eq!(cpu.pc(), 0x200);
    assert_eq!(cpu.index(), 0);
    assert_eq!(cpu.mem(0x50), 0xF0);
    assert_eq!(cpu.mem(0x9F), 0x80);
    assert_eq!(cpu.mem(0xA0), 0x00);
    assert_eq!(cpu.mem(0x4F), 0x00);
    assert!(cpu.screen().iter().all(|&p| !p));
    let other = Cpu::default();
    assert_eq!(other.pc(), 0x200);
    assert_eq!(other.mem(0x55), 0x20);
}

#[test]
fn load_rom_copies_from_program_start() {
    let mut cpu = Cpu::new();
    cpu.load_rom(&[0x12, 0x34, 0x56]);
    assert_eq!(cpu.mem(0x1FF), 0x00);
    assert_eq!(cpu.mem(0x200), 0x12);
    assert_eq!(cpu.mem(0x202), 0x56);
    assert_eq!(cpu.mem(0x203), 0x00);
}

#[test]
fn load_rom_drops_bytes_past_memory() {
    let mut cpu = Cpu::new();
    let rom = vec![0xAA; 0xE00 + 5];
    cpu.load_rom(&rom);
    assert_eq!(cpu.mem(0x200), 0xAA);
    assert_eq!(cpu.mem(0xFFF), 0xAA);
    assert_eq!(cpu.mem(0x1FF), 0x00);
}

#[test]
fn tick_runs_a_program() {
    let mut cpu = Cpu::new();
    let mut rom = vec![
        0x60, 0x05, // V0 = 5
        0x70, 0x03, // V0 += 3
        0x81, 0x00, // V1 = V0
        0x22, 0x10, // call 0x210
        0x12, 0x08, // jump to self
    ];
    rom.resize(0x10, 0);
    rom.extend_from_slice(&[
        0xA3, 0x00, // I = 0x300
        0xF1, 0x33, // BCD V1
        0x00, 0xEE, // return
    ]);
    cpu.load_rom(&rom);
    for _ in 0..3 {
        cpu.tick();
    }
    assert_eq!(cpu.reg(1), 8);
    assert_eq!(cpu.pc(), 0x206);
    cpu.tick();
    assert_eq!(cpu.pc(), 0x210);
    cpu.tick();
    cpu.tick();
    assert_eq!(cpu.index(), 0x300);
    assert_eq!([cpu.mem(0x300), cpu.mem(0x301), cpu.mem(0x302)], [0, 0, 8]);
    cpu.tick();
    assert_eq!(cpu.pc(), 0x208);
    cpu.tick();
    assert_eq!(cpu.pc(), 0x208);
}

#[test]
fn unknown_opcode_only_advances() {
    let mut cpu = Cpu::new();
    cpu.load_rom(&[0x01, 0x23, 0x80, 0x0F, 0xE0, 0x00, 0xF0, 0xFF]);
    for _ in 0..4 {
        cpu.tick();
    }
    assert_eq!(cpu.pc(), 0x208);
    assert_eq!(cpu.reg(0), 0);
}

#[test]
fn wait_key_spins_until_a_key_is_pressed() {
    let mut cpu = Cpu::new();
    cpu.load_rom(&[0xF3, 0x0A]);
    cpu.tick();
    cpu.tick();
    assert_eq!(cpu.pc(), 0x200);
    *cpu.key_mut(0x9) = true;
    *cpu.key_mut(0x7) = true;
    cpu.tick();
    assert_eq!(cpu.reg(3), 0x7);
    assert_eq!(cpu.pc(), 0x202);
}

#[test]
fn key_mut_reaches_every_hex_key() {
    let mut cpu = Cpu::new();
    *cpu.key_mut(0x0F) = true;
    *cpu.reg_mut(0) = 0x0F;
    cpu.skpr(0);
    assert_eq!(cpu.pc(), 0x204);
    cpu.skup(0);
    assert_eq!(cpu.pc(), 0x206);
}

#[test]
fn key_mut_outside_keypad_changes_nothing() {
    let mut cpu = Cpu::new();
    *cpu.key_mut(0x10) = true;
    *cpu.key_mut(0xFF) = true;
    for k in 0..16u8 {
        *cpu.reg_mut(0) = k;
        let pc = cpu.pc();
        cpu.skup(0);
        assert_eq!(cpu.pc(), pc.wrapping_add(4));
    }
}

#[test]
fn skip_on_key_uses_low_nibble() {
    let mut cpu = Cpu::new();
    *cpu.key_mut(0x2) = true;
    *cpu.reg_mut(5) = 0x12;
    cpu.execute(0xE59E, 0);
    assert_eq!(cpu.pc(), 0x204);
    cpu.execute(0xE5A1, 0);
    assert_eq!(cpu.pc(), 0x206);
}

#[test]
fn timers_count_down_and_beep_once() {
    let mut cpu = Cpu::new();
    *cpu.reg_mut(0) = 2;
    cpu.ssound(0);
    cpu.sdelay(0);
    assert!(!cpu.tick_timers());
    assert!(cpu.tick_timers());
    assert!(!cpu.tick_timers());
    cpu.gdelay(1);
    assert_eq!(cpu.reg(1), 0);
}

#[test]
fn delay_timer_reads_back() {
    let mut cpu = Cpu::new();
    *cpu.reg_mut(0) = 9;
    cpu.sdelay(0);
    cpu.tick_timers();
    cpu.gdelay(2);
    assert_eq!(cpu.reg(2), 8);
}

#[test]
fn store_and_load_registers() {
    let mut cpu = Cpu::new();
    *cpu.reg_mut(0) = 1;
    *cpu.reg_mut(1) = 2;
    *cpu.reg_mut(2) = 3;
    *cpu.reg_mut(3) = 4;
    cpu.set_index(0x400);
    cpu.str(2);
    assert_eq!([cpu.mem(0x400), cpu.mem(0x401), cpu.mem(0x402), cpu.mem(0x403)], [1, 2, 3, 0]);
    assert_eq!(cpu.index(), 0x403);

    *cpu.mem_mut(0x500) = 9;
    *cpu.mem_mut(0x501) = 8;
    cpu.set_index(0x500);
    cpu.ldr(1);
    assert_eq!([cpu.reg(0), cpu.reg(1), cpu.reg(2)], [9, 8, 3]);
    assert_eq!(cpu.index(), 0x502);
}

#[test]
fn jmi_stays_in_twelve_bits() {
    let mut cpu = Cpu::new();
    *cpu.reg_mut(0) = 0xFF;
    cpu.jmi(0xFFF);
    assert_eq!(cpu.pc(), 0x0FE);
}

#[test]
fn adi_wraps_at_sixteen_bits() {
    let mut cpu = Cpu::new();
    *cpu.reg_mut(1) = 0x02;
    cpu.set_index(0xFFFF);
    cpu.adi(1);
    assert_eq!(cpu.index(), 0x0001);
}

#[test]
fn random_opcode_masks_given_byte() {
    let mut cpu = Cpu::new();
    cpu.execute(0xC30F, 0xAB);
    assert_eq!(cpu.reg(3), 0x0B);
    cpu.rand_from(4, 0xF0, 0xAB);
    assert_eq!(cpu.reg(4), 0xA0);
    assert_eq!(cpu.pc(), 0x204);
}

#[test]
fn random_opcode_through_tick_respects_mask() {
    let mut cpu = Cpu::new();
    cpu.load_rom(&[0xC5, 0x03]);
    cpu.tick();
    assert_eq!(cpu.reg(5) & !0x03, 0);
    assert_eq!(cpu.pc(), 0x202);
}

#[test]
fn clear_screen_through_tick() {
    let mut cpu = Cpu::new();
    cpu.screen_mut()[700] = true;
    cpu.load_rom(&[0x00, 0xE0]);
    cpu.tick();
    assert!(!cpu.screen()[700]);
    assert_eq!(cpu.pc(), 0x202);
}

#[test]
fn can_tick_follows_memory_reach() {
    let mut cpu = Cpu::new();
    assert!(cpu.can_tick());
    cpu.load_rom(&[0xD1, 0x25, 0xF3, 0x55]);
    cpu.set_index(0xFFC);
    assert!(!cpu.can_tick());
    cpu.set_index(0xFFB);
    assert!(cpu.can_tick());
    cpu.jmp(0x202);
    cpu.set_index(0xFFD);
    assert!(!cpu.can_tick());
    cpu.set_index(0xFFC);
    assert!(cpu.can_tick());
    cpu.jmp(0xFFF);
    assert!(!cpu.can_tick());
}
