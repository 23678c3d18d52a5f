use oxiboy_core::bus::Bus;
use oxiboy_core::cartridge::Cartridge;
use oxiboy_core::cpu::Cpu;

/// A CPU and a bus whose ROM holds `program` at 0x0100 and `sub` at 0x0200.
fn machine(program: &[u8], sub: &[u8]) -> (Cpu, Bus) {
    let mut rom = vec![0u8; 0x8000];
    rom[0x100..0x100 + program.len()].copy_from_slice(program);
    rom[0x200..0x200 + sub.len()].copy_from_slice(sub);
    (Cpu::new(), Bus::new(Cartridge::new(rom)))
}

fn run(cpu: &mut Cpu, bus: &mut Bus, steps: usize) -> Vec<u32> {
    (0..steps).map(|_| cpu.step(bus)).collect()
}

#[test]
fn cpu_boot_state_and_flags() {
    let cpu = Cpu::new();
    assert_eq!((cpu.a, cpu.f, cpu.b, cpu.c, cpu.d, cpu.e, cpu.h, cpu.l), (0x01, 0xB0, 0x00, 0x13, 0x00, 0xD8, 0x01, 0x4D));
    assert_eq!((cpu.sp, cpu.pc), (0xFFFE, 0x0100));
    assert!(cpu.ime && !cpu.ime_scheduled && !cpu.halted);
    assert!(cpu.flag_z());
    assert!(!cpu.flag_n());
    assert!(cpu.flag_h());
    assert!(cpu.flag_c());
}

#[test]
fn cpu_nop_takes_four_cycles() {
    let (mut cpu, mut bus) = machine(&[0x00], &[]);
    assert_eq!(cpu.step(&mut bus), 4);
    assert_eq!(cpu.pc, 0x0101);
}

#[test]
fn cpu_add_sets_zero_half_and_carry() {
    // LD A,0x3A; LD B,0xC6; ADD A,B
    let (mut cpu, mut bus) = machine(&[0x3E, 0x3A, 0x06, 0xC6, 0x80], &[]);
    assert_eq!(run(&mut cpu, &mut bus, 3), vec![8, 8, 4]);
    assert_eq!(cpu.a, 0x00);
    assert!(cpu.flag_z() && !cpu.flag_n() && cpu.flag_h() && cpu.flag_c());
    assert_eq!(cpu.f, 0xB0);
}

#[test]
fn cpu_adc_and_sbc_use_carry() {
    // SCF; LD A,0x0F; ADC A,0x00; SCF; SBC A,0x00
    let (mut cpu, mut bus) = machine(&[0x37, 0x3E, 0x0F, 0xCE, 0x00, 0x37, 0xDE, 0x00], &[]);
    run(&mut cpu, &mut bus, 3);
    assert_eq!(cpu.a, 0x10);
    assert!(cpu.flag_h() && !cpu.flag_c() && !cpu.flag_z());
    run(&mut cpu, &mut bus, 2);
    assert_eq!(cpu.a, 0x0F);
    assert!(cpu.flag_n() && cpu.flag_h() && !cpu.flag_c());
}

#[test]
fn cpu_sub_and_cp() {
    // LD A,0x10; SUB 0x01; CP 0x0F; CP 0x20
    let (mut cpu, mut bus) = machine(&[0x3E, 0x10, 0xD6, 0x01, 0xFE, 0x0F, 0xFE, 0x20], &[]);
    run(&mut cpu, &mut bus, 2);
    assert_eq!(cpu.a, 0x0F);
    assert!(cpu.flag_n() && cpu.flag_h() && !cpu.flag_c() && !cpu.flag_z());
    run(&mut cpu, &mut bus, 1);
    assert!(cpu.flag_z() && !cpu.flag_c());
    run(&mut cpu, &mut bus, 1);
    assert_eq!(cpu.a, 0x0F);
    assert!(!cpu.flag_z() && cpu.flag_c());
}

#[test]
fn cpu_logic_ops() {
    // LD A,0xF0; AND 0x3C; OR 0x01; XOR A
    let (mut cpu, mut bus) = machine(&[0x3E, 0xF0, 0xE6, 0x3C, 0xF6, 0x01, 0xAF], &[]);
    run(&mut cpu, &mut bus, 2);
    assert_eq!(cpu.a, 0x30);
    assert!(cpu.flag_h() && !cpu.flag_c() && !cpu.flag_z());
    run(&mut cpu, &mut bus, 1);
    assert_eq!(cpu.a, 0x31);
    assert!(!cpu.flag_h());
    run(&mut cpu, &mut bus, 1);
    assert_eq!(cpu.a, 0x00);
    assert!(cpu.flag_z() && !cpu.flag_n() && !cpu.flag_h() && !cpu.flag_c());
}

#[test]
fn cpu_daa_after_bcd_add_and_sub() {
    // LD A,0x45; ADD A,0x38; DAA; SUB 0x05; DAA
    let (mut cpu, mut bus) = machine(&[0x3E, 0x45, 0xC6, 0x38, 0x27, 0xD6, 0x05, 0x27], &[]);
    run(&mut cpu, &mut bus, 3);
    assert_eq!(cpu.a, 0x83);
    assert!(!cpu.flag_c());
    run(&mut cpu, &mut bus, 2);
    assert_eq!(cpu.a, 0x78);
}

#[test]
fn cpu_daa_carry_when_over_99() {
    // LD A,0x99; ADD A,0x01; DAA
    let (mut cpu, mut bus) = machine(&[0x3E, 0x99, 0xC6, 0x01, 0x27], &[]);
    run(&mut cpu, &mut bus, 3);
    assert_eq!(cpu.a, 0x00);
    assert!(cpu.flag_c() && cpu.flag_z());
}

#[test]
fn cpu_inc_dec_registers_and_memory() {
    // LD B,0x0F; INC B; LD C,0x01; DEC C; LD HL,0xC000; LD (HL),0xFF; INC (HL)
    let (mut cpu, mut bus) = machine(&[0x06, 0x0F, 0x04, 0x0E, 0x01, 0x0D, 0x21, 0x00, 0xC0, 0x36, 0xFF, 0x34], &[]);
    run(&mut cpu, &mut bus, 2);
    assert_eq!(cpu.b, 0x10);
    assert!(cpu.flag_h() && !cpu.flag_z() && !cpu.flag_n());
    run(&mut cpu, &mut bus, 2);
    assert_eq!(cpu.c, 0x00);
    assert!(cpu.flag_z() && cpu.flag_n());
    let cycles = run(&mut cpu, &mut bus, 3);
    assert_eq!(cycles, vec![12, 12, 12]);
    assert_eq!(bus.read(0xC000), 0x00);
    assert!(cpu.flag_z() && cpu.flag_h());
}

#[test]
fn cpu_sixteen_bit_loads_and_arithmetic() {
    // LD BC,0x1234; LD DE,0x0FFF; LD HL,0x0001; ADD HL,DE; INC BC; DEC DE
    let (mut cpu, mut bus) = machine(&[0x01, 0x34, 0x12, 0x11, 0xFF, 0x0F, 0x21, 0x01, 0x00, 0x19, 0x03, 0x1B], &[]);
    run(&mut cpu, &mut bus, 4);
    assert_eq!((cpu.b, cpu.c), (0x12, 0x34));
    assert_eq!((cpu.h, cpu.l), (0x10, 0x00));
    assert!(cpu.flag_h() && !cpu.flag_c() && !cpu.flag_n());
    run(&mut cpu, &mut bus, 2);
    assert_eq!((cpu.b, cpu.c), (0x12, 0x35));
    assert_eq!((cpu.d, cpu.e), (0x0F, 0xFE));
}

#[test]
fn cpu_load_hl_increment_and_decrement() {
    // LD HL,0xC000; LD A,0x77; LD (HL+),A; LD (HL-),A; LD A,(HL+)
    let (mut cpu, mut bus) = machine(&[0x21, 0x00, 0xC0, 0x3E, 0x77, 0x22, 0x32, 0x2A], &[]);
    run(&mut cpu, &mut bus, 3);
    assert_eq!(bus.read(0xC000), 0x77);
    assert_eq!((cpu.h, cpu.l), (0xC0, 0x01));
    run(&mut cpu, &mut bus, 1);
    assert_eq!(bus.read(0xC001), 0x77);
    assert_eq!((cpu.h, cpu.l), (0xC0, 0x00));
    cpu.a = 0;
    run(&mut cpu, &mut bus, 1);
    assert_eq!(cpu.a, 0x77);
    assert_eq!((cpu.h, cpu.l), (0xC0, 0x01));
}

#[test]
fn cpu_push_pop_roundtrip() {
    // LD BC,0x1234; PUSH BC; POP DE
    let (mut cpu, mut bus) = machine(&[0x01, 0x34, 0x12, 0xC5, 0xD1], &[]);
    let cycles = run(&mut cpu, &mut bus, 3);
    assert_eq!(cycles, vec![12, 16, 12]);
    assert_eq!((cpu.d, cpu.e), (0x12, 0x34));
    assert_eq!(cpu.sp, 0xFFFE);
    assert_eq!(bus.read(0xFFFC), 0x34);
    assert_eq!(bus.read(0xFFFD), 0x12);
}

#[test]
fn cpu_pop_af_clears_low_flag_nibble() {
    // LD BC,0x12FF; PUSH BC; POP AF; PUSH AF; POP HL
    let (mut cpu, mut bus) = machine(&[0x01, 0xFF, 0x12, 0xC5, 0xF1, 0xF5, 0xE1], &[]);
    run(&mut cpu, &mut bus, 3);
    assert_eq!((cpu.a, cpu.f), (0x12, 0xF0));
    run(&mut cpu, &mut bus, 2);
    assert_eq!((cpu.h, cpu.l), (0x12, 0xF0));
}

#[test]
fn cpu_call_and_return() {
    // CALL 0x0200 / at 0x0200: RET
    let (mut cpu, mut bus) = machine(&[0xCD, 0x00, 0x02], &[0xC9]);
    assert_eq!(cpu.step(&mut bus), 24);
    assert_eq!(cpu.pc, 0x0200);
    assert_eq!(cpu.sp, 0xFFFC);
    assert_eq!(bus.read(0xFFFC), 0x03);
    assert_eq!(bus.read(0xFFFD), 0x01);
    assert_eq!(cpu.step(&mut bus), 16);
    assert_eq!(cpu.pc, 0x0103);
    assert_eq!(cpu.sp, 0xFFFE);
}

#[test]
fn cpu_conditional_call_and_return() {
    // XOR A; CALL NZ,0x0200; CALL Z,0x0200 / RET NZ; RET Z
    let (mut cpu, mut bus) = machine(&[0xAF, 0xC4, 0x00, 0x02, 0xCC, 0x00, 0x02], &[0xC0, 0xC8]);
    assert_eq!(run(&mut cpu, &mut bus, 3), vec![4, 12, 24]);
    assert_eq!(cpu.pc, 0x0200);
    assert_eq!(run(&mut cpu, &mut bus, 2), vec![8, 20]);
    assert_eq!(cpu.pc, 0x0107);
}

#[test]
fn cpu_jumps() {
    // JP 0x0200 / at 0x0200: LD HL,0x0300; JP (HL)
    let (mut cpu, mut bus) = machine(&[0xC3, 0x00, 0x02], &[0x21, 0x00, 0x03, 0xE9]);
    assert_eq!(run(&mut cpu, &mut bus, 3), vec![16, 12, 4]);
    assert_eq!(cpu.pc, 0x0300);
}

#[test]
fn cpu_conditional_jumps() {
    // SCF; JP NC,0x0200; JP C,0x0200
    let (mut cpu, mut bus) = machine(&[0x37, 0xD2, 0x00, 0x02, 0xDA, 0x00, 0x02], &[]);
    assert_eq!(run(&mut cpu, &mut bus, 3), vec![4, 12, 16]);
    assert_eq!(cpu.pc, 0x0200);
}

#[test]
fn cpu_relative_jumps() {
    // JR -2 loops on itself
    let (mut cpu, mut bus) = machine(&[0x18, 0xFE], &[]);
    assert_eq!(cpu.step(&mut bus), 12);
    assert_eq!(cpu.pc, 0x0100);
    // XOR A; JR NZ,+5 (not taken); JR Z,+5 (taken)
    let (mut cpu, mut bus) = machine(&[0xAF, 0x20, 0x05, 0x28, 0x05], &[]);
    assert_eq!(run(&mut cpu, &mut bus, 3), vec![4, 8, 12]);
    assert_eq!(cpu.pc, 0x010A);
}

#[test]
fn cpu_rst_pushes_and_jumps() {
    let (mut cpu, mut bus) = machine(&[0xEF], &[]);
    assert_eq!(cpu.step(&mut bus), 16);
    assert_eq!(cpu.pc, 0x0028);
    assert_eq!(cpu.sp, 0xFFFC);
    assert_eq!(bus.read(0xFFFC), 0x01);
    assert_eq!(bus.read(0xFFFD), 0x01);
}

#[test]
fn cpu_stack_pointer_offsets() {
    // ADD SP,-1 (0xFF); LD HL,SP+2
    let (mut cpu, mut bus) = machine(&[0xE8, 0xFF, 0xF8, 0x02], &[]);
    assert_eq!(cpu.step(&mut bus), 16);
    assert_eq!(cpu.sp, 0xFFFD);
    assert!(cpu.flag_h() && cpu.flag_c() && !cpu.flag_z() && !cpu.flag_n());
    assert_eq!(cpu.step(&mut bus), 12);
    assert_eq!((cpu.h, cpu.l), (0xFF, 0xFF));
    assert!(!cpu.flag_h() && !cpu.flag_c());
}

#[test]
fn cpu_stack_pointer_loads() {
    // LD SP,0xC100; LD (0xC000),SP; LD HL,0xD000; LD SP,HL; INC SP; DEC SP; DEC SP
    let (mut cpu, mut bus) = machine(&[0x31, 0x00, 0xC1, 0x08, 0x00, 0xC0, 0x21, 0x00, 0xD0, 0xF9, 0x33, 0x3B, 0x3B], &[]);
    assert_eq!(run(&mut cpu, &mut bus, 2), vec![12, 20]);
    assert_eq!(bus.read(0xC000), 0x00);
    assert_eq!(bus.read(0xC001), 0xC1);
    run(&mut cpu, &mut bus, 5);
    assert_eq!(cpu.sp, 0xCFFF);
}

#[test]
fn cpu_high_page_loads() {
    // LD A,0x42; LDH (0x80),A; LD C,0x81; LD (C),A; XOR A; LDH A,(0x80); LD A,(C)
    let (mut cpu, mut bus) = machine(&[0x3E, 0x42, 0xE0, 0x80, 0x0E, 0x81, 0xE2, 0xAF, 0xF0, 0x80, 0xF2], &[]);
    run(&mut cpu, &mut bus, 4);
    assert_eq!(bus.read(0xFF80), 0x42);
    assert_eq!(bus.read(0xFF81), 0x42);
    run(&mut cpu, &mut bus, 2);
    assert_eq!(cpu.a, 0x42);
}

#[test]
fn cpu_absolute_loads() {
    // LD A,0x5A; LD (0xC010),A; XOR A; LD A,(0xC010)
    let (mut cpu, mut bus) = machine(&[0x3E, 0x5A, 0xEA, 0x10, 0xC0, 0xAF, 0xFA, 0x10, 0xC0], &[]);
    assert_eq!(run(&mut cpu, &mut bus, 4), vec![8, 16, 4, 16]);
    assert_eq!(cpu.a, 0x5A);
}

#[test]
fn cpu_rotates_of_a() {
    // LD A,0x85; RLCA; RRCA; AND A (clears carry); RLA; RRA
    let (mut cpu, mut bus) = machine(&[0x3E, 0x85, 0x07, 0x0F, 0xA7, 0x17, 0x1F], &[]);
    run(&mut cpu, &mut bus, 2);
    assert_eq!(cpu.a, 0x0B);
    assert_eq!(cpu.f, 0x10);
    run(&mut cpu, &mut bus, 1);
    assert_eq!(cpu.a, 0x85);
    assert_eq!(cpu.f, 0x10);
    run(&mut cpu, &mut bus, 2);
    assert_eq!(cpu.a, 0x0A);
    assert!(cpu.flag_c());
    run(&mut cpu, &mut bus, 1);
    assert_eq!(cpu.a, 0x85);
    assert!(!cpu.flag_c());
}

#[test]
fn cpu_flag_operations() {
    // SCF; CCF; CPL
    let (mut cpu, mut bus) = machine(&[0x37, 0x3F, 0x2F], &[]);
    run(&mut cpu, &mut bus, 1);
    assert!(cpu.flag_c() && !cpu.flag_n() && !cpu.flag_h());
    run(&mut cpu, &mut bus, 1);
    assert!(!cpu.flag_c());
    run(&mut cpu, &mut bus, 1);
    assert_eq!(cpu.a, 0xFE);
    assert!(cpu.flag_n() && cpu.flag_h());
}

#[test]
fn cpu_register_to_register_loads() {
    // LD B,0x11; LD C,B; LD D,C; LD E,D; LD H,E; LD L,H; LD A,L; LD B,B
    let (mut cpu, mut bus) = machine(&[0x06, 0x11, 0x48, 0x51, 0x5A, 0x63, 0x6C, 0x7D, 0x40], &[]);
    let cycles = run(&mut cpu, &mut bus, 8);
    assert_eq!(cycles, vec![8, 4, 4, 4, 4, 4, 4, 4]);
    assert_eq!([cpu.b, cpu.c, cpu.d, cpu.e, cpu.h, cpu.l, cpu.a], [0x11; 7]);
}

#[test]
fn cpu_memory_operand_loads() {
    // LD HL,0xC000; LD (HL),0x99; LD E,(HL); LD (HL),E; ADD A,(HL)
    let (mut cpu, mut bus) = machine(&[0x21, 0x00, 0xC0, 0x36, 0x99, 0x5E, 0x73, 0x86], &[]);
    let cycles = run(&mut cpu, &mut bus, 5);
    assert_eq!(cycles, vec![12, 12, 8, 8, 8]);
    assert_eq!(cpu.e, 0x99);
    assert_eq!(cpu.a, 0x9A);
}

#[test]
fn cpu_cb_prefixed_operations() {
    // LD A,0xF0; SWAP A; BIT 7,A; SET 0,B; RES 0,B; SRL A; SRA A(with 0x80)...
    let (mut cpu, mut bus) = machine(&[0x3E, 0xF0, 0xCB, 0x37, 0xCB, 0x7F, 0xCB, 0xC0, 0xCB, 0x80, 0xCB, 0x3F], &[]);
    run(&mut cpu, &mut bus, 2);
    assert_eq!(cpu.a, 0x0F);
    assert!(!cpu.flag_z() && !cpu.flag_c());
    assert_eq!(cpu.step(&mut bus), 8);
    assert!(cpu.flag_z() && cpu.flag_h() && !cpu.flag_n());
    run(&mut cpu, &mut bus, 1);
    assert_eq!(cpu.b, 0x01);
    run(&mut cpu, &mut bus, 1);
    assert_eq!(cpu.b, 0x00);
    run(&mut cpu, &mut bus, 1);
    assert_eq!(cpu.a, 0x07);
    assert!(cpu.flag_c());
}

#[test]
fn cpu_cb_shifts_and_rotates() {
    // LD A,0x81; SRA A; SLA A; RLC A; RRC A; RL A; RR A
    let (mut cpu, mut bus) = machine(&[0x3E, 0x81, 0xCB, 0x2F, 0xCB, 0x27, 0xCB, 0x07, 0xCB, 0x0F, 0xCB, 0x17, 0xCB, 0x1F], &[]);
    run(&mut cpu, &mut bus, 2);
    assert_eq!(cpu.a, 0xC0);
    assert!(cpu.flag_c());
    run(&mut cpu, &mut bus, 1);
    assert_eq!(cpu.a, 0x80);
    assert!(cpu.flag_c());
    run(&mut cpu, &mut bus, 1);
    assert_eq!(cpu.a, 0x01);
    assert!(cpu.flag_c());
    run(&mut cpu, &mut bus, 1);
    assert_eq!(cpu.a, 0x80);
    assert!(cpu.flag_c());
    run(&mut cpu, &mut bus, 1);
    assert_eq!(cpu.a, 0x01);
    assert!(cpu.flag_c());
    run(&mut cpu, &mut bus, 1);
    assert_eq!(cpu.a, 0x80);
    assert!(cpu.flag_c());
}

#[test]
fn cpu_cb_memory_operand_cycles() {
    // LD HL,0xC000; RLC (HL); BIT 0,(HL); SET 7,(HL)
    let (mut cpu, mut bus) = machine(&[0x21, 0x00, 0xC0, 0xCB, 0x06, 0xCB, 0x46, 0xCB, 0xFE], &[]);
    bus.write(0xC000, 0x80);
    assert_eq!(run(&mut cpu, &mut bus, 4), vec![12, 16, 12, 16]);
    assert_eq!(bus.read(0xC000), 0x81);
    assert!(!cpu.flag_z());
}

#[test]
fn cpu_undefined_opcode_is_nop() {
    let (mut cpu, mut bus) = machine(&[0xD3, 0xDB, 0xE4, 0xFD], &[]);
    let f = cpu.f;
    assert_eq!(run(&mut cpu, &mut bus, 4), vec![4, 4, 4, 4]);
    assert_eq!(cpu.pc, 0x0104);
    assert_eq!(cpu.f, f);
}

#[test]
fn cpu_interrupt_dispatch_lowest_first() {
    let (mut cpu, mut bus) = machine(&[0x00], &[]);
    bus.write(0xFFFF, 0x05);
    bus.write(0xFF0F, 0x05);
    assert_eq!(cpu.step(&mut bus), 20);
    assert_eq!(cpu.pc, 0x0040);
    assert!(!cpu.ime);
    assert_eq!(bus.read(0xFF0F), 0x04);
    assert_eq!(cpu.sp, 0xFFFC);
    assert_eq!(bus.read(0xFFFC), 0x00);
    assert_eq!(bus.read(0xFFFD), 0x01);
}

#[test]
fn cpu_interrupt_vectors() {
    for bit in 0..5u8 {
        let (mut cpu, mut bus) = machine(&[0x00], &[]);
        bus.write(0xFFFF, 0x1F);
        bus.write(0xFF0F, 1 << bit);
        assert_eq!(cpu.step(&mut bus), 20);
        assert_eq!(cpu.pc, 0x40 + 8 * bit as u16);
        assert_eq!(bus.read(0xFF0F), 0x00);
    }
}

#[test]
fn cpu_disabled_interrupt_is_not_dispatched() {
    // DI; NOP
    let (mut cpu, mut bus) = machine(&[0xF3, 0x00], &[]);
    assert_eq!(cpu.step(&mut bus), 4);
    bus.write(0xFFFF, 0x01);
    assert_eq!(cpu.step(&mut bus), 4);
    assert_eq!(cpu.pc, 0x0102);
}

#[test]
fn cpu_ei_takes_effect_after_next_instruction() {
    // DI; EI; NOP; NOP
    let (mut cpu, mut bus) = machine(&[0xF3, 0xFB, 0x00, 0x00], &[]);
    run(&mut cpu, &mut bus, 2);
    assert!(!cpu.ime && cpu.ime_scheduled);
    bus.write(0xFFFF, 0x01);
    // IME turns on at the start of this step, then the VBlank request is served
    assert_eq!(cpu.step(&mut bus), 20);
    assert_eq!(cpu.pc, 0x0040);
}

#[test]
fn cpu_reti_enables_interrupts() {
    // DI; CALL 0x0200 / RETI
    let (mut cpu, mut bus) = machine(&[0xF3, 0xCD, 0x00, 0x02], &[0xD9]);
    run(&mut cpu, &mut bus, 3);
    assert!(cpu.ime);
    assert_eq!(cpu.pc, 0x0104);
}

#[test]
fn cpu_halt_waits_for_interrupt() {
    // DI; HALT; NOP
    let (mut cpu, mut bus) = machine(&[0xF3, 0x76, 0x00], &[]);
    run(&mut cpu, &mut bus, 2);
    assert!(cpu.halted);
    assert_eq!(run(&mut cpu, &mut bus, 3), vec![4, 4, 4]);
    assert_eq!(cpu.pc, 0x0102);
    // a pending request wakes the CPU even with IME off, without dispatch
    bus.write(0xFFFF, 0x01);
    assert_eq!(cpu.step(&mut bus), 4);
    assert!(!cpu.halted);
    assert_eq!(cpu.pc, 0x0103);
}

#[test]
fn cpu_halt_with_ime_dispatches() {
    // HALT
    let (mut cpu, mut bus) = machine(&[0x76], &[]);
    cpu.step(&mut bus);
    assert!(cpu.halted);
    bus.write(0xFFFF, 0x04);
    bus.write(0xFF0F, 0x04);
    assert_eq!(cpu.step(&mut bus), 20);
    assert!(!cpu.halted);
    assert_eq!(cpu.pc, 0x0050);
}

#[test]
fn cpu_stop_skips_operand() {
    let (mut cpu, mut bus) = machine(&[0x10, 0x00], &[]);
    assert_eq!(cpu.step(&mut bus), 4);
    assert_eq!(cpu.pc, 0x0102);
}

#[test]
fn cpu_rrc_undoes_rlc() {
    // LD B,0x85; RLC B; RRC B
    let (mut cpu, mut bus) = machine(&[0x06, 0x85, 0xCB, 0x00, 0xCB, 0x08], &[]);
    assert_eq!(run(&mut cpu, &mut bus, 3), vec![8, 8, 8]);
    assert_eq!(cpu.b, 0x85);
    assert!(!cpu.flag_z() && cpu.flag_c() && !cpu.flag_n() && !cpu.flag_h());
    assert_eq!(cpu.f, 0x10);
}

#[test]
fn cpu_cp_sets_the_flags_of_sub() {
    // LD A,0x30; CP 0x31 and, on a second machine, LD A,0x30; SUB 0x31
    let (mut cp_cpu, mut cp_bus) = machine(&[0x3E, 0x30, 0xFE, 0x31], &[]);
    let (mut sub_cpu, mut sub_bus) = machine(&[0x3E, 0x30, 0xD6, 0x31], &[]);
    run(&mut cp_cpu, &mut cp_bus, 2);
    run(&mut sub_cpu, &mut sub_bus, 2);
    assert_eq!(cp_cpu.f, sub_cpu.f);
    assert_eq!(cp_cpu.f, 0x70);
    assert_eq!(cp_cpu.a, 0x30);
    assert_eq!(sub_cpu.a, 0xFF);
}

#[test]
fn cpu_flag_low_nibble_stays_clear() {
    // SCF; LD A,0x0F; ADD A,0x01; DAA; CPL; CCF; XOR A
    let (mut cpu, mut bus) = machine(&[0x37, 0x3E, 0x0F, 0xC6, 0x01, 0x27, 0x2F, 0x3F, 0xAF], &[]);
    for _ in 0..7 {
        cpu.step(&mut bus);
        assert_eq!(cpu.f & 0x0F, 0);
    }
}
