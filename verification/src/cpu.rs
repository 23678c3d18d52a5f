use vstd::prelude::*;
use crate::bus::Bus;
use crate::cpu_spec::{
    exec_block0, exec_block1, exec_block2, exec_block3, cb_result,
    FLAG_Z, FLAG_N, FLAG_H, FLAG_C, pair, hi_byte, lo_byte, relative, sign_extend, get_r8, set_r8,
    imm8, imm16, push_spec, stack_top, popped, exec_spec, cb_spec, interrupt_spec, step_spec,
};

verus! {

/// Sharp SM83 CPU (often called "Game Boy Z80")
pub struct Cpu {
    /// Registers
    pub a: u8,
    /// Flags: Z N H C 0 0 0 0
    pub f: u8,
    pub b: u8,
    pub c: u8,
    pub d: u8,
    pub e: u8,
    pub h: u8,
    pub l: u8,
    pub sp: u16,
    pub pc: u16,
    /// Interrupt Master Enable
    pub ime: bool,
    /// IME enable scheduled (EI delays by one instruction)
    pub ime_scheduled: bool,
    /// CPU halted (waiting for interrupt)
    pub halted: bool,
}

/// A register pair built from its bytes with a shift and an or.
proof fn lemma_pair(hi: u8, lo: u8)
    ensures
        ((hi as u16) << 8) | (lo as u16) == pair(hi, lo),
{
    assert(((hi as u16) << 8) | (lo as u16) == (hi as u16) * 256 + (lo as u16)) by (bit_vector);
}

/// A 16-bit value split with a shift and a truncation.
proof fn lemma_split(v: u16)
    ensures
        v as u8 == lo_byte(v),
        (v >> 8) as u8 == hi_byte(v),
{
    assert(v as u8 == v % 256 && (v >> 8) as u8 == v / 256) by (bit_vector);
}

/// Or-ing a byte into page 0xFF00 adds it.
proof fn lemma_high_page(a: u8)
    ensures
        0xFF00u16 | (a as u16) == 0xFF00 + a,
{
    assert(0xFF00u16 | (a as u16) == 0xFF00 + (a as u16)) by (bit_vector);
}

/// The opcode fields of a CB-prefixed instruction by shift and mask.
proof fn lemma_cb_fields(op: u8)
    ensures
        op & 0x07 == op % 8,
        op >> 3 == op / 8,
{
    assert(op & 0x07 == op % 8 && op >> 3 == op / 8) by (bit_vector);
}

/// PC moved by the signed offset `r`.
fn relative_jump(pc: u16, r: u8) -> (t: u16)
    ensures
        t == relative(pc, r),
{
    if r < 128 {
        pc.wrapping_add(r as u16)
    } else {
        pc.wrapping_add(r as u16 + 0xFF00)
    }
}

/// The signed byte `r` widened to 16 bits.
fn sign_extend_byte(r: u8) -> (v: u16)
    ensures
        v == sign_extend(r),
{
    if r < 128 {
        r as u16
    } else {
        r as u16 + 0xFF00
    }
}

impl Cpu {
    pub fn new() -> (c: Self)
        ensures
            c == Cpu::initial(),
    {
        // Post-boot ROM state (DMG)
        Cpu {
            a: 0x01,
            f: 0xB0,
            b: 0x00,
            c: 0x13,
            d: 0x00,
            e: 0xD8,
            h: 0x01,
            l: 0x4D,
            sp: 0xFFFE,
            pc: 0x0100,  // Skip boot ROM
            ime: true,
            ime_scheduled: false,
            halted: false,
        }
    }

    // Flag helpers
    fn flag(&self, bit: u8) -> (r: bool)
        requires
            bit < 8,
        ensures
            r == self.flag_spec(bit),
    {
        self.f & (1 << bit) != 0
    }

    fn set_flag(&mut self, bit: u8, val: bool)
        requires
            bit < 8,
        ensures
            *final(self) == old(self).with_flag(bit, val),
    {
        if val {
            self.f |= 1 << bit;
        } else {
            self.f &= !(1 << bit);
        }
    }

    pub fn flag_z(&self) -> (r: bool)
        ensures
            r == self.flag_spec(FLAG_Z),
    {
        self.flag(FLAG_Z)
    }

    pub fn flag_n(&self) -> (r: bool)
        ensures
            r == self.flag_spec(FLAG_N),
    {
        self.flag(FLAG_N)
    }

    pub fn flag_h(&self) -> (r: bool)
        ensures
            r == self.flag_spec(FLAG_H),
    {
        self.flag(FLAG_H)
    }

    pub fn flag_c(&self) -> (r: bool)
        ensures
            r == self.flag_spec(FLAG_C),
    {
        self.flag(FLAG_C)
    }

    // 16-bit register pairs
    fn af(&self) -> (r: u16)
        ensures
            r == self.af_spec(),
    {
        proof {
            lemma_pair(self.a, self.f);
        }
        (self.a as u16) << 8 | self.f as u16
    }

    fn bc(&self) -> (r: u16)
        ensures
            r == self.bc_spec(),
    {
        proof {
            lemma_pair(self.b, self.c);
        }
        (self.b as u16) << 8 | self.c as u16
    }

    fn de(&self) -> (r: u16)
        ensures
            r == self.de_spec(),
    {
        proof {
            lemma_pair(self.d, self.e);
        }
        (self.d as u16) << 8 | self.e as u16
    }

    fn hl(&self) -> (r: u16)
        ensures
            r == self.hl_spec(),
    {
        proof {
            lemma_pair(self.h, self.l);
        }
        (self.h as u16) << 8 | self.l as u16
    }

    fn set_af(&mut self, v: u16)
        ensures
            *final(self) == old(self).with_af(v),
    {
        proof {
            lemma_split(v);
        }
        self.a = (v >> 8) as u8;
        self.f = (v & 0xF0) as u8;
    }

    fn set_bc(&mut self, v: u16)
        ensures
            *final(self) == old(self).with_bc(v),
    {
        proof {
            lemma_split(v);
        }
        self.b = (v >> 8) as u8;
        self.c = v as u8;
    }

    fn set_de(&mut self, v: u16)
        ensures
            *final(self) == old(self).with_de(v),
    {
        proof {
            lemma_split(v);
        }
        self.d = (v >> 8) as u8;
        self.e = v as u8;
    }

    fn set_hl(&mut self, v: u16)
        ensures
            *final(self) == old(self).with_hl(v),
    {
        proof {
            lemma_split(v);
        }
        self.h = (v >> 8) as u8;
        self.l = v as u8;
    }

    // Fetch byte at PC and advance
    fn fetch(&mut self, bus: &Bus) -> (v: u8)
        requires
            bus@.wf(),
        ensures
            v == imm8(*old(self), bus@),
            *final(self) == old(self).advance(1),
    {
        let v = bus.read(self.pc);
        self.pc = self.pc.wrapping_add(1);
        v
    }

    // Fetch 16-bit value (little-endian)
    fn fetch16(&mut self, bus: &Bus) -> (v: u16)
        requires
            bus@.wf(),
        ensures
            v == imm16(*old(self), bus@),
            *final(self) == old(self).advance(2),
    {
        let lo = self.fetch(bus);
        let hi = self.fetch(bus);
        proof {
            lemma_pair(hi, lo);
        }
        (hi as u16) << 8 | lo as u16
    }

    /// Handle interrupts. Returns cycles consumed (0 if no interrupt).
    fn handle_interrupts(&mut self, bus: &mut Bus) -> (r: u32)
        requires
            old(bus)@.wf(),
        ensures
            (*final(self), final(bus)@, r) == interrupt_spec(*old(self), old(bus)@),
            final(bus)@.wf(),
            old(bus)@.frame_inv() ==> final(bus)@.frame_inv(),
            final(bus)@.ppu.frame_ready == old(bus)@.ppu.frame_ready,
            r == 0 || r == 20,
    {
        if !self.ime && !self.halted {
            return 0;
        }

        // IE & IF
        let triggered = bus.read(0xFFFF) & bus.read(0xFF0F) & 0x1F;
        if triggered == 0 {
            return 0;
        }

        self.halted = false;

        if !self.ime {
            return 0;
        }

        self.ime = false;

        // Priority: bit 0 (VBlank) to bit 4 (Joypad)
        let bit = triggered.trailing_zeros() as u8;
        // Clear IF flag
        let if_val = bus.read(0xFF0F);
        bus.write(0xFF0F, if_val & !(1 << bit));

        // Push PC and jump to interrupt vector
        proof {
            lemma_split(self.pc);
        }
        self.sp = self.sp.wrapping_sub(2);
        bus.write(self.sp, self.pc as u8);
        bus.write(self.sp.wrapping_add(1), (self.pc >> 8) as u8);
        self.pc = 0x0040 + (bit as u16) * 8;

        20  // interrupt dispatch takes 20 cycles
    }

    /// Execute one instruction. Returns cycles consumed (T-cycles).
    pub fn step(&mut self, bus: &mut Bus) -> (r: u32)
        requires
            old(bus)@.wf(),
        ensures
            (*final(self), final(bus)@, r) == step_spec(*old(self), old(bus)@),
            final(bus)@.wf(),
            old(bus)@.frame_inv() ==> final(bus)@.frame_inv(),
            final(bus)@.ppu.frame_ready == old(bus)@.ppu.frame_ready,
            4 <= r <= 24,
    {
        // Handle pending EI
        if self.ime_scheduled {
            self.ime_scheduled = false;
            self.ime = true;
        }

        // Check interrupts
        let int_cycles = self.handle_interrupts(bus);
        if int_cycles > 0 {
            return int_cycles;
        }

        if self.halted {
            return 4;
        }

        let opcode = self.fetch(bus);
        self.execute(opcode, bus)
    }

    fn execute(&mut self, opcode: u8, bus: &mut Bus) -> (r: u32)
        requires
            old(bus)@.wf(),
        ensures
            (*final(self), final(bus)@, r) == exec_spec(*old(self), old(bus)@, opcode),
            final(bus)@.wf(),
            old(bus)@.frame_inv() ==> final(bus)@.frame_inv(),
            final(bus)@.ppu.frame_ready == old(bus)@.ppu.frame_ready,
            4 <= r <= 24,
    {
        if opcode < 0x20 {
            self.execute_00_1f(opcode, bus)
        } else if opcode < 0x40 {
            self.execute_20_3f(opcode, bus)
        } else if opcode < 0x60 {
            self.execute_40_5f(opcode, bus)
        } else if opcode < 0x80 {
            self.execute_60_7f(opcode, bus)
        } else if opcode < 0xA0 {
            self.execute_80_9f(opcode, bus)
        } else if opcode < 0xC0 {
            self.execute_a0_bf(opcode, bus)
        } else if opcode < 0xE0 {
            self.execute_c0_df(opcode, bus)
        } else {
            self.execute_e0_ff(opcode, bus)
        }
    }

    /// Opcodes 0x00..=0x1F: 16-bit loads and arithmetic on BC and DE, INC/DEC/loads of B to E, rotates of A, STOP and JR.
    #[verifier::rlimit(60)]
    fn execute_00_1f(&mut self, opcode: u8, bus: &mut Bus) -> (r: u32)
        requires
            old(bus)@.wf(),
            opcode <= 0x1F,
        ensures
            (*final(self), final(bus)@, r) == exec_spec(*old(self), old(bus)@, opcode),
            final(bus)@.wf(),
            old(bus)@.frame_inv() ==> final(bus)@.frame_inv(),
            final(bus)@.ppu.frame_ready == old(bus)@.ppu.frame_ready,
            4 <= r <= 24,
    {
        proof {
            reveal(exec_block0);
        }
        match opcode {
            // NOP
            0x00 => { return 4; }

            // LD BC,d16
            0x01 => { let v = self.fetch16(bus); self.set_bc(v); return 12; }
            // LD (BC),A
            0x02 => { bus.write(self.bc(), self.a); return 8; }
            // INC BC
            0x03 => { let v = self.bc().wrapping_add(1); self.set_bc(v); return 8; }
            // INC B
            0x04 => { self.b = self.inc(self.b); return 4; }
            // DEC B
            0x05 => { self.b = self.dec(self.b); return 4; }
            // LD B,d8
            0x06 => { self.b = self.fetch(bus); return 8; }
            // RLCA
            0x07 => {
                let c = self.a >> 7;
                self.a = (self.a << 1) | c;
                self.f = 0;
                self.set_flag(FLAG_C, c != 0);
                return 4;
            }
            // LD (a16),SP
            0x08 => {
                let addr = self.fetch16(bus);
                proof { lemma_split(self.sp); }
                bus.write(addr, self.sp as u8);
                bus.write(addr.wrapping_add(1), (self.sp >> 8) as u8);
                return 20;
            }
            // ADD HL,BC
            0x09 => { self.add_hl(self.bc()); return 8; }
            // LD A,(BC)
            0x0A => { self.a = bus.read(self.bc()); return 8; }
            // DEC BC
            0x0B => { let v = self.bc().wrapping_sub(1); self.set_bc(v); return 8; }
            // INC C
            0x0C => { self.c = self.inc(self.c); return 4; }
            // DEC C
            0x0D => { self.c = self.dec(self.c); return 4; }
            // LD C,d8
            0x0E => { self.c = self.fetch(bus); return 8; }
            // RRCA
            0x0F => {
                let c = self.a & 1;
                self.a = (self.a >> 1) | (c << 7);
                self.f = 0;
                self.set_flag(FLAG_C, c != 0);
                return 4;
            }

            // STOP
            0x10 => { self.fetch(bus); return 4; }

            // LD DE,d16
            0x11 => { let v = self.fetch16(bus); self.set_de(v); return 12; }
            // LD (DE),A
            0x12 => { bus.write(self.de(), self.a); return 8; }
            // INC DE
            0x13 => { let v = self.de().wrapping_add(1); self.set_de(v); return 8; }
            // INC D
            0x14 => { self.d = self.inc(self.d); return 4; }
            // DEC D
            0x15 => { self.d = self.dec(self.d); return 4; }
            // LD D,d8
            0x16 => { self.d = self.fetch(bus); return 8; }
            // RLA
            0x17 => {
                let c: u8 = if self.flag_c() { 1 } else { 0 };
                let new_c = self.a >> 7;
                self.a = (self.a << 1) | c;
                self.f = 0;
                self.set_flag(FLAG_C, new_c != 0);
                return 4;
            }
            // JR r8
            0x18 => { let r = self.fetch(bus); self.pc = relative_jump(self.pc, r); return 12; }
            // ADD HL,DE
            0x19 => { self.add_hl(self.de()); return 8; }
            // LD A,(DE)
            0x1A => { self.a = bus.read(self.de()); return 8; }
            // DEC DE
            0x1B => { let v = self.de().wrapping_sub(1); self.set_de(v); return 8; }
            // INC E
            0x1C => { self.e = self.inc(self.e); return 4; }
            // DEC E
            0x1D => { self.e = self.dec(self.e); return 4; }
            // LD E,d8
            0x1E => { self.e = self.fetch(bus); return 8; }
            // RRA
            0x1F => {
                let c: u8 = if self.flag_c() { 1 } else { 0 };
                let new_c = self.a & 1;
                self.a = (self.a >> 1) | (c << 7);
                self.f = 0;
                self.set_flag(FLAG_C, new_c != 0);
                return 4;
            }
            _ => { return 4; } // Undefined opcodes: NOP behavior
        }
    }

    /// Opcodes 0x20..=0x3F: conditional JR, loads through HL, INC/DEC/loads of H, L, (HL) and A, DAA and the flag operations.
    #[verifier::rlimit(60)]
    fn execute_20_3f(&mut self, opcode: u8, bus: &mut Bus) -> (r: u32)
        requires
            old(bus)@.wf(),
            0x20 <= opcode <= 0x3F,
        ensures
            (*final(self), final(bus)@, r) == exec_spec(*old(self), old(bus)@, opcode),
            final(bus)@.wf(),
            old(bus)@.frame_inv() ==> final(bus)@.frame_inv(),
            final(bus)@.ppu.frame_ready == old(bus)@.ppu.frame_ready,
            4 <= r <= 24,
    {
        proof {
            reveal(exec_block0);
        }
        match opcode {
            // JR NZ,r8
            0x20 => { let r = self.fetch(bus); if !self.flag_z() { self.pc = relative_jump(self.pc, r); return 12; } else { return 8; } }
            // LD HL,d16
            0x21 => { let v = self.fetch16(bus); self.set_hl(v); return 12; }
            // LD (HL+),A
            0x22 => { let hl = self.hl(); bus.write(hl, self.a); self.set_hl(hl.wrapping_add(1)); return 8; }
            // INC HL
            0x23 => { let v = self.hl().wrapping_add(1); self.set_hl(v); return 8; }
            // INC H
            0x24 => { self.h = self.inc(self.h); return 4; }
            // DEC H
            0x25 => { self.h = self.dec(self.h); return 4; }
            // LD H,d8
            0x26 => { self.h = self.fetch(bus); return 8; }
            // DAA
            0x27 => { self.daa(); return 4; }
            // JR Z,r8
            0x28 => { let r = self.fetch(bus); if self.flag_z() { self.pc = relative_jump(self.pc, r); return 12; } else { return 8; } }
            // ADD HL,HL
            0x29 => { let hl = self.hl(); self.add_hl(hl); return 8; }
            // LD A,(HL+)
            0x2A => { let hl = self.hl(); self.a = bus.read(hl); self.set_hl(hl.wrapping_add(1)); return 8; }
            // DEC HL
            0x2B => { let v = self.hl().wrapping_sub(1); self.set_hl(v); return 8; }
            // INC L
            0x2C => { self.l = self.inc(self.l); return 4; }
            // DEC L
            0x2D => { self.l = self.dec(self.l); return 4; }
            // LD L,d8
            0x2E => { self.l = self.fetch(bus); return 8; }
            // CPL
            0x2F => {
                self.a = !self.a;
                self.set_flag(FLAG_N, true);
                self.set_flag(FLAG_H, true);
                return 4;
            }

            // JR NC,r8
            0x30 => { let r = self.fetch(bus); if !self.flag_c() { self.pc = relative_jump(self.pc, r); return 12; } else { return 8; } }
            // LD SP,d16
            0x31 => { self.sp = self.fetch16(bus); return 12; }
            // LD (HL-),A
            0x32 => { let hl = self.hl(); bus.write(hl, self.a); self.set_hl(hl.wrapping_sub(1)); return 8; }
            // INC SP
            0x33 => { self.sp = self.sp.wrapping_add(1); return 8; }
            // INC (HL)
            0x34 => { let hl = self.hl(); let v = self.inc(bus.read(hl)); bus.write(hl, v); return 12; }
            // DEC (HL)
            0x35 => { let hl = self.hl(); let v = self.dec(bus.read(hl)); bus.write(hl, v); return 12; }
            // LD (HL),d8
            0x36 => { let v = self.fetch(bus); bus.write(self.hl(), v); return 12; }
            // SCF
            0x37 => {
                self.set_flag(FLAG_N, false);
                self.set_flag(FLAG_H, false);
                self.set_flag(FLAG_C, true);
                return 4;
            }
            // JR C,r8
            0x38 => { let r = self.fetch(bus); if self.flag_c() { self.pc = relative_jump(self.pc, r); return 12; } else { return 8; } }
            // ADD HL,SP
            0x39 => { self.add_hl(self.sp); return 8; }
            // LD A,(HL-)
            0x3A => { let hl = self.hl(); self.a = bus.read(hl); self.set_hl(hl.wrapping_sub(1)); return 8; }
            // DEC SP
            0x3B => { self.sp = self.sp.wrapping_sub(1); return 8; }
            // INC A
            0x3C => { self.a = self.inc(self.a); return 4; }
            // DEC A
            0x3D => { self.a = self.dec(self.a); return 4; }
            // LD A,d8
            0x3E => { self.a = self.fetch(bus); return 8; }
            // CCF
            0x3F => {
                let c = !self.flag_c();
                self.set_flag(FLAG_N, false);
                self.set_flag(FLAG_H, false);
                self.set_flag(FLAG_C, c);
                return 4;
            }
            _ => { return 4; } // Undefined opcodes: NOP behavior
        }
    }

    /// Opcodes 0x40..=0x5F: loads into B, C, D and E.
    #[verifier::rlimit(60)]
    fn execute_40_5f(&mut self, opcode: u8, bus: &mut Bus) -> (r: u32)
        requires
            old(bus)@.wf(),
            0x40 <= opcode <= 0x5F,
        ensures
            (*final(self), final(bus)@, r) == exec_spec(*old(self), old(bus)@, opcode),
            final(bus)@.wf(),
            old(bus)@.frame_inv() ==> final(bus)@.frame_inv(),
            final(bus)@.ppu.frame_ready == old(bus)@.ppu.frame_ready,
            4 <= r <= 24,
    {
        proof {
            reveal(exec_block1);
        }
        match opcode {
            // LD B,r  (0x40-0x47)
            0x40 => { return 4; } // LD B,B
            0x41 => { self.b = self.c; return 4; }
            0x42 => { self.b = self.d; return 4; }
            0x43 => { self.b = self.e; return 4; }
            0x44 => { self.b = self.h; return 4; }
            0x45 => { self.b = self.l; return 4; }
            0x46 => { self.b = bus.read(self.hl()); return 8; }
            0x47 => { self.b = self.a; return 4; }

            // LD C,r  (0x48-0x4F)
            0x48 => { self.c = self.b; return 4; }
            0x49 => { return 4; }
            0x4A => { self.c = self.d; return 4; }
            0x4B => { self.c = self.e; return 4; }
            0x4C => { self.c = self.h; return 4; }
            0x4D => { self.c = self.l; return 4; }
            0x4E => { self.c = bus.read(self.hl()); return 8; }
            0x4F => { self.c = self.a; return 4; }

            // LD D,r  (0x50-0x57)
            0x50 => { self.d = self.b; return 4; }
            0x51 => { self.d = self.c; return 4; }
            0x52 => { return 4; }
            0x53 => { self.d = self.e; return 4; }
            0x54 => { self.d = self.h; return 4; }
            0x55 => { self.d = self.l; return 4; }
            0x56 => { self.d = bus.read(self.hl()); return 8; }
            0x57 => { self.d = self.a; return 4; }

            // LD E,r  (0x58-0x5F)
            0x58 => { self.e = self.b; return 4; }
            0x59 => { self.e = self.c; return 4; }
            0x5A => { self.e = self.d; return 4; }
            0x5B => { return 4; }
            0x5C => { self.e = self.h; return 4; }
            0x5D => { self.e = self.l; return 4; }
            0x5E => { self.e = bus.read(self.hl()); return 8; }
            0x5F => { self.e = self.a; return 4; }
            _ => { return 4; } // Undefined opcodes: NOP behavior
        }
    }

    /// Opcodes 0x60..=0x7F: loads into H, L, (HL) and A, and HALT.
    #[verifier::rlimit(60)]
    fn execute_60_7f(&mut self, opcode: u8, bus: &mut Bus) -> (r: u32)
        requires
            old(bus)@.wf(),
            0x60 <= opcode <= 0x7F,
        ensures
            (*final(self), final(bus)@, r) == exec_spec(*old(self), old(bus)@, opcode),
            final(bus)@.wf(),
            old(bus)@.frame_inv() ==> final(bus)@.frame_inv(),
            final(bus)@.ppu.frame_ready == old(bus)@.ppu.frame_ready,
            4 <= r <= 24,
    {
        proof {
            reveal(exec_block1);
        }
        match opcode {
            // LD H,r  (0x60-0x67)
            0x60 => { self.h = self.b; return 4; }
            0x61 => { self.h = self.c; return 4; }
            0x62 => { self.h = self.d; return 4; }
            0x63 => { self.h = self.e; return 4; }
            0x64 => { return 4; }
            0x65 => { self.h = self.l; return 4; }
            0x66 => { self.h = bus.read(self.hl()); return 8; }
            0x67 => { self.h = self.a; return 4; }

            // LD L,r  (0x68-0x6F)
            0x68 => { self.l = self.b; return 4; }
            0x69 => { self.l = self.c; return 4; }
            0x6A => { self.l = self.d; return 4; }
            0x6B => { self.l = self.e; return 4; }
            0x6C => { self.l = self.h; return 4; }
            0x6D => { return 4; }
            0x6E => { self.l = bus.read(self.hl()); return 8; }
            0x6F => { self.l = self.a; return 4; }

            // LD (HL),r  (0x70-0x75, 0x77)
            0x70 => { bus.write(self.hl(), self.b); return 8; }
            0x71 => { bus.write(self.hl(), self.c); return 8; }
            0x72 => { bus.write(self.hl(), self.d); return 8; }
            0x73 => { bus.write(self.hl(), self.e); return 8; }
            0x74 => { bus.write(self.hl(), self.h); return 8; }
            0x75 => { bus.write(self.hl(), self.l); return 8; }
            // HALT
            0x76 => { self.halted = true; return 4; }
            0x77 => { bus.write(self.hl(), self.a); return 8; }

            // LD A,r  (0x78-0x7F)
            0x78 => { self.a = self.b; return 4; }
            0x79 => { self.a = self.c; return 4; }
            0x7A => { self.a = self.d; return 4; }
            0x7B => { self.a = self.e; return 4; }
            0x7C => { self.a = self.h; return 4; }
            0x7D => { self.a = self.l; return 4; }
            0x7E => { self.a = bus.read(self.hl()); return 8; }
            0x7F => { return 4; } // LD A,A
            _ => { return 4; } // Undefined opcodes: NOP behavior
        }
    }

    /// Opcodes 0x80..=0x9F: ADD, ADC, SUB, SBC with a register or (HL).
    #[verifier::rlimit(60)]
    fn execute_80_9f(&mut self, opcode: u8, bus: &mut Bus) -> (r: u32)
        requires
            old(bus)@.wf(),
            0x80 <= opcode <= 0x9F,
        ensures
            (*final(self), final(bus)@, r) == exec_spec(*old(self), old(bus)@, opcode),
            final(bus)@.wf(),
            old(bus)@.frame_inv() ==> final(bus)@.frame_inv(),
            final(bus)@.ppu.frame_ready == old(bus)@.ppu.frame_ready,
            4 <= r <= 24,
    {
        proof {
            reveal(exec_block2);
        }
        match opcode {
            // ADD A,r  (0x80-0x87)
            0x80 => { self.add(self.b); return 4; }
            0x81 => { self.add(self.c); return 4; }
            0x82 => { self.add(self.d); return 4; }
            0x83 => { self.add(self.e); return 4; }
            0x84 => { self.add(self.h); return 4; }
            0x85 => { self.add(self.l); return 4; }
            0x86 => { self.add(bus.read(self.hl())); return 8; }
            0x87 => { self.add(self.a); return 4; }

            // ADC A,r  (0x88-0x8F)
            0x88 => { self.adc(self.b); return 4; }
            0x89 => { self.adc(self.c); return 4; }
            0x8A => { self.adc(self.d); return 4; }
            0x8B => { self.adc(self.e); return 4; }
            0x8C => { self.adc(self.h); return 4; }
            0x8D => { self.adc(self.l); return 4; }
            0x8E => { self.adc(bus.read(self.hl())); return 8; }
            0x8F => { self.adc(self.a); return 4; }

            // SUB r  (0x90-0x97)
            0x90 => { self.sub(self.b); return 4; }
            0x91 => { self.sub(self.c); return 4; }
            0x92 => { self.sub(self.d); return 4; }
            0x93 => { self.sub(self.e); return 4; }
            0x94 => { self.sub(self.h); return 4; }
            0x95 => { self.sub(self.l); return 4; }
            0x96 => { self.sub(bus.read(self.hl())); return 8; }
            0x97 => { self.sub(self.a); return 4; }

            // SBC A,r  (0x98-0x9F)
            0x98 => { self.sbc(self.b); return 4; }
            0x99 => { self.sbc(self.c); return 4; }
            0x9A => { self.sbc(self.d); return 4; }
            0x9B => { self.sbc(self.e); return 4; }
            0x9C => { self.sbc(self.h); return 4; }
            0x9D => { self.sbc(self.l); return 4; }
            0x9E => { self.sbc(bus.read(self.hl())); return 8; }
            0x9F => { self.sbc(self.a); return 4; }
            _ => { return 4; } // Undefined opcodes: NOP behavior
        }
    }

    /// Opcodes 0xA0..=0xBF: AND, XOR, OR, CP with a register or (HL).
    #[verifier::rlimit(60)]
    fn execute_a0_bf(&mut self, opcode: u8, bus: &mut Bus) -> (r: u32)
        requires
            old(bus)@.wf(),
            0xA0 <= opcode <= 0xBF,
        ensures
            (*final(self), final(bus)@, r) == exec_spec(*old(self), old(bus)@, opcode),
            final(bus)@.wf(),
            old(bus)@.frame_inv() ==> final(bus)@.frame_inv(),
            final(bus)@.ppu.frame_ready == old(bus)@.ppu.frame_ready,
            4 <= r <= 24,
    {
        proof {
            reveal(exec_block2);
        }
        match opcode {
            // AND r  (0xA0-0xA7)
            0xA0 => { self.and(self.b); return 4; }
            0xA1 => { self.and(self.c); return 4; }
            0xA2 => { self.and(self.d); return 4; }
            0xA3 => { self.and(self.e); return 4; }
            0xA4 => { self.and(self.h); return 4; }
            0xA5 => { self.and(self.l); return 4; }
            0xA6 => { self.and(bus.read(self.hl())); return 8; }
            0xA7 => { self.and(self.a); return 4; }

            // XOR r  (0xA8-0xAF)
            0xA8 => { self.xor(self.b); return 4; }
            0xA9 => { self.xor(self.c); return 4; }
            0xAA => { self.xor(self.d); return 4; }
            0xAB => { self.xor(self.e); return 4; }
            0xAC => { self.xor(self.h); return 4; }
            0xAD => { self.xor(self.l); return 4; }
            0xAE => { self.xor(bus.read(self.hl())); return 8; }
            0xAF => { self.xor(self.a); return 4; }

            // OR r  (0xB0-0xB7)
            0xB0 => { self.or(self.b); return 4; }
            0xB1 => { self.or(self.c); return 4; }
            0xB2 => { self.or(self.d); return 4; }
            0xB3 => { self.or(self.e); return 4; }
            0xB4 => { self.or(self.h); return 4; }
            0xB5 => { self.or(self.l); return 4; }
            0xB6 => { self.or(bus.read(self.hl())); return 8; }
            0xB7 => { self.or(self.a); return 4; }

            // CP r  (0xB8-0xBF)
            0xB8 => { self.cp(self.b); return 4; }
            0xB9 => { self.cp(self.c); return 4; }
            0xBA => { self.cp(self.d); return 4; }
            0xBB => { self.cp(self.e); return 4; }
            0xBC => { self.cp(self.h); return 4; }
            0xBD => { self.cp(self.l); return 4; }
            0xBE => { self.cp(bus.read(self.hl())); return 8; }
            0xBF => { self.cp(self.a); return 4; }
            _ => { return 4; } // Undefined opcodes: NOP behavior
        }
    }

    /// Opcodes 0xC0..=0xDF: returns, POP/PUSH of BC and DE, jumps, calls, RST, immediate ADD/ADC/SUB/SBC and the CB prefix.
    #[verifier::rlimit(60)]
    fn execute_c0_df(&mut self, opcode: u8, bus: &mut Bus) -> (r: u32)
        requires
            old(bus)@.wf(),
            0xC0 <= opcode <= 0xDF,
        ensures
            (*final(self), final(bus)@, r) == exec_spec(*old(self), old(bus)@, opcode),
            final(bus)@.wf(),
            old(bus)@.frame_inv() ==> final(bus)@.frame_inv(),
            final(bus)@.ppu.frame_ready == old(bus)@.ppu.frame_ready,
            4 <= r <= 24,
    {
        proof {
            reveal(exec_block3);
        }
        match opcode {
            // RET NZ
            0xC0 => { if !self.flag_z() { self.pc = self.pop(bus); return 20; } else { return 8; } }
            // POP BC
            0xC1 => { let v = self.pop(bus); self.set_bc(v); return 12; }
            // JP NZ,a16
            0xC2 => { let addr = self.fetch16(bus); if !self.flag_z() { self.pc = addr; return 16; } else { return 12; } }
            // JP a16
            0xC3 => { self.pc = self.fetch16(bus); return 16; }
            // CALL NZ,a16
            0xC4 => { let addr = self.fetch16(bus); if !self.flag_z() { self.push(bus, self.pc); self.pc = addr; return 24; } else { return 12; } }
            // PUSH BC
            0xC5 => { self.push(bus, self.bc()); return 16; }
            // ADD A,d8
            0xC6 => { let v = self.fetch(bus); self.add(v); return 8; }
            // RST 00H
            0xC7 => { self.push(bus, self.pc); self.pc = 0x00; return 16; }
            // RET Z
            0xC8 => { if self.flag_z() { self.pc = self.pop(bus); return 20; } else { return 8; } }
            // RET
            0xC9 => { self.pc = self.pop(bus); return 16; }
            // JP Z,a16
            0xCA => { let addr = self.fetch16(bus); if self.flag_z() { self.pc = addr; return 16; } else { return 12; } }
            // CB prefix
            0xCB => { let op = self.fetch(bus); return self.execute_cb(op, bus); }
            // CALL Z,a16
            0xCC => { let addr = self.fetch16(bus); if self.flag_z() { self.push(bus, self.pc); self.pc = addr; return 24; } else { return 12; } }
            // CALL a16
            0xCD => { let addr = self.fetch16(bus); self.push(bus, self.pc); self.pc = addr; return 24; }
            // ADC A,d8
            0xCE => { let v = self.fetch(bus); self.adc(v); return 8; }
            // RST 08H
            0xCF => { self.push(bus, self.pc); self.pc = 0x08; return 16; }

            // RET NC
            0xD0 => { if !self.flag_c() { self.pc = self.pop(bus); return 20; } else { return 8; } }
            // POP DE
            0xD1 => { let v = self.pop(bus); self.set_de(v); return 12; }
            // JP NC,a16
            0xD2 => { let addr = self.fetch16(bus); if !self.flag_c() { self.pc = addr; return 16; } else { return 12; } }
            // CALL NC,a16
            0xD4 => { let addr = self.fetch16(bus); if !self.flag_c() { self.push(bus, self.pc); self.pc = addr; return 24; } else { return 12; } }
            // PUSH DE
            0xD5 => { self.push(bus, self.de()); return 16; }
            // SUB d8
            0xD6 => { let v = self.fetch(bus); self.sub(v); return 8; }
            // RST 10H
            0xD7 => { self.push(bus, self.pc); self.pc = 0x10; return 16; }
            // RET C
            0xD8 => { if self.flag_c() { self.pc = self.pop(bus); return 20; } else { return 8; } }
            // RETI
            0xD9 => { self.pc = self.pop(bus); self.ime = true; return 16; }
            // JP C,a16
            0xDA => { let addr = self.fetch16(bus); if self.flag_c() { self.pc = addr; return 16; } else { return 12; } }
            // CALL C,a16
            0xDC => { let addr = self.fetch16(bus); if self.flag_c() { self.push(bus, self.pc); self.pc = addr; return 24; } else { return 12; } }
            // SBC A,d8
            0xDE => { let v = self.fetch(bus); self.sbc(v); return 8; }
            // RST 18H
            0xDF => { self.push(bus, self.pc); self.pc = 0x18; return 16; }
            _ => { return 4; } // Undefined opcodes: NOP behavior
        }
    }

    /// Opcodes 0xE0..=0xFF: I/O page loads, stack pointer arithmetic, POP/PUSH of HL and AF, DI/EI, immediate AND/XOR/OR/CP and RST.
    #[verifier::rlimit(60)]
    fn execute_e0_ff(&mut self, opcode: u8, bus: &mut Bus) -> (r: u32)
        requires
            old(bus)@.wf(),
            0xE0 <= opcode <= 0xFF,
        ensures
            (*final(self), final(bus)@, r) == exec_spec(*old(self), old(bus)@, opcode),
            final(bus)@.wf(),
            old(bus)@.frame_inv() ==> final(bus)@.frame_inv(),
            final(bus)@.ppu.frame_ready == old(bus)@.ppu.frame_ready,
            4 <= r <= 24,
    {
        proof {
            reveal(exec_block3);
        }
        match opcode {
            // LDH (a8),A
            0xE0 => { let a = self.fetch(bus); proof { lemma_high_page(a); } bus.write(0xFF00 | a as u16, self.a); return 12; }
            // POP HL
            0xE1 => { let v = self.pop(bus); self.set_hl(v); return 12; }
            // LD (C),A
            0xE2 => { proof { lemma_high_page(self.c); } bus.write(0xFF00 | self.c as u16, self.a); return 8; }
            // PUSH HL
            0xE5 => { self.push(bus, self.hl()); return 16; }
            // AND d8
            0xE6 => { let v = self.fetch(bus); self.and(v); return 8; }
            // RST 20H
            0xE7 => { self.push(bus, self.pc); self.pc = 0x20; return 16; }
            // ADD SP,r8
            0xE8 => {
                let r = sign_extend_byte(self.fetch(bus));
                let sp = self.sp;
                self.set_flag(FLAG_Z, false);
                self.set_flag(FLAG_N, false);
                self.set_flag(FLAG_H, (sp % 16) + (r % 16) > 15);
                self.set_flag(FLAG_C, (sp % 256) + (r % 256) > 255);
                self.sp = sp.wrapping_add(r);
                return 16;
            }
            // JP (HL)
            0xE9 => { self.pc = self.hl(); return 4; }
            // LD (a16),A
            0xEA => { let addr = self.fetch16(bus); bus.write(addr, self.a); return 16; }
            // XOR d8
            0xEE => { let v = self.fetch(bus); self.xor(v); return 8; }
            // RST 28H
            0xEF => { self.push(bus, self.pc); self.pc = 0x28; return 16; }

            // LDH A,(a8)
            0xF0 => { let a = self.fetch(bus); proof { lemma_high_page(a); } self.a = bus.read(0xFF00 | a as u16); return 12; }
            // POP AF
            0xF1 => { let v = self.pop(bus); self.set_af(v); return 12; }
            // LD A,(C)
            0xF2 => { proof { lemma_high_page(self.c); } self.a = bus.read(0xFF00 | self.c as u16); return 8; }
            // DI
            0xF3 => { self.ime = false; return 4; }
            // PUSH AF
            0xF5 => { self.push(bus, self.af()); return 16; }
            // OR d8
            0xF6 => { let v = self.fetch(bus); self.or(v); return 8; }
            // RST 30H
            0xF7 => { self.push(bus, self.pc); self.pc = 0x30; return 16; }
            // LD HL,SP+r8
            0xF8 => {
                let r = sign_extend_byte(self.fetch(bus));
                let sp = self.sp;
                self.set_flag(FLAG_Z, false);
                self.set_flag(FLAG_N, false);
                self.set_flag(FLAG_H, (sp % 16) + (r % 16) > 15);
                self.set_flag(FLAG_C, (sp % 256) + (r % 256) > 255);
                self.set_hl(sp.wrapping_add(r));
                return 12;
            }
            // LD SP,HL
            0xF9 => { self.sp = self.hl(); return 8; }
            // LD A,(a16)
            0xFA => { let addr = self.fetch16(bus); self.a = bus.read(addr); return 16; }
            // EI
            0xFB => { self.ime_scheduled = true; return 4; }
            // CP d8
            0xFE => { let v = self.fetch(bus); self.cp(v); return 8; }
            // RST 38H
            0xFF => { self.push(bus, self.pc); self.pc = 0x38; return 16; }
            _ => { return 4; } // Undefined opcodes: NOP behavior
        }
    }

    // CB-prefixed instructions
    fn execute_cb(&mut self, opcode: u8, bus: &mut Bus) -> (r: u32)
        requires
            old(bus)@.wf(),
        ensures
            (*final(self), final(bus)@, r) == cb_spec(*old(self), old(bus)@, opcode),
            final(bus)@.wf(),
            old(bus)@.frame_inv() ==> final(bus)@.frame_inv(),
            final(bus)@.ppu.frame_ready == old(bus)@.ppu.frame_ready,
            4 <= r <= 24,
    {
        proof {
            reveal(cb_spec);
            reveal(cb_result);
        }
        proof {
            lemma_cb_fields(opcode);
        }
        let reg_idx = opcode & 0x07;
        let val = self.read_reg(reg_idx, bus);
        let is_hl = reg_idx == 6;
        let cycles = if is_hl {
            16
        } else {
            8
        };

        let result = match opcode >> 3 {
            // RLC
            0 => {
                let c = val >> 7;
                let r = (val << 1) | c;
                self.set_flag(FLAG_Z, r == 0);
                self.set_flag(FLAG_N, false);
                self.set_flag(FLAG_H, false);
                self.set_flag(FLAG_C, c != 0);
                r
            },
            // RRC
            1 => {
                let c = val & 1;
                let r = (val >> 1) | (c << 7);
                self.set_flag(FLAG_Z, r == 0);
                self.set_flag(FLAG_N, false);
                self.set_flag(FLAG_H, false);
                self.set_flag(FLAG_C, c != 0);
                r
            },
            // RL
            2 => {
                let c: u8 = if self.flag_c() { 1 } else { 0 };
                let new_c = val >> 7;
                let r = (val << 1) | c;
                self.set_flag(FLAG_Z, r == 0);
                self.set_flag(FLAG_N, false);
                self.set_flag(FLAG_H, false);
                self.set_flag(FLAG_C, new_c != 0);
                r
            },
            // RR
            3 => {
                let c: u8 = if self.flag_c() { 1 } else { 0 };
                let new_c = val & 1;
                let r = (val >> 1) | (c << 7);
                self.set_flag(FLAG_Z, r == 0);
                self.set_flag(FLAG_N, false);
                self.set_flag(FLAG_H, false);
                self.set_flag(FLAG_C, new_c != 0);
                r
            },
            // SLA
            4 => {
                let c = val >> 7;
                let r = val << 1;
                self.set_flag(FLAG_Z, r == 0);
                self.set_flag(FLAG_N, false);
                self.set_flag(FLAG_H, false);
                self.set_flag(FLAG_C, c != 0);
                r
            },
            // SRA
            5 => {
                let c = val & 1;
                let r = (val >> 1) | (val & 0x80);
                self.set_flag(FLAG_Z, r == 0);
                self.set_flag(FLAG_N, false);
                self.set_flag(FLAG_H, false);
                self.set_flag(FLAG_C, c != 0);
                r
            },
            // SWAP
            6 => {
                let r = (val >> 4) | (val << 4);
                self.set_flag(FLAG_Z, r == 0);
                self.set_flag(FLAG_N, false);
                self.set_flag(FLAG_H, false);
                self.set_flag(FLAG_C, false);
                r
            },
            // SRL
            7 => {
                let c = val & 1;
                let r = val >> 1;
                self.set_flag(FLAG_Z, r == 0);
                self.set_flag(FLAG_N, false);
                self.set_flag(FLAG_H, false);
                self.set_flag(FLAG_C, c != 0);
                r
            },
            // BIT
            8..=15 => {
                let bit = (opcode >> 3) - 8;
                self.set_flag(FLAG_Z, val & (1 << bit) == 0);
                self.set_flag(FLAG_N, false);
                self.set_flag(FLAG_H, true);
                return if is_hl {
                    12
                } else {
                    8
                };
            },
            // RES
            16..=23 => {
                let bit = (opcode >> 3) - 16;
                val & !(1 << bit)
            },
            // SET (24..=31)
            _ => {
                let bit = (opcode >> 3) - 24;
                val | (1 << bit)
            },
        };

        self.write_reg(reg_idx, result, bus);
        cycles
    }

    fn read_reg(&self, idx: u8, bus: &Bus) -> (v: u8)
        requires
            bus@.wf(),
            idx < 8,
        ensures
            v == get_r8(*self, bus@, idx),
    {
        match idx {
            0 => self.b,
            1 => self.c,
            2 => self.d,
            3 => self.e,
            4 => self.h,
            5 => self.l,
            6 => bus.read(self.hl()),
            _ => self.a,
        }
    }

    fn write_reg(&mut self, idx: u8, val: u8, bus: &mut Bus)
        requires
            old(bus)@.wf(),
            idx < 8,
        ensures
            (*final(self), final(bus)@) == set_r8(*old(self), old(bus)@, idx, val),
            final(bus)@.wf(),
            old(bus)@.frame_inv() ==> final(bus)@.frame_inv(),
            final(bus)@.ppu.frame_ready == old(bus)@.ppu.frame_ready,
    {
        match idx {
            0 => self.b = val,
            1 => self.c = val,
            2 => self.d = val,
            3 => self.e = val,
            4 => self.h = val,
            5 => self.l = val,
            6 => bus.write(self.hl(), val),
            _ => self.a = val,
        }
    }

    // ALU operations
    fn add(&mut self, val: u8)
        ensures
            *final(self) == old(self).add_spec(val),
    {
        proof {
            reveal(Cpu::add_spec);
        }
        let result = self.a.wrapping_add(val);
        let carry = (self.a as u16) + (val as u16) > 0xFF;
        self.set_flag(FLAG_Z, result == 0);
        self.set_flag(FLAG_N, false);
        self.set_flag(FLAG_H, (self.a % 16) + (val % 16) > 15);
        self.set_flag(FLAG_C, carry);
        self.a = result;
    }

    fn adc(&mut self, val: u8)
        ensures
            *final(self) == old(self).adc_spec(val),
    {
        proof {
            reveal(Cpu::adc_spec);
        }
        let c: u8 = if self.flag_c() { 1 } else { 0 };
        let result = self.a.wrapping_add(val).wrapping_add(c);
        self.set_flag(FLAG_Z, result == 0);
        self.set_flag(FLAG_N, false);
        self.set_flag(FLAG_H, (self.a % 16) + (val % 16) + c > 15);
        self.set_flag(FLAG_C, (self.a as u16) + (val as u16) + (c as u16) > 0xFF);
        self.a = result;
    }

    fn sub(&mut self, val: u8)
        ensures
            *final(self) == old(self).sub_spec(val),
    {
        proof {
            reveal(Cpu::sub_spec);
        }
        let result = self.a.wrapping_sub(val);
        self.set_flag(FLAG_Z, result == 0);
        self.set_flag(FLAG_N, true);
        self.set_flag(FLAG_H, (self.a % 16) < (val % 16));
        self.set_flag(FLAG_C, self.a < val);
        self.a = result;
    }

    fn sbc(&mut self, val: u8)
        ensures
            *final(self) == old(self).sbc_spec(val),
    {
        proof {
            reveal(Cpu::sbc_spec);
        }
        let c: u8 = if self.flag_c() { 1 } else { 0 };
        let result = self.a.wrapping_sub(val).wrapping_sub(c);
        self.set_flag(FLAG_Z, result == 0);
        self.set_flag(FLAG_N, true);
        self.set_flag(FLAG_H, (self.a % 16) < (val % 16) + c);
        self.set_flag(FLAG_C, (self.a as u16) < (val as u16) + (c as u16));
        self.a = result;
    }

    fn and(&mut self, val: u8)
        ensures
            *final(self) == old(self).and_spec(val),
    {
        proof {
            reveal(Cpu::and_spec);
        }
        self.a &= val;
        self.set_flag(FLAG_Z, self.a == 0);
        self.set_flag(FLAG_N, false);
        self.set_flag(FLAG_H, true);
        self.set_flag(FLAG_C, false);
    }

    fn xor(&mut self, val: u8)
        ensures
            *final(self) == old(self).xor_spec(val),
    {
        proof {
            reveal(Cpu::xor_spec);
        }
        self.a ^= val;
        self.set_flag(FLAG_Z, self.a == 0);
        self.set_flag(FLAG_N, false);
        self.set_flag(FLAG_H, false);
        self.set_flag(FLAG_C, false);
    }

    fn or(&mut self, val: u8)
        ensures
            *final(self) == old(self).or_spec(val),
    {
        proof {
            reveal(Cpu::or_spec);
        }
        self.a |= val;
        self.set_flag(FLAG_Z, self.a == 0);
        self.set_flag(FLAG_N, false);
        self.set_flag(FLAG_H, false);
        self.set_flag(FLAG_C, false);
    }

    fn cp(&mut self, val: u8)
        ensures
            *final(self) == old(self).cp_spec(val),
    {
        proof {
            reveal(Cpu::cp_spec);
        }
        self.set_flag(FLAG_Z, self.a == val);
        self.set_flag(FLAG_N, true);
        self.set_flag(FLAG_H, (self.a % 16) < (val % 16));
        self.set_flag(FLAG_C, self.a < val);
    }

    fn inc(&mut self, val: u8) -> (r: u8)
        ensures
            *final(self) == old(self).inc_flags(val),
            r == val.wrapping_add(1),
    {
        let result = val.wrapping_add(1);
        self.set_flag(FLAG_Z, result == 0);
        self.set_flag(FLAG_N, false);
        self.set_flag(FLAG_H, (val % 16) == 15);
        result
    }

    fn dec(&mut self, val: u8) -> (r: u8)
        ensures
            *final(self) == old(self).dec_flags(val),
            r == val.wrapping_sub(1),
    {
        let result = val.wrapping_sub(1);
        self.set_flag(FLAG_Z, result == 0);
        self.set_flag(FLAG_N, true);
        self.set_flag(FLAG_H, (val % 16) == 0);
        result
    }

    fn add_hl(&mut self, val: u16)
        ensures
            *final(self) == old(self).add_hl_spec(val),
    {
        let hl = self.hl();
        let result = hl.wrapping_add(val);
        let carry = (hl as u32) + (val as u32) > 0xFFFF;
        self.set_flag(FLAG_N, false);
        self.set_flag(FLAG_H, (hl % 4096) + (val % 4096) > 4095);
        self.set_flag(FLAG_C, carry);
        self.set_hl(result);
    }

    fn daa(&mut self)
        ensures
            *final(self) == old(self).daa_spec(),
    {
        let mut adjust = 0u8;
        let mut carry = false;

        if self.flag_n() {
            if self.flag_c() {
                adjust += 0x60;
                carry = true;
            }
            if self.flag_h() {
                adjust += 0x06;
            }
            self.a = self.a.wrapping_sub(adjust);
        } else {
            if self.flag_c() || self.a > 0x99 {
                adjust += 0x60;
                carry = true;
            }
            if self.flag_h() || (self.a % 16) > 9 {
                adjust += 0x06;
            }
            self.a = self.a.wrapping_add(adjust);
        }

        self.set_flag(FLAG_Z, self.a == 0);
        self.set_flag(FLAG_H, false);
        self.set_flag(FLAG_C, carry);
    }

    fn push(&mut self, bus: &mut Bus, val: u16)
        requires
            old(bus)@.wf(),
        ensures
            (*final(self), final(bus)@) == push_spec(*old(self), old(bus)@, val),
            final(bus)@.wf(),
            old(bus)@.frame_inv() ==> final(bus)@.frame_inv(),
            final(bus)@.ppu.frame_ready == old(bus)@.ppu.frame_ready,
    {
        proof {
            lemma_split(val);
        }
        self.sp = self.sp.wrapping_sub(2);
        bus.write(self.sp, val as u8);
        bus.write(self.sp.wrapping_add(1), (val >> 8) as u8);
    }

    fn pop(&mut self, bus: &Bus) -> (v: u16)
        requires
            bus@.wf(),
        ensures
            v == stack_top(*old(self), bus@),
            *final(self) == popped(*old(self)),
    {
        let lo = bus.read(self.sp);
        let hi = bus.read(self.sp.wrapping_add(1));
        self.sp = self.sp.wrapping_add(2);
        proof {
            lemma_pair(hi, lo);
        }
        (hi as u16) << 8 | lo as u16
    }
}

} // verus!
