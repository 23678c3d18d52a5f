use vstd::prelude::*;
use vstd::std_specs::bits::u8_trailing_zeros;
use crate::bus::{
    BusView, is_plain_memory, lemma_read_after_write, lemma_write_other_cell, lemma_write_keeps_wf,
    lemma_write_keeps_frame_inv,
};
use crate::cpu::Cpu;

verus! {

/// Bit position of the zero flag in F.
pub const FLAG_Z: u8 = 7;
/// Bit position of the subtract flag in F.
pub const FLAG_N: u8 = 6;
/// Bit position of the half-carry flag in F.
pub const FLAG_H: u8 = 5;
/// Bit position of the carry flag in F.
pub const FLAG_C: u8 = 4;

/// The 16-bit value with high byte `hi` and low byte `lo`.
pub open spec fn pair(hi: u8, lo: u8) -> u16 {
    (hi * 256 + lo) as u16
}

/// High byte of a 16-bit value.
pub open spec fn hi_byte(v: u16) -> u8 {
    (v / 256) as u8
}

/// Low byte of a 16-bit value.
pub open spec fn lo_byte(v: u16) -> u8 {
    (v % 256) as u8
}

/// Whether bit `bit` of the flag byte is set.
pub open spec fn flag_bit(f: u8, bit: u8) -> bool {
    f & (1u8 << bit) != 0
}

/// The flag byte with bit `bit` set to `val`.
pub open spec fn set_flag_bit(f: u8, bit: u8, val: bool) -> u8 {
    if val {
        f | (1u8 << bit)
    } else {
        f & !(1u8 << bit)
    }
}

/// The flag byte with Z, N and H set in that order.
pub open spec fn znh(f: u8, z: bool, n: bool, h: bool) -> u8 {
    set_flag_bit(set_flag_bit(set_flag_bit(f, FLAG_Z, z), FLAG_N, n), FLAG_H, h)
}

/// The flag byte with N, H and C set in that order.
pub open spec fn nhc(f: u8, n: bool, h: bool, c: bool) -> u8 {
    set_flag_bit(set_flag_bit(set_flag_bit(f, FLAG_N, n), FLAG_H, h), FLAG_C, c)
}

/// The flag byte with Z, N, H and C set in that order.
pub open spec fn znhc(f: u8, z: bool, n: bool, h: bool, c: bool) -> u8 {
    set_flag_bit(znh(f, z, n, h), FLAG_C, c)
}

/// A byte read as a two's-complement signed number.
pub open spec fn signed8(r: u8) -> int {
    if r < 128 {
        r as int
    } else {
        r - 256
    }
}

/// `pc` moved by the signed offset `r`, modulo 2^16.
pub open spec fn relative(pc: u16, r: u8) -> u16 {
    ((pc + signed8(r)) % 0x10000) as u16
}

/// The signed byte `r` sign-extended to 16 bits.
pub open spec fn sign_extend(r: u8) -> u16 {
    (signed8(r) % 0x10000) as u16
}

impl Cpu {
    /// The register state after the boot ROM has run (DMG).
    pub open spec fn initial() -> Cpu {
        Cpu {
            a: 0x01,
            f: 0xB0,
            b: 0x00,
            c: 0x13,
            d: 0x00,
            e: 0xD8,
            h: 0x01,
            l: 0x4D,
            sp: 0xFFFE,
            pc: 0x0100,
            ime: true,
            ime_scheduled: false,
            halted: false,
        }
    }

    /// Whether flag `bit` of F is set.
    pub open spec fn flag_spec(self, bit: u8) -> bool {
        flag_bit(self.f, bit)
    }

    /// The CPU with flag `bit` of F set to `val`.
    pub open spec fn with_flag(self, bit: u8, val: bool) -> Cpu {
        Cpu { f: set_flag_bit(self.f, bit, val), ..self }
    }

    /// The carry flag as a number, 0 or 1.
    pub open spec fn carry_bit(self) -> u8 {
        if self.flag_spec(FLAG_C) {
            1
        } else {
            0
        }
    }

    pub open spec fn af_spec(self) -> u16 {
        pair(self.a, self.f)
    }

    pub open spec fn bc_spec(self) -> u16 {
        pair(self.b, self.c)
    }

    pub open spec fn de_spec(self) -> u16 {
        pair(self.d, self.e)
    }

    pub open spec fn hl_spec(self) -> u16 {
        pair(self.h, self.l)
    }

    /// AF loaded from `v`: the low nibble of F always reads as zero.
    pub open spec fn with_af(self, v: u16) -> Cpu {
        Cpu { a: hi_byte(v), f: (v & 0xF0) as u8, ..self }
    }

    pub open spec fn with_bc(self, v: u16) -> Cpu {
        Cpu { b: hi_byte(v), c: lo_byte(v), ..self }
    }

    pub open spec fn with_de(self, v: u16) -> Cpu {
        Cpu { d: hi_byte(v), e: lo_byte(v), ..self }
    }

    pub open spec fn with_hl(self, v: u16) -> Cpu {
        Cpu { h: hi_byte(v), l: lo_byte(v), ..self }
    }

    /// PC advanced by `n` bytes of instruction stream.
    pub open spec fn advance(self, n: u16) -> Cpu {
        Cpu { pc: self.pc.wrapping_add(n), ..self }
    }

    /// ADD A,v
    #[verifier::opaque]
    pub open spec fn add_spec(self, v: u8) -> Cpu {
        let r = self.a.wrapping_add(v);
        Cpu { a: r, f: znhc(self.f, r == 0, false, self.a % 16 + v % 16 > 15, self.a + v > 255), ..self }
    }

    /// ADC A,v
    #[verifier::opaque]
    pub open spec fn adc_spec(self, v: u8) -> Cpu {
        let c = self.carry_bit();
        let r = self.a.wrapping_add(v).wrapping_add(c);
        Cpu {
            a: r,
            f: znhc(self.f, r == 0, false, self.a % 16 + v % 16 + c > 15, self.a + v + c > 255),
            ..self
        }
    }

    /// SUB v
    #[verifier::opaque]
    pub open spec fn sub_spec(self, v: u8) -> Cpu {
        let r = self.a.wrapping_sub(v);
        Cpu { a: r, f: znhc(self.f, r == 0, true, self.a % 16 < v % 16, self.a < v), ..self }
    }

    /// SBC A,v
    #[verifier::opaque]
    pub open spec fn sbc_spec(self, v: u8) -> Cpu {
        let c = self.carry_bit();
        let r = self.a.wrapping_sub(v).wrapping_sub(c);
        Cpu { a: r, f: znhc(self.f, r == 0, true, self.a % 16 < v % 16 + c, self.a < v + c), ..self }
    }

    /// AND v
    #[verifier::opaque]
    pub open spec fn and_spec(self, v: u8) -> Cpu {
        let r = self.a & v;
        Cpu { a: r, f: znhc(self.f, r == 0, false, true, false), ..self }
    }

    /// XOR v
    #[verifier::opaque]
    pub open spec fn xor_spec(self, v: u8) -> Cpu {
        let r = self.a ^ v;
        Cpu { a: r, f: znhc(self.f, r == 0, false, false, false), ..self }
    }

    /// OR v
    #[verifier::opaque]
    pub open spec fn or_spec(self, v: u8) -> Cpu {
        let r = self.a | v;
        Cpu { a: r, f: znhc(self.f, r == 0, false, false, false), ..self }
    }

    /// CP v: the flags of SUB v, A unchanged.
    #[verifier::opaque]
    pub open spec fn cp_spec(self, v: u8) -> Cpu {
        Cpu { f: znhc(self.f, self.a == v, true, self.a % 16 < v % 16, self.a < v), ..self }
    }

    /// The arithmetic/logic operation with number `op`:
    /// ADD, ADC, SUB, SBC, AND, XOR, OR, CP.
    pub open spec fn alu(self, op: u8, v: u8) -> Cpu {
        if op == 0 {
            self.add_spec(v)
        } else if op == 1 {
            self.adc_spec(v)
        } else if op == 2 {
            self.sub_spec(v)
        } else if op == 3 {
            self.sbc_spec(v)
        } else if op == 4 {
            self.and_spec(v)
        } else if op == 5 {
            self.xor_spec(v)
        } else if op == 6 {
            self.or_spec(v)
        } else {
            self.cp_spec(v)
        }
    }

    /// Flags after INC of `v` (C unchanged); the result is `v + 1` wrapping.
    pub open spec fn inc_flags(self, v: u8) -> Cpu {
        Cpu { f: znh(self.f, v.wrapping_add(1) == 0, false, v % 16 == 15), ..self }
    }

    /// Flags after DEC of `v` (C unchanged); the result is `v - 1` wrapping.
    pub open spec fn dec_flags(self, v: u8) -> Cpu {
        Cpu { f: znh(self.f, v.wrapping_sub(1) == 0, true, v % 16 == 0), ..self }
    }

    /// ADD HL,v (Z unchanged).
    pub open spec fn add_hl_spec(self, v: u16) -> Cpu {
        let hl = self.hl_spec();
        let r = hl.wrapping_add(v);
        Cpu { f: nhc(self.f, false, hl % 4096 + v % 4096 > 4095, hl + v > 65535), h: hi_byte(r), l: lo_byte(r), ..self }
    }

    /// DAA: decimal adjust of A after a BCD addition or subtraction.
    pub open spec fn daa_spec(self) -> Cpu {
        let n = self.flag_spec(FLAG_N);
        let c = self.flag_spec(FLAG_C);
        let h = self.flag_spec(FLAG_H);
        let carry = if n { c } else { c || self.a > 0x99 };
        let low = if n { h } else { h || self.a % 16 > 9 };
        let adjust = ((if carry { 0x60u8 } else { 0u8 }) + (if low { 0x06u8 } else { 0u8 })) as u8;
        let a = if n { self.a.wrapping_sub(adjust) } else { self.a.wrapping_add(adjust) };
        Cpu {
            a,
            f: set_flag_bit(set_flag_bit(set_flag_bit(self.f, FLAG_Z, a == 0), FLAG_H, false), FLAG_C, carry),
            ..self
        }
    }

    /// The flags of ADD SP,r8 and LD HL,SP+r8: Z and N clear, H and C
    /// from the low nibble and low byte of the unsigned addition.
    pub open spec fn sp_offset_f(self, r: u16) -> u8 {
        znhc(self.f, false, false, self.sp % 16 + r % 16 > 15, self.sp % 256 + r % 256 > 255)
    }

    /// Condition number `cc`: NZ, Z, NC, C.
    pub open spec fn cond(self, cc: u8) -> bool {
        if cc == 0 {
            !self.flag_spec(FLAG_Z)
        } else if cc == 1 {
            self.flag_spec(FLAG_Z)
        } else if cc == 2 {
            !self.flag_spec(FLAG_C)
        } else {
            self.flag_spec(FLAG_C)
        }
    }

    /// 16-bit register pair `p` of the load/arithmetic group: BC, DE, HL, SP.
    pub open spec fn get_rp(self, p: u8) -> u16 {
        if p == 0 {
            self.bc_spec()
        } else if p == 1 {
            self.de_spec()
        } else if p == 2 {
            self.hl_spec()
        } else {
            self.sp
        }
    }

    pub open spec fn set_rp(self, p: u8, v: u16) -> Cpu {
        if p == 0 {
            self.with_bc(v)
        } else if p == 1 {
            self.with_de(v)
        } else if p == 2 {
            self.with_hl(v)
        } else {
            Cpu { sp: v, ..self }
        }
    }

    /// 16-bit register pair `p` of the stack group: BC, DE, HL, AF.
    pub open spec fn get_rp2(self, p: u8) -> u16 {
        if p == 0 {
            self.bc_spec()
        } else if p == 1 {
            self.de_spec()
        } else if p == 2 {
            self.hl_spec()
        } else {
            self.af_spec()
        }
    }

    pub open spec fn set_rp2(self, p: u8, v: u16) -> Cpu {
        if p == 0 {
            self.with_bc(v)
        } else if p == 1 {
            self.with_de(v)
        } else if p == 2 {
            self.with_hl(v)
        } else {
            self.with_af(v)
        }
    }
}

/// 8-bit operand number `i`: B, C, D, E, H, L, (HL), A.
pub open spec fn get_r8(c: Cpu, b: BusView, i: u8) -> u8 {
    if i == 0 {
        c.b
    } else if i == 1 {
        c.c
    } else if i == 2 {
        c.d
    } else if i == 3 {
        c.e
    } else if i == 4 {
        c.h
    } else if i == 5 {
        c.l
    } else if i == 6 {
        b.read(c.hl_spec())
    } else {
        c.a
    }
}

/// Store `v` into 8-bit operand number `i` (for (HL), into memory).
pub open spec fn set_r8(c: Cpu, b: BusView, i: u8, v: u8) -> (Cpu, BusView) {
    if i == 0 {
        (Cpu { b: v, ..c }, b)
    } else if i == 1 {
        (Cpu { c: v, ..c }, b)
    } else if i == 2 {
        (Cpu { d: v, ..c }, b)
    } else if i == 3 {
        (Cpu { e: v, ..c }, b)
    } else if i == 4 {
        (Cpu { h: v, ..c }, b)
    } else if i == 5 {
        (Cpu { l: v, ..c }, b)
    } else if i == 6 {
        (c, b.write(c.hl_spec(), v))
    } else {
        (Cpu { a: v, ..c }, b)
    }
}

/// The byte at PC.
pub open spec fn imm8(c: Cpu, b: BusView) -> u8 {
    b.read(c.pc)
}

/// The little-endian 16-bit value at PC.
pub open spec fn imm16(c: Cpu, b: BusView) -> u16 {
    pair(b.read(c.pc.wrapping_add(1)), b.read(c.pc))
}

/// PUSH: SP goes down by two and `v` is stored there, low byte first.
pub open spec fn push_spec(c: Cpu, b: BusView, v: u16) -> (Cpu, BusView) {
    let sp = c.sp.wrapping_sub(2);
    (Cpu { sp, ..c }, b.write(sp, lo_byte(v)).write(sp.wrapping_add(1), hi_byte(v)))
}

/// The little-endian 16-bit value at SP.
pub open spec fn stack_top(c: Cpu, b: BusView) -> u16 {
    pair(b.read(c.sp.wrapping_add(1)), b.read(c.sp))
}

/// POP: SP goes up by two past the value read.
pub open spec fn popped(c: Cpu) -> Cpu {
    Cpu { sp: c.sp.wrapping_add(2), ..c }
}

/// Jump to `target` through a call: the return address PC is pushed.
pub open spec fn call_spec(c: Cpu, b: BusView, target: u16) -> (Cpu, BusView) {
    let (c2, b2) = push_spec(c, b, c.pc);
    (Cpu { pc: target, ..c2 }, b2)
}

/// Opcodes 0x00..=0x3F, decoded by y (bits 5-3) and z (bits 2-0).
#[verifier::opaque]
pub open spec fn exec_block0(c: Cpu, b: BusView, y: u8, z: u8) -> (Cpu, BusView, u32) {
    let p = y / 2;
    let q = y % 2;
    if z == 0 {
        if y == 0 {
            // NOP
            (c, b, 4)
        } else if y == 1 {
            // LD (a16),SP
            let addr = imm16(c, b);
            (c.advance(2), b.write(addr, lo_byte(c.sp)).write(addr.wrapping_add(1), hi_byte(c.sp)), 20)
        } else if y == 2 {
            // STOP: skips its operand byte
            (c.advance(1), b, 4)
        } else {
            // JR r8 and JR cc,r8
            let r = imm8(c, b);
            let c1 = c.advance(1);
            if y == 3 || c.cond((y - 4) as u8) {
                (Cpu { pc: relative(c1.pc, r), ..c1 }, b, 12)
            } else {
                (c1, b, 8)
            }
        }
    } else if z == 1 {
        if q == 0 {
            // LD rp,d16
            (c.advance(2).set_rp(p, imm16(c, b)), b, 12)
        } else {
            // ADD HL,rp
            (c.add_hl_spec(c.get_rp(p)), b, 8)
        }
    } else if z == 2 {
        // LD (BC),A / LD (DE),A / LD (HL+),A / LD (HL-),A and the loads into A
        let hl = c.hl_spec();
        let addr = if p == 0 {
            c.bc_spec()
        } else if p == 1 {
            c.de_spec()
        } else {
            hl
        };
        let c1 = if p == 2 {
            c.with_hl(hl.wrapping_add(1))
        } else if p == 3 {
            c.with_hl(hl.wrapping_sub(1))
        } else {
            c
        };
        if q == 0 {
            (c1, b.write(addr, c.a), 8)
        } else {
            (Cpu { a: b.read(addr), ..c1 }, b, 8)
        }
    } else if z == 3 {
        // INC rp / DEC rp
        let v = c.get_rp(p);
        (c.set_rp(p, if q == 0 { v.wrapping_add(1) } else { v.wrapping_sub(1) }), b, 8)
    } else if z == 4 {
        // INC r
        let v = get_r8(c, b, y);
        let (c2, b2) = set_r8(c.inc_flags(v), b, y, v.wrapping_add(1));
        (c2, b2, if y == 6 { 12 } else { 4 })
    } else if z == 5 {
        // DEC r
        let v = get_r8(c, b, y);
        let (c2, b2) = set_r8(c.dec_flags(v), b, y, v.wrapping_sub(1));
        (c2, b2, if y == 6 { 12 } else { 4 })
    } else if z == 6 {
        // LD r,d8
        let (c2, b2) = set_r8(c.advance(1), b, y, imm8(c, b));
        (c2, b2, if y == 6 { 12 } else { 8 })
    } else {
        // Rotates of A and flag operations
        let a = c.a;
        let c2 = if y == 0 {
            // RLCA
            Cpu { a: (a << 1) | (a >> 7), f: set_flag_bit(0, FLAG_C, (a >> 7) != 0), ..c }
        } else if y == 1 {
            // RRCA
            Cpu { a: (a >> 1) | ((a & 1) << 7), f: set_flag_bit(0, FLAG_C, (a & 1) != 0), ..c }
        } else if y == 2 {
            // RLA
            Cpu { a: (a << 1) | c.carry_bit(), f: set_flag_bit(0, FLAG_C, (a >> 7) != 0), ..c }
        } else if y == 3 {
            // RRA
            Cpu { a: (a >> 1) | (c.carry_bit() << 7), f: set_flag_bit(0, FLAG_C, (a & 1) != 0), ..c }
        } else if y == 4 {
            c.daa_spec()
        } else if y == 5 {
            // CPL
            Cpu { a: !a, f: set_flag_bit(set_flag_bit(c.f, FLAG_N, true), FLAG_H, true), ..c }
        } else if y == 6 {
            // SCF
            Cpu { f: nhc(c.f, false, false, true), ..c }
        } else {
            // CCF
            Cpu { f: nhc(c.f, false, false, !c.flag_spec(FLAG_C)), ..c }
        };
        (c2, b, 4)
    }
}

/// Opcodes 0x40..=0x7F: LD r,r' with operands y and z; HALT in place of LD (HL),(HL).
#[verifier::opaque]
pub open spec fn exec_block1(c: Cpu, b: BusView, y: u8, z: u8) -> (Cpu, BusView, u32) {
    if y == 6 && z == 6 {
        // HALT
        (Cpu { halted: true, ..c }, b, 4)
    } else {
        // LD r,r'
        let (c2, b2) = set_r8(c, b, y, get_r8(c, b, z));
        (c2, b2, if y == 6 || z == 6 { 8 } else { 4 })
    }
}

/// Opcodes 0x80..=0xBF: ALU operation y on A and operand z.
#[verifier::opaque]
pub open spec fn exec_block2(c: Cpu, b: BusView, y: u8, z: u8) -> (Cpu, BusView, u32) {
    (c.alu(y, get_r8(c, b, z)), b, if z == 6 { 8 } else { 4 })
}

/// Opcodes 0xC0..=0xFF, decoded by y (bits 5-3) and z (bits 2-0); the
/// CB prefix and the undefined opcodes (which act as NOP) included.
#[verifier::opaque]
pub open spec fn exec_block3(c: Cpu, b: BusView, y: u8, z: u8) -> (Cpu, BusView, u32) {
    let p = y / 2;
    let q = y % 2;
    if z == 0 {
        if y < 4 {
            // RET cc
            if c.cond(y) {
                (Cpu { pc: stack_top(c, b), ..popped(c) }, b, 20)
            } else {
                (c, b, 8)
            }
        } else if y == 4 {
            // LDH (a8),A
            (c.advance(1), b.write((0xFF00 + imm8(c, b)) as u16, c.a), 12)
        } else if y == 5 {
            // ADD SP,r8
            let r = sign_extend(imm8(c, b));
            let c1 = c.advance(1);
            (Cpu { sp: c1.sp.wrapping_add(r), f: c1.sp_offset_f(r), ..c1 }, b, 16)
        } else if y == 6 {
            // LDH A,(a8)
            (Cpu { a: b.read((0xFF00 + imm8(c, b)) as u16), ..c.advance(1) }, b, 12)
        } else {
            // LD HL,SP+r8
            let r = sign_extend(imm8(c, b));
            let c1 = c.advance(1);
            (Cpu { f: c1.sp_offset_f(r), ..c1 }.with_hl(c1.sp.wrapping_add(r)), b, 12)
        }
    } else if z == 1 {
        if q == 0 {
            // POP rp2
            (popped(c).set_rp2(p, stack_top(c, b)), b, 12)
        } else if p == 0 {
            // RET
            (Cpu { pc: stack_top(c, b), ..popped(c) }, b, 16)
        } else if p == 1 {
            // RETI
            (Cpu { pc: stack_top(c, b), ime: true, ..popped(c) }, b, 16)
        } else if p == 2 {
            // JP (HL)
            (Cpu { pc: c.hl_spec(), ..c }, b, 4)
        } else {
            // LD SP,HL
            (Cpu { sp: c.hl_spec(), ..c }, b, 8)
        }
    } else if z == 2 {
        if y < 4 {
            // JP cc,a16
            let addr = imm16(c, b);
            if c.cond(y) {
                (Cpu { pc: addr, ..c.advance(2) }, b, 16)
            } else {
                (c.advance(2), b, 12)
            }
        } else if y == 4 {
            // LD (C),A
            (c, b.write((0xFF00 + c.c) as u16, c.a), 8)
        } else if y == 5 {
            // LD (a16),A
            (c.advance(2), b.write(imm16(c, b), c.a), 16)
        } else if y == 6 {
            // LD A,(C)
            (Cpu { a: b.read((0xFF00 + c.c) as u16), ..c }, b, 8)
        } else {
            // LD A,(a16)
            (Cpu { a: b.read(imm16(c, b)), ..c.advance(2) }, b, 16)
        }
    } else if z == 3 {
        if y == 0 {
            // JP a16
            (Cpu { pc: imm16(c, b), ..c.advance(2) }, b, 16)
        } else if y == 1 {
            // CB prefix
            cb_spec(c.advance(1), b, imm8(c, b))
        } else if y == 6 {
            // DI
            (Cpu { ime: false, ..c }, b, 4)
        } else if y == 7 {
            // EI: takes effect after the next instruction
            (Cpu { ime_scheduled: true, ..c }, b, 4)
        } else {
            (c, b, 4)
        }
    } else if z == 4 {
        if y < 4 {
            // CALL cc,a16
            let addr = imm16(c, b);
            if c.cond(y) {
                let (c2, b2) = call_spec(c.advance(2), b, addr);
                (c2, b2, 24)
            } else {
                (c.advance(2), b, 12)
            }
        } else {
            (c, b, 4)
        }
    } else if z == 5 {
        if q == 0 {
            // PUSH rp2
            let (c2, b2) = push_spec(c, b, c.get_rp2(p));
            (c2, b2, 16)
        } else if p == 0 {
            // CALL a16
            let (c2, b2) = call_spec(c.advance(2), b, imm16(c, b));
            (c2, b2, 24)
        } else {
            (c, b, 4)
        }
    } else if z == 6 {
        // ALU A,d8
        (c.advance(1).alu(y, imm8(c, b)), b, 8)
    } else {
        // RST
        let (c2, b2) = call_spec(c, b, (y * 8) as u16);
        (c2, b2, 16)
    }
}

/// The effect of executing `op` (already fetched; PC past it): the new
/// registers, the new bus and the T-cycles taken. Decoded by the fields
/// x (bits 7-6), y (bits 5-3) and z (bits 2-0) of the opcode.
pub open spec fn exec_spec(c: Cpu, b: BusView, op: u8) -> (Cpu, BusView, u32) {
    let x = op / 64;
    let y = ((op / 8) % 8) as u8;
    let z = (op % 8) as u8;
    if x == 0 {
        exec_block0(c, b, y, z)
    } else if x == 1 {
        exec_block1(c, b, y, z)
    } else if x == 2 {
        exec_block2(c, b, y, z)
    } else {
        exec_block3(c, b, y, z)
    }
}

/// The result and flags of the rotate/shift/swap group (0..=7) and the
/// results of RES (16..=23) and SET (24..=31) on the value `v`.
#[verifier::opaque]
pub open spec fn cb_result(c: Cpu, v: u8, g: u8) -> (Cpu, u8) {
    if g == 0 {
        // RLC
        let r = (v << 1) | (v >> 7);
        (Cpu { f: znhc(c.f, r == 0, false, false, (v >> 7) != 0), ..c }, r)
    } else if g == 1 {
        // RRC
        let r = (v >> 1) | ((v & 1) << 7);
        (Cpu { f: znhc(c.f, r == 0, false, false, (v & 1) != 0), ..c }, r)
    } else if g == 2 {
        // RL
        let r = (v << 1) | c.carry_bit();
        (Cpu { f: znhc(c.f, r == 0, false, false, (v >> 7) != 0), ..c }, r)
    } else if g == 3 {
        // RR
        let r = (v >> 1) | (c.carry_bit() << 7);
        (Cpu { f: znhc(c.f, r == 0, false, false, (v & 1) != 0), ..c }, r)
    } else if g == 4 {
        // SLA
        let r = v << 1;
        (Cpu { f: znhc(c.f, r == 0, false, false, (v >> 7) != 0), ..c }, r)
    } else if g == 5 {
        // SRA
        let r = (v >> 1) | (v & 0x80);
        (Cpu { f: znhc(c.f, r == 0, false, false, (v & 1) != 0), ..c }, r)
    } else if g == 6 {
        // SWAP
        let r = (v >> 4) | (v << 4);
        (Cpu { f: znhc(c.f, r == 0, false, false, false), ..c }, r)
    } else if g == 7 {
        // SRL
        let r = v >> 1;
        (Cpu { f: znhc(c.f, r == 0, false, false, (v & 1) != 0), ..c }, r)
    } else if g < 24 {
        // RES
        (c, v & !(1u8 << ((g - 16) as u8)))
    } else {
        // SET
        (c, v | (1u8 << ((g - 24) as u8)))
    }
}

/// The effect of the CB-prefixed instruction `op` (PC past it): operand
/// by bits 2-0, operation by bits 7-3; BIT only sets flags.
#[verifier::opaque]
pub open spec fn cb_spec(c: Cpu, b: BusView, op: u8) -> (Cpu, BusView, u32) {
    let i = (op % 8) as u8;
    let g = (op / 8) as u8;
    let v = get_r8(c, b, i);
    if 8 <= g < 16 {
        // BIT
        let bit = (g - 8) as u8;
        (
            Cpu { f: znh(c.f, v & (1u8 << bit) == 0, false, true), ..c },
            b,
            if i == 6 { 12 } else { 8 },
        )
    } else {
        let (c1, r) = cb_result(c, v, g);
        let (c2, b2) = set_r8(c1, b, i, r);
        (c2, b2, if i == 6 { 16 } else { 8 })
    }
}

/// Interrupts pending and enabled: IE & IF over the five sources.
pub open spec fn pending(b: BusView) -> u8 {
    b.read(0xFFFF) & b.read(0xFF0F) & 0x1F
}

/// Interrupt dispatch: with IME set and a request pending, the
/// lowest-numbered one is acknowledged in IF, PC is pushed and execution
/// goes to vector 0x40 + 8 × number (20 cycles). A pending request also
/// ends HALT. Returns 0 cycles when nothing is dispatched.
pub open spec fn interrupt_spec(c: Cpu, b: BusView) -> (Cpu, BusView, u32) {
    if !c.ime && !c.halted {
        (c, b, 0)
    } else if pending(b) == 0 {
        (c, b, 0)
    } else if !c.ime {
        (Cpu { halted: false, ..c }, b, 0)
    } else {
        let bit = u8_trailing_zeros(pending(b)) as u8;
        let b1 = b.write(0xFF0F, b.read(0xFF0F) & !(1u8 << bit));
        let (c2, b2) = push_spec(Cpu { halted: false, ime: false, ..c }, b1, c.pc);
        (Cpu { pc: (0x0040 + bit * 8) as u16, ..c2 }, b2, 20)
    }
}

/// One CPU step: a scheduled EI takes effect, then an interrupt is
/// dispatched if one is due, else a halted CPU idles 4 cycles, else the
/// opcode at PC is fetched and executed.
pub open spec fn step_spec(c: Cpu, b: BusView) -> (Cpu, BusView, u32) {
    let c0 = if c.ime_scheduled {
        Cpu { ime_scheduled: false, ime: true, ..c }
    } else {
        c
    };
    let (c1, b1, ic) = interrupt_spec(c0, b);
    if ic > 0 {
        (c1, b1, ic)
    } else if c1.halted {
        (c1, b1, 4)
    } else {
        exec_spec(c1.advance(1), b1, imm8(c1, b1))
    }
}

/// Setting a flag bit reads back as set, and leaves the other bits alone.
pub proof fn lemma_flag_after_set(f: u8, bit: u8, val: bool, other: u8)
    requires
        bit < 8,
        other < 8,
    ensures
        flag_bit(set_flag_bit(f, bit, val), bit) == val,
        other != bit ==> flag_bit(set_flag_bit(f, bit, val), other) == flag_bit(f, other),
{
    assert(flag_bit(f | (1u8 << bit), bit) && !flag_bit(f & !(1u8 << bit), bit) && (other != bit ==> (flag_bit(
        f | (1u8 << bit),
        other,
    ) == flag_bit(f, other) && flag_bit(f & !(1u8 << bit), other) == flag_bit(f, other)))) by (bit_vector)
        requires
            bit < 8,
            other < 8,
    ;
}

/// Loading AF (POP AF) always leaves the low nibble of F clear.
pub proof fn lemma_af_low_nibble_clear(c: Cpu, v: u16)
    ensures
        c.with_af(v).f & 0x0F == 0,
{
    assert(((v & 0xF0) as u8) & 0x0F == 0) by (bit_vector);
}

/// Splitting a 16-bit value into bytes and joining them gives it back.
pub proof fn lemma_pair_of_bytes(v: u16)
    ensures
        pair(hi_byte(v), lo_byte(v)) == v,
{
}

/// POP gives back what PUSH stored, and SP returns to where it was, when
/// the two stack bytes lie in plain memory (RAM, HRAM or IE).
pub proof fn lemma_push_then_pop(c: Cpu, b: BusView, v: u16)
    requires
        b.wf(),
        is_plain_memory(c.sp.wrapping_sub(2)),
        is_plain_memory(c.sp.wrapping_sub(1)),
    ensures
        ({
            let (c2, b2) = push_spec(c, b, v);
            &&& stack_top(c2, b2) == v
            &&& popped(c2).sp == c.sp
        }),
{
    let sp = c.sp.wrapping_sub(2);
    let b1 = b.write(sp, lo_byte(v));
    lemma_write_keeps_wf(b, sp, lo_byte(v));
    lemma_read_after_write(b1, sp.wrapping_add(1), hi_byte(v));
    lemma_read_after_write(b, sp, lo_byte(v));
    lemma_write_other_cell(b1, sp.wrapping_add(1), hi_byte(v), sp);
}

/// Interrupt priority: a dispatch serves the lowest-numbered interrupt
/// that is both enabled and requested, jumping to its vector
/// 0x40 + 8 × number, in 20 cycles, with IME cleared and the old PC
/// pushed.
pub proof fn lemma_interrupt_priority(c: Cpu, b: BusView)
    requires
        c.ime,
        pending(b) != 0,
    ensures
        ({
            let (c2, b2, cycles) = interrupt_spec(c, b);
            let k = u8_trailing_zeros(pending(b));
            &&& cycles == 20
            &&& k < 5
            &&& c2.pc == 0x40 + 8 * k
            &&& (pending(b) >> k as u8) & 1 == 1
            &&& forall|j: u8| j < k ==> #[trigger] ((pending(b) >> j) & 1) == 0
            &&& !c2.ime
            &&& !c2.halted
            &&& c2.sp == c.sp.wrapping_sub(2)
        }),
{
    let p = pending(b);
    vstd::std_specs::bits::axiom_u8_trailing_zeros(p);
    let k = u8_trailing_zeros(p) as u8;
    assert(p & 0x1F == p) by {
        let x = b.read(0xFFFF);
        let y = b.read(0xFF0F);
        assert((x & y & 0x1F) & 0x1F == x & y & 0x1F) by (bit_vector);
    }
    assert(k < 5) by {
        assert(((p & 0x1F == p) && k < 8 && (p >> k) & 1 == 1) ==> k < 5) by (bit_vector);
    }
}

/// A halted CPU with no interrupt pending and no EI in flight idles for 4
/// cycles and changes nothing.
pub proof fn lemma_halt_idles(c: Cpu, b: BusView)
    requires
        c.halted,
        !c.ime_scheduled,
        pending(b) == 0,
    ensures
        step_spec(c, b) == (c, b, 4u32),
{
}

/// EI takes effect one instruction late: executing it only schedules
/// IME, and the next step turns IME on before it looks for interrupts.
pub proof fn lemma_ei_delayed(c: Cpu, b: BusView)
    ensures
        exec_spec(c, b, 0xFB).0.ime == c.ime,
        exec_spec(c, b, 0xFB).0.ime_scheduled,
        ({
            let c1 = exec_spec(c, b, 0xFB).0;
            let c2 = Cpu { ime_scheduled: false, ime: true, ..c1 };
            step_spec(c1, b) == ({
                let (c3, b3, ic) = interrupt_spec(c2, b);
                if ic > 0 {
                    (c3, b3, ic)
                } else if c3.halted {
                    (c3, b3, 4u32)
                } else {
                    exec_spec(c3.advance(1), b3, imm8(c3, b3))
                }
            })
        }),
{
    reveal(exec_block3);
}

/// Every instruction takes between 4 and 24 T-cycles.
pub proof fn lemma_exec_cycles(c: Cpu, b: BusView, op: u8)
    ensures
        4 <= exec_spec(c, b, op).2 <= 24,
{
    reveal(exec_block0);
    reveal(exec_block1);
    reveal(exec_block2);
    reveal(exec_block3);
    reveal(cb_spec);
}

/// A CPU step takes between 4 and 24 T-cycles: an instruction, an idle
/// halted step, or an interrupt dispatch.
pub proof fn lemma_step_cycles(c: Cpu, b: BusView)
    ensures
        4 <= step_spec(c, b).2 <= 24,
{
    let c0 = if c.ime_scheduled {
        Cpu { ime_scheduled: false, ime: true, ..c }
    } else {
        c
    };
    let (c1, b1, ic) = interrupt_spec(c0, b);
    lemma_exec_cycles(c1.advance(1), b1, imm8(c1, b1));
}

/// No instruction can break the frame invariant: all its writes go
/// through the bus.
pub proof fn lemma_exec_keeps_frame_inv(c: Cpu, b: BusView, op: u8)
    requires
        b.frame_inv(),
    ensures
        exec_spec(c, b, op).1.frame_inv(),
{
    broadcast use lemma_write_keeps_frame_inv;

    reveal(exec_block0);
    reveal(exec_block1);
    reveal(exec_block2);
    reveal(exec_block3);
    reveal(cb_spec);
}

/// No CPU step can break the frame invariant.
pub proof fn lemma_step_keeps_frame_inv(c: Cpu, b: BusView)
    requires
        b.frame_inv(),
    ensures
        step_spec(c, b).1.frame_inv(),
{
    broadcast use lemma_write_keeps_frame_inv;

    let c0 = if c.ime_scheduled {
        Cpu { ime_scheduled: false, ime: true, ..c }
    } else {
        c
    };
    let (c1, b1, ic) = interrupt_spec(c0, b);
    lemma_exec_keeps_frame_inv(c1.advance(1), b1, imm8(c1, b1));
}

} // verus!
