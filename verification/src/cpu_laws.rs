use vstd::prelude::*;
use crate::bus::{BusView, is_plain_memory};
use crate::cpu::Cpu;
use crate::cpu_spec::{
    FLAG_C, FLAG_H, FLAG_N, FLAG_Z, cb_result, cb_spec, exec_spec, flag_bit, get_r8, imm16, imm8, set_r8,
    interrupt_spec, lemma_push_then_pop, set_flag_bit, stack_top, step_spec, znhc,
};

verus! {

/// Whether `x` is packed BCD: both nibbles are decimal digits.
pub open spec fn is_bcd(x: u8) -> bool {
    x / 16 <= 9 && x % 16 <= 9
}

/// The number 0..=99 that a packed BCD byte stands for.
pub open spec fn bcd_value(x: u8) -> int {
    (x / 16) * 10 + x % 16
}

/// The packed BCD byte of a number 0..=99.
pub open spec fn to_bcd(n: int) -> u8 {
    ((n / 10) * 16 + n % 10) as u8
}

/// How the flag-byte updates of the instruction set read back through
/// the flag bits (Z bit 7, N bit 6, H bit 5, C bit 4).
proof fn lemma_flag_byte(f: u8, z: bool, n: bool, h: bool, cy: bool)
    by (bit_vector)
    ensures
        flag_bit(znhc(f, z, n, h, cy), 7) == z,
        flag_bit(znhc(f, z, n, h, cy), 6) == n,
        flag_bit(znhc(f, z, n, h, cy), 5) == h,
        flag_bit(znhc(f, z, n, h, cy), 4) == cy,
        znhc(f, z, n, h, cy) & 0x0F == f & 0x0F,
        flags_are(znhc(f, z, n, h, cy), z, n, h, cy),
        flags_are(crate::cpu_spec::znh(f, z, n, h), z, n, h, f & 0x10 != 0),
        crate::cpu_spec::znh(f, z, n, h) == znhc(f, z, n, h, f & 0x10 != 0),
        flags_are(crate::cpu_spec::nhc(f, false, h, cy), f & 0x80 != 0, false, h, cy),
        flag_bit(set_flag_bit(set_flag_bit(set_flag_bit(f, 7, z), 5, false), 4, cy), 7) == z,
        flag_bit(set_flag_bit(set_flag_bit(set_flag_bit(f, 7, z), 5, false), 4, cy), 6) == flag_bit(f, 6),
        !flag_bit(set_flag_bit(set_flag_bit(set_flag_bit(f, 7, z), 5, false), 4, cy), 5),
        flag_bit(set_flag_bit(set_flag_bit(set_flag_bit(f, 7, z), 5, false), 4, cy), 4) == cy,
        flags_are(set_flag_bit(set_flag_bit(f, 6, true), 5, true), f & 0x80 != 0, true, true, f & 0x10 != 0),
        flags_are(set_flag_bit(0, 4, cy), false, false, false, cy),
        set_flag_bit(0, 4, cy) & 0x0F == 0,
        (f & (1u8 << 7u8) != 0) == (f & 0x80 != 0),
        (f & (1u8 << 4u8) != 0) == (f & 0x10 != 0),
{
}

/// How the flag updates of the ALU read back: each named flag as set,
/// and the low nibble of F untouched.
pub proof fn lemma_znhc_flags(f: u8, z: bool, n: bool, h: bool, cy: bool)
    ensures
        flag_bit(znhc(f, z, n, h, cy), FLAG_Z) == z,
        flag_bit(znhc(f, z, n, h, cy), FLAG_N) == n,
        flag_bit(znhc(f, z, n, h, cy), FLAG_H) == h,
        flag_bit(znhc(f, z, n, h, cy), FLAG_C) == cy,
        znhc(f, z, n, h, cy) & 0x0F == f & 0x0F,
{
    lemma_flag_byte(f, z, n, h, cy);
}

/// How the flag update of DAA reads back: Z, H and C as set, N kept.
proof fn lemma_daa_flags(f: u8, z: bool, cy: bool)
    ensures
        ({
            let g = set_flag_bit(set_flag_bit(set_flag_bit(f, FLAG_Z, z), FLAG_H, false), FLAG_C, cy);
            &&& flag_bit(g, FLAG_Z) == z
            &&& flag_bit(g, FLAG_N) == flag_bit(f, FLAG_N)
            &&& !flag_bit(g, FLAG_H)
            &&& flag_bit(g, FLAG_C) == cy
        }),
{
    lemma_flag_byte(f, z, false, false, cy);
}

/// CP sets the flags exactly as SUB does, and leaves A and every other
/// register as they were.
pub proof fn lemma_cp_flags_of_sub(c: Cpu, v: u8)
    ensures
        c.cp_spec(v) == (Cpu { f: c.sub_spec(v).f, ..c }),
{
    reveal(Cpu::cp_spec);
    reveal(Cpu::sub_spec);
}

/// The decimal adjustment of a BCD sum, in bytes: the adjusted byte is
/// the BCD of the sum modulo 100, with a carry exactly when it reached 100.
proof fn lemma_daa_add_bytes(x: u8, y: u8)
    requires
        is_bcd(x),
        is_bcd(y),
    ensures
        ({
            let s = x.wrapping_add(y);
            let carry = x + y > 255 || s > 0x99;
            let low = x % 16 + y % 16 > 15 || s % 16 > 9;
            let adjust = ((if carry { 0x60u8 } else { 0u8 }) + (if low { 0x06u8 } else { 0u8 })) as u8;
            let n = bcd_value(x) + bcd_value(y);
            &&& s.wrapping_add(adjust) == to_bcd(n % 100)
            &&& carry == (n >= 100)
        }),
{
    assert({
        let s = x.wrapping_add(y);
        let carry = x + y > 255 || s > 0x99;
        let low = x % 16 + y % 16 > 15 || s % 16 > 9;
        let adjust = ((if carry { 0x60u8 } else { 0u8 }) + (if low { 0x06u8 } else { 0u8 })) as u8;
        let n = (x / 16) * 10 + x % 16 + (y / 16) * 10 + y % 16;
        &&& s.wrapping_add(adjust) == (((n % 100) / 10) * 16 + (n % 100) % 10) as u8
        &&& carry == (n >= 100)
    }) by (bit_vector)
        requires
            x / 16 <= 9 && x % 16 <= 9,
            y / 16 <= 9 && y % 16 <= 9,
    ;
}

/// The decimal adjustment of a BCD difference, in bytes: the adjusted
/// byte is the BCD of the difference modulo 100, with a borrow exactly
/// when the subtrahend was larger.
proof fn lemma_daa_sub_bytes(x: u8, y: u8)
    requires
        is_bcd(x),
        is_bcd(y),
    ensures
        ({
            let s = x.wrapping_sub(y);
            let carry = x < y;
            let low = x % 16 < y % 16;
            let adjust = ((if carry { 0x60u8 } else { 0u8 }) + (if low { 0x06u8 } else { 0u8 })) as u8;
            let n = bcd_value(x) + 100 - bcd_value(y);
            &&& s.wrapping_sub(adjust) == to_bcd(n % 100)
            &&& carry == (bcd_value(x) < bcd_value(y))
        }),
{
    assert({
        let s = x.wrapping_sub(y);
        let carry = x < y;
        let low = x % 16 < y % 16;
        let adjust = ((if carry { 0x60u8 } else { 0u8 }) + (if low { 0x06u8 } else { 0u8 })) as u8;
        let n = (x / 16) * 10 + x % 16 + 100 - ((y / 16) * 10 + y % 16);
        &&& s.wrapping_sub(adjust) == (((n % 100) / 10) * 16 + (n % 100) % 10) as u8
        &&& carry == ((x / 16) * 10 + x % 16 < (y / 16) * 10 + y % 16)
    }) by (bit_vector)
        requires
            x / 16 <= 9 && x % 16 <= 9,
            y / 16 <= 9 && y % 16 <= 9,
    ;
}

/// DAA after ADD of two packed BCD numbers gives the packed BCD of their
/// sum modulo 100, with the carry set exactly when the sum reached 100.
pub proof fn lemma_daa_after_add(c: Cpu, y: u8)
    requires
        is_bcd(c.a),
        is_bcd(y),
    ensures
        ({
            let d = c.add_spec(y).daa_spec();
            let n = bcd_value(c.a) + bcd_value(y);
            &&& d.a == to_bcd(n % 100)
            &&& d.flag_spec(FLAG_C) == (n >= 100)
            &&& d.flag_spec(FLAG_Z) == (d.a == 0)
            &&& !d.flag_spec(FLAG_N)
            &&& !d.flag_spec(FLAG_H)
        }),
{
    reveal(Cpu::add_spec);
    let x = c.a;
    let s = x.wrapping_add(y);
    lemma_znhc_flags(c.f, s == 0, false, x % 16 + y % 16 > 15, x + y > 255);
    lemma_daa_add_bytes(x, y);
    let a1 = c.add_spec(y);
    let d = a1.daa_spec();
    lemma_daa_flags(a1.f, d.a == 0, x + y > 255 || s > 0x99);
}

/// DAA after SUB of two packed BCD numbers gives the packed BCD of their
/// difference modulo 100, with the carry (borrow) set exactly when the
/// subtrahend was the larger.
pub proof fn lemma_daa_after_sub(c: Cpu, y: u8)
    requires
        is_bcd(c.a),
        is_bcd(y),
    ensures
        ({
            let d = c.sub_spec(y).daa_spec();
            let n = bcd_value(c.a) + 100 - bcd_value(y);
            &&& d.a == to_bcd(n % 100)
            &&& d.flag_spec(FLAG_C) == (bcd_value(c.a) < bcd_value(y))
            &&& d.flag_spec(FLAG_Z) == (d.a == 0)
            &&& d.flag_spec(FLAG_N)
            &&& !d.flag_spec(FLAG_H)
        }),
{
    reveal(Cpu::sub_spec);
    let x = c.a;
    let s = x.wrapping_sub(y);
    lemma_znhc_flags(c.f, s == 0, true, x % 16 < y % 16, x < y);
    lemma_daa_sub_bytes(x, y);
    let a1 = c.sub_spec(y);
    let d = a1.daa_spec();
    lemma_daa_flags(a1.f, d.a == 0, x < y);
}

/// RRC undoes RLC on a register operand: after RLC r then RRC r the
/// register holds its old value again, both taking 8 cycles; Z tells
/// whether that value is zero, C holds its bit 7, N and H are clear, and
/// nothing else has changed.
pub proof fn lemma_rrc_undoes_rlc(c: Cpu, b: BusView, r: u8)
    requires
        r < 8,
        r != 6,
    ensures
        ({
            let v = get_r8(c, b, r);
            let (c1, b1, t1) = cb_spec(c, b, r);
            let (c2, b2, t2) = cb_spec(c1, b1, (0x08 + r) as u8);
            &&& t1 == 8 && t2 == 8
            &&& b2 == b
            &&& c2 == (Cpu { f: c2.f, ..c })
            &&& get_r8(c2, b2, r) == v
            &&& c2.flag_spec(FLAG_Z) == (v == 0)
            &&& c2.flag_spec(FLAG_C) == (v & 0x80 != 0)
            &&& !c2.flag_spec(FLAG_N)
            &&& !c2.flag_spec(FLAG_H)
        }),
{
    reveal(cb_spec);
    reveal(cb_result);
    let v = get_r8(c, b, r);
    let w = (v << 1) | (v >> 7);
    assert((w >> 1) | ((w & 1) << 7) == v && (w == 0) == (v == 0) && ((w & 1) != 0) == ((v >> 7) != 0)
        && ((v >> 7) != 0) == (v & 0x80 != 0)) by (bit_vector)
        requires
            w == (v << 1) | (v >> 7),
    ;
    let f1 = znhc(c.f, w == 0, false, false, (v >> 7) != 0);
    lemma_znhc_flags(f1, v == 0, false, false, (w & 1) != 0);
}

/// CALL a16 followed by RET comes back to the instruction after the
/// call: CALL (24 cycles) jumps to its operand with the return address on
/// the stack two bytes down, and RET (16 cycles) restores PC to that
/// address and SP to where it was, every other register unchanged. The
/// two stack bytes must be plain memory.
pub proof fn lemma_call_then_ret(c: Cpu, b: BusView)
    requires
        b.wf(),
        is_plain_memory(c.sp.wrapping_sub(2)),
        is_plain_memory(c.sp.wrapping_sub(1)),
    ensures
        ({
            let (c1, b1, t1) = exec_spec(c, b, 0xCD);
            let (c2, b2, t2) = exec_spec(c1, b1, 0xC9);
            &&& t1 == 24
            &&& c1 == (Cpu { pc: imm16(c, b), sp: c.sp.wrapping_sub(2), ..c })
            &&& stack_top(c1, b1) == c.pc.wrapping_add(2)
            &&& t2 == 16
            &&& b2 == b1
            &&& c2 == (Cpu { pc: c.pc.wrapping_add(2), ..c })
        }),
{
    reveal(crate::cpu_spec::exec_block3);
    lemma_push_then_pop(c.advance(2), b, c.pc.wrapping_add(2));
}

/// Setting or clearing one of the four flag bits leaves the low nibble
/// of F alone.
pub broadcast proof fn lemma_flag_update_low_nibble(f: u8, bit: u8, val: bool)
    requires
        4 <= bit < 8,
    ensures
        #[trigger] set_flag_bit(f, bit, val) & 0x0F == f & 0x0F,
{
    assert(set_flag_bit(f, bit, val) & 0x0F == f & 0x0F) by (bit_vector)
        requires
            4 <= bit < 8,
    ;
}

/// Loading AF from a 16-bit value leaves the low nibble of F clear.
pub broadcast proof fn lemma_af_load_low_nibble(c: Cpu, v: u16)
    ensures
        #[trigger] c.with_af(v).f & 0x0F == 0,
{
    assert(((v & 0xF0) as u8) & 0x0F == 0) by (bit_vector);
}

/// F keeps the layout Z N H C 0 0 0 0 through every instruction: the low
/// nibble of F, clear before, is clear after.
pub proof fn lemma_exec_keeps_f_low_nibble(c: Cpu, b: BusView, op: u8)
    requires
        c.f & 0x0F == 0,
    ensures
        exec_spec(c, b, op).0.f & 0x0F == 0,
{
    broadcast use {lemma_flag_update_low_nibble, lemma_af_load_low_nibble};

    reveal(crate::cpu_spec::exec_block0);
    reveal(crate::cpu_spec::exec_block1);
    reveal(crate::cpu_spec::exec_block2);
    reveal(crate::cpu_spec::exec_block3);
    reveal(cb_spec);
    reveal(cb_result);
    reveal(Cpu::add_spec);
    reveal(Cpu::adc_spec);
    reveal(Cpu::sub_spec);
    reveal(Cpu::sbc_spec);
    reveal(Cpu::and_spec);
    reveal(Cpu::xor_spec);
    reveal(Cpu::or_spec);
    reveal(Cpu::cp_spec);
    assert(0u8 & 0x0F == 0) by (bit_vector);
}

/// F keeps the layout Z N H C 0 0 0 0 through every CPU step, interrupt
/// dispatch and idle halted step included.
pub proof fn lemma_step_keeps_f_low_nibble(c: Cpu, b: BusView)
    requires
        c.f & 0x0F == 0,
    ensures
        step_spec(c, b).0.f & 0x0F == 0,
{
    let c0 = if c.ime_scheduled {
        Cpu { ime_scheduled: false, ime: true, ..c }
    } else {
        c
    };
    let (c1, b1, ic) = interrupt_spec(c0, b);
    lemma_exec_keeps_f_low_nibble(c1.advance(1), b1, imm8(c1, b1));
}

/// Whether branch condition `cc` (bits 4-3 of a conditional jump, call or
/// return: NZ, Z, NC, C) holds for the flag byte `f`: Z is bit 7, C bit 4.
pub open spec fn condition_met(f: u8, cc: u8) -> bool {
    if cc == 0 {
        f & 0x80 == 0
    } else if cc == 1 {
        f & 0x80 != 0
    } else if cc == 2 {
        f & 0x10 == 0
    } else {
        f & 0x10 != 0
    }
}

/// The flag tests of the decoder read Z from bit 7 and C from bit 4.
proof fn lemma_condition_bits(c: Cpu, cc: u8)
    requires
        cc < 4,
    ensures
        c.cond(cc) == condition_met(c.f, cc),
{
    lemma_flag_byte(c.f, false, false, false, false);
}

/// The target of a relative jump: the address after the operand plus
/// the operand read as a signed byte, modulo 2^16.
pub open spec fn jr_target(pc: u16, r: u8) -> u16 {
    ((pc + 1 + (if r < 128 { r as int } else { r - 256 })) % 0x10000) as u16
}

/// The little-endian 16-bit value at `addr`.
pub open spec fn word_at(b: BusView, addr: u16) -> u16 {
    (b.read(addr) + 256 * b.read(addr.wrapping_add(1))) as u16
}

/// JR r8 and JR cc,r8 (0x18, 0x20, 0x28, 0x30, 0x38): when the condition
/// holds (always for 0x18) PC goes to the address after the operand plus
/// the signed operand, in 12 cycles; otherwise PC just moves past the
/// operand, in 8. Nothing else changes.
#[verifier::spinoff_prover]
#[verifier::rlimit(100)]
pub proof fn lemma_jr(c: Cpu, b: BusView, op: u8)
    requires
        op == 0x18 || op == 0x20 || op == 0x28 || op == 0x30 || op == 0x38,
    ensures
        ({
            let (c2, b2, t) = exec_spec(c, b, op);
            let taken = op == 0x18 || condition_met(c.f, ((op - 0x20) / 8) as u8);
            &&& b2 == b
            &&& taken ==> t == 12 && c2 == (Cpu { pc: jr_target(c.pc, b.read(c.pc)), ..c })
            &&& !taken ==> t == 8 && c2 == (Cpu { pc: c.pc.wrapping_add(1), ..c })
        }),
{
    reveal(crate::cpu_spec::exec_block0);
    let r = b.read(c.pc);
    lemma_jr_target(c.pc, r);
    if op != 0x18 {
        lemma_condition_bits(c, ((op - 0x20) / 8) as u8);
    }
}

/// The decoder's relative jump from the advanced PC lands on `jr_target`.
proof fn lemma_jr_target(pc: u16, r: u8)
    ensures
        crate::cpu_spec::relative(pc.wrapping_add(1), r) == jr_target(pc, r),
{
    let s: int = if r < 128 { r as int } else { r - 256 };
    if pc == 0xFFFF {
        vstd::arithmetic::div_mod::lemma_mod_add_multiples_vanish(s, 0x10000);
    }
}

/// JP cc,a16 (0xC2, 0xCA, 0xD2, 0xDA): when the condition holds PC goes
/// to the operand, in 16 cycles; otherwise PC moves past the two operand
/// bytes, in 12. Nothing else changes.
pub proof fn lemma_jp_cc(c: Cpu, b: BusView, op: u8)
    requires
        op == 0xC2 || op == 0xCA || op == 0xD2 || op == 0xDA,
    ensures
        ({
            let (c2, b2, t) = exec_spec(c, b, op);
            let taken = condition_met(c.f, ((op - 0xC2) / 8) as u8);
            &&& b2 == b
            &&& taken ==> t == 16 && c2 == (Cpu { pc: word_at(b, c.pc), ..c })
            &&& !taken ==> t == 12 && c2 == (Cpu { pc: c.pc.wrapping_add(2), ..c })
        }),
{
    reveal(crate::cpu_spec::exec_block3);
    lemma_condition_bits(c, ((op - 0xC2) / 8) as u8);
}

/// CALL cc,a16 (0xC4, 0xCC, 0xD4, 0xDC): when the condition holds the
/// address after the operand is pushed (low byte at SP-2, high byte at
/// SP-1) and PC goes to the operand, in 24 cycles; otherwise PC moves
/// past the operand, in 12, and nothing is written.
pub proof fn lemma_call_cc(c: Cpu, b: BusView, op: u8)
    requires
        op == 0xC4 || op == 0xCC || op == 0xD4 || op == 0xDC,
    ensures
        ({
            let (c2, b2, t) = exec_spec(c, b, op);
            let taken = condition_met(c.f, ((op - 0xC4) / 8) as u8);
            let ret = c.pc.wrapping_add(2);
            let sp = c.sp.wrapping_sub(2);
            &&& taken ==> t == 24 && c2 == (Cpu { pc: word_at(b, c.pc), sp, ..c }) && b2 == b.write(
                sp,
                (ret % 256) as u8,
            ).write(sp.wrapping_add(1), (ret / 256) as u8)
            &&& !taken ==> t == 12 && c2 == (Cpu { pc: ret, ..c }) && b2 == b
        }),
{
    reveal(crate::cpu_spec::exec_block3);
    lemma_condition_bits(c, ((op - 0xC4) / 8) as u8);
}

/// RET cc (0xC0, 0xC8, 0xD0, 0xD8): when the condition holds PC is loaded
/// from the stack (low byte at SP) and SP moves up by two, in 20 cycles;
/// otherwise nothing changes but the 8 cycles spent.
pub proof fn lemma_ret_cc(c: Cpu, b: BusView, op: u8)
    requires
        op == 0xC0 || op == 0xC8 || op == 0xD0 || op == 0xD8,
    ensures
        ({
            let (c2, b2, t) = exec_spec(c, b, op);
            let taken = condition_met(c.f, ((op - 0xC0) / 8) as u8);
            &&& b2 == b
            &&& taken ==> t == 20 && c2 == (Cpu { pc: word_at(b, c.sp), sp: c.sp.wrapping_add(2), ..c })
            &&& !taken ==> t == 8 && c2 == c
        }),
{
    reveal(crate::cpu_spec::exec_block3);
    lemma_condition_bits(c, ((op - 0xC0) / 8) as u8);
}

/// Register number `j` of the 8-bit groups: B, C, D, E, H, L, (6 is the
/// byte at HL, no register), A.
pub open spec fn register(c: Cpu, j: u8) -> u8 {
    if j == 0 {
        c.b
    } else if j == 1 {
        c.c
    } else if j == 2 {
        c.d
    } else if j == 3 {
        c.e
    } else if j == 4 {
        c.h
    } else if j == 5 {
        c.l
    } else {
        c.a
    }
}

/// The value of operand `z` of the 8-bit groups: B, C, D, E, H, L, the
/// byte at HL, A.
pub open spec fn operand8(c: Cpu, b: BusView, z: u8) -> u8 {
    if z == 6 {
        b.read((c.h * 256 + c.l) as u16)
    } else {
        register(c, z)
    }
}

/// Register `j` (an operand number other than 6) of `c2` holds `v`; every
/// other register and every other field of `c2` is as in `c1`.
pub open spec fn stores_register(c1: Cpu, c2: Cpu, j: u8, v: u8) -> bool {
    &&& c2 == (Cpu { a: c2.a, b: c2.b, c: c2.c, d: c2.d, e: c2.e, h: c2.h, l: c2.l, ..c1 })
    &&& forall|i: u8| #![trigger register(c2, i)] i < 8 && i != 6 ==> register(c2, i) == (if i == j {
        v
    } else {
        register(c1, i)
    })
}

/// Whether the flag byte `f` has Z, N, H and C (bits 7, 6, 5, 4) as given.
pub open spec fn flags_are(f: u8, z: bool, n: bool, h: bool, cy: bool) -> bool {
    &&& (f & 0x80 != 0) == z
    &&& (f & 0x40 != 0) == n
    &&& (f & 0x20 != 0) == h
    &&& (f & 0x10 != 0) == cy
}

/// The eight ALU operations on A and a value v, with k the carry flag as
/// 0 or 1: ADD gives (A + v) mod 256 with H from the low nibbles and C
/// when the sum passes 255; ADC adds k too; SUB gives (A − v) mod 256 with
/// N set, H on a borrow from bit 4 and C when v > A; SBC subtracts k too;
/// AND, XOR, OR give the bitwise result, with H set for AND only; CP sets
/// the flags of SUB and keeps A. Z is set exactly when the result is 0,
/// and no other register changes.
#[verifier::spinoff_prover]
#[verifier::rlimit(100)]
pub proof fn lemma_alu_results(c: Cpu, v: u8)
    ensures
        ({
            let a = c.a as int;
            let k: int = if c.f & 0x10 != 0 { 1 } else { 0 };
            let add = c.alu(0, v);
            let adc = c.alu(1, v);
            let sub = c.alu(2, v);
            let sbc = c.alu(3, v);
            let and = c.alu(4, v);
            let xor = c.alu(5, v);
            let or = c.alu(6, v);
            let cp = c.alu(7, v);
            &&& add == (Cpu { a: add.a, f: add.f, ..c }) && add.a == (a + v) % 256
            &&& flags_are(add.f, add.a == 0, false, a % 16 + v % 16 > 15, a + v > 255)
            &&& adc == (Cpu { a: adc.a, f: adc.f, ..c }) && adc.a == (a + v + k) % 256
            &&& flags_are(adc.f, adc.a == 0, false, a % 16 + v % 16 + k > 15, a + v + k > 255)
            &&& sub == (Cpu { a: sub.a, f: sub.f, ..c }) && sub.a == (a - v + 256) % 256
            &&& flags_are(sub.f, sub.a == 0, true, a % 16 < v % 16, a < v)
            &&& sbc == (Cpu { a: sbc.a, f: sbc.f, ..c }) && sbc.a == (a - v - k + 512) % 256
            &&& flags_are(sbc.f, sbc.a == 0, true, a % 16 < v % 16 + k, a < v + k)
            &&& and == (Cpu { a: c.a & v, f: and.f, ..c })
            &&& flags_are(and.f, c.a & v == 0, false, true, false)
            &&& xor == (Cpu { a: c.a ^ v, f: xor.f, ..c })
            &&& flags_are(xor.f, c.a ^ v == 0, false, false, false)
            &&& or == (Cpu { a: c.a | v, f: or.f, ..c })
            &&& flags_are(or.f, c.a | v == 0, false, false, false)
            &&& cp == (Cpu { f: cp.f, ..c })
            &&& flags_are(cp.f, a == v, true, a % 16 < v % 16, a < v)
        }),
{
    reveal(Cpu::add_spec);
    reveal(Cpu::adc_spec);
    reveal(Cpu::sub_spec);
    reveal(Cpu::sbc_spec);
    reveal(Cpu::and_spec);
    reveal(Cpu::xor_spec);
    reveal(Cpu::or_spec);
    reveal(Cpu::cp_spec);
    let f = c.f;
    lemma_flag_byte(f, false, false, false, false);
    let a = c.a;
    let k: u8 = if c.f & 0x10 != 0 { 1 } else { 0 };
    lemma_znhc_flags_raw(f, a.wrapping_add(v) == 0, false, a % 16 + v % 16 > 15, a + v > 255);
    lemma_znhc_flags_raw(f, a.wrapping_add(v).wrapping_add(k) == 0, false, a % 16 + v % 16 + k > 15, a + v + k > 255);
    lemma_znhc_flags_raw(f, a.wrapping_sub(v) == 0, true, a % 16 < v % 16, a < v);
    lemma_znhc_flags_raw(f, a.wrapping_sub(v).wrapping_sub(k) == 0, true, a % 16 < v % 16 + k, a < v + k);
    lemma_znhc_flags_raw(f, a & v == 0, false, true, false);
    lemma_znhc_flags_raw(f, a ^ v == 0, false, false, false);
    lemma_znhc_flags_raw(f, a | v == 0, false, false, false);
    lemma_znhc_flags_raw(f, a == v, true, a % 16 < v % 16, a < v);
}

/// The flag update of the ALU, read through the raw flag bits.
proof fn lemma_znhc_flags_raw(f: u8, z: bool, n: bool, h: bool, cy: bool)
    ensures
        flags_are(znhc(f, z, n, h, cy), z, n, h, cy),
{
    lemma_flag_byte(f, z, n, h, cy);
}

/// Opcodes 0x80..=0xBF run ALU operation (op − 0x80) / 8 on A and operand
/// op mod 8 (B, C, D, E, H, L, (HL), A), in 4 cycles, 8 for (HL); opcodes
/// 0xC6, 0xCE, ..., 0xFE run it on the byte after the opcode, in 8
/// cycles, moving PC past it. The bus is unchanged.
pub proof fn lemma_alu_opcodes(c: Cpu, b: BusView, op: u8)
    requires
        0x80 <= op <= 0xBF || (op >= 0xC6 && op % 8 == 6),
    ensures
        op <= 0xBF ==> exec_spec(c, b, op) == (
            c.alu(((op - 0x80) / 8) as u8, operand8(c, b, op % 8)),
            b,
            if op % 8 == 6 { 8u32 } else { 4u32 },
        ),
        op >= 0xC6 ==> exec_spec(c, b, op) == (
            Cpu { pc: c.pc.wrapping_add(1), ..c }.alu(((op - 0xC6) / 8) as u8, b.read(c.pc)),
            b,
            8u32,
        ),
{
    reveal(crate::cpu_spec::exec_block2);
    reveal(crate::cpu_spec::exec_block3);
}

/// The rotates and shifts of a byte as arithmetic, with k a carry of 0 or 1.
proof fn lemma_shift_bytes(v: u8, k: u8)
    requires
        k <= 1,
    ensures
        ((v << 1) | (v >> 7)) == (v * 2 + v / 128) % 256,
        ((v >> 1) | ((v & 1) << 7)) == v / 2 + (v % 2) * 128,
        ((v << 1) | k) == (v * 2 + k) % 256,
        ((v >> 1) | (k << 7)) == v / 2 + k * 128,
        (v << 1) == (v * 2) % 256,
        ((v >> 1) | (v & 0x80)) == v / 2 + (if v >= 128 { 128int } else { 0 }),
        ((v >> 4) | (v << 4)) == (v % 16) * 16 + v / 16,
        (v >> 1) == v / 2,
        !v == 255 - v,
        ((v >> 7) != 0) == (v >= 128),
        ((v & 1) != 0) == (v % 2 == 1),
{
    assert(((v << 1) | (v >> 7)) == (v * 2 + v / 128) % 256 && ((v >> 1) | ((v & 1) << 7)) == v / 2 + (v % 2) * 128
        && ((v << 1) | k) == (v * 2 + k) % 256 && ((v >> 1) | (k << 7)) == v / 2 + k * 128 && (v << 1) == (v
        * 2) % 256 && ((v >> 1) | (v & 0x80)) == v / 2 + (if v >= 128 { 128int } else { 0 }) && ((v >> 4) | (v
        << 4)) == (v % 16) * 16 + v / 16 && (v >> 1) == v / 2 && !v == 255 - v && ((v >> 7) != 0) == (v >= 128)
        && ((v & 1) != 0) == (v % 2 == 1)) by (bit_vector)
        requires
            k <= 1,
    ;
}

/// The CB rotates, shifts and SWAP on a value v, with k the carry flag
/// as 0 or 1: RLC (v·2 + bit 7) mod 256, RRC v/2 + bit 0·128, RL
/// (v·2 + k) mod 256, RR v/2 + k·128, SLA v·2 mod 256, SRA v/2 keeping
/// bit 7, SWAP the nibbles exchanged, SRL v/2. C takes the bit shifted out
/// (cleared by SWAP), Z is set exactly when the result is 0, N and H are
/// cleared, and nothing else changes.
#[verifier::spinoff_prover]
#[verifier::rlimit(100)]
pub proof fn lemma_cb_shift_results(c: Cpu, v: u8)
    ensures
        ({
            let k: int = if c.f & 0x10 != 0 { 1 } else { 0 };
            let hi = v >= 128;
            let lo = v % 2 == 1;
            &&& cb_result(c, v, 0).1 == (v * 2 + v / 128) % 256
            &&& cb_result(c, v, 1).1 == v / 2 + (v % 2) * 128
            &&& cb_result(c, v, 2).1 == (v * 2 + k) % 256
            &&& cb_result(c, v, 3).1 == v / 2 + k * 128
            &&& cb_result(c, v, 4).1 == (v * 2) % 256
            &&& cb_result(c, v, 5).1 == v / 2 + (if hi { 128int } else { 0 })
            &&& cb_result(c, v, 6).1 == (v % 16) * 16 + v / 16
            &&& cb_result(c, v, 7).1 == v / 2
            &&& forall|g: u8| #![trigger cb_result(c, v, g)] g < 8 ==> cb_result(c, v, g).0 == (Cpu { f: cb_result(c, v, g).0.f, ..c })
                && flags_are(cb_result(c, v, g).0.f, cb_result(c, v, g).1 == 0, false, false, if g == 0 || g == 2 || g == 4 {
                    hi
                } else if g == 6 {
                    false
                } else {
                    lo
                })
        }),
{
    reveal(cb_result);
    let f = c.f;
    lemma_flag_byte(f, false, false, false, false);
    let k: u8 = if c.f & 0x10 != 0 { 1 } else { 0 };
    lemma_shift_bytes(v, k);
    assert forall|g: u8| #![trigger cb_result(c, v, g)] g < 8 implies cb_result(c, v, g).0 == (Cpu {
        f: cb_result(c, v, g).0.f,
        ..c
    }) && flags_are(cb_result(c, v, g).0.f, cb_result(c, v, g).1 == 0, false, false, if g == 0 || g == 2 || g == 4 {
        v >= 128
    } else if g == 6 {
        false
    } else {
        v % 2 == 1
    }) by {
        let r = cb_result(c, v, g).1;
        lemma_znhc_flags_raw(f, r == 0, false, false, (v >> 7) != 0);
        lemma_znhc_flags_raw(f, r == 0, false, false, (v & 1) != 0);
        lemma_znhc_flags_raw(f, r == 0, false, false, false);
    }
}

/// BIT n, RES n and SET n (CB 0x40..=0xFF) on operand op mod 8: BIT sets
/// Z exactly when bit n of the operand is 0, clears N, sets H and keeps C,
/// changing nothing else (8 cycles, 12 for (HL)); RES and SET give the
/// operand with bit n cleared or set, that is minus or plus 2^n when it
/// was set or clear. n is bits 5-3 of the opcode.
#[verifier::spinoff_prover]
#[verifier::rlimit(100)]
pub proof fn lemma_cb_bit_ops(c: Cpu, b: BusView, op: u8)
    requires
        op >= 0x40,
    ensures
        ({
            let n = ((op / 8) % 8) as u8;
            let v = operand8(c, b, op % 8);
            let p: int = if n == 0 { 1 } else if n == 1 { 2 } else if n == 2 { 4 } else if n == 3 { 8 } else if n == 4 { 16 }
                else if n == 5 { 32 } else if n == 6 { 64 } else { 128 };
            let set = (v as int / p) % 2 == 1;
            let (c2, b2, t) = cb_spec(c, b, op);
            &&& op < 0x80 ==> b2 == b && t == (if op % 8 == 6 { 12u32 } else { 8u32 }) && c2 == (Cpu { f: c2.f, ..c })
                && flags_are(c2.f, !set, false, true, c.f & 0x10 != 0)
            &&& 0x80 <= op < 0xC0 ==> cb_result(c, v, (op / 8) as u8) == (c, (if set { v - p } else { v as int }) as u8)
            &&& op >= 0xC0 ==> cb_result(c, v, (op / 8) as u8) == (c, (if set { v as int } else { v + p }) as u8)
        }),
{
    reveal(cb_spec);
    reveal(cb_result);
    let n = ((op / 8) % 8) as u8;
    let v = get_r8(c, b, op % 8);
    assert(get_r8(c, b, op % 8) == operand8(c, b, op % 8));
    let f = c.f;
    assert(({
        let p: u8 = 1u8 << n;
        &&& p == (if n == 0 { 1u8 } else if n == 1 { 2 } else if n == 2 { 4 } else if n == 3 { 8 } else if n == 4 { 16 }
            else if n == 5 { 32 } else if n == 6 { 64 } else { 128 })
        &&& ((v & p) != 0) == ((v / p) % 2 == 1)
        &&& (v & !p) == (if (v / p) % 2 == 1 { v - p } else { v as int })
        &&& (v | p) == (if (v / p) % 2 == 1 { v as int } else { v + p })
    })) by (bit_vector)
        requires
            n < 8,
    ;
    lemma_znhc_flags_raw(f, v & (1u8 << n) == 0, false, true, f & 0x10 != 0);
    lemma_flag_byte(f, v & (1u8 << n) == 0, false, true, f & 0x10 != 0);
}

/// The CB operations other than BIT write their result back to their
/// operand: a register (8 cycles), or the byte at HL (16 cycles), with
/// the flags of the operation and nothing else changed.
pub proof fn lemma_cb_writeback(c: Cpu, b: BusView, op: u8)
    requires
        op < 0x40 || op >= 0x80,
    ensures
        ({
            let j = op % 8;
            let (c1, r) = cb_result(c, operand8(c, b, j), (op / 8) as u8);
            let (c2, b2, t) = cb_spec(c, b, op);
            &&& j == 6 ==> t == 16 && c2 == c1 && b2 == b.write((c.h * 256 + c.l) as u16, r)
            &&& j != 6 ==> t == 8 && b2 == b && stores_register(c1, c2, j, r)
        }),
{
    reveal(cb_spec);
    reveal(cb_result);
    let j = op % 8;
    assert(get_r8(c, b, j) == operand8(c, b, j));
}

/// LD r,r' (0x40..=0x7F but 0x76): operand (op / 8) mod 8 receives
/// operand op mod 8, in 4 cycles, 8 when either is the byte at HL;
/// nothing else changes. 0x76 is HALT.
pub proof fn lemma_ld_r_r(c: Cpu, b: BusView, op: u8)
    requires
        0x40 <= op <= 0x7F,
        op != 0x76,
    ensures
        ({
            let d = ((op / 8) % 8) as u8;
            let z = op % 8;
            let v = operand8(c, b, z);
            let (c2, b2, t) = exec_spec(c, b, op);
            &&& t == (if d == 6 || z == 6 { 8u32 } else { 4u32 })
            &&& d == 6 ==> c2 == c && b2 == b.write((c.h * 256 + c.l) as u16, v)
            &&& d != 6 ==> b2 == b && stores_register(c, c2, d, v)
        }),
{
    reveal(crate::cpu_spec::exec_block1);
    assert(get_r8(c, b, op % 8) == operand8(c, b, op % 8));
}

/// How the flag update of INC, DEC and BIT reads back: C is kept.
proof fn lemma_znh_flags_raw(f: u8, z: bool, n: bool, h: bool)
    ensures
        flags_are(crate::cpu_spec::znh(f, z, n, h), z, n, h, f & 0x10 != 0),
{
    lemma_flag_byte(f, z, n, h, false);
}

/// INC r and DEC r (0x04 + 8r, 0x05 + 8r): the operand becomes (v + 1)
/// mod 256 or (v − 1) mod 256; Z is set exactly when that is 0, N for DEC
/// only, H when the low nibble wraps (from 0xF for INC, from 0x0 for DEC),
/// and C is kept. 4 cycles on a register, 12 on the byte at HL.
#[verifier::spinoff_prover]
#[verifier::rlimit(100)]
pub proof fn lemma_inc_dec_r(c: Cpu, b: BusView, op: u8)
    requires
        op < 0x40,
        op % 8 == 4 || op % 8 == 5,
    ensures
        ({
            let j = (op / 8) as u8;
            let v = operand8(c, b, j);
            let inc = op % 8 == 4;
            let r: u8 = if inc { ((v + 1) % 256) as u8 } else { ((v + 255) % 256) as u8 };
            let (c2, b2, t) = exec_spec(c, b, op);
            &&& flags_are(c2.f, r == 0, !inc, if inc { v % 16 == 15 } else { v % 16 == 0 }, c.f & 0x10 != 0)
            &&& j == 6 ==> t == 12 && c2 == (Cpu { f: c2.f, ..c }) && b2 == b.write((c.h * 256 + c.l) as u16, r)
            &&& j != 6 ==> t == 4 && b2 == b && stores_register(Cpu { f: c2.f, ..c }, c2, j, r)
        }),
{
    let j = (op / 8) as u8;
    let v = get_r8(c, b, j);
    assert(v == operand8(c, b, j));
    if op % 8 == 4 {
        lemma_block0_inc_dec(c, b, j, 4);
        lemma_znh_flags_raw(c.f, v.wrapping_add(1) == 0, false, v % 16 == 15);
    } else {
        lemma_block0_inc_dec(c, b, j, 5);
        lemma_znh_flags_raw(c.f, v.wrapping_sub(1) == 0, true, v % 16 == 0);
    }
}

/// The INC r and DEC r rows of the decoder.
proof fn lemma_block0_inc_dec(c: Cpu, b: BusView, y: u8, z: u8)
    requires
        z == 4 || z == 5,
    ensures
        crate::cpu_spec::exec_block0(c, b, y, z) == ({
            let v = get_r8(c, b, y);
            let (c2, b2) = if z == 4 {
                set_r8(c.inc_flags(v), b, y, v.wrapping_add(1))
            } else {
                set_r8(c.dec_flags(v), b, y, v.wrapping_sub(1))
            };
            (c2, b2, if y == 6 { 12u32 } else { 4u32 })
        }),
{
    reveal(crate::cpu_spec::exec_block0);
}

/// LD r,d8 (0x06 + 8r): the operand receives the byte after the opcode
/// and PC moves past it; 8 cycles, 12 for the byte at HL.
pub proof fn lemma_ld_r_d8(c: Cpu, b: BusView, op: u8)
    requires
        op < 0x40,
        op % 8 == 6,
    ensures
        ({
            let j = (op / 8) as u8;
            let v = b.read(c.pc);
            let c1 = Cpu { pc: c.pc.wrapping_add(1), ..c };
            let (c2, b2, t) = exec_spec(c, b, op);
            &&& j == 6 ==> t == 12 && c2 == c1 && b2 == b.write((c.h * 256 + c.l) as u16, v)
            &&& j != 6 ==> t == 8 && b2 == b && stores_register(c1, c2, j, v)
        }),
{
    reveal(crate::cpu_spec::exec_block0);
}

/// The rotates of A and the flag operations (0x07, 0x0F, 0x17, 0x1F,
/// 0x2F, 0x37, 0x3F), with k the carry as 0 or 1: RLCA, RRCA, RLA and RRA
/// rotate A as their CB forms do but clear Z, N and H, C taking the bit
/// shifted out; CPL complements A and sets N and H; SCF sets C, CCF
/// complements it, both clearing N and H and keeping Z. 4 cycles each,
/// nothing else changes.
#[verifier::spinoff_prover]
#[verifier::rlimit(100)]
pub proof fn lemma_accumulator_ops(c: Cpu, b: BusView)
    ensures
        ({
            let a = c.a as int;
            let k: int = if c.f & 0x10 != 0 { 1 } else { 0 };
            let z = c.f & 0x80 != 0;
            let hi = a >= 128;
            let lo = a % 2 == 1;
            let rlca = exec_spec(c, b, 0x07);
            let rrca = exec_spec(c, b, 0x0F);
            let rla = exec_spec(c, b, 0x17);
            let rra = exec_spec(c, b, 0x1F);
            let cpl = exec_spec(c, b, 0x2F);
            let scf = exec_spec(c, b, 0x37);
            let ccf = exec_spec(c, b, 0x3F);
            &&& rlca == (Cpu { a: ((a * 2 + a / 128) % 256) as u8, f: rlca.0.f, ..c }, b, 4u32)
            &&& flags_are(rlca.0.f, false, false, false, hi) && rlca.0.f & 0x0F == 0
            &&& rrca == (Cpu { a: (a / 2 + (a % 2) * 128) as u8, f: rrca.0.f, ..c }, b, 4u32)
            &&& flags_are(rrca.0.f, false, false, false, lo) && rrca.0.f & 0x0F == 0
            &&& rla == (Cpu { a: ((a * 2 + k) % 256) as u8, f: rla.0.f, ..c }, b, 4u32)
            &&& flags_are(rla.0.f, false, false, false, hi) && rla.0.f & 0x0F == 0
            &&& rra == (Cpu { a: (a / 2 + k * 128) as u8, f: rra.0.f, ..c }, b, 4u32)
            &&& flags_are(rra.0.f, false, false, false, lo) && rra.0.f & 0x0F == 0
            &&& cpl == (Cpu { a: (255 - a) as u8, f: cpl.0.f, ..c }, b, 4u32)
            &&& flags_are(cpl.0.f, z, true, true, k == 1)
            &&& scf == (Cpu { f: scf.0.f, ..c }, b, 4u32) && flags_are(scf.0.f, z, false, false, true)
            &&& ccf == (Cpu { f: ccf.0.f, ..c }, b, 4u32) && flags_are(ccf.0.f, z, false, false, k == 0)
        }),
{
    reveal(crate::cpu_spec::exec_block0);
    let a = c.a;
    let f = c.f;
    let k: u8 = if c.f & 0x10 != 0 { 1 } else { 0 };
    lemma_flag_byte(f, false, false, false, false);
    lemma_shift_bytes(a, k);
    lemma_flag_byte(f, false, false, false, true);
    lemma_flag_byte(f, false, false, false, false);
}

/// Register pair `p` as a number: BC, DE, HL, then SP (`stack` false) or
/// AF (`stack` true), high register first.
pub open spec fn pair_value(c: Cpu, p: u8, stack: bool) -> int {
    if p == 0 {
        c.b * 256 + c.c
    } else if p == 1 {
        c.d * 256 + c.e
    } else if p == 2 {
        c.h * 256 + c.l
    } else if stack {
        c.a * 256 + c.f
    } else {
        c.sp as int
    }
}

/// `c` with register pair `p` (as in `pair_value`) set to `v`: the high
/// byte into the first register, the low byte into the second; F keeps
/// only its top four bits.
pub open spec fn with_pair_value(c: Cpu, p: u8, stack: bool, v: int) -> Cpu {
    let hi = (v / 256) as u8;
    let lo = (v % 256) as u8;
    if p == 0 {
        Cpu { b: hi, c: lo, ..c }
    } else if p == 1 {
        Cpu { d: hi, e: lo, ..c }
    } else if p == 2 {
        Cpu { h: hi, l: lo, ..c }
    } else if stack {
        Cpu { a: hi, f: (lo / 16 * 16) as u8, ..c }
    } else {
        Cpu { sp: v as u16, ..c }
    }
}

/// LD rp,d16 (0x01 + 16p; BC, DE, HL, SP) loads the little-endian word
/// after the opcode into the pair, moving PC past it, in 12 cycles; the
/// bus does not change.
#[verifier::spinoff_prover]
pub proof fn lemma_ld_rp_d16(c: Cpu, b: BusView, p: u8)
    requires
        p < 4,
    ensures
        exec_spec(c, b, (p * 16 + 0x01) as u8) == (
            with_pair_value(Cpu { pc: c.pc.wrapping_add(2), ..c }, p, false, word_at(b, c.pc) as int),
            b,
            12u32,
        ),
{
    lemma_block0_sixteen(c, b, p);
}

/// INC rp and DEC rp (0x03 + 16p, 0x0B + 16p; BC, DE, HL, SP) add or
/// subtract 1 modulo 2^16, in 8 cycles, flags and bus unchanged.
#[verifier::spinoff_prover]
pub proof fn lemma_inc_dec_rp(c: Cpu, b: BusView, p: u8)
    requires
        p < 4,
    ensures
        exec_spec(c, b, (p * 16 + 0x03) as u8) == (
            with_pair_value(c, p, false, (pair_value(c, p, false) + 1) % 65536),
            b,
            8u32,
        ),
        exec_spec(c, b, (p * 16 + 0x0B) as u8) == (
            with_pair_value(c, p, false, (pair_value(c, p, false) + 65535) % 65536),
            b,
            8u32,
        ),
{
    lemma_block0_sixteen(c, b, p);
}

/// ADD HL,rp (0x09 + 16p; BC, DE, HL, SP) adds the pair to HL modulo
/// 2^16, clearing N, setting H on a carry out of bit 11 and C on one out
/// of bit 15, keeping Z; 8 cycles, bus unchanged.
#[verifier::spinoff_prover]
pub proof fn lemma_add_hl_rp(c: Cpu, b: BusView, p: u8)
    requires
        p < 4,
    ensures
        ({
            let v = pair_value(c, p, false);
            let hl = c.h * 256 + c.l;
            let add = exec_spec(c, b, (p * 16 + 0x09) as u8);
            &&& add == (with_pair_value(Cpu { f: add.0.f, ..c }, 2, false, (hl + v) % 65536), b, 8u32)
            &&& flags_are(add.0.f, c.f & 0x80 != 0, false, hl % 4096 + v % 4096 > 4095, hl + v > 65535)
        }),
{
    lemma_block0_sixteen(c, b, p);
    let f = c.f;
    assert forall|h: bool, cy: bool| #![trigger crate::cpu_spec::nhc(f, false, h, cy)] flags_are(
        crate::cpu_spec::nhc(f, false, h, cy),
        f & 0x80 != 0,
        false,
        h,
        cy,
    ) by {
        lemma_flag_byte(f, false, false, h, cy);
    }
}

/// The 16-bit rows of the decoder (z = 1 and 3).
proof fn lemma_block0_sixteen(c: Cpu, b: BusView, p: u8)
    requires
        p < 4,
    ensures
        crate::cpu_spec::exec_block0(c, b, (2 * p) as u8, 1) == (c.advance(2).set_rp(p, imm16(c, b)), b, 12u32),
        crate::cpu_spec::exec_block0(c, b, (2 * p + 1) as u8, 1) == (c.add_hl_spec(c.get_rp(p)), b, 8u32),
        crate::cpu_spec::exec_block0(c, b, (2 * p) as u8, 3) == (c.set_rp(p, c.get_rp(p).wrapping_add(1)), b, 8u32),
        crate::cpu_spec::exec_block0(c, b, (2 * p + 1) as u8, 3) == (c.set_rp(p, c.get_rp(p).wrapping_sub(1)), b, 8u32),
{
    reveal(crate::cpu_spec::exec_block0);
}

/// PUSH rp2 (0xC5 + 16p; BC, DE, HL, AF) stores the pair below SP, low
/// byte at SP − 2 and high byte at SP − 1, and moves SP down by two (16
/// cycles); POP rp2 (0xC1 + 16p) loads the pair from the word at SP, F
/// keeping only its top four bits, and moves SP up by two (12 cycles).
#[verifier::spinoff_prover]
#[verifier::rlimit(100)]
pub proof fn lemma_push_pop(c: Cpu, b: BusView, p: u8)
    requires
        p < 4,
    ensures
        ({
            let v = pair_value(c, p, true);
            let sp = c.sp.wrapping_sub(2);
            let push = exec_spec(c, b, (p * 16 + 0xC5) as u8);
            let pop = exec_spec(c, b, (p * 16 + 0xC1) as u8);
            &&& push == (Cpu { sp, ..c }, b.write(sp, (v % 256) as u8).write(sp.wrapping_add(1), (v / 256) as u8), 16u32)
            &&& pop == (with_pair_value(Cpu { sp: c.sp.wrapping_add(2), ..c }, p, true, word_at(b, c.sp) as int), b, 12u32)
        }),
{
    reveal(crate::cpu_spec::exec_block3);
    let w = word_at(b, c.sp);
    assert(((w & 0xF0) as u8) == ((w % 256) / 16 * 16) as u8) by (bit_vector);
}

/// RST n (0xC7 + 8n): the address after the opcode is pushed (low byte at
/// SP − 2, high at SP − 1) and execution continues at 8n, in 16 cycles.
pub proof fn lemma_rst(c: Cpu, b: BusView, n: u8)
    requires
        n < 8,
    ensures
        ({
            let sp = c.sp.wrapping_sub(2);
            exec_spec(c, b, (0xC7 + 8 * n) as u8) == (
                Cpu { pc: (8 * n) as u16, sp, ..c },
                b.write(sp, (c.pc % 256) as u8).write(sp.wrapping_add(1), (c.pc / 256) as u8),
                16u32,
            )
        }),
{
    reveal(crate::cpu_spec::exec_block3);
}

/// The loads through BC, DE and HL± (0x02 + 16p stores A, 0x0A + 16p
/// loads A; p = 0 BC, 1 DE, 2 HL then HL + 1, 3 HL then HL − 1, modulo
/// 2^16), each in 8 cycles.
#[verifier::spinoff_prover]
#[verifier::rlimit(100)]
pub proof fn lemma_indirect_loads(c: Cpu, b: BusView, p: u8)
    requires
        p < 4,
    ensures
        ({
            let hl = c.h * 256 + c.l;
            let addr: int = if p == 0 { c.b * 256 + c.c } else if p == 1 { c.d * 256 + c.e } else { hl };
            let c1 = if p == 2 {
                with_pair_value(c, 2, false, (hl + 1) % 65536)
            } else if p == 3 {
                with_pair_value(c, 2, false, (hl + 65535) % 65536)
            } else {
                c
            };
            &&& exec_spec(c, b, (p * 16 + 0x02) as u8) == (c1, b.write(addr as u16, c.a), 8u32)
            &&& exec_spec(c, b, (p * 16 + 0x0A) as u8) == (Cpu { a: b.read(addr as u16), ..c1 }, b, 8u32)
        }),
{
    lemma_block0_indirect(c, b, p);
}

/// The indirect-load rows of the decoder (z = 2).
proof fn lemma_block0_indirect(c: Cpu, b: BusView, p: u8)
    requires
        p < 4,
    ensures
        ({
            let hl = c.hl_spec();
            let addr = if p == 0 { c.bc_spec() } else if p == 1 { c.de_spec() } else { hl };
            let c1 = if p == 2 { c.with_hl(hl.wrapping_add(1)) } else if p == 3 { c.with_hl(hl.wrapping_sub(1)) } else { c };
            &&& crate::cpu_spec::exec_block0(c, b, (2 * p) as u8, 2) == (c1, b.write(addr, c.a), 8u32)
            &&& crate::cpu_spec::exec_block0(c, b, (2 * p + 1) as u8, 2) == (Cpu { a: b.read(addr), ..c1 }, b, 8u32)
        }),
{
    reveal(crate::cpu_spec::exec_block0);
}

/// The high-page and absolute loads, jumps and control instructions of
/// the 0xC0-0xFF block: LDH (a8),A and LDH A,(a8) reach 0xFF00 + the
/// operand byte (12 cycles), LD (C),A and LD A,(C) reach 0xFF00 + C (8),
/// LD (a16),A and LD A,(a16) the operand word (16); JP a16 jumps to the
/// operand word (16), JP (HL) to HL (4); LD SP,HL copies HL (8); DI clears
/// IME and EI schedules it (4); RETI returns and sets IME (16). Operand
/// bytes are skipped.
#[verifier::spinoff_prover]
#[verifier::rlimit(100)]
pub proof fn lemma_block3_loads_and_control(c: Cpu, b: BusView)
    ensures
        ({
            let n = b.read(c.pc);
            let w = word_at(b, c.pc);
            let hl = (c.h * 256 + c.l) as u16;
            let pc1 = c.pc.wrapping_add(1);
            let pc2 = c.pc.wrapping_add(2);
            &&& exec_spec(c, b, 0xE0) == (Cpu { pc: pc1, ..c }, b.write((0xFF00 + n) as u16, c.a), 12u32)
            &&& exec_spec(c, b, 0xF0) == (Cpu { pc: pc1, a: b.read((0xFF00 + n) as u16), ..c }, b, 12u32)
            &&& exec_spec(c, b, 0xE2) == (c, b.write((0xFF00 + c.c) as u16, c.a), 8u32)
            &&& exec_spec(c, b, 0xF2) == (Cpu { a: b.read((0xFF00 + c.c) as u16), ..c }, b, 8u32)
            &&& exec_spec(c, b, 0xEA) == (Cpu { pc: pc2, ..c }, b.write(w, c.a), 16u32)
            &&& exec_spec(c, b, 0xFA) == (Cpu { pc: pc2, a: b.read(w), ..c }, b, 16u32)
            &&& exec_spec(c, b, 0xC3) == (Cpu { pc: w, ..c }, b, 16u32)
            &&& exec_spec(c, b, 0xE9) == (Cpu { pc: hl, ..c }, b, 4u32)
            &&& exec_spec(c, b, 0xF9) == (Cpu { sp: hl, ..c }, b, 8u32)
            &&& exec_spec(c, b, 0xF3) == (Cpu { ime: false, ..c }, b, 4u32)
            &&& exec_spec(c, b, 0xFB) == (Cpu { ime_scheduled: true, ..c }, b, 4u32)
            &&& exec_spec(c, b, 0xD9) == (Cpu { pc: word_at(b, c.sp), sp: c.sp.wrapping_add(2), ime: true, ..c }, b, 16u32)
            &&& exec_spec(c, b, 0x76) == (Cpu { halted: true, ..c }, b, 4u32)
            &&& exec_spec(c, b, 0x00) == (c, b, 4u32)
        }),
{
    reveal(crate::cpu_spec::exec_block0);
    reveal(crate::cpu_spec::exec_block1);
    reveal(crate::cpu_spec::exec_block3);
}

/// ADD SP,r8 (0xE8, 16 cycles) and LD HL,SP+r8 (0xF8, 12 cycles): SP
/// plus the operand read as a signed byte, modulo 2^16, goes to SP or HL;
/// Z and N are cleared, H and C come from the unsigned addition of the
/// operand byte to the low nibble and the low byte of SP.
#[verifier::spinoff_prover]
#[verifier::rlimit(100)]
pub proof fn lemma_sp_offset(c: Cpu, b: BusView)
    ensures
        ({
            let n = b.read(c.pc);
            let sum = (c.sp + (if n < 128 { n as int } else { n - 256 }) + 65536) % 65536;
            let add = exec_spec(c, b, 0xE8);
            let ld = exec_spec(c, b, 0xF8);
            let h = c.sp % 16 + n % 16 > 15;
            let cy = c.sp % 256 + n > 255;
            &&& add == (Cpu { pc: c.pc.wrapping_add(1), sp: sum as u16, f: add.0.f, ..c }, b, 16u32)
            &&& flags_are(add.0.f, false, false, h, cy)
            &&& ld == (with_pair_value(Cpu { pc: c.pc.wrapping_add(1), f: ld.0.f, ..c }, 2, false, sum), b, 12u32)
            &&& flags_are(ld.0.f, false, false, h, cy)
        }),
{
    let n = b.read(c.pc);
    let r = crate::cpu_spec::sign_extend(n);
    lemma_block3_sp(c, b);
    lemma_sign_extend(c.sp, n);
    lemma_znhc_flags_raw(c.f, false, false, c.sp % 16 + r % 16 > 15, c.sp % 256 + r % 256 > 255);
}

/// The sign-extended operand agrees with the byte in its low bits, and
/// adding it wraps like adding the signed value.
proof fn lemma_sign_extend(sp: u16, n: u8)
    ensures
        crate::cpu_spec::sign_extend(n) % 16 == n % 16,
        crate::cpu_spec::sign_extend(n) % 256 == n as int,
        sp.wrapping_add(crate::cpu_spec::sign_extend(n)) == sum_mod(sp, n),
{
    let r = crate::cpu_spec::sign_extend(n);
    if n < 128 {
        assert(r == n);
    } else {
        assert(r == n + 65280);
    }
}

/// The SP-offset rows of the decoder.
proof fn lemma_block3_sp(c: Cpu, b: BusView)
    ensures
        ({
            let r = crate::cpu_spec::sign_extend(imm8(c, b));
            let c1 = c.advance(1);
            &&& exec_spec(c, b, 0xE8) == (Cpu { sp: c1.sp.wrapping_add(r), f: c1.sp_offset_f(r), ..c1 }, b, 16u32)
            &&& exec_spec(c, b, 0xF8) == (Cpu { f: c1.sp_offset_f(r), ..c1 }.with_hl(c1.sp.wrapping_add(r)), b, 12u32)
        }),
{
    reveal(crate::cpu_spec::exec_block3);
}

/// SP moved by the signed byte `n`, modulo 2^16.
spec fn sum_mod(sp: u16, n: u8) -> u16 {
    ((sp + (if n < 128 { n as int } else { n - 256 }) + 65536) % 65536) as u16
}

} // verus!
