use vstd::prelude::*;
use vstd::arithmetic::div_mod::{lemma_fundamental_div_mod_converse, lemma_div_denominator, lemma_mul_mod_noop_left};
use vstd::arithmetic::power2::{pow2, lemma_pow2_unfold, lemma_pow2_pos, lemma2_to64};
use crate::alu::{AluOp, alu8, alu16, carry8, carry16, alu_op_of};
use crate::decode::decode_base;
use crate::bios::{interrupt, chs_offset, chs_cylinder, disk_read, sectors_read, lemma_sectors_read_bound};
use crate::machine::{Machine, linear, sign_extend8};
use crate::memory::{byte_at, word_at};
use crate::ops::{shift_once8, shift_once16, shift8, shift16, jcc_taken};
use crate::opcode::Opcode;
use crate::semantics::{exec_base, grp2_count};
use crate::regs::{Registers, flag_on, set_flag, isz8, isz16, FLAG_CF, FLAG_ZF, FLAG_SF, FLAG_DF, FLAG_OF, FLAG_PF};
use crate::laws::{law_word_read_after_write, law_byte_read_after_write, law_isz8, law_isz16, law_reg16_read_after_write, law_reg8_read_after_write};

verus! {

/// 1 for a set bit, 0 for a clear one.
pub open spec fn bit(c: bool) -> int {
    if c {
        1
    } else {
        0
    }
}

/// Byte arithmetic: the result and the carry out together give the exact sum or
/// difference (the carry in counting for ADC/SBB); CMP computes what SUB does; the
/// logic operations are bitwise and never carry.
pub proof fn law_alu8_arithmetic(a: u8, b: u8, cf: bool)
    ensures
        alu8(AluOp::Add, a, b, cf) + 256 * bit(carry8(AluOp::Add, a, b, cf)) == a + b,
        alu8(AluOp::Adc, a, b, cf) + 256 * bit(carry8(AluOp::Adc, a, b, cf)) == a + b + bit(cf),
        alu8(AluOp::Sub, a, b, cf) - 256 * bit(carry8(AluOp::Sub, a, b, cf)) == a - b,
        alu8(AluOp::Sbb, a, b, cf) - 256 * bit(carry8(AluOp::Sbb, a, b, cf)) == a - b - bit(cf),
        alu8(AluOp::Cmp, a, b, cf) == alu8(AluOp::Sub, a, b, cf),
        carry8(AluOp::Cmp, a, b, cf) == carry8(AluOp::Sub, a, b, cf),
        alu8(AluOp::And, a, b, cf) == a & b,
        alu8(AluOp::Or, a, b, cf) == a | b,
        alu8(AluOp::Xor, a, b, cf) == a ^ b,
        !carry8(AluOp::And, a, b, cf) && !carry8(AluOp::Or, a, b, cf) && !carry8(AluOp::Xor, a, b, cf),
{
}

/// Word arithmetic: the result and the carry out together give the exact sum or
/// difference; CMP computes what SUB does; the logic operations are bitwise.
pub proof fn law_alu16_arithmetic(a: u16, b: u16, cf: bool)
    ensures
        alu16(AluOp::Add, a, b, cf) + 65536 * bit(carry16(AluOp::Add, a, b, cf)) == a + b,
        alu16(AluOp::Adc, a, b, cf) + 65536 * bit(carry16(AluOp::Adc, a, b, cf)) == a + b + bit(cf),
        alu16(AluOp::Sub, a, b, cf) - 65536 * bit(carry16(AluOp::Sub, a, b, cf)) == a - b,
        alu16(AluOp::Sbb, a, b, cf) - 65536 * bit(carry16(AluOp::Sbb, a, b, cf)) == a - b - bit(cf),
        alu16(AluOp::Cmp, a, b, cf) == alu16(AluOp::Sub, a, b, cf),
        carry16(AluOp::Cmp, a, b, cf) == carry16(AluOp::Sub, a, b, cf),
        alu16(AluOp::And, a, b, cf) == a & b,
        alu16(AluOp::Or, a, b, cf) == a | b,
        alu16(AluOp::Xor, a, b, cf) == a ^ b,
        !carry16(AluOp::And, a, b, cf) && !carry16(AluOp::Or, a, b, cf) && !carry16(AluOp::Xor, a, b, cf),
{
}

/// One step of each byte shift or rotate, arithmetically: the new value, the bit that
/// lands in CF (bit 0 of the flags), and all other flags kept.
pub proof fn law_shift_once8(v: u8, f: u16)
    ensures
        shift_once8(0, v, f).0 == (2 * v) % 256 + v / 128,
        shift_once8(1, v, f).0 == v / 2 + 128 * (v % 2),
        shift_once8(2, v, f).0 == (2 * v) % 256 + f % 2,
        shift_once8(3, v, f).0 == v / 2 + 128 * (f % 2),
        shift_once8(4, v, f).0 == (2 * v) % 256,
        shift_once8(6, v, f).0 == (2 * v) % 256,
        shift_once8(5, v, f).0 == v / 2,
        shift_once8(7, v, f).0 == v / 2 + 128 * (v / 128),
        forall|sub: u8| sub < 8 ==> (#[trigger] shift_once8(sub, v, f).1) / 2 == f / 2,
        forall|sub: u8| sub < 8 && sub % 2 == 0 ==> (#[trigger] shift_once8(sub, v, f).1) % 2 == v / 128,
        forall|sub: u8| sub < 8 && sub % 2 == 1 ==> (#[trigger] shift_once8(sub, v, f).1) % 2 == v % 2,
{
    assert(
        ((v << 1u8) == (2 * v) % 256)
        && ((v >> 1u8) == v / 2)
        && ((v & 0x80 != 0) == (v / 128 == 1))
        && ((v & 0x01 != 0) == (v % 2 == 1))
        && (((v << 1u8) | 1u8) == (2 * v) % 256 + 1)
        && (((v << 1u8) | 0u8) == (2 * v) % 256)
        && (((v >> 1u8) | 0x80u8) == v / 2 + 128)
        && (((v >> 1u8) | 0u8) == v / 2)
        && (((v >> 1u8) | (v & 0x80)) == v / 2 + 128 * (v / 128))
        && ((f & 1 != 0) == (f % 2 == 1))
        && ((f | 1) / 2 == f / 2 && (f | 1) % 2 == 1)
        && ((f & !1u16) / 2 == f / 2 && (f & !1u16) % 2 == 0)
    ) by (bit_vector);
}

/// One step of each word shift or rotate, arithmetically.
pub proof fn law_shift_once16(v: u16, f: u16)
    ensures
        shift_once16(0, v, f).0 == (2 * v) % 65536 + v / 32768,
        shift_once16(1, v, f).0 == v / 2 + 32768 * (v % 2),
        shift_once16(2, v, f).0 == (2 * v) % 65536 + f % 2,
        shift_once16(3, v, f).0 == v / 2 + 32768 * (f % 2),
        shift_once16(4, v, f).0 == (2 * v) % 65536,
        shift_once16(6, v, f).0 == (2 * v) % 65536,
        shift_once16(5, v, f).0 == v / 2,
        shift_once16(7, v, f).0 == v / 2 + 32768 * (v / 32768),
        forall|sub: u8| sub < 8 ==> (#[trigger] shift_once16(sub, v, f).1) / 2 == f / 2,
        forall|sub: u8| sub < 8 && sub % 2 == 0 ==> (#[trigger] shift_once16(sub, v, f).1) % 2 == v / 32768,
        forall|sub: u8| sub < 8 && sub % 2 == 1 ==> (#[trigger] shift_once16(sub, v, f).1) % 2 == v % 2,
{
    assert(
        ((v << 1u16) == (2 * v) % 65536)
        && ((v >> 1u16) == v / 2)
        && ((v & 0x8000 != 0) == (v / 32768 == 1))
        && ((v & 0x0001 != 0) == (v % 2 == 1))
        && (((v << 1u16) | 1u16) == (2 * v) % 65536 + 1)
        && (((v << 1u16) | 0u16) == (2 * v) % 65536)
        && (((v >> 1u16) | 0x8000u16) == v / 2 + 32768)
        && (((v >> 1u16) | 0u16) == v / 2)
        && (((v >> 1u16) | (v & 0x8000)) == v / 2 + 32768 * (v / 32768))
        && ((f & 1 != 0) == (f % 2 == 1))
        && ((f | 1) / 2 == f / 2 && (f | 1) % 2 == 1)
        && ((f & !1u16) / 2 == f / 2 && (f & !1u16) % 2 == 0)
    ) by (bit_vector);
}


/// Whether `r` holds the CHS address cylinder `c`, head `h`, sector `sec` as INT 13h
/// takes it: CH the low eight bits of the cylinder, CL bits 6..7 its two high bits,
/// CL bits 0..5 the sector, DH the head.
pub open spec fn holds_chs(r: Registers, c: int, h: int, sec: int) -> bool {
    &&& 0 <= c < 1024
    &&& 0 <= h < 256
    &&& 1 <= sec < 64
    &&& r.cx == (c % 256) * 256 + (c / 256) * 64 + sec
    &&& r.dx / 256 == h
}

/// The INT 13h read address: on a two-headed floppy with 18 sectors per track
/// (1.44 MiB) or else 9, cylinder `c`, head `h` and sector `sec` (counted from 1)
/// start at byte ((c * 2 + h) * sectors per track + sec - 1) * 512 of the image.
pub proof fn law_chs_address(r: Registers, disk: Seq<u8>, c: int, h: int, sec: int)
    requires
        holds_chs(r, c, h, sec),
    ensures
        chs_offset(r, disk) == ((c * 2 + h) * (if disk.len() == 1474560 { 18int } else { 9int })
            + sec - 1) * 512,
{
    let q = c / 256;
    let m = c % 256;
    assert(0 <= q < 4);
    assert(0 <= q * 64 + sec < 256);
    lemma_fundamental_div_mod_converse(r.cx as int, 256, m, q * 64 + sec);
    lemma_fundamental_div_mod_converse(q * 64 + sec, 64, q, sec);
    lemma_fundamental_div_mod_converse(r.cx as int, 64, m * 4 + q, sec);
    assert(c == q * 256 + m);
    assert(chs_cylinder(r.cx) == c);
}

/// Neighbouring addresses: one cylinder further on starts two tracks (both heads)
/// later, the other head one track later, the next sector 512 bytes later.
pub proof fn law_chs_neighbours(r1: Registers, r2: Registers, disk: Seq<u8>, c: int, h: int, sec: int)
    ensures
        holds_chs(r1, c, h, sec) && holds_chs(r2, c + 1, h, sec) ==> chs_offset(r2, disk)
            - chs_offset(r1, disk) == 2 * (if disk.len() == 1474560 { 18int } else { 9int }) * 512,
        holds_chs(r1, c, h, sec) && holds_chs(r2, c, h + 1, sec) ==> chs_offset(r2, disk)
            - chs_offset(r1, disk) == (if disk.len() == 1474560 { 18int } else { 9int }) * 512,
        holds_chs(r1, c, h, sec) && holds_chs(r2, c, h, sec + 1) ==> chs_offset(r2, disk)
            - chs_offset(r1, disk) == 512,
{
    let spt: int = if disk.len() == 1474560 { 18int } else { 9int };
    if holds_chs(r1, c, h, sec) && holds_chs(r2, c + 1, h, sec) {
        law_chs_address(r1, disk, c, h, sec);
        law_chs_address(r2, disk, c + 1, h, sec);
        assert(((c + 1) * 2 + h) * spt == (c * 2 + h) * spt + 2 * spt) by (nonlinear_arith);
    }
    if holds_chs(r1, c, h, sec) && holds_chs(r2, c, h + 1, sec) {
        law_chs_address(r1, disk, c, h, sec);
        law_chs_address(r2, disk, c, h + 1, sec);
        assert((c * 2 + h + 1) * spt == (c * 2 + h) * spt + spt) by (nonlinear_arith);
    }
    if holds_chs(r1, c, h, sec) && holds_chs(r2, c, h, sec + 1) {
        law_chs_address(r1, disk, c, h, sec);
        law_chs_address(r2, disk, c, h, sec + 1);
    }
}

/// A disk read of at least one sector from an address wholly inside the image puts
/// that sector's bytes at `ES:BX` (where memory reaches), keeps memory's size, and
/// reports success: AH = 0, AL kept, CF clear.
pub proof fn law_disk_read_sector(s: Machine, c: int, h: int, sec: int, i: int)
    requires
        holds_chs(s.regs, c, h, sec),
        s.regs.ax % 256 >= 1,
        ((c * 2 + h) * (if s.disk.len() == 1474560 { 18int } else { 9int }) + sec) * 512
            <= s.disk.len(),
        0 <= i < 512,
        linear(s.regs.es, s.regs.bx) + i < s.mem.len(),
    ensures
        disk_read(s).mem[linear(s.regs.es, s.regs.bx) + i] == s.disk[((c * 2 + h) * (if s.disk.len()
            == 1474560 { 18int } else { 9int }) + sec - 1) * 512 + i],
        disk_read(s).mem.len() == s.mem.len(),
        disk_read(s).disk == s.disk,
        disk_read(s).regs.ax == s.regs.ax % 256,
        !flag_on(disk_read(s).regs.flags, FLAG_CF),
{
    reveal(disk_read);
    law_chs_address(s.regs, s.disk, c, h, sec);
    let o = chs_offset(s.regs, s.disk);
    let n = (s.regs.ax % 256) as int;
    lemma_sectors_read_bound(s.disk.len() as int, o + 512, n - 1);
    assert(sectors_read(s.disk.len() as int, o, n) >= 1);
    let f = s.regs.flags;
    assert(!flag_on(f & !1u16, 1u16)) by (bit_vector);
}


/// The direction of string operations: -1 when DF is set, else +1.
pub open spec fn direction(flags: u16) -> int {
    if flag_on(flags, FLAG_DF) {
        -1
    } else {
        1
    }
}

proof fn lemma_compare_flags(f: u16, v8: u8, v16: u16, c: bool)
    ensures
        (v8 & 0x80 != 0) == (v8 >= 128),
        (v16 & 0x8000 != 0) == (v16 >= 32768),
        flag_on(set_flag(isz8(f, v8), FLAG_CF, c), FLAG_DF) == flag_on(f, FLAG_DF),
        flag_on(set_flag(isz16(f, v16), FLAG_CF, c), FLAG_DF) == flag_on(f, FLAG_DF),
        flag_on(set_flag(isz8(f, v8), FLAG_CF, c), FLAG_CF) == c,
        flag_on(set_flag(isz16(f, v16), FLAG_CF, c), FLAG_CF) == c,
        flag_on(set_flag(isz8(f, v8), FLAG_CF, c), FLAG_ZF) == (v8 == 0),
        flag_on(set_flag(isz16(f, v16), FLAG_CF, c), FLAG_ZF) == (v16 == 0),
        flag_on(set_flag(isz8(f, v8), FLAG_CF, c), FLAG_SF) == (v8 >= 128),
        flag_on(set_flag(isz16(f, v16), FLAG_CF, c), FLAG_SF) == (v16 >= 32768),
{
    assert(
        ((v8 & 0x80 != 0) == (v8 >= 128))
        && ((v16 & 0x8000 != 0) == (v16 >= 32768))
        && (flag_on(set_flag(set_flag(set_flag(f, 0x40, v8 == 0), 0x80, v8 & 0x80 != 0), 1, c), 0x400) == flag_on(f, 0x400))
        && (flag_on(set_flag(set_flag(set_flag(f, 0x40, v16 == 0), 0x80, v16 & 0x8000 != 0), 1, c), 0x400) == flag_on(f, 0x400))
        && (flag_on(set_flag(set_flag(set_flag(f, 0x40, v8 == 0), 0x80, v8 & 0x80 != 0), 1, c), 1) == c)
        && (flag_on(set_flag(set_flag(set_flag(f, 0x40, v16 == 0), 0x80, v16 & 0x8000 != 0), 1, c), 1) == c)
        && (flag_on(set_flag(set_flag(set_flag(f, 0x40, v8 == 0), 0x80, v8 & 0x80 != 0), 1, c), 0x40) == (v8 == 0))
        && (flag_on(set_flag(set_flag(set_flag(f, 0x40, v16 == 0), 0x80, v16 & 0x8000 != 0), 1, c), 0x40) == (v16 == 0))
        && (flag_on(set_flag(set_flag(set_flag(f, 0x40, v8 == 0), 0x80, v8 & 0x80 != 0), 1, c), 0x80) == (v8 & 0x80 != 0))
        && (flag_on(set_flag(set_flag(set_flag(f, 0x40, v16 == 0), 0x80, v16 & 0x8000 != 0), 1, c), 0x80) == (v16 & 0x8000 != 0))
    ) by (bit_vector);
}

/// String operations step SI and DI (those they use) by the item size, 1 for the
/// byte forms and 2 for the word forms, forwards when DF is clear and backwards when
/// it is set, wrapping within the segment; the compares step exactly as the moves.
pub proof fn law_string_steps(s: Machine)
    ensures
        s.movsb().regs.si == (s.regs.si + direction(s.regs.flags)) % 65536,
        s.movsb().regs.di == (s.regs.di + direction(s.regs.flags)) % 65536,
        s.compare_bytes().regs.si == (s.regs.si + direction(s.regs.flags)) % 65536,
        s.compare_bytes().regs.di == (s.regs.di + direction(s.regs.flags)) % 65536,
        s.stosb().regs.di == (s.regs.di + direction(s.regs.flags)) % 65536,
        s.stosb().regs.si == s.regs.si,
        s.lodsb().regs.si == (s.regs.si + direction(s.regs.flags)) % 65536,
        s.lodsb().regs.di == s.regs.di,
        s.movsw().regs.si == (s.regs.si + 2 * direction(s.regs.flags)) % 65536,
        s.movsw().regs.di == (s.regs.di + 2 * direction(s.regs.flags)) % 65536,
        s.compare_words().regs.si == (s.regs.si + 2 * direction(s.regs.flags)) % 65536,
        s.compare_words().regs.di == (s.regs.di + 2 * direction(s.regs.flags)) % 65536,
        s.stosw().regs.di == (s.regs.di + 2 * direction(s.regs.flags)) % 65536,
        s.stosw().regs.si == s.regs.si,
        s.compare_words().regs.si == s.movsw().regs.si && s.compare_words().regs.di == s.movsw().regs.di,
        s.compare_bytes().regs.si == s.movsb().regs.si && s.compare_bytes().regs.di == s.movsb().regs.di,
{
    reveal(Machine::movsb);
    reveal(Machine::movsw);
    reveal(Machine::compare_bytes);
    reveal(Machine::compare_words);
    reveal(Machine::stosb);
    reveal(Machine::stosw);
    reveal(Machine::lodsb);
    let r = s.regs;
    let a8 = byte_at(s.mem, linear(s.seg_or(r.ds), r.si));
    let b8 = byte_at(s.mem, linear(r.es, r.di));
    let a16 = word_at(s.mem, linear(s.seg_or(r.ds), r.si));
    let b16 = word_at(s.mem, linear(r.es, r.di));
    lemma_compare_flags(r.flags, ((a8 - b8) % 256) as u8, ((a16 - b16) % 65536) as u16, a8 < b8);
    lemma_compare_flags(r.flags, ((a8 - b8) % 256) as u8, ((a16 - b16) % 65536) as u16, a16 < b16);
}

/// CMPSB and CMPSW compare the item at `seg:SI` (`a`) with the one at `ES:DI` (`b`):
/// ZF tells whether they are equal, CF whether `a < b` unsigned, SF gives the sign of
/// `a - b`; memory and every register but SI, DI and FLAGS are kept.
pub proof fn law_string_compare(s: Machine)
    ensures
        ({
            let a = byte_at(s.mem, linear(s.seg_or(s.regs.ds), s.regs.si));
            let b = byte_at(s.mem, linear(s.regs.es, s.regs.di));
            let t = s.compare_bytes();
            &&& flag_on(t.regs.flags, FLAG_ZF) == (a == b)
            &&& flag_on(t.regs.flags, FLAG_CF) == (a < b)
            &&& flag_on(t.regs.flags, FLAG_SF) == ((a - b) % 256 >= 128)
            &&& t.mem == s.mem
            &&& t.regs == Registers { flags: t.regs.flags, si: t.regs.si, di: t.regs.di, ..s.regs }
        }),
        ({
            let a = word_at(s.mem, linear(s.seg_or(s.regs.ds), s.regs.si));
            let b = word_at(s.mem, linear(s.regs.es, s.regs.di));
            let t = s.compare_words();
            &&& flag_on(t.regs.flags, FLAG_ZF) == (a == b)
            &&& flag_on(t.regs.flags, FLAG_CF) == (a < b)
            &&& flag_on(t.regs.flags, FLAG_SF) == ((a - b) % 65536 >= 32768)
            &&& t.mem == s.mem
            &&& t.regs == Registers { flags: t.regs.flags, si: t.regs.si, di: t.regs.di, ..s.regs }
        }),
{
    reveal(Machine::compare_bytes);
    reveal(Machine::compare_words);
    let r = s.regs;
    let a8 = byte_at(s.mem, linear(s.seg_or(r.ds), r.si));
    let b8 = byte_at(s.mem, linear(r.es, r.di));
    let a16 = word_at(s.mem, linear(s.seg_or(r.ds), r.si));
    let b16 = word_at(s.mem, linear(r.es, r.di));
    lemma_compare_flags(r.flags, ((a8 - b8) % 256) as u8, ((a16 - b16) % 65536) as u16, a8 < b8);
    lemma_compare_flags(r.flags, ((a8 - b8) % 256) as u8, ((a16 - b16) % 65536) as u16, a16 < b16);
}

/// MOVS copies the item at `seg:SI` to `ES:DI`, STOS stores AL or AX there, and
/// LODSB loads AL from `seg:SI` keeping AH (for targets wholly inside memory).
pub proof fn law_string_transfer(s: Machine)
    ensures
        ({
            let src = linear(s.seg_or(s.regs.ds), s.regs.si);
            let dst = linear(s.regs.es, s.regs.di);
            &&& dst < s.mem.len() ==> byte_at(s.movsb().mem, dst) == byte_at(s.mem, src)
            &&& dst + 1 < s.mem.len() ==> word_at(s.movsw().mem, dst) == word_at(s.mem, src)
            &&& dst < s.mem.len() ==> byte_at(s.stosb().mem, dst) == s.regs.ax % 256
            &&& dst + 1 < s.mem.len() ==> word_at(s.stosw().mem, dst) == s.regs.ax
            &&& s.lodsb().regs.ax % 256 == byte_at(s.mem, src)
            &&& s.lodsb().regs.ax / 256 == s.regs.ax / 256
            &&& s.lodsb().mem == s.mem
        }),
{
    reveal(Machine::movsb);
    reveal(Machine::movsw);
    reveal(Machine::stosb);
    reveal(Machine::stosw);
    reveal(Machine::lodsb);
    let r = s.regs;
    let src = linear(s.seg_or(r.ds), r.si);
    let dst = linear(r.es, r.di);
    if dst < s.mem.len() {
        law_byte_read_after_write(s.mem, dst, dst, byte_at(s.mem, src));
        law_byte_read_after_write(s.mem, dst, dst, (r.ax % 256) as u8);
    }
    if dst + 1 < s.mem.len() {
        law_word_read_after_write(s.mem, dst, dst, word_at(s.mem, src));
        law_word_read_after_write(s.mem, dst, dst, r.ax);
    }
    let v = byte_at(s.mem, src);
    assert((r.ax - r.ax % 256 + v) % 256 == v as int);
    assert((r.ax - r.ax % 256 + v) / 256 == r.ax / 256);
}


/// `t` differs from `s` at most in AX and FLAGS.
pub open spec fn only_ax_flags(s: Machine, t: Machine) -> bool {
    t == s.with_regs(Registers { ax: t.regs.ax, flags: t.regs.flags, ..s.regs })
}

/// `op AX, imm16`: ADD, ADC, SUB and SBB leave in AX the sum or difference modulo
/// 2^16 (the carry in counting for ADC and SBB), AND, OR and XOR the bitwise
/// combination, and CMP keeps AX; nothing but AX and FLAGS changes, and execution goes
/// on. A subtraction or compare sets ZF exactly when AX equals the immediate and CF
/// exactly when AX is below it.
pub proof fn law_acc16_instructions(s: Machine, imm: u16)
    ensures
        ({
            let a = s.regs.ax as int;
            let c = bit(flag_on(s.regs.flags, FLAG_CF));
            &&& exec_base(Opcode::AddAccImm16(imm), s).0.regs.ax == (a + imm) % 65536
            &&& exec_base(Opcode::AdcAccImm16(imm), s).0.regs.ax == (a + imm + c) % 65536
            &&& exec_base(Opcode::SubAccImm16(imm), s).0.regs.ax == (a - imm) % 65536
            &&& exec_base(Opcode::SbbAccImm16(imm), s).0.regs.ax == (a - imm - c) % 65536
            &&& exec_base(Opcode::AndAccImm16(imm), s).0.regs.ax == s.regs.ax & imm
            &&& exec_base(Opcode::OrAccImm16(imm), s).0.regs.ax == s.regs.ax | imm
            &&& exec_base(Opcode::XorAccImm16(imm), s).0.regs.ax == s.regs.ax ^ imm
            &&& exec_base(Opcode::CmpAccImm16(imm), s).0.regs.ax == s.regs.ax
        }),
        forall|op: Opcode|
            (op == Opcode::AddAccImm16(imm) || op == Opcode::AdcAccImm16(imm) || op == Opcode::SubAccImm16(imm)
                || op == Opcode::SbbAccImm16(imm) || op == Opcode::AndAccImm16(imm) || op == Opcode::OrAccImm16(imm)
                || op == Opcode::XorAccImm16(imm) || op == Opcode::CmpAccImm16(imm)) ==> {
                &&& only_ax_flags(s, #[trigger] exec_base(op, s).0)
                &&& exec_base(op, s).1
            },
        forall|op: Opcode|
            (op == Opcode::SubAccImm16(imm) || op == Opcode::CmpAccImm16(imm)) ==> {
                &&& flag_on((#[trigger] exec_base(op, s)).0.regs.flags, FLAG_ZF) == (s.regs.ax == imm)
                &&& flag_on(exec_base(op, s).0.regs.flags, FLAG_CF) == (s.regs.ax < imm)
            },
{
    lemma_acc_dispatch(s, 0, imm);
    let cf = flag_on(s.regs.flags, FLAG_CF);
    law_alu16_arithmetic(s.regs.ax, imm, cf);
    lemma_acc16(s, AluOp::Add, imm);
    lemma_acc16(s, AluOp::Adc, imm);
    lemma_acc16(s, AluOp::Sub, imm);
    lemma_acc16(s, AluOp::Sbb, imm);
    lemma_acc16(s, AluOp::And, imm);
    lemma_acc16(s, AluOp::Or, imm);
    lemma_acc16(s, AluOp::Xor, imm);
    lemma_acc16(s, AluOp::Cmp, imm);
}

/// `op AL, imm8`: as the word forms, on AL, with AH kept; CMP keeps AL.
pub proof fn law_acc8_instructions(s: Machine, imm: u8)
    ensures
        ({
            let a = s.regs.ax % 256;
            let c = bit(flag_on(s.regs.flags, FLAG_CF));
            &&& exec_base(Opcode::AddAccImm8(imm), s).0.regs.ax % 256 == (a + imm) % 256
            &&& exec_base(Opcode::AdcAccImm8(imm), s).0.regs.ax % 256 == (a + imm + c) % 256
            &&& exec_base(Opcode::SubAccImm8(imm), s).0.regs.ax % 256 == (a - imm) % 256
            &&& exec_base(Opcode::SbbAccImm8(imm), s).0.regs.ax % 256 == (a - imm - c) % 256
            &&& exec_base(Opcode::AndAccImm8(imm), s).0.regs.ax % 256 == (a as u8) & imm
            &&& exec_base(Opcode::OrAccImm8(imm), s).0.regs.ax % 256 == (a as u8) | imm
            &&& exec_base(Opcode::XorAccImm8(imm), s).0.regs.ax % 256 == (a as u8) ^ imm
            &&& exec_base(Opcode::CmpAccImm8(imm), s).0.regs.ax == s.regs.ax
        }),
        forall|op: Opcode|
            (op == Opcode::AddAccImm8(imm) || op == Opcode::AdcAccImm8(imm) || op == Opcode::SubAccImm8(imm)
                || op == Opcode::SbbAccImm8(imm) || op == Opcode::AndAccImm8(imm) || op == Opcode::OrAccImm8(imm)
                || op == Opcode::XorAccImm8(imm) || op == Opcode::CmpAccImm8(imm)) ==> {
                &&& only_ax_flags(s, #[trigger] exec_base(op, s).0)
                &&& exec_base(op, s).0.regs.ax / 256 == s.regs.ax / 256
                &&& exec_base(op, s).1
            },
        forall|op: Opcode|
            (op == Opcode::SubAccImm8(imm) || op == Opcode::CmpAccImm8(imm)) ==> {
                &&& flag_on((#[trigger] exec_base(op, s)).0.regs.flags, FLAG_ZF) == (s.regs.ax % 256 == imm)
                &&& flag_on(exec_base(op, s).0.regs.flags, FLAG_CF) == (s.regs.ax % 256 < imm)
            },
{
    lemma_acc_dispatch(s, imm, 0);
    let a = (s.regs.ax % 256) as u8;
    let cf = flag_on(s.regs.flags, FLAG_CF);
    law_alu8_arithmetic(a, imm, cf);
    lemma_acc8(s, AluOp::Add, imm);
    lemma_acc8(s, AluOp::Adc, imm);
    lemma_acc8(s, AluOp::Sub, imm);
    lemma_acc8(s, AluOp::Sbb, imm);
    lemma_acc8(s, AluOp::And, imm);
    lemma_acc8(s, AluOp::Or, imm);
    lemma_acc8(s, AluOp::Xor, imm);
    lemma_acc8(s, AluOp::Cmp, imm);
}

proof fn lemma_acc_dispatch(s: Machine, i8: u8, i16: u16)
    ensures
        exec_base(Opcode::AddAccImm8(i8), s) == (s.alu_acc8(AluOp::Add, i8), true),
        exec_base(Opcode::AdcAccImm8(i8), s) == (s.alu_acc8(AluOp::Adc, i8), true),
        exec_base(Opcode::SubAccImm8(i8), s) == (s.alu_acc8(AluOp::Sub, i8), true),
        exec_base(Opcode::SbbAccImm8(i8), s) == (s.alu_acc8(AluOp::Sbb, i8), true),
        exec_base(Opcode::AndAccImm8(i8), s) == (s.alu_acc8(AluOp::And, i8), true),
        exec_base(Opcode::OrAccImm8(i8), s) == (s.alu_acc8(AluOp::Or, i8), true),
        exec_base(Opcode::XorAccImm8(i8), s) == (s.alu_acc8(AluOp::Xor, i8), true),
        exec_base(Opcode::CmpAccImm8(i8), s) == (s.alu_acc8(AluOp::Cmp, i8), true),
        exec_base(Opcode::AddAccImm16(i16), s) == (s.alu_acc16(AluOp::Add, i16), true),
        exec_base(Opcode::AdcAccImm16(i16), s) == (s.alu_acc16(AluOp::Adc, i16), true),
        exec_base(Opcode::SubAccImm16(i16), s) == (s.alu_acc16(AluOp::Sub, i16), true),
        exec_base(Opcode::SbbAccImm16(i16), s) == (s.alu_acc16(AluOp::Sbb, i16), true),
        exec_base(Opcode::AndAccImm16(i16), s) == (s.alu_acc16(AluOp::And, i16), true),
        exec_base(Opcode::OrAccImm16(i16), s) == (s.alu_acc16(AluOp::Or, i16), true),
        exec_base(Opcode::XorAccImm16(i16), s) == (s.alu_acc16(AluOp::Xor, i16), true),
        exec_base(Opcode::CmpAccImm16(i16), s) == (s.alu_acc16(AluOp::Cmp, i16), true),
{
    lemma_acc8_dispatch(s, i8);
    lemma_acc16_dispatch(s, i16);
}

proof fn lemma_acc8_dispatch(s: Machine, i8: u8)
    ensures
        exec_base(Opcode::AddAccImm8(i8), s) == (s.alu_acc8(AluOp::Add, i8), true),
        exec_base(Opcode::AdcAccImm8(i8), s) == (s.alu_acc8(AluOp::Adc, i8), true),
        exec_base(Opcode::SubAccImm8(i8), s) == (s.alu_acc8(AluOp::Sub, i8), true),
        exec_base(Opcode::SbbAccImm8(i8), s) == (s.alu_acc8(AluOp::Sbb, i8), true),
        exec_base(Opcode::AndAccImm8(i8), s) == (s.alu_acc8(AluOp::And, i8), true),
        exec_base(Opcode::OrAccImm8(i8), s) == (s.alu_acc8(AluOp::Or, i8), true),
        exec_base(Opcode::XorAccImm8(i8), s) == (s.alu_acc8(AluOp::Xor, i8), true),
        exec_base(Opcode::CmpAccImm8(i8), s) == (s.alu_acc8(AluOp::Cmp, i8), true),
{
    reveal(exec_base);
}

proof fn lemma_acc16_dispatch(s: Machine, i16: u16)
    ensures
        exec_base(Opcode::AddAccImm16(i16), s) == (s.alu_acc16(AluOp::Add, i16), true),
        exec_base(Opcode::AdcAccImm16(i16), s) == (s.alu_acc16(AluOp::Adc, i16), true),
        exec_base(Opcode::SubAccImm16(i16), s) == (s.alu_acc16(AluOp::Sub, i16), true),
        exec_base(Opcode::SbbAccImm16(i16), s) == (s.alu_acc16(AluOp::Sbb, i16), true),
        exec_base(Opcode::AndAccImm16(i16), s) == (s.alu_acc16(AluOp::And, i16), true),
        exec_base(Opcode::OrAccImm16(i16), s) == (s.alu_acc16(AluOp::Or, i16), true),
        exec_base(Opcode::XorAccImm16(i16), s) == (s.alu_acc16(AluOp::Xor, i16), true),
        exec_base(Opcode::CmpAccImm16(i16), s) == (s.alu_acc16(AluOp::Cmp, i16), true),
{
    reveal(exec_base);
}

proof fn lemma_acc16(s: Machine, op: AluOp, imm: u16)
    ensures
        ({
            let t = s.alu_acc16(op, imm);
            let res = alu16(op, s.regs.ax, imm, flag_on(s.regs.flags, FLAG_CF));
            &&& only_ax_flags(s, t)
            &&& t.regs.ax == if op == AluOp::Cmp { s.regs.ax } else { res }
            &&& flag_on(t.regs.flags, FLAG_ZF) == (res == 0)
            &&& (op == AluOp::Sub || op == AluOp::Cmp) ==> flag_on(t.regs.flags, FLAG_CF) == (s.regs.ax < imm)
        }),
{
    reveal(Machine::alu_acc16);
    reveal(Machine::commit_reg16);
    reveal(Machine::alu_flags16);
    let f = s.regs.flags;
    let res = alu16(op, s.regs.ax, imm, flag_on(f, FLAG_CF));
    lemma_compare_flags(f, 0, res, carry16(op, s.regs.ax, imm, flag_on(f, FLAG_CF)));
    law_isz16(f, res);
    let t = s.alu_acc16(op, imm);
    assert(t.regs =~= Registers { ax: t.regs.ax, flags: t.regs.flags, ..s.regs });
}

proof fn lemma_acc8(s: Machine, op: AluOp, imm: u8)
    ensures
        ({
            let t = s.alu_acc8(op, imm);
            let a = (s.regs.ax % 256) as u8;
            let res = alu8(op, a, imm, flag_on(s.regs.flags, FLAG_CF));
            &&& only_ax_flags(s, t)
            &&& t.regs.ax == if op == AluOp::Cmp { s.regs.ax as int } else { s.regs.ax - a + res }
            &&& t.regs.ax % 256 == if op == AluOp::Cmp { a } else { res }
            &&& t.regs.ax / 256 == s.regs.ax / 256
            &&& flag_on(t.regs.flags, FLAG_ZF) == (res == 0)
            &&& (op == AluOp::Sub || op == AluOp::Cmp) ==> flag_on(t.regs.flags, FLAG_CF) == (a < imm)
        }),
{
    reveal(Machine::alu_acc8);
    reveal(Machine::commit_reg8);
    reveal(Machine::alu_flags8);
    let f = s.regs.flags;
    let a = (s.regs.ax % 256) as u8;
    let res = alu8(op, a, imm, flag_on(f, FLAG_CF));
    lemma_compare_flags(f, res, 0, carry8(op, a, imm, flag_on(f, FLAG_CF)));
    law_isz8(f, res);
    lemma_low_byte(s.regs.ax, res);
    let t = s.alu_acc8(op, imm);
    assert(t.regs =~= Registers { ax: t.regs.ax, flags: t.regs.flags, ..s.regs });
}

proof fn lemma_low_byte(x: u16, w: u8)
    ensures
        (x - x % 256 + w) % 256 == w as int,
        (x - x % 256 + w) / 256 == x / 256,
{
    lemma_fundamental_div_mod_converse(x - x % 256 + w, 256, x as int / 256, w as int);
}


/// The arithmetic and logic block of the opcode map (bytes below 0x40 whose low three
/// bits are 0 to 5): bits 3..5 select the operation in the order ADD, OR, ADC, SBB,
/// AND, SUB, XOR, CMP (as in the `reg` field of group 1), bits 0..2 the form:
/// `r/m8, reg8`, `r/m16, reg16`, `reg8, r/m8`, `reg16, r/m16` (a ModR/M byte follows),
/// `AL, imm8` and `AX, imm16` (the immediate follows). Decoding reads exactly those
/// bytes, and executing the decoded instruction performs that operation on that form.
pub proof fn law_decode_alu_block(b: u8, s: Machine)
    requires
        b < 0x40,
        b % 8 < 6,
    ensures
        ({
            let (t, op) = decode_base(b, s);
            let (s1, x) = s.fetch8();
            let (s2, w) = s.fetch16();
            let alu = alu_op_of(b / 8);
            &&& b % 8 == 0 ==> t == s1 && exec_base(op, t) == (s1.alu_rm8(alu, x, false), true)
            &&& b % 8 == 1 ==> t == s1 && exec_base(op, t) == (s1.alu_rm16(alu, x, false), true)
            &&& b % 8 == 2 ==> t == s1 && exec_base(op, t) == (s1.alu_rm8(alu, x, true), true)
            &&& b % 8 == 3 ==> t == s1 && exec_base(op, t) == (s1.alu_rm16(alu, x, true), true)
            &&& b % 8 == 4 ==> t == s1 && exec_base(op, t) == (s1.alu_acc8(alu, x), true)
            &&& b % 8 == 5 ==> t == s2 && exec_base(op, t) == (s2.alu_acc16(alu, w), true)
        }),
{
    let (s1, x) = s.fetch8();
    let (s2, w) = s.fetch16();
    lemma_rm8_dispatch(s1, x);
    lemma_rm16_dispatch(s1, x);
    lemma_acc_dispatch(s1, x, 0);
    lemma_acc_dispatch(s2, 0, w);
    reveal(decode_base);
}

/// The operation code in bits 3..5 of a block-row or group-1 byte, in the 8086 order.
pub proof fn law_alu_op_order()
    ensures
        alu_op_of(0) == AluOp::Add && alu_op_of(1) == AluOp::Or && alu_op_of(2) == AluOp::Adc
            && alu_op_of(3) == AluOp::Sbb && alu_op_of(4) == AluOp::And && alu_op_of(5) == AluOp::Sub
            && alu_op_of(6) == AluOp::Xor && alu_op_of(7) == AluOp::Cmp,
{
}

proof fn lemma_rm8_dispatch(s: Machine, m: u8)
    ensures
        exec_base(Opcode::AddRm8Reg8(m), s) == (s.alu_rm8(AluOp::Add, m, false), true),
        exec_base(Opcode::AddReg8Rm8(m), s) == (s.alu_rm8(AluOp::Add, m, true), true),
        exec_base(Opcode::AdcRm8Reg8(m), s) == (s.alu_rm8(AluOp::Adc, m, false), true),
        exec_base(Opcode::AdcReg8Rm8(m), s) == (s.alu_rm8(AluOp::Adc, m, true), true),
        exec_base(Opcode::SubRm8Reg8(m), s) == (s.alu_rm8(AluOp::Sub, m, false), true),
        exec_base(Opcode::SubReg8Rm8(m), s) == (s.alu_rm8(AluOp::Sub, m, true), true),
        exec_base(Opcode::SbbRm8Reg8(m), s) == (s.alu_rm8(AluOp::Sbb, m, false), true),
        exec_base(Opcode::SbbReg8Rm8(m), s) == (s.alu_rm8(AluOp::Sbb, m, true), true),
        exec_base(Opcode::AndRm8Reg8(m), s) == (s.alu_rm8(AluOp::And, m, false), true),
        exec_base(Opcode::AndReg8Rm8(m), s) == (s.alu_rm8(AluOp::And, m, true), true),
        exec_base(Opcode::OrRm8Reg8(m), s) == (s.alu_rm8(AluOp::Or, m, false), true),
        exec_base(Opcode::OrReg8Rm8(m), s) == (s.alu_rm8(AluOp::Or, m, true), true),
        exec_base(Opcode::XorRm8Reg8(m), s) == (s.alu_rm8(AluOp::Xor, m, false), true),
        exec_base(Opcode::XorReg8Rm8(m), s) == (s.alu_rm8(AluOp::Xor, m, true), true),
        exec_base(Opcode::CmpRm8Reg8(m), s) == (s.alu_rm8(AluOp::Cmp, m, false), true),
        exec_base(Opcode::CmpReg8Rm8(m), s) == (s.alu_rm8(AluOp::Cmp, m, true), true),
{
    lemma_rm8_dispatch_to_rm(s, m);
    lemma_rm8_dispatch_to_reg(s, m);
}

proof fn lemma_rm8_dispatch_to_rm(s: Machine, m: u8)
    ensures
        exec_base(Opcode::AddRm8Reg8(m), s) == (s.alu_rm8(AluOp::Add, m, false), true),
        exec_base(Opcode::AdcRm8Reg8(m), s) == (s.alu_rm8(AluOp::Adc, m, false), true),
        exec_base(Opcode::SubRm8Reg8(m), s) == (s.alu_rm8(AluOp::Sub, m, false), true),
        exec_base(Opcode::SbbRm8Reg8(m), s) == (s.alu_rm8(AluOp::Sbb, m, false), true),
        exec_base(Opcode::AndRm8Reg8(m), s) == (s.alu_rm8(AluOp::And, m, false), true),
        exec_base(Opcode::OrRm8Reg8(m), s) == (s.alu_rm8(AluOp::Or, m, false), true),
        exec_base(Opcode::XorRm8Reg8(m), s) == (s.alu_rm8(AluOp::Xor, m, false), true),
        exec_base(Opcode::CmpRm8Reg8(m), s) == (s.alu_rm8(AluOp::Cmp, m, false), true),
{
    reveal(exec_base);
}

#[verifier::rlimit(100)]
proof fn lemma_rm8_dispatch_to_reg(s: Machine, m: u8)
    ensures
        exec_base(Opcode::AddRm8Reg8(m), s) == (s.alu_rm8(AluOp::Add, m, false), true),
        exec_base(Opcode::AddReg8Rm8(m), s) == (s.alu_rm8(AluOp::Add, m, true), true),
        exec_base(Opcode::AdcRm8Reg8(m), s) == (s.alu_rm8(AluOp::Adc, m, false), true),
        exec_base(Opcode::AdcReg8Rm8(m), s) == (s.alu_rm8(AluOp::Adc, m, true), true),
        exec_base(Opcode::SubRm8Reg8(m), s) == (s.alu_rm8(AluOp::Sub, m, false), true),
        exec_base(Opcode::SubReg8Rm8(m), s) == (s.alu_rm8(AluOp::Sub, m, true), true),
        exec_base(Opcode::SbbRm8Reg8(m), s) == (s.alu_rm8(AluOp::Sbb, m, false), true),
        exec_base(Opcode::SbbReg8Rm8(m), s) == (s.alu_rm8(AluOp::Sbb, m, true), true),
        exec_base(Opcode::AndRm8Reg8(m), s) == (s.alu_rm8(AluOp::And, m, false), true),
        exec_base(Opcode::AndReg8Rm8(m), s) == (s.alu_rm8(AluOp::And, m, true), true),
        exec_base(Opcode::OrRm8Reg8(m), s) == (s.alu_rm8(AluOp::Or, m, false), true),
        exec_base(Opcode::OrReg8Rm8(m), s) == (s.alu_rm8(AluOp::Or, m, true), true),
        exec_base(Opcode::XorRm8Reg8(m), s) == (s.alu_rm8(AluOp::Xor, m, false), true),
        exec_base(Opcode::XorReg8Rm8(m), s) == (s.alu_rm8(AluOp::Xor, m, true), true),
        exec_base(Opcode::CmpRm8Reg8(m), s) == (s.alu_rm8(AluOp::Cmp, m, false), true),
        exec_base(Opcode::CmpReg8Rm8(m), s) == (s.alu_rm8(AluOp::Cmp, m, true), true),
{
    reveal(exec_base);
}

proof fn lemma_rm16_dispatch(s: Machine, m: u8)
    ensures
        exec_base(Opcode::AddRm16Reg16(m), s) == (s.alu_rm16(AluOp::Add, m, false), true),
        exec_base(Opcode::AddReg16Rm16(m), s) == (s.alu_rm16(AluOp::Add, m, true), true),
        exec_base(Opcode::AdcRm16Reg16(m), s) == (s.alu_rm16(AluOp::Adc, m, false), true),
        exec_base(Opcode::AdcReg16Rm16(m), s) == (s.alu_rm16(AluOp::Adc, m, true), true),
        exec_base(Opcode::SubRm16Reg16(m), s) == (s.alu_rm16(AluOp::Sub, m, false), true),
        exec_base(Opcode::SubReg16Rm16(m), s) == (s.alu_rm16(AluOp::Sub, m, true), true),
        exec_base(Opcode::SbbRm16Reg16(m), s) == (s.alu_rm16(AluOp::Sbb, m, false), true),
        exec_base(Opcode::SbbReg16Rm16(m), s) == (s.alu_rm16(AluOp::Sbb, m, true), true),
        exec_base(Opcode::AndRm16Reg16(m), s) == (s.alu_rm16(AluOp::And, m, false), true),
        exec_base(Opcode::AndReg16Rm16(m), s) == (s.alu_rm16(AluOp::And, m, true), true),
        exec_base(Opcode::OrRm16Reg16(m), s) == (s.alu_rm16(AluOp::Or, m, false), true),
        exec_base(Opcode::OrReg16Rm16(m), s) == (s.alu_rm16(AluOp::Or, m, true), true),
        exec_base(Opcode::XorRm16Reg16(m), s) == (s.alu_rm16(AluOp::Xor, m, false), true),
        exec_base(Opcode::XorReg16Rm16(m), s) == (s.alu_rm16(AluOp::Xor, m, true), true),
        exec_base(Opcode::CmpRm16Reg16(m), s) == (s.alu_rm16(AluOp::Cmp, m, false), true),
        exec_base(Opcode::CmpReg16Rm16(m), s) == (s.alu_rm16(AluOp::Cmp, m, true), true),
{
    lemma_rm16_dispatch_to_rm(s, m);
    lemma_rm16_dispatch_to_reg(s, m);
}

proof fn lemma_rm16_dispatch_to_rm(s: Machine, m: u8)
    ensures
        exec_base(Opcode::AddRm16Reg16(m), s) == (s.alu_rm16(AluOp::Add, m, false), true),
        exec_base(Opcode::AdcRm16Reg16(m), s) == (s.alu_rm16(AluOp::Adc, m, false), true),
        exec_base(Opcode::SubRm16Reg16(m), s) == (s.alu_rm16(AluOp::Sub, m, false), true),
        exec_base(Opcode::SbbRm16Reg16(m), s) == (s.alu_rm16(AluOp::Sbb, m, false), true),
        exec_base(Opcode::AndRm16Reg16(m), s) == (s.alu_rm16(AluOp::And, m, false), true),
        exec_base(Opcode::OrRm16Reg16(m), s) == (s.alu_rm16(AluOp::Or, m, false), true),
        exec_base(Opcode::XorRm16Reg16(m), s) == (s.alu_rm16(AluOp::Xor, m, false), true),
        exec_base(Opcode::CmpRm16Reg16(m), s) == (s.alu_rm16(AluOp::Cmp, m, false), true),
{
    reveal(exec_base);
}

#[verifier::rlimit(100)]
proof fn lemma_rm16_dispatch_to_reg(s: Machine, m: u8)
    ensures
        exec_base(Opcode::AddRm16Reg16(m), s) == (s.alu_rm16(AluOp::Add, m, false), true),
        exec_base(Opcode::AddReg16Rm16(m), s) == (s.alu_rm16(AluOp::Add, m, true), true),
        exec_base(Opcode::AdcRm16Reg16(m), s) == (s.alu_rm16(AluOp::Adc, m, false), true),
        exec_base(Opcode::AdcReg16Rm16(m), s) == (s.alu_rm16(AluOp::Adc, m, true), true),
        exec_base(Opcode::SubRm16Reg16(m), s) == (s.alu_rm16(AluOp::Sub, m, false), true),
        exec_base(Opcode::SubReg16Rm16(m), s) == (s.alu_rm16(AluOp::Sub, m, true), true),
        exec_base(Opcode::SbbRm16Reg16(m), s) == (s.alu_rm16(AluOp::Sbb, m, false), true),
        exec_base(Opcode::SbbReg16Rm16(m), s) == (s.alu_rm16(AluOp::Sbb, m, true), true),
        exec_base(Opcode::AndRm16Reg16(m), s) == (s.alu_rm16(AluOp::And, m, false), true),
        exec_base(Opcode::AndReg16Rm16(m), s) == (s.alu_rm16(AluOp::And, m, true), true),
        exec_base(Opcode::OrRm16Reg16(m), s) == (s.alu_rm16(AluOp::Or, m, false), true),
        exec_base(Opcode::OrReg16Rm16(m), s) == (s.alu_rm16(AluOp::Or, m, true), true),
        exec_base(Opcode::XorRm16Reg16(m), s) == (s.alu_rm16(AluOp::Xor, m, false), true),
        exec_base(Opcode::XorReg16Rm16(m), s) == (s.alu_rm16(AluOp::Xor, m, true), true),
        exec_base(Opcode::CmpRm16Reg16(m), s) == (s.alu_rm16(AluOp::Cmp, m, false), true),
        exec_base(Opcode::CmpReg16Rm16(m), s) == (s.alu_rm16(AluOp::Cmp, m, true), true),
{
    reveal(exec_base);
}


/// Decoded and executed, `04 ib` / `05 iw` add the immediate to AL / AX, `2C ib` /
/// `2D iw` subtract it, and `3C ib` / `3D iw` compare with it: they keep AX, set ZF
/// exactly when the accumulator equals the immediate and CF exactly when it is below
/// it. The immediate is the byte or little-endian word after the opcode byte.
pub proof fn law_decode_accumulator_forms(s: Machine)
    ensures
        ({
            let (s1, x) = s.fetch8();
            let (s2, w) = s.fetch16();
            let al = s1.regs.ax % 256;
            &&& decode_base(0x04, s).0 == s1
            &&& exec_base(decode_base(0x04, s).1, s1).0.regs.ax % 256 == (al + x) % 256
            &&& decode_base(0x2C, s).0 == s1
            &&& exec_base(decode_base(0x2C, s).1, s1).0.regs.ax % 256 == (al - x) % 256
            &&& decode_base(0x3C, s).0 == s1
            &&& exec_base(decode_base(0x3C, s).1, s1).0.regs.ax == s1.regs.ax
            &&& flag_on(exec_base(decode_base(0x3C, s).1, s1).0.regs.flags, FLAG_ZF) == (al == x)
            &&& flag_on(exec_base(decode_base(0x3C, s).1, s1).0.regs.flags, FLAG_CF) == (al < x)
            &&& decode_base(0x05, s).0 == s2
            &&& exec_base(decode_base(0x05, s).1, s2).0.regs.ax == (s2.regs.ax + w) % 65536
            &&& decode_base(0x2D, s).0 == s2
            &&& exec_base(decode_base(0x2D, s).1, s2).0.regs.ax == (s2.regs.ax - w) % 65536
            &&& decode_base(0x3D, s).0 == s2
            &&& exec_base(decode_base(0x3D, s).1, s2).0.regs.ax == s2.regs.ax
            &&& flag_on(exec_base(decode_base(0x3D, s).1, s2).0.regs.flags, FLAG_ZF) == (s2.regs.ax == w)
            &&& flag_on(exec_base(decode_base(0x3D, s).1, s2).0.regs.flags, FLAG_CF) == (s2.regs.ax < w)
        }),
{
    let (s1, x) = s.fetch8();
    let (s2, w) = s.fetch16();
    law_decode_alu_block(0x04, s);
    law_decode_alu_block(0x2C, s);
    law_decode_alu_block(0x3C, s);
    law_decode_alu_block(0x05, s);
    law_decode_alu_block(0x2D, s);
    law_decode_alu_block(0x3D, s);
    lemma_acc_dispatch(s1, x, 0);
    lemma_acc_dispatch(s2, 0, w);
    law_acc8_instructions(s1, x);
    law_acc16_instructions(s2, w);
}


proof fn lemma_alu_rm16_registers(s: Machine, op: AluOp, m: u8, to_reg: bool)
    requires
        m / 64 == 3,
    ensures
        ({
            let rm = m % 8;
            let reg = (m / 8) % 8;
            let cf = flag_on(s.regs.flags, FLAG_CF);
            let dst = if to_reg { reg } else { rm };
            let a = if to_reg { s.regs.reg16(reg) } else { s.regs.reg16(rm) };
            let b = if to_reg { s.regs.reg16(rm) } else { s.regs.reg16(reg) };
            let res = alu16(op, a, b, cf);
            let t = s.alu_rm16(op, m, to_reg);
            &&& t.regs.reg16(dst) == if op == AluOp::Cmp { a } else { res }
            &&& forall|o: u8| o != dst ==> #[trigger] t.regs.reg16(o) == s.regs.reg16(o)
            &&& t.regs.ip == s.regs.ip
            &&& t.mem == s.mem
            &&& flag_on(t.regs.flags, FLAG_ZF) == (res == 0)
            &&& op == AluOp::Cmp ==> flag_on(t.regs.flags, FLAG_CF) == (a < b)
        }),
{
    reveal(Machine::alu_rm16);
    reveal(Machine::get_rm16);
    reveal(Machine::set_rm16);
    reveal(Machine::commit_rm16);
    reveal(Machine::commit_reg16);
    reveal(Machine::alu_flags16);
    let rm = m % 8;
    let reg = (m / 8) % 8;
    let f = s.regs.flags;
    let cf = flag_on(f, FLAG_CF);
    let dst = if to_reg { reg } else { rm };
    let a = if to_reg { s.regs.reg16(reg) } else { s.regs.reg16(rm) };
    let b = if to_reg { s.regs.reg16(rm) } else { s.regs.reg16(reg) };
    let res = alu16(op, a, b, cf);
    lemma_compare_flags(f, 0, res, carry16(op, a, b, cf));
    law_isz16(f, res);
    law_reg16_read_after_write(s.regs, dst, dst, res);
    assert forall|o: u8| o != dst implies #[trigger] s.regs.with_reg16(dst, res).reg16(o) == s.regs.reg16(o) by {
        law_reg16_read_after_write(s.regs, dst, o, res);
    }
}

/// Register-to-register arithmetic (`mod == 3`): `op r/m16, reg16` computes
/// destination r/m minus (plus) source reg, `op reg16, r/m16` destination reg minus
/// (plus) source r/m, each modulo 2^16 and stored in the destination alone; CMP stores
/// nothing and sets ZF when the two are equal and CF when the destination is below
/// the source. No other register changes.
pub proof fn law_register_arithmetic16(s: Machine, m: u8)
    requires
        m / 64 == 3,
    ensures
        ({
            let rm = m % 8;
            let reg = (m / 8) % 8;
            let x = s.regs.reg16(rm) as int;
            let y = s.regs.reg16(reg) as int;
            &&& exec_base(Opcode::AddRm16Reg16(m), s).0.regs.reg16(rm) == (x + y) % 65536
            &&& exec_base(Opcode::SubRm16Reg16(m), s).0.regs.reg16(rm) == (x - y) % 65536
            &&& exec_base(Opcode::AddReg16Rm16(m), s).0.regs.reg16(reg) == (y + x) % 65536
            &&& exec_base(Opcode::SubReg16Rm16(m), s).0.regs.reg16(reg) == (y - x) % 65536
            &&& rm != reg ==> exec_base(Opcode::SubRm16Reg16(m), s).0.regs.reg16(reg) == y
            &&& rm != reg ==> exec_base(Opcode::SubReg16Rm16(m), s).0.regs.reg16(rm) == x
            &&& exec_base(Opcode::CmpRm16Reg16(m), s).0.regs.reg16(rm) == x
            &&& exec_base(Opcode::CmpRm16Reg16(m), s).0.regs.reg16(reg) == y
            &&& flag_on(exec_base(Opcode::CmpRm16Reg16(m), s).0.regs.flags, FLAG_ZF) == (x == y)
            &&& flag_on(exec_base(Opcode::CmpRm16Reg16(m), s).0.regs.flags, FLAG_CF) == (x < y)
            &&& flag_on(exec_base(Opcode::CmpReg16Rm16(m), s).0.regs.flags, FLAG_CF) == (y < x)
        }),
{
    lemma_rm16_dispatch(s, m);
    let rm = m % 8;
    let reg = (m / 8) % 8;
    let cf = flag_on(s.regs.flags, FLAG_CF);
    law_alu16_arithmetic(s.regs.reg16(rm), s.regs.reg16(reg), cf);
    law_alu16_arithmetic(s.regs.reg16(reg), s.regs.reg16(rm), cf);
    lemma_alu_rm16_registers(s, AluOp::Add, m, false);
    lemma_alu_rm16_registers(s, AluOp::Sub, m, false);
    lemma_alu_rm16_registers(s, AluOp::Add, m, true);
    lemma_alu_rm16_registers(s, AluOp::Sub, m, true);
    lemma_alu_rm16_registers(s, AluOp::Cmp, m, false);
    lemma_alu_rm16_registers(s, AluOp::Cmp, m, true);
    let t = exec_base(Opcode::CmpRm16Reg16(m), s).0;
    assert(t.regs.reg16(reg) == s.regs.reg16(reg));
}


/// A byte widened with its sign: the same value read as a signed byte, modulo 2^16.
pub proof fn law_sign_extend(x: u8)
    ensures
        sign_extend8(x) as int == (if x < 128 { x as int } else { x - 256 }) % 65536,
{
}

/// Group 1 on a 16-bit register (`mod == 3`): `81 /r iw` and `83 /r ib` (the byte
/// widened with its sign) add (`reg` field 0) or subtract (5) the immediate, storing
/// the result modulo 2^16 in that register alone, or compare (7): nothing stored, ZF
/// when the register equals the immediate, CF when it is below it. The immediate
/// follows the ModR/M byte and is consumed.
pub proof fn law_group1_register16(s: Machine, m: u8)
    requires
        m / 64 == 3,
    ensures
        ({
            let rm = m % 8;
            let sub = (m / 8) % 8;
            let v = s.regs.reg16(rm) as int;
            let (s1, x) = s.fetch8();
            let (s2, w) = s.fetch16();
            let b = sign_extend8(x) as int;
            let t = exec_base(Opcode::Grp1(0x83, m), s).0;
            let u = exec_base(Opcode::Grp1(0x81, m), s).0;
            &&& t.regs.ip == s1.regs.ip && u.regs.ip == s2.regs.ip
            &&& sub == 0 ==> t.regs.reg16(rm) == (v + b) % 65536 && u.regs.reg16(rm) == (v + w) % 65536
            &&& sub == 5 ==> t.regs.reg16(rm) == (v - b) % 65536 && u.regs.reg16(rm) == (v - w) % 65536
            &&& sub == 7 ==> {
                &&& t.regs.reg16(rm) == v && u.regs.reg16(rm) == v
                &&& flag_on(t.regs.flags, FLAG_ZF) == (v == b) && flag_on(t.regs.flags, FLAG_CF) == (v < b)
                &&& flag_on(u.regs.flags, FLAG_ZF) == (v == w) && flag_on(u.regs.flags, FLAG_CF) == (v < w)
            }
            &&& forall|o: u8| o != rm ==> #[trigger] t.regs.reg16(o) == s.regs.reg16(o) && u.regs.reg16(o)
                == s.regs.reg16(o)
        }),
{
    assert(exec_base(Opcode::Grp1(0x83, m), s).0 == s.grp1(0x83, m) && exec_base(Opcode::Grp1(0x81, m), s).0
        == s.grp1(0x81, m)) by {
        reveal(exec_base);
    }
    let rm = m % 8;
    let (s1, x) = s.fetch8();
    let (s2, w) = s.fetch16();
    let v = s.regs.reg16(rm);
    let cf = flag_on(s.regs.flags, FLAG_CF);
    law_alu16_arithmetic(v, sign_extend8(x), cf);
    law_alu16_arithmetic(v, w, cf);
    lemma_group1_register(s, m, 0x83);
    lemma_group1_register(s, m, 0x81);
}

proof fn lemma_group1_register(s: Machine, m: u8, opcode: u8)
    requires
        m / 64 == 3,
        opcode == 0x81 || opcode == 0x83,
    ensures
        ({
            let rm = m % 8;
            let sub = (m / 8) % 8;
            let v = s.regs.reg16(rm);
            let cf = flag_on(s.regs.flags, FLAG_CF);
            let (s1, b) = if opcode == 0x83 {
                (s.fetch8().0, sign_extend8(s.fetch8().1))
            } else {
                s.fetch16()
            };
            let op = alu_op_of(sub);
            let res = alu16(op, v, b, cf);
            let t = s.grp1(opcode, m);
            &&& t.regs.ip == s1.regs.ip
            &&& sub != 2 && sub != 3 ==> {
                &&& t.regs.reg16(rm) == if op == AluOp::Cmp { v } else { res }
                &&& flag_on(t.regs.flags, FLAG_ZF) == (res == 0)
                &&& op == AluOp::Cmp ==> flag_on(t.regs.flags, FLAG_CF) == (v < b)
            }
            &&& forall|o: u8| o != rm ==> #[trigger] t.regs.reg16(o) == s.regs.reg16(o)
        }),
{
    reveal(Machine::grp1);
    reveal(Machine::get_rm16);
    reveal(Machine::set_rm16);
    reveal(Machine::commit_rm16);
    reveal(Machine::alu_flags16);
    let rm = m % 8;
    let sub = (m / 8) % 8;
    let v = s.regs.reg16(rm);
    let cf = flag_on(s.regs.flags, FLAG_CF);
    let (s1, b) = if opcode == 0x83 {
        (s.fetch8().0, sign_extend8(s.fetch8().1))
    } else {
        s.fetch16()
    };
    let op = alu_op_of(sub);
    let res = alu16(op, v, b, cf);
    lemma_compare_flags(s1.regs.flags, 0, res, carry16(op, v, b, cf));
    law_isz16(s1.regs.flags, res);
    law_reg16_read_after_write(s1.regs, rm, rm, res);
    assert forall|o: u8| o != rm implies #[trigger] s1.regs.with_reg16(rm, res).reg16(o) == s.regs.reg16(o) by {
        law_reg16_read_after_write(s1.regs, rm, o, res);
    }
}


/// Shifting by `n` single steps: SHR divides by 2^n (rounding down), SHL multiplies
/// by 2^n modulo the width, on bytes and on words.
pub proof fn law_shift_by_count(v8: u8, v16: u16, f: u16, n: nat)
    ensures
        shift8(5, v8, f, n).0 == v8 as int / pow2(n) as int,
        shift8(4, v8, f, n).0 == (v8 as int * pow2(n)) % 256,
        shift16(5, v16, f, n).0 == v16 as int / pow2(n) as int,
        shift16(4, v16, f, n).0 == (v16 as int * pow2(n)) % 65536,
    decreases n,
{
    if n == 0 {
        lemma2_to64();
    } else {
        let k = (n - 1) as nat;
        law_shift_by_count(v8, v16, f, k);
        lemma_pow2_unfold(n);
        lemma_pow2_pos(k);
        let (p5, q5) = shift8(5, v8, f, k);
        let (p4, q4) = shift8(4, v8, f, k);
        let (r5, t5) = shift16(5, v16, f, k);
        let (r4, t4) = shift16(4, v16, f, k);
        law_shift_once8(p5, q5);
        law_shift_once8(p4, q4);
        law_shift_once16(r5, t5);
        law_shift_once16(r4, t4);
        lemma_div_denominator(v8 as int, pow2(k) as int, 2);
        lemma_div_denominator(v16 as int, pow2(k) as int, 2);
        lemma_mul_mod_noop_left(v8 * pow2(k), 2, 256);
        lemma_mul_mod_noop_left(v16 * pow2(k), 2, 65536);
        assert(v8 * pow2(k) * 2 == v8 * pow2(n)) by (nonlinear_arith)
            requires pow2(n) == 2 * pow2(k);
        assert(v16 * pow2(k) * 2 == v16 * pow2(n)) by (nonlinear_arith)
            requires pow2(n) == 2 * pow2(k);
        assert(pow2(k) * 2 == pow2(n));
    }
}


/// Group 2 on an 8-bit register (`mod == 3`), by one (`D0`) or by CL (`D2`): SHR
/// leaves the register divided by 2^count, SHL multiplied by 2^count modulo 256, SAR
/// by one halves it keeping bit 7; a shift that moves at least one bit sets ZF for a
/// zero result and SF from bit 7 of the result. Only that byte register and FLAGS change.
#[verifier::rlimit(100)]
pub proof fn law_group2_register8(s: Machine, m: u8, opcode: u8)
    requires
        m / 64 == 3,
        opcode == 0xD0 || opcode == 0xD2,
    ensures
        ({
            let rm = m % 8;
            let sub = (m / 8) % 8;
            let v = s.regs.reg8(rm);
            let n: nat = if opcode == 0xD0 { 1 } else { (s.regs.cx % 256) as nat };
            let t = exec_base(Opcode::Grp2(opcode, m), s).0;
            let res = t.regs.reg8(rm);
            &&& sub == 5 ==> res == v as int / pow2(n) as int
            &&& sub == 4 ==> res == (v as int * pow2(n)) % 256
            &&& sub == 7 && opcode == 0xD0 ==> res == v / 2 + 128 * (v / 128)
            &&& sub >= 4 && n > 0 ==> flag_on(t.regs.flags, FLAG_ZF) == (res == 0) && flag_on(
                t.regs.flags,
                FLAG_SF,
            ) == (res >= 128)
            &&& t.regs.ip == s.regs.ip
            &&& t.mem == s.mem
            &&& forall|o: u8| o % 4 != rm % 4 ==> #[trigger] t.regs.reg16(o) == s.regs.reg16(o)
        }),
{
    assert(exec_base(Opcode::Grp2(opcode, m), s).0 == s.grp2(opcode, m, grp2_count(s, opcode))) by {
        reveal(exec_base);
    }
    reveal(Machine::grp2);
    reveal(Machine::get_rm8);
    reveal(Machine::set_rm8);
    let rm = m % 8;
    let sub = (m / 8) % 8;
    let v = s.regs.reg8(rm);
    let c = grp2_count(s, opcode);
    assert(s.regs.reg8(1) == s.regs.cx % 256);
    let n = c as nat;
    let f = s.regs.flags;
    let (v2, f2) = shift8(sub, v, f, n);
    law_shift_by_count(v, 0, f, n);
    law_shift_once8(v, f);
    assert(shift8(sub, v, f, 0) == (v, f));
    assert(shift8(sub, v, f, 1) == shift_once8(sub, v, f));
    law_isz8(f2, v2);
    lemma_compare_flags(f2, v2, 0, false);
    let r1 = if sub >= 4 { s.regs.with_flags(isz8(f2, v2)) } else { s.regs.with_flags(f2) };
    law_reg8_read_after_write(r1, rm, v2);
}


/// INC and DEC of a 16-bit register add and subtract one modulo 2^16, setting ZF for
/// a zero result and keeping CF and every other register; DEC undoes INC.
pub proof fn law_inc_dec16(s: Machine, reg: u8)
    requires
        reg < 8,
    ensures
        ({
            let v = s.regs.reg16(reg) as int;
            let i = exec_base(Opcode::IncReg16(reg), s).0;
            let d = exec_base(Opcode::DecReg16(reg), s).0;
            &&& i.regs.reg16(reg) == (v + 1) % 65536
            &&& d.regs.reg16(reg) == (v - 1) % 65536
            &&& flag_on(i.regs.flags, FLAG_ZF) == (v == 65535)
            &&& flag_on(d.regs.flags, FLAG_ZF) == (v == 1)
            &&& flag_on(i.regs.flags, FLAG_CF) == flag_on(s.regs.flags, FLAG_CF)
            &&& flag_on(d.regs.flags, FLAG_CF) == flag_on(s.regs.flags, FLAG_CF)
            &&& forall|o: u8| o != reg ==> #[trigger] i.regs.reg16(o) == s.regs.reg16(o) && d.regs.reg16(o)
                == s.regs.reg16(o)
            &&& exec_base(Opcode::DecReg16(reg), i).0.regs.reg16(reg) == v
        }),
{
    let v = s.regs.reg16(reg);
    let i = exec_base(Opcode::IncReg16(reg), s).0;
    let a = v.wrapping_add(1);
    let b = v.wrapping_sub(1);
    let c = i.regs.reg16(reg).wrapping_sub(1);
    assert(i == s.set_reg16(reg, a).flags_isz16(a)) by {
        reveal(exec_base);
    }
    assert(exec_base(Opcode::DecReg16(reg), s).0 == s.set_reg16(reg, b).flags_isz16(b)) by {
        reveal(exec_base);
    }
    assert(exec_base(Opcode::DecReg16(reg), i).0 == i.set_reg16(reg, c).flags_isz16(c)) by {
        reveal(exec_base);
    }
    law_reg16_read_after_write(s.regs, reg, reg, a);
    law_reg16_read_after_write(s.regs, reg, reg, b);
    law_isz16(s.regs.flags, a);
    law_isz16(s.regs.flags, b);
    let fa = s.regs.flags;
    assert(flag_on(isz16(fa, a), 1) == flag_on(fa, 1) && flag_on(isz16(fa, b), 1) == flag_on(fa, 1))
        by (bit_vector);
    assert forall|o: u8| o != reg implies #[trigger] s.regs.with_reg16(reg, a).reg16(o) == s.regs.reg16(o)
        && s.regs.with_reg16(reg, b).reg16(o) == s.regs.reg16(o) by {
        law_reg16_read_after_write(s.regs, reg, o, a);
        law_reg16_read_after_write(s.regs, reg, o, b);
    }
    law_reg16_read_after_write(i.regs, reg, reg, a.wrapping_sub(1));
}

/// The short conditional jumps come in pairs: the odd opcode of each pair jumps exactly
/// when the even one does not; only the low four bits of the opcode matter. The even
/// ones test OF (`70`), CF (`72`), ZF (`74`), CF or ZF (`76`), SF (`78`), PF (`7A`),
/// SF differing from OF (`7C`), and ZF or SF differing from OF (`7E`).
pub proof fn law_jcc_conditions(c: u8, f: u16)
    ensures
        c % 2 == 0 && c < 255 ==> jcc_taken((c + 1) as u8, f) == !jcc_taken(c, f),
        jcc_taken(c, f) == jcc_taken(c % 16, f),
        jcc_taken(0x70, f) == flag_on(f, FLAG_OF),
        jcc_taken(0x72, f) == flag_on(f, FLAG_CF),
        jcc_taken(0x74, f) == flag_on(f, FLAG_ZF),
        jcc_taken(0x76, f) == (flag_on(f, FLAG_CF) || flag_on(f, FLAG_ZF)),
        jcc_taken(0x78, f) == flag_on(f, FLAG_SF),
        jcc_taken(0x7A, f) == flag_on(f, FLAG_PF),
        jcc_taken(0x7C, f) == (flag_on(f, FLAG_SF) != flag_on(f, FLAG_OF)),
        jcc_taken(0x7E, f) == (flag_on(f, FLAG_ZF) || flag_on(f, FLAG_SF) != flag_on(f, FLAG_OF)),
{
}

/// Short jumps forward move IP by the displacement modulo 2^16: JMP always, a
/// conditional jump exactly when its condition holds (else nothing changes), and
/// LOOP after decrementing CX exactly when CX has not reached zero.
pub proof fn law_short_jumps(s: Machine, c: u8, rel: i8)
    ensures
        rel >= 0 ==> exec_base(Opcode::JmpShort(rel), s).0 == s.with_ip(((s.regs.ip + rel) % 65536) as u16),
        rel >= 0 ==> exec_base(Opcode::JccShort(c, rel), s).0 == if jcc_taken(c, s.regs.flags) {
            s.with_ip(((s.regs.ip + rel) % 65536) as u16)
        } else {
            s
        },
        !jcc_taken(c, s.regs.flags) ==> exec_base(Opcode::JccShort(c, rel), s).0 == s,
        exec_base(Opcode::Loop(rel), s).0.regs.cx == (s.regs.cx - 1) % 65536,
        rel >= 0 ==> exec_base(Opcode::Loop(rel), s).0.regs.ip == if s.regs.cx != 1 {
            (s.regs.ip + rel) % 65536
        } else {
            s.regs.ip as int
        },
{
    let r = s.regs;
    assert(exec_base(Opcode::JmpShort(rel), s).0 == s.jump(rel as u16)) by {
        reveal(exec_base);
    }
    assert(exec_base(Opcode::JccShort(c, rel), s).0 == if jcc_taken(c, r.flags) {
        s.jump(rel as u16)
    } else {
        s
    }) by {
        reveal(exec_base);
    }
    assert(exec_base(Opcode::Loop(rel), s).0 == if s.dec_cx().regs.cx != 0 {
        s.dec_cx().jump(rel as u16)
    } else {
        s.dec_cx()
    }) by {
        reveal(exec_base);
    }
}


/// Group 3 on a 16-bit register (`mod == 3`, opcode `F7`): NOT (`reg` field 2) leaves
/// the complement (the two add up to 0xFFFF), NEG (3) the negation (the two add up to
/// 0 modulo 2^16) with CF set exactly for a nonzero operand, and DIV (6) by a nonzero
/// register whose quotient fits in 16 bits leaves in AX the quotient and in DX the
/// remainder of DX:AX by it; DIV by zero changes nothing.
pub proof fn law_group3_register16(s: Machine, m: u8)
    requires
        m / 64 == 3,
    ensures
        ({
            let rm = m % 8;
            let sub = (m / 8) % 8;
            let v = s.regs.reg16(rm) as int;
            let num = s.regs.dx * 65536 + s.regs.ax;
            let t = exec_base(Opcode::Grp3(0xF7, m), s).0;
            &&& sub == 2 ==> t.regs.reg16(rm) + v == 65535
            &&& sub == 3 ==> (t.regs.reg16(rm) + v) % 65536 == 0 && flag_on(t.regs.flags, FLAG_CF) == (v != 0)
            &&& sub == 6 && v != 0 && num / v < 65536 ==> t.regs.ax * v + t.regs.dx == num && t.regs.dx < v
            &&& sub == 6 && v == 0 ==> t == s
        }),
{
    assert(exec_base(Opcode::Grp3(0xF7, m), s).0 == s.grp3(0xF7, m)) by {
        reveal(exec_base);
    }
    lemma_group3_not_neg(s, m);
    if (m / 8) % 8 == 6 {
        lemma_group3_div(s, m);
    }
}

proof fn lemma_group3_not_neg(s: Machine, m: u8)
    requires
        m / 64 == 3,
    ensures
        ({
            let rm = m % 8;
            let sub = (m / 8) % 8;
            let v = s.regs.reg16(rm) as int;
            let t = s.grp3(0xF7, m);
            &&& sub == 2 ==> t.regs.reg16(rm) + v == 65535
            &&& sub == 3 ==> (t.regs.reg16(rm) + v) % 65536 == 0 && flag_on(t.regs.flags, FLAG_CF) == (v != 0)
        }),
{
    let rm = m % 8;
    let sub = (m / 8) % 8;
    let v = s.regs.reg16(rm);
    let t = s.grp3(0xF7, m);
    reveal(Machine::get_rm16);
    reveal(Machine::set_rm16);
    if sub == 2 {
        assert(t == s.set_rm16(m, !v)) by {
            reveal(Machine::grp3);
        }
        law_reg16_read_after_write(s.regs, rm, rm, !v);
        assert(!v + v == 65535) by (bit_vector);
    } else if sub == 3 {
        let n = ((0 - v) % 65536) as u16;
        let s2 = s.set_rm16(m, n).flags_isz16(n);
        assert(t == s2.with_flags(set_flag(s2.regs.flags, FLAG_CF, v != 0))) by {
            reveal(Machine::grp3);
        }
        law_reg16_read_after_write(s.regs, rm, rm, n);
        let f1 = s2.regs.flags;
        assert(flag_on(set_flag(f1, 1, v != 0), 1) == (v != 0)) by (bit_vector);
    }
}

proof fn lemma_group3_div(s: Machine, m: u8)
    requires
        m / 64 == 3,
        (m / 8) % 8 == 6,
    ensures
        ({
            let v = s.regs.reg16(m % 8) as int;
            let num = s.regs.dx * 65536 + s.regs.ax;
            let t = s.grp3(0xF7, m);
            &&& v != 0 && num / v < 65536 ==> t.regs.ax * v + t.regs.dx == num && t.regs.dx < v
            &&& v == 0 ==> t == s
        }),
{
    let v = s.regs.reg16(m % 8);
    let num = s.regs.dx * 65536 + s.regs.ax;
    let t = s.grp3(0xF7, m);
    assert(t == if v != 0 {
        s.with_regs(Registers { ax: (num / v as int) as u16, dx: (num % v as int) as u16, ..s.regs })
    } else {
        s
    }) by {
        reveal(Machine::grp3);
        reveal(Machine::get_rm16);
    }
    if v != 0 && num / (v as int) < 65536 {
        lemma_division(num, v as int);
    }
}

proof fn lemma_division(num: int, v: int)
    requires
        0 < v < 65536,
        0 <= num,
        num / v < 65536,
    ensures
        ((num / v) as u16) * v + ((num % v) as u16) == num,
        ((num % v) as u16) < v,
{
    vstd::arithmetic::div_mod::lemma_fundamental_div_mod(num, v);
    assert((num / v) * v == v * (num / v)) by (nonlinear_arith);
}

/// CBW widens AL with its sign into AX; CWD widens AX with its sign into DX:AX.
pub proof fn law_widen_accumulator(s: Machine)
    ensures
        ({
            let al = s.regs.ax as int % 256;
            let a = exec_base(Opcode::Cbw, s).0;
            let d = exec_base(Opcode::Cwd, s).0;
            &&& a.regs.ax == (if al < 128 { al } else { al - 256 }) % 65536
            &&& a.regs == Registers { ax: a.regs.ax, ..s.regs }
            &&& d.regs.dx * 65536 + d.regs.ax == (if s.regs.ax < 32768 { s.regs.ax as int } else { s.regs.ax
                - 65536 }) % 0x1_0000_0000
            &&& d.regs == Registers { dx: d.regs.dx, ..s.regs }
        }),
{
    let r = s.regs;
    let a = exec_base(Opcode::Cbw, s).0;
    let d = exec_base(Opcode::Cwd, s).0;
    assert(a == s.with_regs(Registers { ax: sign_extend8(r.reg8(0)), ..r })) by {
        reveal(exec_base);
    }
    assert(d == s.with_regs(Registers { dx: if r.ax >= 0x8000 { 0xFFFF } else { 0 }, ..r })) by {
        reveal(exec_base);
    }
    assert(a.regs =~= Registers { ax: a.regs.ax, ..s.regs });
    assert(d.regs =~= Registers { dx: d.regs.dx, ..s.regs });
}


/// Register moves (`mod == 3`): `88`/`89` copy the `reg` register into the r/m
/// register, `8A`/`8B` the r/m register into the `reg` register; FLAGS and IP stay.
pub proof fn law_register_moves(s: Machine, m: u8)
    requires
        m / 64 == 3,
    ensures
        ({
            let rm = m % 8;
            let reg = (m / 8) % 8;
            let a = exec_base(Opcode::MovRmReg16(m), s).0;
            let b = exec_base(Opcode::MovReg16Rm16(m), s).0;
            let c = exec_base(Opcode::MovRmReg8(m), s).0;
            let d = exec_base(Opcode::MovReg8Rm8(m), s).0;
            &&& a.regs.reg16(rm) == s.regs.reg16(reg)
            &&& b.regs.reg16(reg) == s.regs.reg16(rm)
            &&& c.regs.reg8(rm) == s.regs.reg8(reg)
            &&& d.regs.reg8(reg) == s.regs.reg8(rm)
            &&& a.regs.flags == s.regs.flags && b.regs.flags == s.regs.flags
            &&& c.regs.flags == s.regs.flags && d.regs.flags == s.regs.flags
            &&& a.regs.ip == s.regs.ip && b.regs.ip == s.regs.ip
            &&& c.regs.ip == s.regs.ip && d.regs.ip == s.regs.ip
        }),
{
    let r = s.regs;
    let rm = m % 8;
    let reg = (m / 8) % 8;
    assert(exec_base(Opcode::MovRmReg16(m), s).0 == s.set_rm16(m, r.reg16(reg))) by {
        reveal(exec_base);
    }
    assert(exec_base(Opcode::MovRmReg8(m), s).0 == s.set_rm8(m, r.reg8(reg))) by {
        reveal(exec_base);
    }
    assert(exec_base(Opcode::MovReg16Rm16(m), s).0 == s.get_rm16(m).0.set_reg16(reg, s.get_rm16(m).1)) by {
        reveal(exec_base);
    }
    assert(exec_base(Opcode::MovReg8Rm8(m), s).0 == s.get_rm8(m).0.set_reg8(reg, s.get_rm8(m).1)) by {
        reveal(exec_base);
    }
    reveal(Machine::get_rm16);
    reveal(Machine::set_rm16);
    reveal(Machine::get_rm8);
    reveal(Machine::set_rm8);
    law_reg16_read_after_write(r, rm, rm, r.reg16(reg));
    law_reg16_read_after_write(r, reg, reg, r.reg16(rm));
    law_reg8_read_after_write(r, rm, r.reg8(reg));
    law_reg8_read_after_write(r, reg, r.reg8(rm));
}

/// The register rows of the opcode map, `r` in the low three bits: `40+r` increments
/// and `48+r` decrements register `r`, `B8+r` loads it with the word that follows and
/// `B0+r` loads 8-bit register `r` with the byte that follows, `50+r` pushes it and
/// `90+r` exchanges it with AX. Each decodes from the bytes it names and no others.
pub proof fn law_decode_register_rows(s: Machine, r: u8)
    requires
        r < 8,
    ensures
        ({
            let v = s.regs.reg16(r) as int;
            let (s1, x) = s.fetch8();
            let (s2, w) = s.fetch16();
            let inc = decode_base((0x40 + r) as u8, s);
            let dec = decode_base((0x48 + r) as u8, s);
            let mov16 = decode_base((0xB8 + r) as u8, s);
            let mov8 = decode_base((0xB0 + r) as u8, s);
            let push = decode_base((0x50 + r) as u8, s);
            let xchg = decode_base((0x90 + r) as u8, s);
            &&& inc.0 == s && exec_base(inc.1, s).0.regs.reg16(r) == (v + 1) % 65536
            &&& dec.0 == s && exec_base(dec.1, s).0.regs.reg16(r) == (v - 1) % 65536
            &&& mov16.0 == s2 && exec_base(mov16.1, s2).0.regs.reg16(r) == w
            &&& mov8.0 == s1 && exec_base(mov8.1, s1).0.regs.reg8(r) == x
            &&& push.0 == s && exec_base(push.1, s).0 == s.push16(s.regs.reg16(r))
            &&& xchg.0 == s && exec_base(xchg.1, s).0.regs.ax == v && exec_base(xchg.1, s).0.regs.reg16(r)
                == s.regs.ax
        }),
{
    let (s1, x) = s.fetch8();
    let (s2, w) = s.fetch16();
    lemma_register_rows_decode(s, r);
    if r != 0 {
        let t1 = s.with_regs(Registers { ax: s.regs.reg16(r), ..s.regs });
        law_reg16_read_after_write(t1.regs, r, r, s.regs.ax);
        law_reg16_read_after_write(t1.regs, r, 0, s.regs.ax);
    }
    law_inc_dec16(s, r);
    lemma_register_rows_exec(s, r);
    law_reg16_read_after_write(s2.regs, r, r, w);
    law_reg8_read_after_write(s1.regs, r, x);
}


proof fn lemma_register_rows_decode(s: Machine, r: u8)
    requires
        r < 8,
    ensures
        decode_base((0x40 + r) as u8, s) == (s, Opcode::IncReg16(r)),
        decode_base((0x48 + r) as u8, s) == (s, Opcode::DecReg16(r)),
        decode_base((0xB8 + r) as u8, s) == (s.fetch16().0, Opcode::MovReg16Imm16(r, s.fetch16().1)),
        decode_base((0xB0 + r) as u8, s) == (s.fetch8().0, Opcode::MovReg8Imm8(r, s.fetch8().1)),
        decode_base((0x50 + r) as u8, s) == (s, Opcode::PushReg16(r)),
        r == 0 ==> decode_base(0x90, s) == (s, Opcode::Nop),
        r != 0 ==> decode_base((0x90 + r) as u8, s) == (s, Opcode::XchgAxReg(r)),
{
    reveal(decode_base);
}

proof fn lemma_register_rows_exec(s: Machine, r: u8)
    requires
        r < 8,
    ensures
        exec_base(Opcode::MovReg16Imm16(r, s.fetch16().1), s.fetch16().0).0 == s.fetch16().0.set_reg16(r, s.fetch16().1),
        exec_base(Opcode::MovReg8Imm8(r, s.fetch8().1), s.fetch8().0).0 == s.fetch8().0.set_reg8(r, s.fetch8().1),
        exec_base(Opcode::PushReg16(r), s).0 == s.push16(s.regs.reg16(r)),
        exec_base(Opcode::Nop, s).0 == s,
        exec_base(Opcode::XchgAxReg(r), s).0 == s.with_regs(Registers { ax: s.regs.reg16(r), ..s.regs }).set_reg16(r, s.regs.ax),
{
    reveal(exec_base);
}


/// ENTER with nesting level 0 pushes BP, points BP at the pushed word and reserves
/// `size` bytes below it; LEAVE right after it restores SP and BP (where the pushed
/// word lies wholly inside memory).
pub proof fn law_leave_undoes_enter(s: Machine, size: u16)
    requires
        linear(s.regs.ss, s.regs.sp.wrapping_sub(2)) + 1 < s.mem.len(),
    ensures
        ({
            let t = exec_base(Opcode::Enter(size, 0), s).0;
            let u = exec_base(Opcode::Leave, t).0;
            &&& t.regs.bp == (s.regs.sp - 2) % 65536
            &&& t.regs.sp == (s.regs.sp - 2 - size) % 65536
            &&& word_at(t.mem, linear(t.regs.ss, t.regs.bp)) == s.regs.bp
            &&& u.regs.sp == s.regs.sp
            &&& u.regs.bp == s.regs.bp
        }),
{
    let t = exec_base(Opcode::Enter(size, 0), s).0;
    lemma_enter_dispatch(s, size);
    lemma_leave_dispatch(t);
    reveal(Machine::enter);
    reveal(Machine::push16);
    reveal(Machine::pop16);
    let sp = s.regs.sp.wrapping_sub(2);
    law_word_read_after_write(s.mem, linear(s.regs.ss, sp), 0, s.regs.bp);
}


proof fn lemma_enter_dispatch(s: Machine, size: u16)
    ensures
        exec_base(Opcode::Enter(size, 0), s).0 == s.enter(size, 0),
{
    reveal(exec_base);
}

proof fn lemma_leave_dispatch(t: Machine)
    ensures
        exec_base(Opcode::Leave, t).0 == t.with_regs(Registers { sp: t.regs.bp, ..t.regs }).pop16().0.with_regs(
            Registers {
                bp: t.with_regs(Registers { sp: t.regs.bp, ..t.regs }).pop16().1,
                ..t.with_regs(Registers { sp: t.regs.bp, ..t.regs }).pop16().0.regs
            },
        ),
{
    reveal(exec_base);
}


proof fn lemma_alu_rm8_registers(s: Machine, op: AluOp, m: u8, to_reg: bool)
    requires
        m / 64 == 3,
    ensures
        ({
            let rm = m % 8;
            let reg = (m / 8) % 8;
            let cf = flag_on(s.regs.flags, FLAG_CF);
            let dst = if to_reg { reg } else { rm };
            let a = if to_reg { s.regs.reg8(reg) } else { s.regs.reg8(rm) };
            let b = if to_reg { s.regs.reg8(rm) } else { s.regs.reg8(reg) };
            let res = alu8(op, a, b, cf);
            let t = s.alu_rm8(op, m, to_reg);
            &&& t.regs.reg8(dst) == if op == AluOp::Cmp { a } else { res }
            &&& t.regs.ip == s.regs.ip
            &&& flag_on(t.regs.flags, FLAG_ZF) == (res == 0)
            &&& op == AluOp::Cmp ==> flag_on(t.regs.flags, FLAG_CF) == (a < b)
        }),
{
    reveal(Machine::alu_rm8);
    reveal(Machine::get_rm8);
    reveal(Machine::set_rm8);
    reveal(Machine::commit_rm8);
    reveal(Machine::commit_reg8);
    reveal(Machine::alu_flags8);
    let rm = m % 8;
    let reg = (m / 8) % 8;
    let f = s.regs.flags;
    let cf = flag_on(f, FLAG_CF);
    let dst = if to_reg { reg } else { rm };
    let a = if to_reg { s.regs.reg8(reg) } else { s.regs.reg8(rm) };
    let b = if to_reg { s.regs.reg8(rm) } else { s.regs.reg8(reg) };
    let res = alu8(op, a, b, cf);
    lemma_compare_flags(f, res, 0, carry8(op, a, b, cf));
    law_isz8(f, res);
    law_reg8_read_after_write(s.regs, dst, res);
}

/// Byte register-to-register arithmetic (`mod == 3`): `op r/m8, reg8` computes
/// destination r/m minus (plus) source reg, `op reg8, r/m8` destination reg minus
/// (plus) source r/m, modulo 256, stored in the destination; CMP stores nothing and
/// sets ZF when the two are equal and CF when the destination is below the source.
pub proof fn law_register_arithmetic8(s: Machine, m: u8)
    requires
        m / 64 == 3,
    ensures
        ({
            let rm = m % 8;
            let reg = (m / 8) % 8;
            let x = s.regs.reg8(rm) as int;
            let y = s.regs.reg8(reg) as int;
            &&& exec_base(Opcode::AddRm8Reg8(m), s).0.regs.reg8(rm) == (x + y) % 256
            &&& exec_base(Opcode::SubRm8Reg8(m), s).0.regs.reg8(rm) == (x - y) % 256
            &&& exec_base(Opcode::AddReg8Rm8(m), s).0.regs.reg8(reg) == (y + x) % 256
            &&& exec_base(Opcode::SubReg8Rm8(m), s).0.regs.reg8(reg) == (y - x) % 256
            &&& exec_base(Opcode::CmpRm8Reg8(m), s).0.regs.reg8(rm) == x
            &&& flag_on(exec_base(Opcode::CmpRm8Reg8(m), s).0.regs.flags, FLAG_ZF) == (x == y)
            &&& flag_on(exec_base(Opcode::CmpRm8Reg8(m), s).0.regs.flags, FLAG_CF) == (x < y)
            &&& flag_on(exec_base(Opcode::CmpReg8Rm8(m), s).0.regs.flags, FLAG_CF) == (y < x)
        }),
{
    lemma_rm8_dispatch(s, m);
    let rm = m % 8;
    let reg = (m / 8) % 8;
    let cf = flag_on(s.regs.flags, FLAG_CF);
    law_alu8_arithmetic(s.regs.reg8(rm), s.regs.reg8(reg), cf);
    law_alu8_arithmetic(s.regs.reg8(reg), s.regs.reg8(rm), cf);
    lemma_alu_rm8_registers(s, AluOp::Add, m, false);
    lemma_alu_rm8_registers(s, AluOp::Sub, m, false);
    lemma_alu_rm8_registers(s, AluOp::Add, m, true);
    lemma_alu_rm8_registers(s, AluOp::Sub, m, true);
    lemma_alu_rm8_registers(s, AluOp::Cmp, m, false);
    lemma_alu_rm8_registers(s, AluOp::Cmp, m, true);
}


/// The drive geometry that INT 13h AH = 08h reports (sectors per track in CL bits
/// 0..5, the highest head number in DH) is the geometry by which AH = 02h reads: a
/// CHS address starts at ((cylinder * heads + head) * sectors per track + sector - 1)
/// * 512 with those numbers.
pub proof fn law_geometry_matches_reads(s: Machine, r: Registers, c: int, h: int, sec: int)
    requires
        s.regs.ax / 256 == 0x08,
        holds_chs(r, c, h, sec),
    ensures
        ({
            let q = interrupt(s, 0x13).0;
            let spt = q.regs.cx % 64;
            let heads = q.regs.dx / 256 + 1;
            &&& heads == 2
            &&& chs_offset(r, s.disk) == ((c * heads + h) * spt + sec - 1) * 512
        }),
{
    reveal(interrupt);
    law_chs_address(r, s.disk, c, h, sec);
}


/// Group 2 on a 16-bit register (`mod == 3`), by one (`D1`) or by CL (`D3`): SHR
/// divides by 2^count, SHL multiplies by 2^count modulo 2^16, SAR by one halves
/// keeping bit 15; a shift that moves at least one bit sets ZF for a zero result and
/// SF from bit 15. Memory and IP stay.
#[verifier::rlimit(100)]
pub proof fn law_group2_register16(s: Machine, m: u8, opcode: u8)
    requires
        m / 64 == 3,
        opcode == 0xD1 || opcode == 0xD3,
    ensures
        ({
            let rm = m % 8;
            let sub = (m / 8) % 8;
            let v = s.regs.reg16(rm);
            let n: nat = if opcode == 0xD1 { 1 } else { (s.regs.cx % 256) as nat };
            let t = exec_base(Opcode::Grp2(opcode, m), s).0;
            let res = t.regs.reg16(rm);
            &&& sub == 5 ==> res == v as int / pow2(n) as int
            &&& sub == 4 ==> res == (v as int * pow2(n)) % 65536
            &&& sub == 7 && opcode == 0xD1 ==> res == v / 2 + 32768 * (v / 32768)
            &&& sub >= 4 && n > 0 ==> flag_on(t.regs.flags, FLAG_ZF) == (res == 0) && flag_on(
                t.regs.flags,
                FLAG_SF,
            ) == (res >= 32768)
            &&& t.regs.ip == s.regs.ip
            &&& t.mem == s.mem
        }),
{
    assert(exec_base(Opcode::Grp2(opcode, m), s).0 == s.grp2(opcode, m, grp2_count(s, opcode))) by {
        reveal(exec_base);
    }
    reveal(Machine::grp2);
    reveal(Machine::get_rm16);
    reveal(Machine::set_rm16);
    let rm = m % 8;
    let sub = (m / 8) % 8;
    let v = s.regs.reg16(rm);
    let c = grp2_count(s, opcode);
    assert(s.regs.reg8(1) == s.regs.cx % 256);
    let n = c as nat;
    let f = s.regs.flags;
    let (v2, f2) = shift16(sub, v, f, n);
    law_shift_by_count(0, v, f, n);
    law_shift_once16(v, f);
    assert(shift16(sub, v, f, 0) == (v, f));
    assert(shift16(sub, v, f, 1) == shift_once16(sub, v, f));
    law_isz16(f2, v2);
    lemma_compare_flags(f2, 0, v2, false);
    let r1 = if sub >= 4 { s.regs.with_flags(isz16(f2, v2)) } else { s.regs.with_flags(f2) };
    law_reg16_read_after_write(r1, rm, rm, v2);

}

} // verus!
