use vstd::prelude::*;
use crate::cpu::Cpu;
use crate::machine::{Machine, modrm_reg, linear};
use crate::memory::{byte_at, word_at, store_byte, store_word};
use crate::regs::{Registers, set_flag, flag_on, FLAG_CF, FLAG_DF, FLAG_ZF, FLAG_SF, FLAG_OF, FLAG_PF};

verus! {

/// One step of a byte shift or rotate selected by `sub` (ROL, ROR, RCL, RCR, SHL,
/// SHR, SAL, SAR), giving the new value and flags: CF receives the bit shifted out.
pub open spec fn shift_once8(sub: u8, v: u8, flags: u16) -> (u8, u16) {
    let cf = flag_on(flags, FLAG_CF);
    let hi = v & 0x80 != 0;
    let lo = v & 0x01 != 0;
    if sub == 0 {
        ((v << 1u8) | (if hi { 1u8 } else { 0u8 }), set_flag(flags, FLAG_CF, hi))
    } else if sub == 1 {
        ((v >> 1u8) | (if lo { 0x80u8 } else { 0u8 }), set_flag(flags, FLAG_CF, lo))
    } else if sub == 2 {
        ((v << 1u8) | (if cf { 1u8 } else { 0u8 }), set_flag(flags, FLAG_CF, hi))
    } else if sub == 3 {
        ((v >> 1u8) | (if cf { 0x80u8 } else { 0u8 }), set_flag(flags, FLAG_CF, lo))
    } else if sub == 4 || sub == 6 {
        (v << 1u8, set_flag(flags, FLAG_CF, hi))
    } else if sub == 5 {
        (v >> 1u8, set_flag(flags, FLAG_CF, lo))
    } else {
        ((v >> 1u8) | (v & 0x80), set_flag(flags, FLAG_CF, lo))
    }
}

/// One step of a word shift or rotate selected by `sub`.
pub open spec fn shift_once16(sub: u8, v: u16, flags: u16) -> (u16, u16) {
    let cf = flag_on(flags, FLAG_CF);
    let hi = v & 0x8000 != 0;
    let lo = v & 0x0001 != 0;
    if sub == 0 {
        ((v << 1u16) | (if hi { 1u16 } else { 0u16 }), set_flag(flags, FLAG_CF, hi))
    } else if sub == 1 {
        ((v >> 1u16) | (if lo { 0x8000u16 } else { 0u16 }), set_flag(flags, FLAG_CF, lo))
    } else if sub == 2 {
        ((v << 1u16) | (if cf { 1u16 } else { 0u16 }), set_flag(flags, FLAG_CF, hi))
    } else if sub == 3 {
        ((v >> 1u16) | (if cf { 0x8000u16 } else { 0u16 }), set_flag(flags, FLAG_CF, lo))
    } else if sub == 4 || sub == 6 {
        (v << 1u16, set_flag(flags, FLAG_CF, hi))
    } else if sub == 5 {
        (v >> 1u16, set_flag(flags, FLAG_CF, lo))
    } else {
        ((v >> 1u16) | (v & 0x8000), set_flag(flags, FLAG_CF, lo))
    }
}

/// `n` single-bit steps of a byte shift or rotate.
pub open spec fn shift8(sub: u8, v: u8, flags: u16, n: nat) -> (u8, u16)
    decreases n,
{
    if n == 0 {
        (v, flags)
    } else {
        let (v1, f1) = shift8(sub, v, flags, (n - 1) as nat);
        shift_once8(sub, v1, f1)
    }
}

/// `n` single-bit steps of a word shift or rotate.
pub open spec fn shift16(sub: u8, v: u16, flags: u16, n: nat) -> (u16, u16)
    decreases n,
{
    if n == 0 {
        (v, flags)
    } else {
        let (v1, f1) = shift16(sub, v, flags, (n - 1) as nat);
        shift_once16(sub, v1, f1)
    }
}

/// Whether the condition of a short conditional jump (low nibble of its opcode) holds.
pub open spec fn jcc_taken(opcode: u8, flags: u16) -> bool {
    let cond = opcode % 16;
    let cf = flag_on(flags, FLAG_CF);
    let zf = flag_on(flags, FLAG_ZF);
    let sf = flag_on(flags, FLAG_SF);
    let of = flag_on(flags, FLAG_OF);
    let pf = flag_on(flags, FLAG_PF);
    if cond == 0x0 {
        of
    } else if cond == 0x1 {
        !of
    } else if cond == 0x2 {
        cf
    } else if cond == 0x3 {
        !cf
    } else if cond == 0x4 {
        zf
    } else if cond == 0x5 {
        !zf
    } else if cond == 0x6 {
        cf || zf
    } else if cond == 0x7 {
        !(cf || zf)
    } else if cond == 0x8 {
        sf
    } else if cond == 0x9 {
        !sf
    } else if cond == 0xA {
        pf
    } else if cond == 0xB {
        !pf
    } else if cond == 0xC {
        sf != of
    } else if cond == 0xD {
        sf == of
    } else if cond == 0xE {
        zf || sf != of
    } else {
        !zf && sf == of
    }
}

/// The increment of SI/DI after a byte string operation: -1 when DF is set, else +1.
pub open spec fn str_step8(flags: u16) -> u16 {
    if flag_on(flags, FLAG_DF) {
        0xFFFF
    } else {
        1
    }
}

/// The increment of SI/DI after a word string operation: -2 when DF is set, else +2.
pub open spec fn str_step16(flags: u16) -> u16 {
    if flag_on(flags, FLAG_DF) {
        0xFFFE
    } else {
        2
    }
}

impl Machine {
    /// Group 2: shift or rotate the r/m operand `count` times (nothing at all when
    /// `count == 0`). Shifts (not rotates) then set ZF and SF from the result.
    #[verifier::opaque]
    pub open spec fn grp2(self, opcode: u8, modrm: u8, count: u8) -> Machine {
        let sub = modrm_reg(modrm);
        if count == 0 {
            self
        } else if opcode % 2 == 0 {
            let (s1, v) = self.get_rm8(modrm);
            let (v2, f2) = shift8(sub, v, s1.regs.flags, count as nat);
            let s2 = s1.with_flags(f2);
            let s3 = if sub >= 4 {
                s2.flags_isz8(v2)
            } else {
                s2
            };
            s3.set_rm8(modrm, v2)
        } else {
            let (s1, v) = self.get_rm16(modrm);
            let (v2, f2) = shift16(sub, v, s1.regs.flags, count as nat);
            let s2 = s1.with_flags(f2);
            let s3 = if sub >= 4 {
                s2.flags_isz16(v2)
            } else {
                s2
            };
            s3.set_rm16(modrm, v2)
        }
    }

    /// Group 3: TEST with an immediate, NOT, NEG, and (word form only) unsigned DIV of
    /// DX:AX, which leaves both registers alone for a zero divisor and truncates an
    /// oversized quotient to 16 bits. Other operations only read their operand.
    #[verifier::opaque]
    pub open spec fn grp3(self, opcode: u8, modrm: u8) -> Machine {
        let sub = modrm_reg(modrm);
        if opcode == 0x16 || opcode == 0xF6 {
            let (s1, v) = self.get_rm8(modrm);
            if sub == 0 {
                let (s2, imm) = s1.fetch8();
                s2.flags_isz8(v & imm)
            } else if sub == 2 {
                s1.set_rm8(modrm, !v)
            } else if sub == 3 {
                let res = ((0 - v) % 256) as u8;
                let s2 = s1.set_rm8(modrm, res).flags_isz8(res);
                s2.with_flags(set_flag(s2.regs.flags, FLAG_CF, v != 0))
            } else {
                s1
            }
        } else {
            let (s1, v) = self.get_rm16(modrm);
            if sub == 0 {
                let (s2, imm) = s1.fetch16();
                s2.flags_isz16(v & imm)
            } else if sub == 2 {
                s1.set_rm16(modrm, !v)
            } else if sub == 3 {
                let res = ((0 - v) % 65536) as u16;
                let s2 = s1.set_rm16(modrm, res).flags_isz16(res);
                s2.with_flags(set_flag(s2.regs.flags, FLAG_CF, v != 0))
            } else if sub == 6 {
                if v != 0 {
                    let num = s1.regs.dx as int * 65536 + s1.regs.ax as int;
                    s1.with_regs(
                        Registers {
                            ax: (num / v as int) as u16,
                            dx: (num % v as int) as u16,
                            ..s1.regs
                        },
                    )
                } else {
                    s1
                }
            } else {
                s1
            }
        }
    }

    /// MOVSB: copies the byte at `seg:SI` to `ES:DI` and steps both.
    #[verifier::opaque]
    pub open spec fn movsb(self) -> Machine {
        let r = self.regs;
        let val = byte_at(self.mem, linear(self.seg_or(r.ds), r.si));
        let step = str_step8(r.flags);
        Machine {
            mem: store_byte(self.mem, linear(r.es, r.di), val),
            regs: Registers { si: r.si.wrapping_add(step), di: r.di.wrapping_add(step), ..r },
            ..self
        }
    }

    /// MOVSW: copies the word at `seg:SI` to `ES:DI` and steps both.
    #[verifier::opaque]
    pub open spec fn movsw(self) -> Machine {
        let r = self.regs;
        let val = word_at(self.mem, linear(self.seg_or(r.ds), r.si));
        let step = str_step16(r.flags);
        Machine {
            mem: store_word(self.mem, linear(r.es, r.di), val),
            regs: Registers { si: r.si.wrapping_add(step), di: r.di.wrapping_add(step), ..r },
            ..self
        }
    }

    /// CMPSB compares the byte at `seg:SI` with the byte at `ES:DI` (ZF, SF, CF) and steps both.
    #[verifier::opaque]
    pub open spec fn compare_bytes(self) -> Machine {
        let r = self.regs;
        let a = byte_at(self.mem, linear(self.seg_or(r.ds), r.si));
        let b = byte_at(self.mem, linear(r.es, r.di));
        let s1 = self.flags_isz8(((a - b) % 256) as u8);
        let f = set_flag(s1.regs.flags, FLAG_CF, a < b);
        let step = str_step8(f);
        self.with_regs(
            Registers { flags: f, si: r.si.wrapping_add(step), di: r.di.wrapping_add(step), ..r },
        )
    }

    /// CMPSW compares the words at `seg:SI` and `ES:DI` and steps both.
    #[verifier::opaque]
    pub open spec fn compare_words(self) -> Machine {
        let r = self.regs;
        let a = word_at(self.mem, linear(self.seg_or(r.ds), r.si));
        let b = word_at(self.mem, linear(r.es, r.di));
        let s1 = self.flags_isz16(((a - b) % 65536) as u16);
        let f = set_flag(s1.regs.flags, FLAG_CF, a < b);
        let step = str_step16(f);
        self.with_regs(
            Registers { flags: f, si: r.si.wrapping_add(step), di: r.di.wrapping_add(step), ..r },
        )
    }

    /// STOSB: stores AL at `ES:DI` and steps DI.
    #[verifier::opaque]
    pub open spec fn stosb(self) -> Machine {
        let r = self.regs;
        Machine {
            mem: store_byte(self.mem, linear(r.es, r.di), (r.ax % 256) as u8),
            regs: Registers { di: r.di.wrapping_add(str_step8(r.flags)), ..r },
            ..self
        }
    }

    /// STOSW: stores AX at `ES:DI` and steps DI.
    #[verifier::opaque]
    pub open spec fn stosw(self) -> Machine {
        let r = self.regs;
        Machine {
            mem: store_word(self.mem, linear(r.es, r.di), r.ax),
            regs: Registers { di: r.di.wrapping_add(str_step16(r.flags)), ..r },
            ..self
        }
    }

    /// LODSB: loads AL from `seg:SI` and steps SI.
    #[verifier::opaque]
    pub open spec fn lodsb(self) -> Machine {
        let r = self.regs;
        let val = byte_at(self.mem, linear(self.seg_or(r.ds), r.si));
        self.with_regs(
            Registers {
                ax: (r.ax - r.ax % 256 + val) as u16,
                si: r.si.wrapping_add(str_step8(r.flags)),
                ..r
            },
        )
    }

    /// The frame-copy part of ENTER: `n` words read downwards from `ss:bp` and pushed.
    #[verifier::opaque]
    pub open spec fn enter_copy(self, bp: u16, n: nat) -> (Machine, u16)
        decreases n,
    {
        if n == 0 {
            (self, bp)
        } else {
            let (s1, t1) = self.enter_copy(bp, (n - 1) as nat);
            let t2 = t1.wrapping_sub(2);
            (s1.push16(s1.read_mem16(s1.regs.ss, t2)), t2)
        }
    }

    /// ENTER: pushes BP, copies `level - 1` outer frame pointers and the new frame
    /// pointer (for `level > 0`), points BP at the new frame and reserves `size` bytes.
    #[verifier::opaque]
    pub open spec fn enter(self, size: u16, level: u8) -> Machine {
        let s1 = self.push16(self.regs.bp);
        let frame = s1.regs.sp;
        let s2 = if level > 0 {
            let (s3, _) = s1.enter_copy(s1.regs.bp, (level - 1) as nat);
            s3.push16(frame)
        } else {
            s1
        };
        s2.with_regs(Registers { bp: frame, sp: s2.regs.sp.wrapping_sub(size), ..s2.regs })
    }
}

impl Cpu {
    fn shift_once8(&mut self, sub: u8, v: u8) -> (r: u8)
        ensures
            final(self)@ == old(self)@.with_flags(shift_once8(sub, v, old(self).regs.flags).1),
            r == shift_once8(sub, v, old(self).regs.flags).0,
    {
        let cf = (self.regs.flags & 0x0001) != 0;
        let hi = (v & 0x80) != 0;
        let lo = (v & 0x01) != 0;
        match sub {
            0 => {
                self.set_carry(hi);
                (v << 1) | (if hi { 1 } else { 0 })
            },
            1 => {
                self.set_carry(lo);
                (v >> 1) | (if lo { 0x80 } else { 0 })
            },
            2 => {
                self.set_carry(hi);
                (v << 1) | (if cf { 1 } else { 0 })
            },
            3 => {
                self.set_carry(lo);
                (v >> 1) | (if cf { 0x80 } else { 0 })
            },
            4 | 6 => {
                self.set_carry(hi);
                v << 1
            },
            5 => {
                self.set_carry(lo);
                v >> 1
            },
            _ => {
                self.set_carry(lo);
                (v >> 1) | (v & 0x80)
            },
        }
    }

    fn shift_once16(&mut self, sub: u8, v: u16) -> (r: u16)
        ensures
            final(self)@ == old(self)@.with_flags(shift_once16(sub, v, old(self).regs.flags).1),
            r == shift_once16(sub, v, old(self).regs.flags).0,
    {
        let cf = (self.regs.flags & 0x0001) != 0;
        let hi = (v & 0x8000) != 0;
        let lo = (v & 0x0001) != 0;
        match sub {
            0 => {
                self.set_carry(hi);
                (v << 1) | (if hi { 1 } else { 0 })
            },
            1 => {
                self.set_carry(lo);
                (v >> 1) | (if lo { 0x8000 } else { 0 })
            },
            2 => {
                self.set_carry(hi);
                (v << 1) | (if cf { 1 } else { 0 })
            },
            3 => {
                self.set_carry(lo);
                (v >> 1) | (if cf { 0x8000 } else { 0 })
            },
            4 | 6 => {
                self.set_carry(hi);
                v << 1
            },
            5 => {
                self.set_carry(lo);
                v >> 1
            },
            _ => {
                self.set_carry(lo);
                (v >> 1) | (v & 0x8000)
            },
        }
    }

    /// Group 2 shifts and rotates, `count` times.
    pub fn grp2(&mut self, opcode: u8, modrm: u8, count: u8)
        ensures
            final(self)@ == old(self)@.grp2(opcode, modrm, count),
    {
        proof {
            reveal(Machine::grp2);
        }
        proof {
            crate::modrm::lemma_modrm_fields(modrm);
        }
        let sub = (modrm >> 3) & 0x7;
        let is_8bit = (opcode & 1) == 0;
        assert(is_8bit == (opcode % 2 == 0)) by (bit_vector)
            requires
                is_8bit == ((opcode & 1) == 0),
        ;
        if count == 0 {
            return ;
        }
        if is_8bit {
            let mut val = self.get_rm8(modrm);
            let ghost s1 = self@;
            let ghost v0 = val;
            let mut i: u8 = 0;
            while i < count
                invariant
                    0 <= i <= count,
                    sub == modrm_reg(modrm),
                    (val, self.regs.flags) == shift8(sub, v0, s1.regs.flags, i as nat),
                    self@ == s1.with_flags(self.regs.flags),
                decreases count - i,
            {
                val = self.shift_once8(sub, val);
                i += 1;
            }
            if sub >= 4 {
                self.update_flags_isz(val);
            }
            self.set_rm8(modrm, val);
        } else {
            let mut val = self.get_rm16(modrm);
            let ghost s1 = self@;
            let ghost v0 = val;
            let mut i: u8 = 0;
            while i < count
                invariant
                    0 <= i <= count,
                    sub == modrm_reg(modrm),
                    (val, self.regs.flags) == shift16(sub, v0, s1.regs.flags, i as nat),
                    self@ == s1.with_flags(self.regs.flags),
                decreases count - i,
            {
                val = self.shift_once16(sub, val);
                i += 1;
            }
            if sub >= 4 {
                self.update_flags_isz16(val);
            }
            self.set_rm16(modrm, val);
        }
    }
}


/// Dividend assembly for DIV: `(dx << 16) | ax` on 32 bits is `dx * 65536 + ax`.
pub proof fn lemma_dx_ax(dx: u16, ax: u16)
    ensures
        ((dx as u32) << 16u32) | (ax as u32) == dx as int * 65536 + ax as int,
{
    assert(((dx as u32) << 16u32) | (ax as u32) == dx as u32 * 65536 + ax as u32) by (bit_vector);
}

/// The flag tests of the conditional jumps agree with their reading as booleans.
pub proof fn lemma_jcc_bits(f: u16, opcode: u8)
    ensures
        ((f & 0x0041) != 0) == (flag_on(f, FLAG_CF) || flag_on(f, FLAG_ZF)),
        opcode & 0x0F == opcode % 16,
{
    assert(((f & 0x0041) != 0) == ((f & 0x0001) != 0 || (f & 0x0040) != 0)) by (bit_vector);
    assert(opcode & 0x0F == opcode % 16) by (bit_vector);
}

impl Cpu {
    /// Group 3: TEST imm, NOT, NEG and (word form) DIV.
    pub fn grp3(&mut self, opcode: u8, modrm: u8)
        ensures
            final(self)@ == old(self)@.grp3(opcode, modrm),
    {
        proof {
            reveal(Machine::grp3);
        }
        proof {
            crate::modrm::lemma_modrm_fields(modrm);
        }
        let sub_op = (modrm >> 3) & 0x07;
        if opcode == 0x16 || opcode == 0xF6 {
            let val = self.get_rm8(modrm);
            match sub_op {
                0 => {
                    let imm = self.fetch_u8();
                    self.update_flags_isz(val & imm);
                },
                2 => self.set_rm8(modrm, !val),
                3 => {
                    let res = 0u8.wrapping_sub(val);
                    self.set_rm8(modrm, res);
                    self.update_flags_isz(res);
                    self.set_carry(val != 0);
                },
                _ => {},
            }
        } else {
            let val = self.get_rm16(modrm);
            match sub_op {
                0 => {
                    let imm = self.fetch_u16();
                    self.update_flags_isz16(val & imm);
                },
                2 => self.set_rm16(modrm, !val),
                3 => {
                    let res = 0u16.wrapping_sub(val);
                    self.set_rm16(modrm, res);
                    self.update_flags_isz16(res);
                    self.set_carry(val != 0);
                },
                6 => {
                    proof {
                        lemma_dx_ax(self.regs.dx, self.regs.ax);
                    }
                    let num = ((self.regs.dx as u32) << 16) | (self.regs.ax as u32);
                    if val != 0 {
                        let quot = num / (val as u32);
                        let rem = num % (val as u32);
                        self.regs.ax = quot as u16;
                        self.regs.dx = rem as u16;
                    }
                },
                _ => {},
            }
        }
    }

    fn string_step8(&self) -> (step: u16)
        ensures
            step == str_step8(self.regs.flags),
    {
        if (self.regs.flags & 0x0400) != 0 {
            0xFFFF
        } else {
            1
        }
    }

    fn string_step16(&self) -> (step: u16)
        ensures
            step == str_step16(self.regs.flags),
    {
        if (self.regs.flags & 0x0400) != 0 {
            0xFFFE
        } else {
            2
        }
    }

    pub fn movsb(&mut self)
        ensures
            final(self)@ == old(self)@.movsb(),
    {
        proof {
            reveal(Machine::movsb);
        }
        let seg = self.get_seg(self.regs.ds);
        let src = (seg as usize * 16) + self.regs.si as usize;
        let dst = (self.regs.es as usize * 16) + self.regs.di as usize;
        let val = self.memory.read_u8(src);
        self.memory.write_u8(dst, val);
        let step = self.string_step8();
        self.regs.si = self.regs.si.wrapping_add(step);
        self.regs.di = self.regs.di.wrapping_add(step);
    }

    pub fn movsw(&mut self)
        ensures
            final(self)@ == old(self)@.movsw(),
    {
        proof {
            reveal(Machine::movsw);
        }
        let seg = self.get_seg(self.regs.ds);
        let src = (seg as usize * 16) + self.regs.si as usize;
        let dst = (self.regs.es as usize * 16) + self.regs.di as usize;
        let val = self.memory.read_u16(src);
        self.memory.write_u16(dst, val);
        let step = self.string_step16();
        self.regs.si = self.regs.si.wrapping_add(step);
        self.regs.di = self.regs.di.wrapping_add(step);
    }

    pub fn compare_bytes(&mut self)
        ensures
            final(self)@ == old(self)@.compare_bytes(),
    {
        proof {
            reveal(Machine::compare_bytes);
        }
        let seg = self.get_seg(self.regs.ds);
        let src = (seg as usize * 16) + self.regs.si as usize;
        let dst = (self.regs.es as usize * 16) + self.regs.di as usize;
        let val1 = self.memory.read_u8(src);
        let val2 = self.memory.read_u8(dst);
        let res = val1.wrapping_sub(val2);
        self.update_flags_isz(res);
        self.set_carry(val1 < val2);
        let step = self.string_step8();
        self.regs.si = self.regs.si.wrapping_add(step);
        self.regs.di = self.regs.di.wrapping_add(step);
    }

    pub fn compare_words(&mut self)
        ensures
            final(self)@ == old(self)@.compare_words(),
    {
        proof {
            reveal(Machine::compare_words);
        }
        let seg = self.get_seg(self.regs.ds);
        let src = (seg as usize * 16) + self.regs.si as usize;
        let dst = (self.regs.es as usize * 16) + self.regs.di as usize;
        let val1 = self.memory.read_u16(src);
        let val2 = self.memory.read_u16(dst);
        let res = val1.wrapping_sub(val2);
        self.update_flags_isz16(res);
        self.set_carry(val1 < val2);
        let step = self.string_step16();
        self.regs.si = self.regs.si.wrapping_add(step);
        self.regs.di = self.regs.di.wrapping_add(step);
    }

    pub fn stosb(&mut self)
        ensures
            final(self)@ == old(self)@.stosb(),
    {
        proof {
            reveal(Machine::stosb);
        }
        proof {
            crate::cpu::lemma_byte_merge(self.regs.ax, 0);
        }
        let dst = (self.regs.es as usize * 16) + self.regs.di as usize;
        let val = (self.regs.ax & 0xFF) as u8;
        self.memory.write_u8(dst, val);
        let step = self.string_step8();
        self.regs.di = self.regs.di.wrapping_add(step);
    }

    pub fn stosw(&mut self)
        ensures
            final(self)@ == old(self)@.stosw(),
    {
        proof {
            reveal(Machine::stosw);
        }
        let dst = (self.regs.es as usize * 16) + self.regs.di as usize;
        let val = self.regs.ax;
        self.memory.write_u16(dst, val);
        let step = self.string_step16();
        self.regs.di = self.regs.di.wrapping_add(step);
    }

    pub fn lodsb(&mut self)
        ensures
            final(self)@ == old(self)@.lodsb(),
    {
        proof {
            reveal(Machine::lodsb);
        }
        let seg = self.get_seg(self.regs.ds);
        let addr = (seg as usize * 16) + self.regs.si as usize;
        let val = self.memory.read_u8(addr);
        proof {
            crate::cpu::lemma_byte_merge(self.regs.ax, val as u16);
        }
        self.regs.ax = (self.regs.ax & 0xFF00) | (val as u16);
        let step = self.string_step8();
        self.regs.si = self.regs.si.wrapping_add(step);
    }

    /// ENTER `size`, `level`.
    pub fn enter(&mut self, size: u16, level: u8)
        ensures
            final(self)@ == old(self)@.enter(size, level),
    {
        proof {
            reveal(Machine::enter);
            reveal(Machine::enter_copy);
        }
        let bp = self.regs.bp;
        self.push16(bp);
        let frame_ptr = self.regs.sp;
        if level > 0 {
            let ghost s1 = self@;
            let mut temp_bp = self.regs.bp;
            let mut i: u8 = 1;
            while i < level
                invariant
                    1 <= i <= level,
                    (self@, temp_bp) == s1.enter_copy(s1.regs.bp, (i - 1) as nat),
                decreases level - i,
            {
                proof {
                    reveal(Machine::enter_copy);
                }
                temp_bp = temp_bp.wrapping_sub(2);
                let val = self.read_mem16(self.regs.ss, temp_bp);
                self.push16(val);
                i += 1;
            }
            self.push16(frame_ptr);
        }
        self.regs.bp = frame_ptr;
        self.regs.sp = self.regs.sp.wrapping_sub(size);
    }
}

/// Whether the short conditional jump with this opcode is taken under `flags`.
pub fn jcc_taken_exec(opcode: u8, flags: u16) -> (taken: bool)
    ensures
        taken == jcc_taken(opcode, flags),
{
    proof {
        lemma_jcc_bits(flags, opcode);
    }
    match opcode & 0x0F {
        0x0 => (flags & 0x0800) != 0,
        0x1 => (flags & 0x0800) == 0,
        0x2 => (flags & 0x0001) != 0,
        0x3 => (flags & 0x0001) == 0,
        0x4 => (flags & 0x0040) != 0,
        0x5 => (flags & 0x0040) == 0,
        0x6 => (flags & 0x0041) != 0,
        0x7 => (flags & 0x0041) == 0,
        0x8 => (flags & 0x0080) != 0,
        0x9 => (flags & 0x0080) == 0,
        0xA => (flags & 0x0004) != 0,
        0xB => (flags & 0x0004) == 0,
        0xC => ((flags & 0x0080) != 0) != ((flags & 0x0800) != 0),
        0xD => ((flags & 0x0080) != 0) == ((flags & 0x0800) != 0),
        0xE => ((flags & 0x0040) != 0) || (((flags & 0x0080) != 0) != ((flags & 0x0800) != 0)),
        0xF => ((flags & 0x0040) == 0) && (((flags & 0x0080) != 0) == ((flags & 0x0800) != 0)),
        _ => false,
    }
}

} // verus!
