use vstd::prelude::*;
use crate::cpu::Cpu;
use crate::machine::{Machine, modrm_reg, sign_extend8};
use crate::regs::{set_flag, flag_on, FLAG_CF};

verus! {

/// The eight arithmetic/logic operations of the 8086, in ModR/M `reg`-field order.
#[derive(Clone, Copy, Debug, PartialEq, Eq, Structural)]
pub enum AluOp {
    Add,
    Or,
    Adc,
    Sbb,
    And,
    Sub,
    Xor,
    Cmp,
}

/// Which operand of a two-operand instruction is the destination.
#[derive(Clone, Copy, Debug, PartialEq, Eq, Structural)]
pub enum Operands {
    /// `op r/m, reg`
    RmReg,
    /// `op reg, r/m`
    RegRm,
    /// `op AL/AX, imm`
    AccImm,
}

/// The operation selected by the `reg` field of a group-1 ModR/M byte.
pub open spec fn alu_op_of(sub: u8) -> AluOp {
    if sub == 0 {
        AluOp::Add
    } else if sub == 1 {
        AluOp::Or
    } else if sub == 2 {
        AluOp::Adc
    } else if sub == 3 {
        AluOp::Sbb
    } else if sub == 4 {
        AluOp::And
    } else if sub == 5 {
        AluOp::Sub
    } else if sub == 6 {
        AluOp::Xor
    } else {
        AluOp::Cmp
    }
}

pub open spec fn carry_bit(cf: bool) -> int {
    if cf {
        1
    } else {
        0
    }
}

/// The 8-bit result of `a op b` with incoming carry `cf` (used by ADC and SBB).
pub open spec fn alu8(op: AluOp, a: u8, b: u8, cf: bool) -> u8 {
    match op {
        AluOp::Add => ((a + b) % 256) as u8,
        AluOp::Adc => ((a + b + carry_bit(cf)) % 256) as u8,
        AluOp::Sub | AluOp::Cmp => ((a - b) % 256) as u8,
        AluOp::Sbb => ((a - b - carry_bit(cf)) % 256) as u8,
        AluOp::And => a & b,
        AluOp::Or => a | b,
        AluOp::Xor => a ^ b,
    }
}

/// The 16-bit result of `a op b` with incoming carry `cf`.
pub open spec fn alu16(op: AluOp, a: u16, b: u16, cf: bool) -> u16 {
    match op {
        AluOp::Add => ((a + b) % 65536) as u16,
        AluOp::Adc => ((a + b + carry_bit(cf)) % 65536) as u16,
        AluOp::Sub | AluOp::Cmp => ((a - b) % 65536) as u16,
        AluOp::Sbb => ((a - b - carry_bit(cf)) % 65536) as u16,
        AluOp::And => a & b,
        AluOp::Or => a | b,
        AluOp::Xor => a ^ b,
    }
}

/// The carry out of an 8-bit operation: unsigned overflow for additions, borrow for
/// subtractions, none for logic operations.
pub open spec fn carry8(op: AluOp, a: u8, b: u8, cf: bool) -> bool {
    match op {
        AluOp::Add => a + b > 0xFF,
        AluOp::Adc => a + b + carry_bit(cf) > 0xFF,
        AluOp::Sub | AluOp::Cmp => a < b,
        AluOp::Sbb => a < b + carry_bit(cf),
        _ => false,
    }
}

/// The carry out of a 16-bit operation.
pub open spec fn carry16(op: AluOp, a: u16, b: u16, cf: bool) -> bool {
    match op {
        AluOp::Add => a + b > 0xFFFF,
        AluOp::Adc => a + b + carry_bit(cf) > 0xFFFF,
        AluOp::Sub | AluOp::Cmp => a < b,
        AluOp::Sbb => a < b + carry_bit(cf),
        _ => false,
    }
}

/// Whether an instruction of this operation, width and operand form writes CF.
/// Logic operations that write CF clear it.
pub open spec fn writes_carry(op: AluOp, wide: bool, form: Operands) -> bool {
    match form {
        Operands::AccImm => wide || op != AluOp::And,
        _ => {
            ||| op == AluOp::Adc
            ||| op == AluOp::Sbb
            ||| op == AluOp::Cmp
            ||| (!wide && op == AluOp::Add)
        },
    }
}

impl Machine {
    /// ZF and SF from an 8-bit result, then CF set to `c` when `write_cf`.
    #[verifier::opaque]
    pub open spec fn alu_flags8(self, res: u8, write_cf: bool, c: bool) -> Machine {
        let s1 = self.flags_isz8(res);
        if write_cf {
            s1.with_flags(set_flag(s1.regs.flags, FLAG_CF, c))
        } else {
            s1
        }
    }

    /// ZF and SF from a 16-bit result, then CF set to `c` when `write_cf`.
    #[verifier::opaque]
    pub open spec fn alu_flags16(self, res: u16, write_cf: bool, c: bool) -> Machine {
        let s1 = self.flags_isz16(res);
        if write_cf {
            s1.with_flags(set_flag(s1.regs.flags, FLAG_CF, c))
        } else {
            s1
        }
    }

    pub open spec fn cf(self) -> bool {
        flag_on(self.regs.flags, FLAG_CF)
    }

    /// Stores `a op b` into the r/m operand (unless CMP), then sets the flags.
    #[verifier::opaque]
    pub open spec fn commit_rm8(self, op: AluOp, modrm: u8, a: u8, b: u8, write_cf: bool) -> Machine {
        let res = alu8(op, a, b, self.cf());
        let s1 = if op == AluOp::Cmp {
            self
        } else {
            self.set_rm8(modrm, res)
        };
        s1.alu_flags8(res, write_cf, carry8(op, a, b, self.cf()))
    }

    #[verifier::opaque]
    pub open spec fn commit_rm16(self, op: AluOp, modrm: u8, a: u16, b: u16, write_cf: bool) -> Machine {
        let res = alu16(op, a, b, self.cf());
        let s1 = if op == AluOp::Cmp {
            self
        } else {
            self.set_rm16(modrm, res)
        };
        s1.alu_flags16(res, write_cf, carry16(op, a, b, self.cf()))
    }

    /// Stores `a op b` into 8-bit register `reg` (unless CMP), then sets the flags.
    #[verifier::opaque]
    pub open spec fn commit_reg8(self, op: AluOp, reg: u8, a: u8, b: u8, write_cf: bool) -> Machine {
        let res = alu8(op, a, b, self.cf());
        let s1 = if op == AluOp::Cmp {
            self
        } else {
            self.set_reg8(reg, res)
        };
        s1.alu_flags8(res, write_cf, carry8(op, a, b, self.cf()))
    }

    #[verifier::opaque]
    pub open spec fn commit_reg16(self, op: AluOp, reg: u8, a: u16, b: u16, write_cf: bool) -> Machine {
        let res = alu16(op, a, b, self.cf());
        let s1 = if op == AluOp::Cmp {
            self
        } else {
            self.set_reg16(reg, res)
        };
        s1.alu_flags16(res, write_cf, carry16(op, a, b, self.cf()))
    }

    /// `op r/m8, reg8` (`to_reg == false`) or `op reg8, r/m8` (`to_reg == true`).
    #[verifier::opaque]
    pub open spec fn alu_rm8(self, op: AluOp, modrm: u8, to_reg: bool) -> Machine {
        let (s1, x) = self.get_rm8(modrm);
        let r = modrm_reg(modrm);
        let y = s1.regs.reg8(r);
        if to_reg {
            s1.commit_reg8(op, r, y, x, writes_carry(op, false, Operands::RegRm))
        } else {
            s1.commit_rm8(op, modrm, x, y, writes_carry(op, false, Operands::RmReg))
        }
    }

    /// `op r/m16, reg16` (`to_reg == false`) or `op reg16, r/m16` (`to_reg == true`).
    #[verifier::opaque]
    pub open spec fn alu_rm16(self, op: AluOp, modrm: u8, to_reg: bool) -> Machine {
        let (s1, x) = self.get_rm16(modrm);
        let r = modrm_reg(modrm);
        let y = s1.regs.reg16(r);
        if to_reg {
            s1.commit_reg16(op, r, y, x, writes_carry(op, true, Operands::RegRm))
        } else {
            s1.commit_rm16(op, modrm, x, y, writes_carry(op, true, Operands::RmReg))
        }
    }

    /// `op AL, imm8`.
    #[verifier::opaque]
    pub open spec fn alu_acc8(self, op: AluOp, imm: u8) -> Machine {
        self.commit_reg8(op, 0, self.regs.reg8(0), imm, writes_carry(op, false, Operands::AccImm))
    }

    /// `op AX, imm16`.
    #[verifier::opaque]
    pub open spec fn alu_acc16(self, op: AluOp, imm: u16) -> Machine {
        self.commit_reg16(op, 0, self.regs.ax, imm, writes_carry(op, true, Operands::AccImm))
    }

    /// Group 1 (`0x80`, `0x81`, `0x83`): `op r/m, imm`, the operation in the `reg` field.
    /// The byte form knows ADD, SUB and CMP, the word forms ADD, OR, AND, SUB, XOR and
    /// CMP; only CMP writes CF. Other operations fetch their operands and do nothing.
    #[verifier::opaque]
    pub open spec fn grp1(self, opcode: u8, modrm: u8) -> Machine {
        let sub = modrm_reg(modrm);
        let op = alu_op_of(sub);
        if opcode == 0x80 {
            let (s1, a) = self.get_rm8(modrm);
            let (s2, b) = s1.fetch8();
            if sub == 0 || sub == 5 || sub == 7 {
                s2.commit_rm8(op, modrm, a, b, sub == 7)
            } else {
                s2
            }
        } else {
            let (s1, a) = self.get_rm16(modrm);
            let (s2, b) = if opcode == 0x83 {
                let (t, x) = s1.fetch8();
                (t, sign_extend8(x))
            } else {
                s1.fetch16()
            };
            if sub != 2 && sub != 3 {
                s2.commit_rm16(op, modrm, a, b, sub == 7)
            } else {
                s2
            }
        }
    }

    /// `TEST r/m8, reg8`: ZF and SF from the AND of the operands, nothing stored.
    #[verifier::opaque]
    pub open spec fn test_rm8(self, modrm: u8) -> Machine {
        let (s1, x) = self.get_rm8(modrm);
        s1.flags_isz8(x & s1.regs.reg8(modrm_reg(modrm)))
    }

    #[verifier::opaque]
    pub open spec fn test_rm16(self, modrm: u8) -> Machine {
        let (s1, x) = self.get_rm16(modrm);
        s1.flags_isz16(x & s1.regs.reg16(modrm_reg(modrm)))
    }
}

/// `wrapping_add`/`wrapping_sub` on bytes and words agree with arithmetic modulo the width.
pub proof fn lemma_wrapping(a: u8, b: u8, c: u8, x: u16, y: u16, z: u16)
    ensures
        a.wrapping_add(b) == ((a + b) % 256) as u8,
        a.wrapping_add(b).wrapping_add(c) == ((a + b + c) % 256) as u8,
        a.wrapping_sub(b) == ((a - b) % 256) as u8,
        a.wrapping_sub(b).wrapping_sub(c) == ((a - b - c) % 256) as u8,
        x.wrapping_add(y) == ((x + y) % 65536) as u16,
        x.wrapping_add(y).wrapping_add(z) == ((x + y + z) % 65536) as u16,
        x.wrapping_sub(y) == ((x - y) % 65536) as u16,
        x.wrapping_sub(y).wrapping_sub(z) == ((x - y - z) % 65536) as u16,
{
}

/// The 8-bit result of an ALU operation, as the instructions compute it.
pub fn alu8_exec(op: AluOp, a: u8, b: u8, cf: bool) -> (r: u8)
    ensures
        r == alu8(op, a, b, cf),
{
    let c: u8 = if cf {
        1
    } else {
        0
    };
    proof {
        lemma_wrapping(a, b, c, 0, 0, 0);
    }
    match op {
        AluOp::Add => a.wrapping_add(b),
        AluOp::Adc => a.wrapping_add(b).wrapping_add(c),
        AluOp::Sub | AluOp::Cmp => a.wrapping_sub(b),
        AluOp::Sbb => a.wrapping_sub(b).wrapping_sub(c),
        AluOp::And => a & b,
        AluOp::Or => a | b,
        AluOp::Xor => a ^ b,
    }
}

/// The 16-bit result of an ALU operation.
pub fn alu16_exec(op: AluOp, a: u16, b: u16, cf: bool) -> (r: u16)
    ensures
        r == alu16(op, a, b, cf),
{
    let c: u16 = if cf {
        1
    } else {
        0
    };
    proof {
        lemma_wrapping(0, 0, 0, a, b, c);
    }
    match op {
        AluOp::Add => a.wrapping_add(b),
        AluOp::Adc => a.wrapping_add(b).wrapping_add(c),
        AluOp::Sub | AluOp::Cmp => a.wrapping_sub(b),
        AluOp::Sbb => a.wrapping_sub(b).wrapping_sub(c),
        AluOp::And => a & b,
        AluOp::Or => a | b,
        AluOp::Xor => a ^ b,
    }
}

/// The carry out of an 8-bit ALU operation.
pub fn carry8_exec(op: AluOp, a: u8, b: u8, cf: bool) -> (c: bool)
    ensures
        c == carry8(op, a, b, cf),
{
    let c: u16 = if cf {
        1
    } else {
        0
    };
    match op {
        AluOp::Add => (a as u16 + b as u16) > 0xFF,
        AluOp::Adc => (a as u16 + b as u16 + c) > 0xFF,
        AluOp::Sub | AluOp::Cmp => a < b,
        AluOp::Sbb => (a as u16) < (b as u16 + c),
        _ => false,
    }
}

/// The carry out of a 16-bit ALU operation.
pub fn carry16_exec(op: AluOp, a: u16, b: u16, cf: bool) -> (c: bool)
    ensures
        c == carry16(op, a, b, cf),
{
    let c: u32 = if cf {
        1
    } else {
        0
    };
    match op {
        AluOp::Add => (a as u32 + b as u32) > 0xFFFF,
        AluOp::Adc => (a as u32 + b as u32 + c) > 0xFFFF,
        AluOp::Sub | AluOp::Cmp => a < b,
        AluOp::Sbb => (a as u32) < (b as u32 + c),
        _ => false,
    }
}

/// Whether an instruction of this operation, width and operand form writes CF.
pub fn writes_carry_exec(op: AluOp, wide: bool, form: Operands) -> (w: bool)
    ensures
        w == writes_carry(op, wide, form),
{
    match form {
        Operands::AccImm => wide || !matches!(op, AluOp::And),
        _ => match op {
            AluOp::Adc | AluOp::Sbb | AluOp::Cmp => true,
            AluOp::Add => !wide,
            _ => false,
        },
    }
}

impl Cpu {
    pub fn set_carry(&mut self, c: bool)
        ensures
            final(self)@ == old(self)@.with_flags(set_flag(old(self).regs.flags, FLAG_CF, c)),
    {
        if c {
            self.regs.flags |= 0x0001;
        } else {
            self.regs.flags &= !0x0001;
        }
    }

    pub fn carry_flag(&self) -> (c: bool)
        ensures
            c == self@.cf(),
    {
        (self.regs.flags & 0x0001) != 0
    }

    fn alu_flags8(&mut self, res: u8, write_cf: bool, c: bool)
        ensures
            final(self)@ == old(self)@.alu_flags8(res, write_cf, c),
    {
        proof {
            reveal(Machine::alu_flags8);
        }
        self.update_flags_isz(res);
        if write_cf {
            self.set_carry(c);
        }
    }

    fn alu_flags16(&mut self, res: u16, write_cf: bool, c: bool)
        ensures
            final(self)@ == old(self)@.alu_flags16(res, write_cf, c),
    {
        proof {
            reveal(Machine::alu_flags16);
        }
        self.update_flags_isz16(res);
        if write_cf {
            self.set_carry(c);
        }
    }

    pub fn commit_rm8(&mut self, op: AluOp, modrm: u8, a: u8, b: u8, write_cf: bool)
        ensures
            final(self)@ == old(self)@.commit_rm8(op, modrm, a, b, write_cf),
    {
        proof {
            reveal(Machine::commit_rm8);
        }
        let cf = self.carry_flag();
        let res = alu8_exec(op, a, b, cf);
        let c = carry8_exec(op, a, b, cf);
        if !matches!(op, AluOp::Cmp) {
            self.set_rm8(modrm, res);
        }
        self.alu_flags8(res, write_cf, c);
    }

    pub fn commit_rm16(&mut self, op: AluOp, modrm: u8, a: u16, b: u16, write_cf: bool)
        ensures
            final(self)@ == old(self)@.commit_rm16(op, modrm, a, b, write_cf),
    {
        proof {
            reveal(Machine::commit_rm16);
        }
        let cf = self.carry_flag();
        let res = alu16_exec(op, a, b, cf);
        let c = carry16_exec(op, a, b, cf);
        if !matches!(op, AluOp::Cmp) {
            self.set_rm16(modrm, res);
        }
        self.alu_flags16(res, write_cf, c);
    }

    pub fn commit_reg8(&mut self, op: AluOp, reg: u8, a: u8, b: u8, write_cf: bool)
        ensures
            final(self)@ == old(self)@.commit_reg8(op, reg, a, b, write_cf),
    {
        proof {
            reveal(Machine::commit_reg8);
        }
        let cf = self.carry_flag();
        let res = alu8_exec(op, a, b, cf);
        let c = carry8_exec(op, a, b, cf);
        if !matches!(op, AluOp::Cmp) {
            self.set_reg8(reg, res);
        }
        self.alu_flags8(res, write_cf, c);
    }

    pub fn commit_reg16(&mut self, op: AluOp, reg: u8, a: u16, b: u16, write_cf: bool)
        ensures
            final(self)@ == old(self)@.commit_reg16(op, reg, a, b, write_cf),
    {
        proof {
            reveal(Machine::commit_reg16);
        }
        let cf = self.carry_flag();
        let res = alu16_exec(op, a, b, cf);
        let c = carry16_exec(op, a, b, cf);
        if !matches!(op, AluOp::Cmp) {
            self.set_reg16(reg, res);
        }
        self.alu_flags16(res, write_cf, c);
    }

    /// `op r/m8, reg8` or `op reg8, r/m8`.
    pub fn alu_rm8(&mut self, op: AluOp, modrm: u8, to_reg: bool)
        ensures
            final(self)@ == old(self)@.alu_rm8(op, modrm, to_reg),
    {
        proof {
            reveal(Machine::alu_rm8);
        }
        proof {
            crate::modrm::lemma_modrm_fields(modrm);
        }
        let x = self.get_rm8(modrm);
        let r = (modrm >> 3) & 0x07;
        let y = self.get_reg8(r);
        if to_reg {
            let w = writes_carry_exec(op, false, Operands::RegRm);
            self.commit_reg8(op, r, y, x, w);
        } else {
            let w = writes_carry_exec(op, false, Operands::RmReg);
            self.commit_rm8(op, modrm, x, y, w);
        }
    }

    /// `op r/m16, reg16` or `op reg16, r/m16`.
    pub fn alu_rm16(&mut self, op: AluOp, modrm: u8, to_reg: bool)
        ensures
            final(self)@ == old(self)@.alu_rm16(op, modrm, to_reg),
    {
        proof {
            reveal(Machine::alu_rm16);
        }
        proof {
            crate::modrm::lemma_modrm_fields(modrm);
        }
        let x = self.get_rm16(modrm);
        let r = (modrm >> 3) & 0x07;
        let y = self.get_reg16(r);
        if to_reg {
            let w = writes_carry_exec(op, true, Operands::RegRm);
            self.commit_reg16(op, r, y, x, w);
        } else {
            let w = writes_carry_exec(op, true, Operands::RmReg);
            self.commit_rm16(op, modrm, x, y, w);
        }
    }

    /// `op AL, imm8`.
    pub fn alu_acc8(&mut self, op: AluOp, imm: u8)
        ensures
            final(self)@ == old(self)@.alu_acc8(op, imm),
    {
        proof {
            reveal(Machine::alu_acc8);
        }
        let a = self.get_reg8(0);
        let w = writes_carry_exec(op, false, Operands::AccImm);
        self.commit_reg8(op, 0, a, imm, w);
    }

    /// `op AX, imm16`.
    pub fn alu_acc16(&mut self, op: AluOp, imm: u16)
        ensures
            final(self)@ == old(self)@.alu_acc16(op, imm),
    {
        proof {
            reveal(Machine::alu_acc16);
        }
        let a = self.regs.ax;
        let w = writes_carry_exec(op, true, Operands::AccImm);
        self.commit_reg16(op, 0, a, imm, w);
    }

    /// Group 1: `op r/m, imm` with the operation in the `reg` field of `modrm`.
    pub fn grp1(&mut self, opcode: u8, modrm: u8)
        ensures
            final(self)@ == old(self)@.grp1(opcode, modrm),
    {
        proof {
            reveal(Machine::grp1);
        }
        proof {
            crate::modrm::lemma_modrm_fields(modrm);
        }
        let sub = (modrm >> 3) & 0x07;
        let op = alu_op_exec(sub);
        if opcode == 0x80 {
            let a = self.get_rm8(modrm);
            let b = self.fetch_u8();
            if sub == 0 || sub == 5 || sub == 7 {
                self.commit_rm8(op, modrm, a, b, sub == 7);
            }
        } else {
            let a = self.get_rm16(modrm);
            let b = if opcode == 0x83 {
                let x = self.fetch_u8();
                proof {
                    crate::modrm::lemma_sign_extend(x);
                }
                x as i8 as i16 as u16
            } else {
                self.fetch_u16()
            };
            if sub != 2 && sub != 3 {
                self.commit_rm16(op, modrm, a, b, sub == 7);
            }
        }
    }

    /// `TEST r/m8, reg8`.
    pub fn test_rm8(&mut self, modrm: u8)
        ensures
            final(self)@ == old(self)@.test_rm8(modrm),
    {
        proof {
            reveal(Machine::test_rm8);
        }
        proof {
            crate::modrm::lemma_modrm_fields(modrm);
        }
        let x = self.get_rm8(modrm);
        let y = self.get_reg8((modrm >> 3) & 0x07);
        self.update_flags_isz(x & y);
    }

    /// `TEST r/m16, reg16`.
    pub fn test_rm16(&mut self, modrm: u8)
        ensures
            final(self)@ == old(self)@.test_rm16(modrm),
    {
        proof {
            reveal(Machine::test_rm16);
        }
        proof {
            crate::modrm::lemma_modrm_fields(modrm);
        }
        let x = self.get_rm16(modrm);
        let y = self.get_reg16((modrm >> 3) & 0x07);
        self.update_flags_isz16(x & y);
    }
}

/// The operation selected by the `reg` field of a group-1 ModR/M byte.
pub fn alu_op_exec(sub: u8) -> (op: AluOp)
    ensures
        op == alu_op_of(sub),
{
    match sub {
        0 => AluOp::Add,
        1 => AluOp::Or,
        2 => AluOp::Adc,
        3 => AluOp::Sbb,
        4 => AluOp::And,
        5 => AluOp::Sub,
        6 => AluOp::Xor,
        _ => AluOp::Cmp,
    }
}

} // verus!
