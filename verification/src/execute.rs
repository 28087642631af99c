use vstd::prelude::*;
use crate::alu::AluOp;
use crate::bios::{handle_interrupt, interrupt_returns};
use crate::cpu::{Cpu, lemma_byte_merge};
use crate::machine::{Machine, ConsoleOutput};
use crate::opcode::Opcode;
use crate::ops::jcc_taken_exec;
use crate::semantics::{exec_base, base_defined, run, executes, execution};
use crate::regs::{flag_on, set_flag, FLAG_CF};

verus! {

proof fn lemma_misc_bits(f: u16, ax: u16)
    ensures
        f ^ 0x0001 == set_flag(f, FLAG_CF, !flag_on(f, FLAG_CF)),
        ((ax as i16) < 0) == (ax >= 0x8000),
        ((ax >> 8u16) & 0xFF) == ax / 256,
        (f & 0xFF) as u8 == (f % 256) as u8,
{
    assert(f ^ 0x0001 == (if f & 0x0001 != 0 { f & !0x0001u16 } else { f | 0x0001u16 }))
        by (bit_vector);
    assert(((ax as i16) < 0) == (ax >= 0x8000)) by (bit_vector);
    assert(((ax >> 8u16) & 0xFF) == ax / 256) by (bit_vector);
    assert((f & 0xFF) as u8 == (f % 256) as u8) by (bit_vector);
}

/// Which part of the executor handles an instruction: byte ALU (0), word ALU (1),
/// TEST and groups (2), transfers (3), everything else (4).
pub open spec fn op_class(op: Opcode) -> u8 {
    match op {
        Opcode::XorRm8Reg8(_)
        | Opcode::XorReg8Rm8(_)
        | Opcode::AddRm8Reg8(_)
        | Opcode::AddReg8Rm8(_)
        | Opcode::AddAccImm8(_)
        | Opcode::OrRm8Reg8(_)
        | Opcode::OrReg8Rm8(_)
        | Opcode::OrAccImm8(_)
        | Opcode::AdcRm8Reg8(_)
        | Opcode::AdcReg8Rm8(_)
        | Opcode::AdcAccImm8(_)
        | Opcode::SbbRm8Reg8(_)
        | Opcode::SbbReg8Rm8(_)
        | Opcode::SbbAccImm8(_)
        | Opcode::AndRm8Reg8(_)
        | Opcode::AndReg8Rm8(_)
        | Opcode::AndAccImm8(_)
        | Opcode::SubRm8Reg8(_)
        | Opcode::SubReg8Rm8(_)
        | Opcode::SubAccImm8(_)
        | Opcode::XorAccImm8(_)
        | Opcode::CmpRm8Reg8(_)
        | Opcode::CmpReg8Rm8(_)
        | Opcode::CmpAccImm8(_) => 0,
        Opcode::XorRm16Reg16(_)
        | Opcode::XorReg16Rm16(_)
        | Opcode::AddRm16Reg16(_)
        | Opcode::AddReg16Rm16(_)
        | Opcode::AddAccImm16(_)
        | Opcode::OrRm16Reg16(_)
        | Opcode::OrReg16Rm16(_)
        | Opcode::OrAccImm16(_)
        | Opcode::AdcRm16Reg16(_)
        | Opcode::AdcReg16Rm16(_)
        | Opcode::AdcAccImm16(_)
        | Opcode::SbbRm16Reg16(_)
        | Opcode::SbbReg16Rm16(_)
        | Opcode::SbbAccImm16(_)
        | Opcode::AndRm16Reg16(_)
        | Opcode::AndReg16Rm16(_)
        | Opcode::AndAccImm16(_)
        | Opcode::SubRm16Reg16(_)
        | Opcode::SubReg16Rm16(_)
        | Opcode::SubAccImm16(_)
        | Opcode::XorAccImm16(_)
        | Opcode::CmpRm16Reg16(_)
        | Opcode::CmpReg16Rm16(_)
        | Opcode::CmpAccImm16(_) => 1,
        Opcode::Grp1(_, _)
        | Opcode::Grp2Imm8(_, _, _)
        | Opcode::Grp2(_, _)
        | Opcode::Grp3(_, _)
        | Opcode::TestRm8Reg8(_)
        | Opcode::TestRm16Reg16(_) => 2,
        Opcode::XchgAxReg(_)
        | Opcode::Les(_)
        | Opcode::Lds(_)
        | Opcode::Lea(_)
        | Opcode::IncReg16(_)
        | Opcode::DecReg16(_)
        | Opcode::PushReg16(_)
        | Opcode::PopReg16(_)
        | Opcode::PushSreg(_)
        | Opcode::PopSreg(_)
        | Opcode::MovSregRm(_)
        | Opcode::MovRmSreg(_)
        | Opcode::PopRm16(_)
        | Opcode::MovRmReg8(_)
        | Opcode::MovRmReg16(_)
        | Opcode::MovReg8Rm8(_)
        | Opcode::MovReg16Rm16(_)
        | Opcode::XchgRegRm8(_)
        | Opcode::XchgRegRm16(_)
        | Opcode::MovReg8Imm8(_, _)
        | Opcode::MovReg16Imm16(_, _)
        | Opcode::MovRm8Imm8(_, _)
        | Opcode::MovRm16Imm16(_, _)
        | Opcode::MovAccMoff8(_)
        | Opcode::MovAccMoff16(_)
        | Opcode::MovMoff8Acc(_)
        | Opcode::MovMoff16Acc(_)
        | Opcode::InAlImm8(_)
        | Opcode::InAxImm8(_)
        | Opcode::OutImm8Al(_)
        | Opcode::OutImm8Ax(_)
        | Opcode::InAlDx
        | Opcode::InAxDx
        | Opcode::OutDxAl
        | Opcode::OutDxAx
        | Opcode::Pushf
        | Opcode::Popf => 3,
        _ => 4,
    }
}

impl Opcode {
    /// Executes one instruction other than a REP.
    fn execute_base(&self, cpu: &mut Cpu) -> (cont: bool)
        requires
            base_defined(*self, old(cpu)@),
            !(*self is Rep),
        ensures
            final(cpu)@ == exec_base(*self, old(cpu)@).0,
            cont == exec_base(*self, old(cpu)@).1,
    {
        match *self {
            Opcode::XorRm8Reg8(_)
            | Opcode::XorReg8Rm8(_)
            | Opcode::AddRm8Reg8(_)
            | Opcode::AddReg8Rm8(_)
            | Opcode::AddAccImm8(_)
            | Opcode::OrRm8Reg8(_)
            | Opcode::OrReg8Rm8(_)
            | Opcode::OrAccImm8(_)
            | Opcode::AdcRm8Reg8(_)
            | Opcode::AdcReg8Rm8(_)
            | Opcode::AdcAccImm8(_)
            | Opcode::SbbRm8Reg8(_)
            | Opcode::SbbReg8Rm8(_)
            | Opcode::SbbAccImm8(_)
            | Opcode::AndRm8Reg8(_)
            | Opcode::AndReg8Rm8(_)
            | Opcode::AndAccImm8(_)
            | Opcode::SubRm8Reg8(_)
            | Opcode::SubReg8Rm8(_)
            | Opcode::SubAccImm8(_)
            | Opcode::XorAccImm8(_)
            | Opcode::CmpRm8Reg8(_)
            | Opcode::CmpReg8Rm8(_)
            | Opcode::CmpAccImm8(_) => self.execute_alu8(cpu),
            Opcode::XorRm16Reg16(_)
            | Opcode::XorReg16Rm16(_)
            | Opcode::AddRm16Reg16(_)
            | Opcode::AddReg16Rm16(_)
            | Opcode::AddAccImm16(_)
            | Opcode::OrRm16Reg16(_)
            | Opcode::OrReg16Rm16(_)
            | Opcode::OrAccImm16(_)
            | Opcode::AdcRm16Reg16(_)
            | Opcode::AdcReg16Rm16(_)
            | Opcode::AdcAccImm16(_)
            | Opcode::SbbRm16Reg16(_)
            | Opcode::SbbReg16Rm16(_)
            | Opcode::SbbAccImm16(_)
            | Opcode::AndRm16Reg16(_)
            | Opcode::AndReg16Rm16(_)
            | Opcode::AndAccImm16(_)
            | Opcode::SubRm16Reg16(_)
            | Opcode::SubReg16Rm16(_)
            | Opcode::SubAccImm16(_)
            | Opcode::XorAccImm16(_)
            | Opcode::CmpRm16Reg16(_)
            | Opcode::CmpReg16Rm16(_)
            | Opcode::CmpAccImm16(_) => self.execute_alu16(cpu),
            Opcode::Grp1(_, _)
            | Opcode::Grp2Imm8(_, _, _)
            | Opcode::Grp2(_, _)
            | Opcode::Grp3(_, _)
            | Opcode::TestRm8Reg8(_)
            | Opcode::TestRm16Reg16(_) => self.execute_group(cpu),
            Opcode::XchgAxReg(_)
            | Opcode::Les(_)
            | Opcode::Lds(_)
            | Opcode::Lea(_)
            | Opcode::IncReg16(_)
            | Opcode::DecReg16(_)
            | Opcode::PushReg16(_)
            | Opcode::PopReg16(_)
            | Opcode::PushSreg(_)
            | Opcode::PopSreg(_)
            | Opcode::MovSregRm(_)
            | Opcode::MovRmSreg(_)
            | Opcode::PopRm16(_)
            | Opcode::MovRmReg8(_)
            | Opcode::MovRmReg16(_)
            | Opcode::MovReg8Rm8(_)
            | Opcode::MovReg16Rm16(_)
            | Opcode::XchgRegRm8(_)
            | Opcode::XchgRegRm16(_)
            | Opcode::MovReg8Imm8(_, _)
            | Opcode::MovReg16Imm16(_, _)
            | Opcode::MovRm8Imm8(_, _)
            | Opcode::MovRm16Imm16(_, _)
            | Opcode::MovAccMoff8(_)
            | Opcode::MovAccMoff16(_)
            | Opcode::MovMoff8Acc(_)
            | Opcode::MovMoff16Acc(_)
            | Opcode::InAlImm8(_)
            | Opcode::InAxImm8(_)
            | Opcode::OutImm8Al(_)
            | Opcode::OutImm8Ax(_)
            | Opcode::InAlDx
            | Opcode::InAxDx
            | Opcode::OutDxAl
            | Opcode::OutDxAx
            | Opcode::Pushf
            | Opcode::Popf => self.execute_transfer(cpu),
            _ => self.execute_control(cpu),
        }
    }

    /// Byte-sized two-operand arithmetic and logic.
    fn execute_alu8(&self, cpu: &mut Cpu) -> (cont: bool)
        requires
            base_defined(*self, old(cpu)@),
            !(*self is Rep),
            op_class(*self) == 0,
        ensures
            final(cpu)@ == exec_base(*self, old(cpu)@).0,
            cont == exec_base(*self, old(cpu)@).1,
    {
        proof {
            reveal(exec_base);
        }
        match *self {
            Opcode::XorRm8Reg8(m) => cpu.alu_rm8(AluOp::Xor, m, false),
            Opcode::XorReg8Rm8(m) => cpu.alu_rm8(AluOp::Xor, m, true),
            Opcode::AddRm8Reg8(m) => cpu.alu_rm8(AluOp::Add, m, false),
            Opcode::AddReg8Rm8(m) => cpu.alu_rm8(AluOp::Add, m, true),
            Opcode::AddAccImm8(i) => cpu.alu_acc8(AluOp::Add, i),
            Opcode::OrRm8Reg8(m) => cpu.alu_rm8(AluOp::Or, m, false),
            Opcode::OrReg8Rm8(m) => cpu.alu_rm8(AluOp::Or, m, true),
            Opcode::OrAccImm8(i) => cpu.alu_acc8(AluOp::Or, i),
            Opcode::AdcRm8Reg8(m) => cpu.alu_rm8(AluOp::Adc, m, false),
            Opcode::AdcReg8Rm8(m) => cpu.alu_rm8(AluOp::Adc, m, true),
            Opcode::AdcAccImm8(i) => cpu.alu_acc8(AluOp::Adc, i),
            Opcode::SbbRm8Reg8(m) => cpu.alu_rm8(AluOp::Sbb, m, false),
            Opcode::SbbReg8Rm8(m) => cpu.alu_rm8(AluOp::Sbb, m, true),
            Opcode::SbbAccImm8(i) => cpu.alu_acc8(AluOp::Sbb, i),
            Opcode::AndRm8Reg8(m) => cpu.alu_rm8(AluOp::And, m, false),
            Opcode::AndReg8Rm8(m) => cpu.alu_rm8(AluOp::And, m, true),
            Opcode::AndAccImm8(i) => cpu.alu_acc8(AluOp::And, i),
            Opcode::SubRm8Reg8(m) => cpu.alu_rm8(AluOp::Sub, m, false),
            Opcode::SubReg8Rm8(m) => cpu.alu_rm8(AluOp::Sub, m, true),
            Opcode::SubAccImm8(i) => cpu.alu_acc8(AluOp::Sub, i),
            Opcode::XorAccImm8(i) => cpu.alu_acc8(AluOp::Xor, i),
            Opcode::CmpRm8Reg8(m) => cpu.alu_rm8(AluOp::Cmp, m, false),
            Opcode::CmpReg8Rm8(m) => cpu.alu_rm8(AluOp::Cmp, m, true),
            Opcode::CmpAccImm8(i) => cpu.alu_acc8(AluOp::Cmp, i),
            _ => {},
        }
        true
    }

    /// Word-sized two-operand arithmetic and logic.
    fn execute_alu16(&self, cpu: &mut Cpu) -> (cont: bool)
        requires
            base_defined(*self, old(cpu)@),
            !(*self is Rep),
            op_class(*self) == 1,
        ensures
            final(cpu)@ == exec_base(*self, old(cpu)@).0,
            cont == exec_base(*self, old(cpu)@).1,
    {
        proof {
            reveal(exec_base);
        }
        match *self {
            Opcode::XorRm16Reg16(m) => cpu.alu_rm16(AluOp::Xor, m, false),
            Opcode::XorReg16Rm16(m) => cpu.alu_rm16(AluOp::Xor, m, true),
            Opcode::AddRm16Reg16(m) => cpu.alu_rm16(AluOp::Add, m, false),
            Opcode::AddReg16Rm16(m) => cpu.alu_rm16(AluOp::Add, m, true),
            Opcode::AddAccImm16(i) => cpu.alu_acc16(AluOp::Add, i),
            Opcode::OrRm16Reg16(m) => cpu.alu_rm16(AluOp::Or, m, false),
            Opcode::OrReg16Rm16(m) => cpu.alu_rm16(AluOp::Or, m, true),
            Opcode::OrAccImm16(i) => cpu.alu_acc16(AluOp::Or, i),
            Opcode::AdcRm16Reg16(m) => cpu.alu_rm16(AluOp::Adc, m, false),
            Opcode::AdcReg16Rm16(m) => cpu.alu_rm16(AluOp::Adc, m, true),
            Opcode::AdcAccImm16(i) => cpu.alu_acc16(AluOp::Adc, i),
            Opcode::SbbRm16Reg16(m) => cpu.alu_rm16(AluOp::Sbb, m, false),
            Opcode::SbbReg16Rm16(m) => cpu.alu_rm16(AluOp::Sbb, m, true),
            Opcode::SbbAccImm16(i) => cpu.alu_acc16(AluOp::Sbb, i),
            Opcode::AndRm16Reg16(m) => cpu.alu_rm16(AluOp::And, m, false),
            Opcode::AndReg16Rm16(m) => cpu.alu_rm16(AluOp::And, m, true),
            Opcode::AndAccImm16(i) => cpu.alu_acc16(AluOp::And, i),
            Opcode::SubRm16Reg16(m) => cpu.alu_rm16(AluOp::Sub, m, false),
            Opcode::SubReg16Rm16(m) => cpu.alu_rm16(AluOp::Sub, m, true),
            Opcode::SubAccImm16(i) => cpu.alu_acc16(AluOp::Sub, i),
            Opcode::XorAccImm16(i) => cpu.alu_acc16(AluOp::Xor, i),
            Opcode::CmpRm16Reg16(m) => cpu.alu_rm16(AluOp::Cmp, m, false),
            Opcode::CmpReg16Rm16(m) => cpu.alu_rm16(AluOp::Cmp, m, true),
            Opcode::CmpAccImm16(i) => cpu.alu_acc16(AluOp::Cmp, i),
            _ => {},
        }
        true
    }

    /// TEST and the group instructions 1, 2 and 3.
    fn execute_group(&self, cpu: &mut Cpu) -> (cont: bool)
        requires
            base_defined(*self, old(cpu)@),
            !(*self is Rep),
            op_class(*self) == 2,
        ensures
            final(cpu)@ == exec_base(*self, old(cpu)@).0,
            cont == exec_base(*self, old(cpu)@).1,
    {
        proof {
            reveal(exec_base);
        }
        match *self {
            Opcode::Grp1(opcode, modrm) => cpu.grp1(opcode, modrm),
            Opcode::Grp2(opcode, modrm) => {
                let count = match opcode {
                    0xD0 | 0xD1 => 1u8,
                    0xD2 | 0xD3 => cpu.get_reg8(1),
                    _ => 0,
                };
                Opcode::execute_grp2(cpu, opcode, modrm, count);
            },
            Opcode::Grp2Imm8(opcode, modrm, count) => {
                Opcode::execute_grp2(cpu, opcode, modrm, count);
            },
            Opcode::Grp3(opcode, modrm) => cpu.grp3(opcode, modrm),
            Opcode::TestRm8Reg8(m) => cpu.test_rm8(m),
            Opcode::TestRm16Reg16(m) => cpu.test_rm16(m),
            _ => {},
        }
        true
    }

    /// Moves, exchanges, loads of addresses and far pointers, stack and port transfers.
    fn execute_transfer(&self, cpu: &mut Cpu) -> (cont: bool)
        requires
            base_defined(*self, old(cpu)@),
            !(*self is Rep),
            op_class(*self) == 3,
        ensures
            final(cpu)@ == exec_base(*self, old(cpu)@).0,
            cont == exec_base(*self, old(cpu)@).1,
    {
        proof {
            reveal(exec_base);
        }
        proof {
            lemma_misc_bits(cpu.regs.flags, cpu.regs.ax);
            lemma_byte_merge(cpu.regs.ax, 0);
        }
        match *self {
            Opcode::XchgAxReg(reg) => {
                let tmp = cpu.regs.ax;
                cpu.regs.ax = cpu.get_reg16(reg);
                cpu.set_reg16(reg, tmp);
            },
            Opcode::Lea(modrm) => {
                proof {
                    crate::modrm::lemma_modrm_fields(modrm);
                }
                let reg = (modrm >> 3) & 0x07;
                let (offset, _) = cpu.get_offset(modrm);
                cpu.set_reg16(reg, offset);
            },
            Opcode::Les(modrm) => {
                let seg = cpu.load_far(modrm);
                cpu.regs.es = seg;
            },
            Opcode::Lds(modrm) => {
                let seg = cpu.load_far(modrm);
                cpu.regs.ds = seg;
            },
            Opcode::IncReg16(reg) => {
                let val = cpu.get_reg16(reg);
                let res = val.wrapping_add(1);
                cpu.set_reg16(reg, res);
                cpu.update_flags_isz16(res);
            },
            Opcode::DecReg16(reg) => {
                let val = cpu.get_reg16(reg);
                let res = val.wrapping_sub(1);
                cpu.set_reg16(reg, res);
                cpu.update_flags_isz16(res);
            },
            Opcode::PushReg16(reg) => {
                let val = cpu.get_reg16(reg);
                cpu.push16(val);
            },
            Opcode::PopReg16(reg) => {
                let val = cpu.pop16();
                cpu.set_reg16(reg, val);
            },
            Opcode::PopRm16(modrm) => {
                let val = cpu.pop16();
                cpu.set_rm16(modrm, val);
            },
            Opcode::PushSreg(opcode) => {
                let val = match opcode {
                    0x06 => cpu.regs.es,
                    0x0E => cpu.regs.cs,
                    0x16 => cpu.regs.ss,
                    0x1E => cpu.regs.ds,
                    _ => 0,
                };
                cpu.push16(val);
            },
            Opcode::PopSreg(opcode) => {
                let val = cpu.pop16();
                match opcode {
                    0x07 => cpu.regs.es = val,
                    0x17 => cpu.regs.ss = val,
                    0x1F => cpu.regs.ds = val,
                    _ => {},
                }
            },
            Opcode::MovSregRm(modrm) => {
                proof {
                    crate::modrm::lemma_modrm_fields(modrm);
                }
                let sreg = (modrm >> 3) & 0x07;
                let val = cpu.get_rm16(modrm);
                match sreg {
                    0 => cpu.regs.es = val,
                    1 => cpu.regs.cs = val,
                    2 => cpu.regs.ss = val,
                    3 => cpu.regs.ds = val,
                    _ => {},
                }
            },
            Opcode::MovRmSreg(modrm) => {
                proof {
                    crate::modrm::lemma_modrm_fields(modrm);
                }
                let sreg = (modrm >> 3) & 0x07;
                let val = match sreg {
                    0 => cpu.regs.es,
                    1 => cpu.regs.cs,
                    2 => cpu.regs.ss,
                    3 => cpu.regs.ds,
                    _ => 0,
                };
                cpu.set_rm16(modrm, val);
            },
            Opcode::MovRmReg8(modrm) => {
                proof {
                    crate::modrm::lemma_modrm_fields(modrm);
                }
                let val = cpu.get_reg8((modrm >> 3) & 0x07);
                cpu.set_rm8(modrm, val);
            },
            Opcode::MovRmReg16(modrm) => {
                proof {
                    crate::modrm::lemma_modrm_fields(modrm);
                }
                let val = cpu.get_reg16((modrm >> 3) & 0x07);
                cpu.set_rm16(modrm, val);
            },
            Opcode::MovReg8Rm8(modrm) => {
                proof {
                    crate::modrm::lemma_modrm_fields(modrm);
                }
                let val = cpu.get_rm8(modrm);
                cpu.set_reg8((modrm >> 3) & 0x07, val);
            },
            Opcode::MovReg16Rm16(modrm) => {
                proof {
                    crate::modrm::lemma_modrm_fields(modrm);
                }
                let val = cpu.get_rm16(modrm);
                cpu.set_reg16((modrm >> 3) & 0x07, val);
            },
            Opcode::XchgRegRm8(modrm) => {
                proof {
                    crate::modrm::lemma_modrm_fields(modrm);
                }
                let val1 = cpu.get_reg8((modrm >> 3) & 0x07);
                let val2 = cpu.get_rm8(modrm);
                cpu.set_reg8((modrm >> 3) & 0x07, val2);
                cpu.set_rm8(modrm, val1);
            },
            Opcode::XchgRegRm16(modrm) => {
                proof {
                    crate::modrm::lemma_modrm_fields(modrm);
                }
                let val1 = cpu.get_reg16((modrm >> 3) & 0x07);
                let val2 = cpu.get_rm16(modrm);
                cpu.set_reg16((modrm >> 3) & 0x07, val2);
                cpu.set_rm16(modrm, val1);
            },
            Opcode::MovReg16Imm16(reg, val) => cpu.set_reg16(reg, val),
            Opcode::MovAccMoff8(offset) => {
                let seg = cpu.get_seg(cpu.regs.ds);
                let val = cpu.read_mem8(seg, offset);
                cpu.set_reg8(0, val);
            },
            Opcode::MovAccMoff16(offset) => {
                let seg = cpu.get_seg(cpu.regs.ds);
                let val = cpu.read_mem16(seg, offset);
                cpu.regs.ax = val;
            },
            Opcode::MovMoff8Acc(offset) => {
                let seg = cpu.get_seg(cpu.regs.ds);
                let val = cpu.get_reg8(0);
                cpu.write_mem8(seg, offset, val);
            },
            Opcode::MovMoff16Acc(offset) => {
                let seg = cpu.get_seg(cpu.regs.ds);
                let ax = cpu.regs.ax;
                cpu.write_mem16(seg, offset, ax);
            },
            Opcode::MovReg8Imm8(reg, val) => cpu.set_reg8(reg, val),
            Opcode::MovRm8Imm8(modrm, val) => cpu.set_rm8(modrm, val),
            Opcode::MovRm16Imm16(modrm, val) => cpu.set_rm16(modrm, val),
            Opcode::InAlImm8(_) => cpu.set_reg8(0, 0xFF),
            Opcode::InAxImm8(_) => cpu.regs.ax = 0xFFFF,
            Opcode::OutImm8Al(_) => {},
            Opcode::OutImm8Ax(_) => {},
            Opcode::InAlDx => cpu.set_reg8(0, 0xFF),
            Opcode::InAxDx => cpu.regs.ax = 0xFFFF,
            Opcode::OutDxAl => {},
            Opcode::OutDxAx => {},
            Opcode::Pushf => {
                let val = cpu.regs.flags;
                cpu.push16(val);
            },
            Opcode::Popf => cpu.regs.flags = cpu.pop16(),
            _ => {},
        }
        true
    }

    /// Flag, conversion, control-transfer, string, interrupt and remaining instructions.
    fn execute_control(&self, cpu: &mut Cpu) -> (cont: bool)
        requires
            base_defined(*self, old(cpu)@),
            !(*self is Rep),
            op_class(*self) == 4,
        ensures
            final(cpu)@ == exec_base(*self, old(cpu)@).0,
            cont == exec_base(*self, old(cpu)@).1,
    {
        proof {
            reveal(exec_base);
        }
        proof {
            lemma_misc_bits(cpu.regs.flags, cpu.regs.ax);
            lemma_byte_merge(cpu.regs.ax, 0);
        }
        match *self {
            Opcode::Nop => {},
            Opcode::Hlt => return false,
            Opcode::Cli => cpu.regs.flags &= !0x0200,
            Opcode::Sti => cpu.regs.flags |= 0x0200,
            Opcode::Cld => cpu.regs.flags &= !0x0400,
            Opcode::Std => cpu.regs.flags |= 0x0400,
            Opcode::Clc => cpu.regs.flags &= !0x0001,
            Opcode::Stc => cpu.regs.flags |= 0x0001,
            Opcode::Cmc => cpu.regs.flags ^= 0x0001,
            Opcode::Cbw => {
                let al = (cpu.regs.ax & 0xFF) as u8;
                proof {
                    crate::modrm::lemma_sign_extend(al);
                }
                cpu.regs.ax = al as i8 as i16 as u16;
            },
            Opcode::Cwd => {
                let ax = cpu.regs.ax as i16;
                cpu.regs.dx = if ax < 0 {
                    0xFFFF
                } else {
                    0
                };
            },
            Opcode::CallNear(rel) => {
                let next_ip = cpu.regs.ip;
                cpu.push16(next_ip);
                cpu.regs.ip = cpu.regs.ip.wrapping_add(rel as u16);
            },
            Opcode::Ret => cpu.regs.ip = cpu.pop16(),
            Opcode::RetFarImm(imm) => {
                cpu.regs.ip = cpu.pop16();
                cpu.regs.cs = cpu.pop16();
                cpu.regs.sp = cpu.regs.sp.wrapping_add(imm);
            },
            Opcode::JmpRel16(rel) => cpu.regs.ip = cpu.regs.ip.wrapping_add(rel as u16),
            Opcode::JmpFar(ip, cs) => {
                cpu.regs.ip = ip;
                cpu.regs.cs = cs;
            },
            Opcode::JmpShort(rel) => cpu.regs.ip = cpu.regs.ip.wrapping_add(rel as u16),
            Opcode::Int(int_no) => {
                let ret = handle_interrupt(cpu, int_no);
                if ret == false {
                    return false;
                }
            },
            Opcode::Enter(size, level) => cpu.enter(size, level),
            Opcode::Leave => {
                cpu.regs.sp = cpu.regs.bp;
                cpu.regs.bp = cpu.pop16();
            },
            Opcode::JccShort(opcode, rel) => {
                let condition = jcc_taken_exec(opcode, cpu.regs.flags);
                if condition {
                    cpu.regs.ip = cpu.regs.ip.wrapping_add(rel as u16);
                }
            },
            Opcode::JcxzShort(rel) => {
                if cpu.regs.cx == 0 {
                    cpu.regs.ip = cpu.regs.ip.wrapping_add(rel as u16);
                }
            },
            Opcode::Loop(rel) => {
                cpu.regs.cx = cpu.regs.cx.wrapping_sub(1);
                if cpu.regs.cx != 0 {
                    cpu.regs.ip = cpu.regs.ip.wrapping_add(rel as u16);
                }
            },
            Opcode::Loopne(rel) => {
                cpu.regs.cx = cpu.regs.cx.wrapping_sub(1);
                let zf = (cpu.regs.flags & 0x0040) != 0;
                if cpu.regs.cx != 0 && !zf {
                    cpu.regs.ip = cpu.regs.ip.wrapping_add(rel as u16);
                }
            },
            Opcode::Loope(rel) => {
                cpu.regs.cx = cpu.regs.cx.wrapping_sub(1);
                let zf = (cpu.regs.flags & 0x0040) != 0;
                if cpu.regs.cx != 0 && zf {
                    cpu.regs.ip = cpu.regs.ip.wrapping_add(rel as u16);
                }
            },
            Opcode::Cmpsb => cpu.compare_bytes(),
            Opcode::Cmpsw => cpu.compare_words(),
            Opcode::Movsb => cpu.movsb(),
            Opcode::Movsw => cpu.movsw(),
            Opcode::Stosb => cpu.stosb(),
            Opcode::Stosw => cpu.stosw(),
            Opcode::Lodsb => cpu.lodsb(),
            Opcode::Sahf => {
                let ah = ((cpu.regs.ax >> 8) & 0xFF) as u16;
                proof {
                    lemma_byte_merge(cpu.regs.flags, ah);
                }
                cpu.regs.flags = (cpu.regs.flags & 0xFF00) | ah;
            },
            Opcode::Lahf => {
                let flags = (cpu.regs.flags & 0xFF) as u8;
                proof {
                    lemma_byte_merge(cpu.regs.ax, flags as u16);
                }
                cpu.regs.ax = (cpu.regs.ax & 0x00FF) | ((flags as u16) << 8);
            },
            Opcode::Unknown(op) => {
                let ip = cpu.regs.ip.wrapping_sub(1);
                let cs = cpu.regs.cs;
                cpu.console.push(ConsoleOutput::UnknownOpcode { opcode: op, cs, ip });
                return false;
            },
            _ => {},
        }
        true
    }

    /// Group 2 (`C0`, `C1`, `D0`..`D3`): shifts and rotates of an r/m operand by `count`.
    pub fn execute_grp2(cpu: &mut Cpu, opcode: u8, modrm: u8, count: u8)
        ensures
            final(cpu)@ == old(cpu)@.grp2(opcode, modrm, count),
    {
        cpu.grp2(opcode, modrm, count);
    }
}

impl Opcode {
    /// Executes this instruction with a bound `fuel` on REP repetitions.
    fn execute_fuel(&self, cpu: &mut Cpu, Ghost(fuel): Ghost<nat>) -> (cont: bool)
        requires
            run(*self, old(cpu)@, fuel) is Some,
        ensures
            run(*self, old(cpu)@, fuel) == Some((final(cpu)@, cont)),
        decreases fuel,
    {
        match self {
            Opcode::Rep(next) => {
                let ghost s0 = cpu@;
                let ghost mut f = fuel;
                while cpu.regs.cx > 0
                    invariant_except_break
                        f <= fuel,
                        s0 == old(cpu)@,
                        *self == Opcode::Rep(*next),
                        run(*self, cpu@, f) == run(*self, s0, fuel),
                        run(*self, cpu@, f) is Some,
                    ensures
                        run(*self, s0, fuel) == Some((cpu@, true)),
                    decreases f,
                {
                    let ghost cur = cpu@;
                    assert(f > 0);
                    let cont = next.execute_fuel(cpu, Ghost((f - 1) as nat));
                    assert(run(**next, cur, (f - 1) as nat) == Some((cpu@, cont)));
                    if !cont {
                        assert(run(*self, cur, f) == Some((cpu@, false)));
                        return false;
                    }
                    let ghost after = cpu@;
                    cpu.regs.cx = cpu.regs.cx.wrapping_sub(1);
                    assert(cpu@ == after.dec_cx());
                    let compares_strings = matches!(**next, Opcode::Cmpsb | Opcode::Cmpsw);
                    if compares_strings {
                        let zf = (cpu.regs.flags & 0x0040) != 0;
                        if !zf {
                            assert(run(*self, cur, f) == Some((cpu@, true)));
                            break;
                        }
                    }
                    assert(run(*self, cur, f) == run(*self, cpu@, (f - 1) as nat));
                    proof {
                        f = (f - 1) as nat;
                    }
                }
                true
            },
            _ => self.execute_base(cpu),
        }
    }

    /// Executes this instruction allowing at most `budget` REP repetitions. Gives `None`
    /// when the budget runs out or a BIOS/DOS call would not return; for an instruction
    /// other than REP the machine is then unchanged.
    pub fn execute_budget(&self, cpu: &mut Cpu, budget: u64) -> (r: Option<bool>)
        ensures
            match run(*self, old(cpu)@, budget as nat) {
                Some((t, cont)) => r == Some(cont) && final(cpu)@ == t,
                None => r is None && (!(*self is Rep) ==> final(cpu)@ == old(cpu)@),
            },
        decreases budget,
    {
        match self {
            Opcode::Rep(next) => {
                let ghost s0 = cpu@;
                let mut f = budget;
                while cpu.regs.cx > 0
                    invariant_except_break
                        f <= budget,
                        s0 == old(cpu)@,
                        *self == Opcode::Rep(*next),
                        run(*self, cpu@, f as nat) == run(*self, s0, budget as nat),
                    ensures
                        run(*self, s0, budget as nat) == Some((cpu@, true)),
                    decreases f,
                {
                    let ghost cur = cpu@;
                    if f == 0 {
                        assert(run(*self, cur, 0) is None);
                        return None;
                    }
                    let inner = next.execute_budget(cpu, f - 1);
                    match inner {
                        None => {
                            assert(run(*self, cur, f as nat) is None);
                            return None;
                        },
                        Some(cont) => {
                            if !cont {
                                assert(run(*self, cur, f as nat) == Some((cpu@, false)));
                                return Some(false);
                            }
                        },
                    }
                    let ghost after = cpu@;
                    cpu.regs.cx = cpu.regs.cx.wrapping_sub(1);
                    assert(cpu@ == after.dec_cx());
                    let compares_strings = matches!(**next, Opcode::Cmpsb | Opcode::Cmpsw);
                    if compares_strings {
                        let zf = (cpu.regs.flags & 0x0040) != 0;
                        if !zf {
                            assert(run(*self, cur, f as nat) == Some((cpu@, true)));
                            break;
                        }
                    }
                    assert(run(*self, cur, f as nat) == run(*self, cpu@, (f - 1) as nat));
                    f = f - 1;
                }
                Some(true)
            },
            _ => {
                if let Opcode::Int(n) = self {
                    if !interrupt_returns(cpu, *n) {
                        return None;
                    }
                }
                Some(self.execute_base(cpu))
            },
        }
    }

    /// Executes this instruction on `cpu` and returns whether execution goes on.
    pub fn execute(&self, cpu: &mut Cpu) -> (cont: bool)
        requires
            executes(*self, old(cpu)@),
        ensures
            final(cpu)@ == execution(*self, old(cpu)@).0,
            cont == execution(*self, old(cpu)@).1,
    {
        let ghost fuel = choose|fuel: nat| run(*self, cpu@, fuel) is Some;
        self.execute_fuel(cpu, Ghost(fuel))
    }
}

impl Cpu {
    /// LES/LDS: loads the offset of a far pointer into the `reg` register and returns its segment.
    fn load_far(&mut self, modrm: u8) -> (seg: u16)
        ensures
            final(self)@ == old(self)@.load_far(modrm).0,
            seg == old(self)@.load_far(modrm).1,
    {
        proof {
            reveal(Machine::load_far);
        }
        proof {
            crate::modrm::lemma_modrm_fields(modrm);
        }
        let reg = (modrm >> 3) & 0x07;
        let addr = self.get_ea(modrm);
        let off = self.memory.read_u16(addr);
        let seg = self.memory.read_u16(addr + 2);
        self.set_reg16(reg, off);
        seg
    }
}

} // verus!
