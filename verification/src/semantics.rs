use vstd::prelude::*;
use crate::alu::AluOp;
use crate::bios::{interrupt, interrupt_defined};
use crate::machine::{Machine, ConsoleOutput, modrm_reg, sign_extend8};
use crate::memory::word_at;
use crate::opcode::Opcode;
use crate::ops::jcc_taken;
use crate::regs::{Registers, set_flag, flag_on, FLAG_CF, FLAG_IF, FLAG_DF, FLAG_ZF};

verus! {

impl Machine {
    /// A relative jump: `ip` moves by `rel` (wrapping).
    pub open spec fn jump(self, rel: u16) -> Machine {
        self.with_ip(self.regs.ip.wrapping_add(rel))
    }

    pub open spec fn with_cx(self, cx: u16) -> Machine {
        self.with_regs(Registers { cx, ..self.regs })
    }

    /// The segment register selected by a `sreg` field: ES, CS, SS, DS; 0 for others.
    pub open spec fn sreg(self, sreg: u8) -> u16 {
        if sreg == 0 {
            self.regs.es
        } else if sreg == 1 {
            self.regs.cs
        } else if sreg == 2 {
            self.regs.ss
        } else if sreg == 3 {
            self.regs.ds
        } else {
            0
        }
    }

    /// The machine with segment register `sreg` set; unchanged for other encodings.
    pub open spec fn with_sreg(self, sreg: u8, val: u16) -> Machine {
        let r = self.regs;
        if sreg == 0 {
            self.with_regs(Registers { es: val, ..r })
        } else if sreg == 1 {
            self.with_regs(Registers { cs: val, ..r })
        } else if sreg == 2 {
            self.with_regs(Registers { ss: val, ..r })
        } else if sreg == 3 {
            self.with_regs(Registers { ds: val, ..r })
        } else {
            self
        }
    }

    /// LES/LDS: loads a far pointer from the memory operand; the offset goes to the
    /// `reg` register, the segment is returned with the new machine.
    #[verifier::opaque]
    pub open spec fn load_far(self, modrm: u8) -> (Machine, u16) {
        let (s1, addr) = self.ea(modrm);
        let off = word_at(s1.mem, addr);
        let seg = word_at(s1.mem, addr + 2);
        (s1.set_reg16(modrm_reg(modrm), off), seg)
    }

    /// LOOP-style step: CX drops by one, then `rel` is taken when `taken(new CX)`.
    pub open spec fn dec_cx(self) -> Machine {
        self.with_cx(self.regs.cx.wrapping_sub(1))
    }
}

/// The value pushed by PUSH of a segment register, by opcode (ES, CS, SS, DS).
pub open spec fn push_sreg_value(s: Machine, opcode: u8) -> u16 {
    if opcode == 0x06 {
        s.regs.es
    } else if opcode == 0x0E {
        s.regs.cs
    } else if opcode == 0x16 {
        s.regs.ss
    } else if opcode == 0x1E {
        s.regs.ds
    } else {
        0
    }
}

/// POP of a segment register by opcode (ES, SS, DS); other opcodes discard the word.
pub open spec fn pop_sreg(s: Machine, opcode: u8, val: u16) -> Machine {
    if opcode == 0x07 {
        s.with_sreg(0, val)
    } else if opcode == 0x17 {
        s.with_sreg(2, val)
    } else if opcode == 0x1F {
        s.with_sreg(3, val)
    } else {
        s
    }
}

/// The shift count of group 2 by opcode: 1 for `D0`/`D1`, CL for `D2`/`D3`, else 0.
pub open spec fn grp2_count(s: Machine, opcode: u8) -> u8 {
    if opcode == 0xD0 || opcode == 0xD1 {
        1
    } else if opcode == 0xD2 || opcode == 0xD3 {
        s.regs.reg8(1)
    } else {
        0
    }
}

/// Whether an instruction is a string compare, whose REP prefix acts as REPE.
pub open spec fn is_string_compare(op: Opcode) -> bool {
    op is Cmpsb || op is Cmpsw
}

/// Whether executing `op` (other than a REP) returns: only the BIOS/DOS calls can fail to.
pub open spec fn base_defined(op: Opcode, s: Machine) -> bool {
    match op {
        Opcode::Int(n) => interrupt_defined(s, n),
        _ => true,
    }
}

/// The effect of executing one instruction other than a REP, and whether execution
/// goes on afterwards (`false` for HLT, unknown opcodes, and the interrupts that stop).
#[verifier::opaque]
pub open spec fn exec_base(op: Opcode, s: Machine) -> (Machine, bool) {
    let r = s.regs;
    match op {
        Opcode::Nop => (s, true),
        Opcode::Hlt => (s, false),
        Opcode::XchgAxReg(reg) => (s.with_regs(Registers { ax: r.reg16(reg), ..r }).set_reg16(reg, r.ax), true),
        Opcode::Cli => (s.with_flags(set_flag(r.flags, FLAG_IF, false)), true),
        Opcode::Sti => (s.with_flags(set_flag(r.flags, FLAG_IF, true)), true),
        Opcode::Cld => (s.with_flags(set_flag(r.flags, FLAG_DF, false)), true),
        Opcode::Std => (s.with_flags(set_flag(r.flags, FLAG_DF, true)), true),
        Opcode::Clc => (s.with_flags(set_flag(r.flags, FLAG_CF, false)), true),
        Opcode::Stc => (s.with_flags(set_flag(r.flags, FLAG_CF, true)), true),
        Opcode::Cmc => (s.with_flags(set_flag(r.flags, FLAG_CF, !flag_on(r.flags, FLAG_CF))), true),
        Opcode::Cbw => (s.with_regs(Registers { ax: sign_extend8(r.reg8(0)), ..r }), true),
        Opcode::Cwd => (s.with_regs(Registers { dx: if r.ax >= 0x8000 { 0xFFFF } else { 0 }, ..r }), true),
        Opcode::CallNear(rel) => (s.push16(r.ip).jump(rel as u16), true),
        Opcode::Ret => {
            let (s1, v) = s.pop16();
            (s1.with_ip(v), true)
        },
        Opcode::RetFarImm(imm) => {
            let (s1, ip) = s.pop16();
            let (s2, cs) = s1.with_ip(ip).pop16();
            (s2.with_regs(Registers { cs, sp: s2.regs.sp.wrapping_add(imm), ..s2.regs }), true)
        },
        Opcode::JmpRel16(rel) => (s.jump(rel as u16), true),
        Opcode::JmpFar(ip, cs) => (s.with_regs(Registers { ip, cs, ..r }), true),
        Opcode::JmpShort(rel) => (s.jump(rel as u16), true),
        Opcode::Lea(modrm) => {
            let (s1, off, _) = s.offset(modrm);
            (s1.set_reg16(modrm_reg(modrm), off), true)
        },
        Opcode::Les(modrm) => {
            let (s1, seg) = s.load_far(modrm);
            (s1.with_sreg(0, seg), true)
        },
        Opcode::Lds(modrm) => {
            let (s1, seg) = s.load_far(modrm);
            (s1.with_sreg(3, seg), true)
        },
        Opcode::IncReg16(reg) => {
            let res = r.reg16(reg).wrapping_add(1);
            (s.set_reg16(reg, res).flags_isz16(res), true)
        },
        Opcode::DecReg16(reg) => {
            let res = r.reg16(reg).wrapping_sub(1);
            (s.set_reg16(reg, res).flags_isz16(res), true)
        },
        Opcode::PushReg16(reg) => (s.push16(r.reg16(reg)), true),
        Opcode::PopReg16(reg) => {
            let (s1, v) = s.pop16();
            (s1.set_reg16(reg, v), true)
        },
        Opcode::PopRm16(modrm) => {
            let (s1, v) = s.pop16();
            (s1.set_rm16(modrm, v), true)
        },
        Opcode::PushSreg(opcode) => (s.push16(push_sreg_value(s, opcode)), true),
        Opcode::PopSreg(opcode) => {
            let (s1, v) = s.pop16();
            (pop_sreg(s1, opcode, v), true)
        },
        Opcode::MovSregRm(modrm) => {
            let (s1, v) = s.get_rm16(modrm);
            (s1.with_sreg(modrm_reg(modrm), v), true)
        },
        Opcode::MovRmSreg(modrm) => (s.set_rm16(modrm, s.sreg(modrm_reg(modrm))), true),
        Opcode::MovRmReg8(modrm) => (s.set_rm8(modrm, r.reg8(modrm_reg(modrm))), true),
        Opcode::MovRmReg16(modrm) => (s.set_rm16(modrm, r.reg16(modrm_reg(modrm))), true),
        Opcode::MovReg8Rm8(modrm) => {
            let (s1, v) = s.get_rm8(modrm);
            (s1.set_reg8(modrm_reg(modrm), v), true)
        },
        Opcode::MovReg16Rm16(modrm) => {
            let (s1, v) = s.get_rm16(modrm);
            (s1.set_reg16(modrm_reg(modrm), v), true)
        },
        Opcode::XchgRegRm8(modrm) => {
            let reg = modrm_reg(modrm);
            let (s1, v) = s.get_rm8(modrm);
            (s1.set_reg8(reg, v).set_rm8(modrm, r.reg8(reg)), true)
        },
        Opcode::XchgRegRm16(modrm) => {
            let reg = modrm_reg(modrm);
            let (s1, v) = s.get_rm16(modrm);
            (s1.set_reg16(reg, v).set_rm16(modrm, r.reg16(reg)), true)
        },
        Opcode::MovReg8Imm8(reg, val) => (s.set_reg8(reg, val), true),
        Opcode::MovReg16Imm16(reg, val) => (s.set_reg16(reg, val), true),
        Opcode::MovRm8Imm8(modrm, val) => (s.set_rm8(modrm, val), true),
        Opcode::MovRm16Imm16(modrm, val) => (s.set_rm16(modrm, val), true),
        Opcode::MovAccMoff8(off) => (s.set_reg8(0, s.read_mem8(s.seg_or(r.ds), off)), true),
        Opcode::MovAccMoff16(off) => (s.set_reg16(0, s.read_mem16(s.seg_or(r.ds), off)), true),
        Opcode::MovMoff8Acc(off) => (s.write_mem8(s.seg_or(r.ds), off, r.reg8(0)), true),
        Opcode::MovMoff16Acc(off) => (s.write_mem16(s.seg_or(r.ds), off, r.ax), true),
        Opcode::Int(n) => interrupt(s, n),
        Opcode::Enter(size, level) => (s.enter(size, level), true),
        Opcode::Leave => {
            let (s1, v) = s.with_regs(Registers { sp: r.bp, ..r }).pop16();
            (s1.with_regs(Registers { bp: v, ..s1.regs }), true)
        },
        Opcode::JccShort(opcode, rel) => (
            if jcc_taken(opcode, r.flags) {
                s.jump(rel as u16)
            } else {
                s
            },
            true,
        ),
        Opcode::JcxzShort(rel) => (
            if r.cx == 0 {
                s.jump(rel as u16)
            } else {
                s
            },
            true,
        ),
        Opcode::Loop(rel) => {
            let s1 = s.dec_cx();
            (
                if s1.regs.cx != 0 {
                    s1.jump(rel as u16)
                } else {
                    s1
                },
                true,
            )
        },
        Opcode::Loopne(rel) => {
            let s1 = s.dec_cx();
            (
                if s1.regs.cx != 0 && !flag_on(r.flags, FLAG_ZF) {
                    s1.jump(rel as u16)
                } else {
                    s1
                },
                true,
            )
        },
        Opcode::Loope(rel) => {
            let s1 = s.dec_cx();
            (
                if s1.regs.cx != 0 && flag_on(r.flags, FLAG_ZF) {
                    s1.jump(rel as u16)
                } else {
                    s1
                },
                true,
            )
        },
        Opcode::Movsb => (s.movsb(), true),
        Opcode::Movsw => (s.movsw(), true),
        Opcode::Cmpsb => (s.compare_bytes(), true),
        Opcode::Cmpsw => (s.compare_words(), true),
        Opcode::Stosb => (s.stosb(), true),
        Opcode::Stosw => (s.stosw(), true),
        Opcode::Lodsb => (s.lodsb(), true),
        Opcode::InAlImm8(_) => (s.set_reg8(0, 0xFF), true),
        Opcode::InAxImm8(_) => (s.set_reg16(0, 0xFFFF), true),
        Opcode::InAlDx => (s.set_reg8(0, 0xFF), true),
        Opcode::InAxDx => (s.set_reg16(0, 0xFFFF), true),
        Opcode::OutImm8Al(_) => (s, true),
        Opcode::OutImm8Ax(_) => (s, true),
        Opcode::OutDxAl => (s, true),
        Opcode::OutDxAx => (s, true),
        Opcode::AddRm8Reg8(m) => (s.alu_rm8(AluOp::Add, m, false), true),
        Opcode::AddRm16Reg16(m) => (s.alu_rm16(AluOp::Add, m, false), true),
        Opcode::AddReg8Rm8(m) => (s.alu_rm8(AluOp::Add, m, true), true),
        Opcode::AddReg16Rm16(m) => (s.alu_rm16(AluOp::Add, m, true), true),
        Opcode::AddAccImm8(i) => (s.alu_acc8(AluOp::Add, i), true),
        Opcode::AddAccImm16(i) => (s.alu_acc16(AluOp::Add, i), true),
        Opcode::OrRm8Reg8(m) => (s.alu_rm8(AluOp::Or, m, false), true),
        Opcode::OrRm16Reg16(m) => (s.alu_rm16(AluOp::Or, m, false), true),
        Opcode::OrReg8Rm8(m) => (s.alu_rm8(AluOp::Or, m, true), true),
        Opcode::OrReg16Rm16(m) => (s.alu_rm16(AluOp::Or, m, true), true),
        Opcode::OrAccImm8(i) => (s.alu_acc8(AluOp::Or, i), true),
        Opcode::OrAccImm16(i) => (s.alu_acc16(AluOp::Or, i), true),
        Opcode::AdcRm8Reg8(m) => (s.alu_rm8(AluOp::Adc, m, false), true),
        Opcode::AdcRm16Reg16(m) => (s.alu_rm16(AluOp::Adc, m, false), true),
        Opcode::AdcReg8Rm8(m) => (s.alu_rm8(AluOp::Adc, m, true), true),
        Opcode::AdcReg16Rm16(m) => (s.alu_rm16(AluOp::Adc, m, true), true),
        Opcode::AdcAccImm8(i) => (s.alu_acc8(AluOp::Adc, i), true),
        Opcode::AdcAccImm16(i) => (s.alu_acc16(AluOp::Adc, i), true),
        Opcode::SbbRm8Reg8(m) => (s.alu_rm8(AluOp::Sbb, m, false), true),
        Opcode::SbbRm16Reg16(m) => (s.alu_rm16(AluOp::Sbb, m, false), true),
        Opcode::SbbReg8Rm8(m) => (s.alu_rm8(AluOp::Sbb, m, true), true),
        Opcode::SbbReg16Rm16(m) => (s.alu_rm16(AluOp::Sbb, m, true), true),
        Opcode::SbbAccImm8(i) => (s.alu_acc8(AluOp::Sbb, i), true),
        Opcode::SbbAccImm16(i) => (s.alu_acc16(AluOp::Sbb, i), true),
        Opcode::AndRm8Reg8(m) => (s.alu_rm8(AluOp::And, m, false), true),
        Opcode::AndRm16Reg16(m) => (s.alu_rm16(AluOp::And, m, false), true),
        Opcode::AndReg8Rm8(m) => (s.alu_rm8(AluOp::And, m, true), true),
        Opcode::AndReg16Rm16(m) => (s.alu_rm16(AluOp::And, m, true), true),
        Opcode::AndAccImm8(i) => (s.alu_acc8(AluOp::And, i), true),
        Opcode::AndAccImm16(i) => (s.alu_acc16(AluOp::And, i), true),
        Opcode::SubRm8Reg8(m) => (s.alu_rm8(AluOp::Sub, m, false), true),
        Opcode::SubRm16Reg16(m) => (s.alu_rm16(AluOp::Sub, m, false), true),
        Opcode::SubReg8Rm8(m) => (s.alu_rm8(AluOp::Sub, m, true), true),
        Opcode::SubReg16Rm16(m) => (s.alu_rm16(AluOp::Sub, m, true), true),
        Opcode::SubAccImm8(i) => (s.alu_acc8(AluOp::Sub, i), true),
        Opcode::SubAccImm16(i) => (s.alu_acc16(AluOp::Sub, i), true),
        Opcode::XorRm8Reg8(m) => (s.alu_rm8(AluOp::Xor, m, false), true),
        Opcode::XorRm16Reg16(m) => (s.alu_rm16(AluOp::Xor, m, false), true),
        Opcode::XorReg8Rm8(m) => (s.alu_rm8(AluOp::Xor, m, true), true),
        Opcode::XorReg16Rm16(m) => (s.alu_rm16(AluOp::Xor, m, true), true),
        Opcode::XorAccImm8(i) => (s.alu_acc8(AluOp::Xor, i), true),
        Opcode::XorAccImm16(i) => (s.alu_acc16(AluOp::Xor, i), true),
        Opcode::CmpRm8Reg8(m) => (s.alu_rm8(AluOp::Cmp, m, false), true),
        Opcode::CmpRm16Reg16(m) => (s.alu_rm16(AluOp::Cmp, m, false), true),
        Opcode::CmpReg8Rm8(m) => (s.alu_rm8(AluOp::Cmp, m, true), true),
        Opcode::CmpReg16Rm16(m) => (s.alu_rm16(AluOp::Cmp, m, true), true),
        Opcode::CmpAccImm8(i) => (s.alu_acc8(AluOp::Cmp, i), true),
        Opcode::CmpAccImm16(i) => (s.alu_acc16(AluOp::Cmp, i), true),
        Opcode::Grp1(opcode, modrm) => (s.grp1(opcode, modrm), true),
        Opcode::Grp2(opcode, modrm) => (s.grp2(opcode, modrm, grp2_count(s, opcode)), true),
        Opcode::Grp2Imm8(opcode, modrm, count) => (s.grp2(opcode, modrm, count), true),
        Opcode::Grp3(opcode, modrm) => (s.grp3(opcode, modrm), true),
        Opcode::Pushf => (s.push16(r.flags), true),
        Opcode::Popf => {
            let (s1, v) = s.pop16();
            (s1.with_flags(v), true)
        },
        Opcode::Sahf => (s.with_flags((r.flags - r.flags % 256 + r.ax / 256) as u16), true),
        Opcode::Lahf => (s.with_regs(Registers { ax: (r.ax % 256 + 256 * (r.flags % 256)) as u16, ..r }), true),
        Opcode::TestRm8Reg8(m) => (s.test_rm8(m), true),
        Opcode::TestRm16Reg16(m) => (s.test_rm16(m), true),
        Opcode::Unknown(opcode) => (
            s.emit(ConsoleOutput::UnknownOpcode { opcode, cs: r.cs, ip: r.ip.wrapping_sub(1) }),
            false,
        ),
        Opcode::Rep(_) => (s, true),
    }
}

/// Executing `op` with at most `fuel` repetitions of REP loops: `None` when the
/// fuel runs out or an instruction does not return.
///
/// `REP op` repeats `op` while CX is not zero, decrementing CX after each run; it
/// stops early when `op` stops execution, or, for a string compare, when ZF is clear.
pub open spec fn run(op: Opcode, s: Machine, fuel: nat) -> Option<(Machine, bool)>
    decreases fuel,
{
    match op {
        Opcode::Rep(inner) => {
            if s.regs.cx == 0 {
                Some((s, true))
            } else if fuel == 0 {
                None
            } else {
                match run(*inner, s, (fuel - 1) as nat) {
                    None => None,
                    Some((s1, cont)) => {
                        if !cont {
                            Some((s1, false))
                        } else {
                            let s2 = s1.dec_cx();
                            if is_string_compare(*inner) && !flag_on(s2.regs.flags, FLAG_ZF) {
                                Some((s2, true))
                            } else {
                                run(op, s2, (fuel - 1) as nat)
                            }
                        }
                    }
                }
            }
        },
        _ => {
            if base_defined(op, s) {
                Some(exec_base(op, s))
            } else {
                None
            }
        },
    }
}

/// Whether executing `op` in state `s` returns.
pub open spec fn executes(op: Opcode, s: Machine) -> bool {
    exists|fuel: nat| run(op, s, fuel) is Some
}

/// The state after executing `op` in `s`, and whether execution goes on.
pub open spec fn execution(op: Opcode, s: Machine) -> (Machine, bool) {
    run(op, s, choose|fuel: nat| run(op, s, fuel) is Some)->0
}

} // verus!
