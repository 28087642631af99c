use vstd::prelude::*;
use crate::cpu::Cpu;
use crate::machine::Machine;
use crate::opcode::Opcode;

verus! {

/// Whether `b` is a segment-override prefix (ES, CS, SS, DS).
pub open spec fn is_segment_prefix(b: u8) -> bool {
    b == 0x26 || b == 0x2E || b == 0x36 || b == 0x3E
}

/// The segment value that the override prefix `b` selects.
pub open spec fn prefix_segment(s: Machine, b: u8) -> u16 {
    if b == 0x26 {
        s.regs.es
    } else if b == 0x2E {
        s.regs.cs
    } else if b == 0x36 {
        s.regs.ss
    } else {
        s.regs.ds
    }
}

/// Decoding of the opcode byte `b` (already fetched) other than a prefix: the
/// operand bytes that the instruction carries are fetched from `cs:ip`.
#[verifier::opaque]
pub open spec fn decode_base(b: u8, s: Machine) -> (Machine, Opcode) {
    match b {
        0x90 => (s, Opcode::Nop),
        0xF4 => (s, Opcode::Hlt),
        0xFA => (s, Opcode::Cli),
        0xFB => (s, Opcode::Sti),
        0xFC => (s, Opcode::Cld),
        0xFD => (s, Opcode::Std),
        0xF8 => (s, Opcode::Clc),
        0xF9 => (s, Opcode::Stc),
        0xF5 => (s, Opcode::Cmc),
        0x98 => (s, Opcode::Cbw),
        0x99 => (s, Opcode::Cwd),
        0xE8 => {
            let (t, x) = s.fetch16();
            (t, Opcode::CallNear(x as i16))
        },
        0xC3 => (s, Opcode::Ret),
        0xCA => {
            let (t, x) = s.fetch16();
            (t, Opcode::RetFarImm(x))
        },
        0x91 | 0x92 | 0x93 | 0x94 | 0x95 | 0x96 | 0x97 => (s, Opcode::XchgAxReg((b - 0x90) as u8)),
        0xE9 => {
            let (t, x) = s.fetch16();
            (t, Opcode::JmpRel16(x as i16))
        },
        0xEA => {
            let (t1, ip) = s.fetch16();
            let (t2, cs) = t1.fetch16();
            (t2, Opcode::JmpFar(ip, cs))
        },
        0xEB => {
            let (t, x) = s.fetch8();
            (t, Opcode::JmpShort(x as i8))
        },
        0x30 => {
            let (t, x) = s.fetch8();
            (t, Opcode::XorRm8Reg8(x))
        },
        0x31 => {
            let (t, x) = s.fetch8();
            (t, Opcode::XorRm16Reg16(x))
        },
        0x32 => {
            let (t, x) = s.fetch8();
            (t, Opcode::XorReg8Rm8(x))
        },
        0x33 => {
            let (t, x) = s.fetch8();
            (t, Opcode::XorReg16Rm16(x))
        },
        0xC4 => {
            let (t, x) = s.fetch8();
            (t, Opcode::Les(x))
        },
        0xC5 => {
            let (t, x) = s.fetch8();
            (t, Opcode::Lds(x))
        },
        0x8D => {
            let (t, x) = s.fetch8();
            (t, Opcode::Lea(x))
        },
        0x40 | 0x41 | 0x42 | 0x43 | 0x44 | 0x45 | 0x46 | 0x47 => (s, Opcode::IncReg16((b - 0x40) as u8)),
        0x48 | 0x49 | 0x4A | 0x4B | 0x4C | 0x4D | 0x4E | 0x4F => (s, Opcode::DecReg16((b - 0x48) as u8)),
        0x50 | 0x51 | 0x52 | 0x53 | 0x54 | 0x55 | 0x56 | 0x57 => (s, Opcode::PushReg16((b - 0x50) as u8)),
        0x58 | 0x59 | 0x5A | 0x5B | 0x5C | 0x5D | 0x5E | 0x5F => (s, Opcode::PopReg16((b - 0x58) as u8)),
        0x06 | 0x0E | 0x16 | 0x1E => (s, Opcode::PushSreg(b)),
        0x07 | 0x17 | 0x1F => (s, Opcode::PopSreg(b)),
        0x8E => {
            let (t, x) = s.fetch8();
            (t, Opcode::MovSregRm(x))
        },
        0x8C => {
            let (t, x) = s.fetch8();
            (t, Opcode::MovRmSreg(x))
        },
        0x8F => {
            let (t, x) = s.fetch8();
            (t, Opcode::PopRm16(x))
        },
        0x88 => {
            let (t, x) = s.fetch8();
            (t, Opcode::MovRmReg8(x))
        },
        0x89 => {
            let (t, x) = s.fetch8();
            (t, Opcode::MovRmReg16(x))
        },
        0x8A => {
            let (t, x) = s.fetch8();
            (t, Opcode::MovReg8Rm8(x))
        },
        0x8B => {
            let (t, x) = s.fetch8();
            (t, Opcode::MovReg16Rm16(x))
        },
        0x86 => {
            let (t, x) = s.fetch8();
            (t, Opcode::XchgRegRm8(x))
        },
        0x87 => {
            let (t, x) = s.fetch8();
            (t, Opcode::XchgRegRm16(x))
        },
        0xB0 | 0xB1 | 0xB2 | 0xB3 | 0xB4 | 0xB5 | 0xB6 | 0xB7 => {
            let (t, x) = s.fetch8();
            (t, Opcode::MovReg8Imm8((b - 0xB0) as u8, x))
        },
        0xB8 | 0xB9 | 0xBA | 0xBB | 0xBC | 0xBD | 0xBE | 0xBF => {
            let (t, x) = s.fetch16();
            (t, Opcode::MovReg16Imm16((b - 0xB8) as u8, x))
        },
        0xC6 => {
            let (t1, modrm) = s.fetch8();
            let (t2, val) = t1.fetch8();
            (t2, Opcode::MovRm8Imm8(modrm, val))
        },
        0xC7 => {
            let (t1, modrm) = s.fetch8();
            let (t2, val) = t1.fetch16();
            (t2, Opcode::MovRm16Imm16(modrm, val))
        },
        0xCD => {
            let (t, x) = s.fetch8();
            (t, Opcode::Int(x))
        },
        0xC8 => {
            let (t1, size) = s.fetch16();
            let (t2, level) = t1.fetch8();
            (t2, Opcode::Enter(size, level))
        },
        0xC9 => (s, Opcode::Leave),
        0xE0 => {
            let (t, x) = s.fetch8();
            (t, Opcode::Loopne(x as i8))
        },
        0xE1 => {
            let (t, x) = s.fetch8();
            (t, Opcode::Loope(x as i8))
        },
        0xE3 => {
            let (t, x) = s.fetch8();
            (t, Opcode::JcxzShort(x as i8))
        },
        0xE2 => {
            let (t, x) = s.fetch8();
            (t, Opcode::Loop(x as i8))
        },
        0x70 | 0x71 | 0x72 | 0x73 | 0x74 | 0x75 | 0x76 | 0x77 | 0x78 | 0x79 | 0x7A | 0x7B | 0x7C | 0x7D | 0x7E | 0x7F => {
            let (t, x) = s.fetch8();
            (t, Opcode::JccShort(b, x as i8))
        },
        0xA0 => {
            let (t, x) = s.fetch16();
            (t, Opcode::MovAccMoff8(x))
        },
        0xA1 => {
            let (t, x) = s.fetch16();
            (t, Opcode::MovAccMoff16(x))
        },
        0xA2 => {
            let (t, x) = s.fetch16();
            (t, Opcode::MovMoff8Acc(x))
        },
        0xA3 => {
            let (t, x) = s.fetch16();
            (t, Opcode::MovMoff16Acc(x))
        },
        0xA4 => (s, Opcode::Movsb),
        0xA5 => (s, Opcode::Movsw),
        0xA6 => (s, Opcode::Cmpsb),
        0xA7 => (s, Opcode::Cmpsw),
        0xAA => (s, Opcode::Stosb),
        0xAB => (s, Opcode::Stosw),
        0xAC => (s, Opcode::Lodsb),
        0xE4 => {
            let (t, x) = s.fetch8();
            (t, Opcode::InAlImm8(x))
        },
        0xE5 => {
            let (t, x) = s.fetch8();
            (t, Opcode::InAxImm8(x))
        },
        0xE6 => {
            let (t, x) = s.fetch8();
            (t, Opcode::OutImm8Al(x))
        },
        0xE7 => {
            let (t, x) = s.fetch8();
            (t, Opcode::OutImm8Ax(x))
        },
        0xEC => (s, Opcode::InAlDx),
        0xED => (s, Opcode::InAxDx),
        0xEE => (s, Opcode::OutDxAl),
        0xEF => (s, Opcode::OutDxAx),
        0x00 => {
            let (t, x) = s.fetch8();
            (t, Opcode::AddRm8Reg8(x))
        },
        0x01 => {
            let (t, x) = s.fetch8();
            (t, Opcode::AddRm16Reg16(x))
        },
        0x02 => {
            let (t, x) = s.fetch8();
            (t, Opcode::AddReg8Rm8(x))
        },
        0x03 => {
            let (t, x) = s.fetch8();
            (t, Opcode::AddReg16Rm16(x))
        },
        0x04 => {
            let (t, x) = s.fetch8();
            (t, Opcode::AddAccImm8(x))
        },
        0x05 => {
            let (t, x) = s.fetch16();
            (t, Opcode::AddAccImm16(x))
        },
        0x08 => {
            let (t, x) = s.fetch8();
            (t, Opcode::OrRm8Reg8(x))
        },
        0x09 => {
            let (t, x) = s.fetch8();
            (t, Opcode::OrRm16Reg16(x))
        },
        0x0A => {
            let (t, x) = s.fetch8();
            (t, Opcode::OrReg8Rm8(x))
        },
        0x0B => {
            let (t, x) = s.fetch8();
            (t, Opcode::OrReg16Rm16(x))
        },
        0x0C => {
            let (t, x) = s.fetch8();
            (t, Opcode::OrAccImm8(x))
        },
        0x0D => {
            let (t, x) = s.fetch16();
            (t, Opcode::OrAccImm16(x))
        },
        0x10 => {
            let (t, x) = s.fetch8();
            (t, Opcode::AdcRm8Reg8(x))
        },
        0x11 => {
            let (t, x) = s.fetch8();
            (t, Opcode::AdcRm16Reg16(x))
        },
        0x12 => {
            let (t, x) = s.fetch8();
            (t, Opcode::AdcReg8Rm8(x))
        },
        0x13 => {
            let (t, x) = s.fetch8();
            (t, Opcode::AdcReg16Rm16(x))
        },
        0x14 => {
            let (t, x) = s.fetch8();
            (t, Opcode::AdcAccImm8(x))
        },
        0x15 => {
            let (t, x) = s.fetch16();
            (t, Opcode::AdcAccImm16(x))
        },
        0x18 => {
            let (t, x) = s.fetch8();
            (t, Opcode::SbbRm8Reg8(x))
        },
        0x19 => {
            let (t, x) = s.fetch8();
            (t, Opcode::SbbRm16Reg16(x))
        },
        0x1A => {
            let (t, x) = s.fetch8();
            (t, Opcode::SbbReg8Rm8(x))
        },
        0x1B => {
            let (t, x) = s.fetch8();
            (t, Opcode::SbbReg16Rm16(x))
        },
        0x1C => {
            let (t, x) = s.fetch8();
            (t, Opcode::SbbAccImm8(x))
        },
        0x1D => {
            let (t, x) = s.fetch16();
            (t, Opcode::SbbAccImm16(x))
        },
        0x20 => {
            let (t, x) = s.fetch8();
            (t, Opcode::AndRm8Reg8(x))
        },
        0x21 => {
            let (t, x) = s.fetch8();
            (t, Opcode::AndRm16Reg16(x))
        },
        0x22 => {
            let (t, x) = s.fetch8();
            (t, Opcode::AndReg8Rm8(x))
        },
        0x23 => {
            let (t, x) = s.fetch8();
            (t, Opcode::AndReg16Rm16(x))
        },
        0x24 => {
            let (t, x) = s.fetch8();
            (t, Opcode::AndAccImm8(x))
        },
        0x25 => {
            let (t, x) = s.fetch16();
            (t, Opcode::AndAccImm16(x))
        },
        0x28 => {
            let (t, x) = s.fetch8();
            (t, Opcode::SubRm8Reg8(x))
        },
        0x29 => {
            let (t, x) = s.fetch8();
            (t, Opcode::SubRm16Reg16(x))
        },
        0x2A => {
            let (t, x) = s.fetch8();
            (t, Opcode::SubReg8Rm8(x))
        },
        0x2B => {
            let (t, x) = s.fetch8();
            (t, Opcode::SubReg16Rm16(x))
        },
        0x2C => {
            let (t, x) = s.fetch8();
            (t, Opcode::SubAccImm8(x))
        },
        0x2D => {
            let (t, x) = s.fetch16();
            (t, Opcode::SubAccImm16(x))
        },
        0x34 => {
            let (t, x) = s.fetch8();
            (t, Opcode::XorAccImm8(x))
        },
        0x35 => {
            let (t, x) = s.fetch16();
            (t, Opcode::XorAccImm16(x))
        },
        0x38 => {
            let (t, x) = s.fetch8();
            (t, Opcode::CmpRm8Reg8(x))
        },
        0x39 => {
            let (t, x) = s.fetch8();
            (t, Opcode::CmpRm16Reg16(x))
        },
        0x3A => {
            let (t, x) = s.fetch8();
            (t, Opcode::CmpReg8Rm8(x))
        },
        0x3B => {
            let (t, x) = s.fetch8();
            (t, Opcode::CmpReg16Rm16(x))
        },
        0x3C => {
            let (t, x) = s.fetch8();
            (t, Opcode::CmpAccImm8(x))
        },
        0x3D => {
            let (t, x) = s.fetch16();
            (t, Opcode::CmpAccImm16(x))
        },
        0x80 | 0x81 | 0x83 => {
            let (t, x) = s.fetch8();
            (t, Opcode::Grp1(b, x))
        },
        0xC0 | 0xC1 => {
            let (t1, modrm) = s.fetch8();
            let (t2, count) = t1.fetch8();
            (t2, Opcode::Grp2Imm8(b, modrm, count))
        },
        0xD0 | 0xD1 | 0xD2 | 0xD3 => {
            let (t, x) = s.fetch8();
            (t, Opcode::Grp2(b, x))
        },
        0xF6 | 0xF7 => {
            let (t, x) = s.fetch8();
            (t, Opcode::Grp3(b, x))
        },
        0x9C => (s, Opcode::Pushf),
        0x9D => (s, Opcode::Popf),
        0x9E => (s, Opcode::Sahf),
        0x9F => (s, Opcode::Lahf),
        0x84 => {
            let (t, x) = s.fetch8();
            (t, Opcode::TestRm8Reg8(x))
        },
        0x85 => {
            let (t, x) = s.fetch8();
            (t, Opcode::TestRm16Reg16(x))
        },
        _ => (s, Opcode::Unknown(b)),
    }
}

/// Decoding with at most `fuel` prefix bytes: `None` when more prefixes follow.
/// A segment prefix records its segment as the override; `F3` (REP) wraps the
/// instruction that follows.
pub open spec fn decode_run(s: Machine, fuel: nat) -> Option<(Machine, Opcode)>
    decreases fuel,
{
    let (s1, b) = s.fetch8();
    if is_segment_prefix(b) {
        if fuel == 0 {
            None
        } else {
            decode_run(Machine { seg_override: Some(prefix_segment(s1, b)), ..s1 }, (fuel - 1) as nat)
        }
    } else if b == 0xF3 {
        if fuel == 0 {
            None
        } else {
            match decode_run(s1, (fuel - 1) as nat) {
                Some((s2, op)) => Some((s2, Opcode::Rep(Box::new(op)))),
                None => None,
            }
        }
    } else {
        Some(decode_base(b, s1))
    }
}

/// Whether decoding at `cs:ip` ends: it runs forever only on an endless run of prefixes.
pub open spec fn decodes(s: Machine) -> bool {
    exists|fuel: nat| decode_run(s, fuel) is Some
}

/// The machine after decoding the instruction at `cs:ip`, and the instruction.
pub open spec fn decoding(s: Machine) -> (Machine, Opcode) {
    decode_run(s, choose|fuel: nat| decode_run(s, fuel) is Some)->0
}

/// Decodes the instruction whose opcode byte `opcode` was just fetched.
fn decode_opcode(cpu: &mut Cpu, opcode: u8) -> (op: Opcode)
    requires
        !is_segment_prefix(opcode),
        opcode != 0xF3,
    ensures
        final(cpu)@ == decode_base(opcode, old(cpu)@).0,
        op == decode_base(opcode, old(cpu)@).1,
{
    proof {
        reveal(decode_base);
    }
    match opcode {
            0x90 => Opcode::Nop,
            0xF4 => Opcode::Hlt,
            0xFA => Opcode::Cli,
            0xFB => Opcode::Sti,
            0xFC => Opcode::Cld,
            0xFD => Opcode::Std,
            0xF8 => Opcode::Clc,
            0xF9 => Opcode::Stc,
            0xF5 => Opcode::Cmc,
            0x98 => Opcode::Cbw,
            0x99 => Opcode::Cwd,
            0xE8 => {
                let rel = cpu.fetch_u16() as i16;
                Opcode::CallNear(rel)
            },
            0xC3 => Opcode::Ret,
            0xCA => Opcode::RetFarImm(cpu.fetch_u16()),
            0x91 | 0x92 | 0x93 | 0x94 | 0x95 | 0x96 | 0x97 => Opcode::XchgAxReg(opcode - 0x90),
            0xE9 => {
                let rel = cpu.fetch_u16() as i16;
                Opcode::JmpRel16(rel)
            },
            0xEA => {
                let ip = cpu.fetch_u16();
                let cs = cpu.fetch_u16();
                Opcode::JmpFar(ip, cs)
            },
            0xEB => {
                let rel = cpu.fetch_u8() as i8;
                Opcode::JmpShort(rel)
            },
            0x30 => Opcode::XorRm8Reg8(cpu.fetch_u8()),
            0x31 => Opcode::XorRm16Reg16(cpu.fetch_u8()),
            0x32 => Opcode::XorReg8Rm8(cpu.fetch_u8()),
            0x33 => Opcode::XorReg16Rm16(cpu.fetch_u8()),
            0xC4 => Opcode::Les(cpu.fetch_u8()),
            0xC5 => Opcode::Lds(cpu.fetch_u8()),
            0x8D => Opcode::Lea(cpu.fetch_u8()),
            0x40 | 0x41 | 0x42 | 0x43 | 0x44 | 0x45 | 0x46 | 0x47 => Opcode::IncReg16(opcode - 0x40),
            0x48 | 0x49 | 0x4A | 0x4B | 0x4C | 0x4D | 0x4E | 0x4F => Opcode::DecReg16(opcode - 0x48),
            0x50 | 0x51 | 0x52 | 0x53 | 0x54 | 0x55 | 0x56 | 0x57 => Opcode::PushReg16(opcode - 0x50),
            0x58 | 0x59 | 0x5A | 0x5B | 0x5C | 0x5D | 0x5E | 0x5F => Opcode::PopReg16(opcode - 0x58),
            0x06 | 0x0E | 0x16 | 0x1E => Opcode::PushSreg(opcode),
            0x07 | 0x17 | 0x1F => Opcode::PopSreg(opcode),
            0x8E => Opcode::MovSregRm(cpu.fetch_u8()),
            0x8C => Opcode::MovRmSreg(cpu.fetch_u8()),
            0x8F => Opcode::PopRm16(cpu.fetch_u8()),
            0x88 => Opcode::MovRmReg8(cpu.fetch_u8()),
            0x89 => Opcode::MovRmReg16(cpu.fetch_u8()),
            0x8A => Opcode::MovReg8Rm8(cpu.fetch_u8()),
            0x8B => Opcode::MovReg16Rm16(cpu.fetch_u8()),
            0x86 => Opcode::XchgRegRm8(cpu.fetch_u8()),
            0x87 => Opcode::XchgRegRm16(cpu.fetch_u8()),
            0xB0 | 0xB1 | 0xB2 | 0xB3 | 0xB4 | 0xB5 | 0xB6 | 0xB7 => {
                let val = cpu.fetch_u8();
                Opcode::MovReg8Imm8(opcode - 0xB0, val)
            },
            0xB8 | 0xB9 | 0xBA | 0xBB | 0xBC | 0xBD | 0xBE | 0xBF => {
                let val = cpu.fetch_u16();
                Opcode::MovReg16Imm16(opcode - 0xB8, val)
            },
            0xC6 => {
                let modrm = cpu.fetch_u8();
                let val = cpu.fetch_u8();
                Opcode::MovRm8Imm8(modrm, val)
            },
            0xC7 => {
                let modrm = cpu.fetch_u8();
                let val = cpu.fetch_u16();
                Opcode::MovRm16Imm16(modrm, val)
            },
            0xCD => Opcode::Int(cpu.fetch_u8()),
            0xC8 => {
                let size = cpu.fetch_u16();
                let level = cpu.fetch_u8();
                Opcode::Enter(size, level)
            },
            0xC9 => Opcode::Leave,
            0xE0 => Opcode::Loopne(cpu.fetch_u8() as i8),
            0xE1 => Opcode::Loope(cpu.fetch_u8() as i8),
            0xE3 => Opcode::JcxzShort(cpu.fetch_u8() as i8),
            0xE2 => Opcode::Loop(cpu.fetch_u8() as i8),
            0x70 | 0x71 | 0x72 | 0x73 | 0x74 | 0x75 | 0x76 | 0x77 | 0x78 | 0x79 | 0x7A | 0x7B | 0x7C | 0x7D | 0x7E | 0x7F => {
                let rel = cpu.fetch_u8() as i8;
                Opcode::JccShort(opcode, rel)
            },
            0xA0 => Opcode::MovAccMoff8(cpu.fetch_u16()),
            0xA1 => Opcode::MovAccMoff16(cpu.fetch_u16()),
            0xA2 => Opcode::MovMoff8Acc(cpu.fetch_u16()),
            0xA3 => Opcode::MovMoff16Acc(cpu.fetch_u16()),
            0xA4 => Opcode::Movsb,
            0xA5 => Opcode::Movsw,
            0xA6 => Opcode::Cmpsb,
            0xA7 => Opcode::Cmpsw,
            0xAA => Opcode::Stosb,
            0xAB => Opcode::Stosw,
            0xAC => Opcode::Lodsb,
            0xE4 => Opcode::InAlImm8(cpu.fetch_u8()),
            0xE5 => Opcode::InAxImm8(cpu.fetch_u8()),
            0xE6 => Opcode::OutImm8Al(cpu.fetch_u8()),
            0xE7 => Opcode::OutImm8Ax(cpu.fetch_u8()),
            0xEC => Opcode::InAlDx,
            0xED => Opcode::InAxDx,
            0xEE => Opcode::OutDxAl,
            0xEF => Opcode::OutDxAx,
            0x00 => Opcode::AddRm8Reg8(cpu.fetch_u8()),
            0x01 => Opcode::AddRm16Reg16(cpu.fetch_u8()),
            0x02 => Opcode::AddReg8Rm8(cpu.fetch_u8()),
            0x03 => Opcode::AddReg16Rm16(cpu.fetch_u8()),
            0x04 => Opcode::AddAccImm8(cpu.fetch_u8()),
            0x05 => Opcode::AddAccImm16(cpu.fetch_u16()),
            0x08 => Opcode::OrRm8Reg8(cpu.fetch_u8()),
            0x09 => Opcode::OrRm16Reg16(cpu.fetch_u8()),
            0x0A => Opcode::OrReg8Rm8(cpu.fetch_u8()),
            0x0B => Opcode::OrReg16Rm16(cpu.fetch_u8()),
            0x0C => Opcode::OrAccImm8(cpu.fetch_u8()),
            0x0D => Opcode::OrAccImm16(cpu.fetch_u16()),
            0x10 => Opcode::AdcRm8Reg8(cpu.fetch_u8()),
            0x11 => Opcode::AdcRm16Reg16(cpu.fetch_u8()),
            0x12 => Opcode::AdcReg8Rm8(cpu.fetch_u8()),
            0x13 => Opcode::AdcReg16Rm16(cpu.fetch_u8()),
            0x14 => Opcode::AdcAccImm8(cpu.fetch_u8()),
            0x15 => Opcode::AdcAccImm16(cpu.fetch_u16()),
            0x18 => Opcode::SbbRm8Reg8(cpu.fetch_u8()),
            0x19 => Opcode::SbbRm16Reg16(cpu.fetch_u8()),
            0x1A => Opcode::SbbReg8Rm8(cpu.fetch_u8()),
            0x1B => Opcode::SbbReg16Rm16(cpu.fetch_u8()),
            0x1C => Opcode::SbbAccImm8(cpu.fetch_u8()),
            0x1D => Opcode::SbbAccImm16(cpu.fetch_u16()),
            0x20 => Opcode::AndRm8Reg8(cpu.fetch_u8()),
            0x21 => Opcode::AndRm16Reg16(cpu.fetch_u8()),
            0x22 => Opcode::AndReg8Rm8(cpu.fetch_u8()),
            0x23 => Opcode::AndReg16Rm16(cpu.fetch_u8()),
            0x24 => Opcode::AndAccImm8(cpu.fetch_u8()),
            0x25 => Opcode::AndAccImm16(cpu.fetch_u16()),
            0x28 => Opcode::SubRm8Reg8(cpu.fetch_u8()),
            0x29 => Opcode::SubRm16Reg16(cpu.fetch_u8()),
            0x2A => Opcode::SubReg8Rm8(cpu.fetch_u8()),
            0x2B => Opcode::SubReg16Rm16(cpu.fetch_u8()),
            0x2C => Opcode::SubAccImm8(cpu.fetch_u8()),
            0x2D => Opcode::SubAccImm16(cpu.fetch_u16()),
            0x34 => Opcode::XorAccImm8(cpu.fetch_u8()),
            0x35 => Opcode::XorAccImm16(cpu.fetch_u16()),
            0x38 => Opcode::CmpRm8Reg8(cpu.fetch_u8()),
            0x39 => Opcode::CmpRm16Reg16(cpu.fetch_u8()),
            0x3A => Opcode::CmpReg8Rm8(cpu.fetch_u8()),
            0x3B => Opcode::CmpReg16Rm16(cpu.fetch_u8()),
            0x3C => Opcode::CmpAccImm8(cpu.fetch_u8()),
            0x3D => Opcode::CmpAccImm16(cpu.fetch_u16()),
            0x80 | 0x81 | 0x83 => Opcode::Grp1(opcode, cpu.fetch_u8()),
            0xC0 | 0xC1 => {
                let modrm = cpu.fetch_u8();
                let count = cpu.fetch_u8();
                Opcode::Grp2Imm8(opcode, modrm, count)
            },
            0xD0 | 0xD1 | 0xD2 | 0xD3 => Opcode::Grp2(opcode, cpu.fetch_u8()),
            0xF6 | 0xF7 => Opcode::Grp3(opcode, cpu.fetch_u8()),
            0x9C => Opcode::Pushf,
            0x9D => Opcode::Popf,
            0x9E => Opcode::Sahf,
            0x9F => Opcode::Lahf,
            0x84 => Opcode::TestRm8Reg8(cpu.fetch_u8()),
            0x85 => Opcode::TestRm16Reg16(cpu.fetch_u8()),
            _ => Opcode::Unknown(opcode),
    }
}

/// Decodes with a bound `fuel` on the number of prefix bytes.
fn decode_fuel(cpu: &mut Cpu, Ghost(fuel): Ghost<nat>) -> (op: Opcode)
    requires
        decode_run(old(cpu)@, fuel) is Some,
    ensures
        decode_run(old(cpu)@, fuel) == Some((final(cpu)@, op)),
    decreases fuel,
{
    let opcode = cpu.fetch_u8();
    match opcode {
        0x26 => {
            cpu.seg_override = Some(cpu.regs.es);
            decode_fuel(cpu, Ghost((fuel - 1) as nat))
        },
        0x2E => {
            cpu.seg_override = Some(cpu.regs.cs);
            decode_fuel(cpu, Ghost((fuel - 1) as nat))
        },
        0x36 => {
            cpu.seg_override = Some(cpu.regs.ss);
            decode_fuel(cpu, Ghost((fuel - 1) as nat))
        },
        0x3E => {
            cpu.seg_override = Some(cpu.regs.ds);
            decode_fuel(cpu, Ghost((fuel - 1) as nat))
        },
        0xF3 => Opcode::Rep(Box::new(decode_fuel(cpu, Ghost((fuel - 1) as nat)))),
        _ => decode_opcode(cpu, opcode),
    }
}

/// Decodes the instruction at `cs:ip`: fetches its bytes (advancing `ip`), records
/// segment-override prefixes in `cpu.seg_override`, and wraps the instruction after a
/// REP prefix.
pub fn decode(cpu: &mut Cpu) -> (op: Opcode)
    requires
        decodes(old(cpu)@),
    ensures
        final(cpu)@ == decoding(old(cpu)@).0,
        op == decoding(old(cpu)@).1,
{
    let ghost fuel = choose|fuel: nat| decode_run(cpu@, fuel) is Some;
    decode_fuel(cpu, Ghost(fuel))
}

/// Decodes with at most `budget` prefix bytes. Gives `None` when more prefixes follow;
/// then only IP and the segment override have moved.
pub fn decode_budget(cpu: &mut Cpu, budget: u64) -> (r: Option<Opcode>)
    ensures
        match decode_run(old(cpu)@, budget as nat) {
            Some((t, op)) => r == Some(op) && final(cpu)@ == t,
            None => {
                &&& r is None
                &&& final(cpu)@.mem == old(cpu)@.mem
                &&& final(cpu)@.disk == old(cpu)@.disk
                &&& final(cpu)@.console == old(cpu)@.console
                &&& final(cpu)@.regs == old(cpu)@.regs.with_ip(final(cpu)@.regs.ip)
            },
        },
    decreases budget,
{
    let opcode = cpu.fetch_u8();
    if opcode == 0x26 || opcode == 0x2E || opcode == 0x36 || opcode == 0x3E {
        if budget == 0 {
            return None;
        }
        let seg = match opcode {
            0x26 => cpu.regs.es,
            0x2E => cpu.regs.cs,
            0x36 => cpu.regs.ss,
            _ => cpu.regs.ds,
        };
        cpu.seg_override = Some(seg);
        decode_budget(cpu, budget - 1)
    } else if opcode == 0xF3 {
        if budget == 0 {
            return None;
        }
        match decode_budget(cpu, budget - 1) {
            Some(op) => Some(Opcode::Rep(Box::new(op))),
            None => None,
        }
    } else {
        Some(decode_opcode(cpu, opcode))
    }
}

} // verus!
