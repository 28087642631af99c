use vstd::prelude::*;

verus! {

/// A decoded 8086 instruction. Operands that are read while executing (immediates of
/// the group instructions, displacements of ModR/M operands) are fetched then.
#[derive(Debug, PartialEq, Eq)]
pub enum Opcode {
    Nop,
    Hlt,
    Cli,
    Sti,
    Cld,
    Std,
    Clc,
    Stc,
    Cmc,
    Cbw,
    Cwd,
    CallNear(i16),
    Ret,
    RetFarImm(u16),
    XchgAxReg(u8),
    JmpRel16(i16),
    JmpFar(u16, u16),
    JmpShort(i8),
    XorRm8Reg8(u8),
    XorRm16Reg16(u8),
    XorReg8Rm8(u8),
    XorReg16Rm16(u8),
    Les(u8),
    Lds(u8),
    Lea(u8),
    IncReg16(u8),
    DecReg16(u8),
    PushReg16(u8),
    PopReg16(u8),
    PushSreg(u8),
    PopSreg(u8),
    MovSregRm(u8),
    MovRmSreg(u8),
    PopRm16(u8),
    MovRmReg8(u8),
    MovRmReg16(u8),
    MovReg8Rm8(u8),
    MovReg16Rm16(u8),
    XchgRegRm8(u8),
    XchgRegRm16(u8),
    MovReg8Imm8(u8, u8),
    MovReg16Imm16(u8, u16),
    MovRm8Imm8(u8, u8),
    MovRm16Imm16(u8, u16),
    Int(u8),
    Enter(u16, u8),
    Leave,
    Loopne(i8),
    Loope(i8),
    JcxzShort(i8),
    Loop(i8),
    JccShort(u8, i8),
    Rep(Box<Opcode>),
    MovAccMoff8(u16),
    MovAccMoff16(u16),
    MovMoff8Acc(u16),
    MovMoff16Acc(u16),
    Movsb,
    Movsw,
    Cmpsb,
    Cmpsw,
    Stosb,
    Stosw,
    Lodsb,
    InAlImm8(u8),
    InAxImm8(u8),
    OutImm8Al(u8),
    OutImm8Ax(u8),
    InAlDx,
    InAxDx,
    OutDxAl,
    OutDxAx,
    AddRm8Reg8(u8),
    AddRm16Reg16(u8),
    AddReg8Rm8(u8),
    AddReg16Rm16(u8),
    AddAccImm8(u8),
    AddAccImm16(u16),
    OrRm8Reg8(u8),
    OrRm16Reg16(u8),
    OrReg8Rm8(u8),
    OrReg16Rm16(u8),
    OrAccImm8(u8),
    OrAccImm16(u16),
    AdcRm8Reg8(u8),
    AdcRm16Reg16(u8),
    AdcReg8Rm8(u8),
    AdcReg16Rm16(u8),
    AdcAccImm8(u8),
    AdcAccImm16(u16),
    SbbRm8Reg8(u8),
    SbbRm16Reg16(u8),
    SbbReg8Rm8(u8),
    SbbReg16Rm16(u8),
    SbbAccImm8(u8),
    SbbAccImm16(u16),
    AndRm8Reg8(u8),
    AndRm16Reg16(u8),
    AndReg8Rm8(u8),
    AndReg16Rm16(u8),
    AndAccImm8(u8),
    AndAccImm16(u16),
    SubRm8Reg8(u8),
    SubRm16Reg16(u8),
    SubReg8Rm8(u8),
    SubReg16Rm16(u8),
    SubAccImm8(u8),
    SubAccImm16(u16),
    XorAccImm8(u8),
    XorAccImm16(u16),
    CmpRm8Reg8(u8),
    CmpRm16Reg16(u8),
    CmpReg8Rm8(u8),
    CmpReg16Rm16(u8),
    CmpAccImm8(u8),
    CmpAccImm16(u16),
    Grp1(u8, u8),
    Grp2Imm8(u8, u8, u8),
    Grp2(u8, u8),
    Grp3(u8, u8),
    Pushf,
    Popf,
    Sahf,
    Lahf,
    TestRm8Reg8(u8),
    TestRm16Reg16(u8),
    Unknown(u8),
}

} // verus!
