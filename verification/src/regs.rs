use vstd::prelude::*;

verus! {

/// Carry flag (bit 0 of FLAGS).
pub const FLAG_CF: u16 = 0x0001;
/// Parity flag (bit 2).
pub const FLAG_PF: u16 = 0x0004;
/// Zero flag (bit 6).
pub const FLAG_ZF: u16 = 0x0040;
/// Sign flag (bit 7).
pub const FLAG_SF: u16 = 0x0080;
/// Interrupt-enable flag (bit 9).
pub const FLAG_IF: u16 = 0x0200;
/// Direction flag (bit 10).
pub const FLAG_DF: u16 = 0x0400;
/// Overflow flag (bit 11).
pub const FLAG_OF: u16 = 0x0800;

/// The register file of a real-mode 8086.
#[derive(Clone, Copy, Debug, PartialEq, Eq, Structural)]
pub struct Registers {
    pub ax: u16,
    pub bx: u16,
    pub cx: u16,
    pub dx: u16,
    pub si: u16,
    pub di: u16,
    pub sp: u16,
    pub bp: u16,
    pub cs: u16,
    pub ds: u16,
    pub es: u16,
    pub ss: u16,
    pub ip: u16,
    pub flags: u16,
}

/// Sets (`on`) or clears the bits of `mask` in `flags`.
pub open spec fn set_flag(flags: u16, mask: u16, on: bool) -> u16 {
    if on {
        flags | mask
    } else {
        flags & !mask
    }
}

/// ZF and SF after an 8-bit result `val`: ZF iff `val == 0`, SF iff bit 7 of `val`.
pub open spec fn isz8(flags: u16, val: u8) -> u16 {
    set_flag(set_flag(flags, FLAG_ZF, val == 0), FLAG_SF, val & 0x80 != 0)
}

/// ZF and SF after a 16-bit result `val`: ZF iff `val == 0`, SF iff bit 15 of `val`.
pub open spec fn isz16(flags: u16, val: u16) -> u16 {
    set_flag(set_flag(flags, FLAG_ZF, val == 0), FLAG_SF, val & 0x8000 != 0)
}

/// Whether the bits of `mask` are set in `flags`.
pub open spec fn flag_on(flags: u16, mask: u16) -> bool {
    flags & mask != 0
}

/// The register file with every register zero.
pub open spec fn zero_registers() -> Registers {
    Registers {
        ax: 0,
        bx: 0,
        cx: 0,
        dx: 0,
        si: 0,
        di: 0,
        sp: 0,
        bp: 0,
        cs: 0,
        ds: 0,
        es: 0,
        ss: 0,
        ip: 0,
        flags: 0,
    }
}

impl Registers {
    /// The 16-bit register with encoding `reg` (AX, CX, DX, BX, SP, BP, SI, DI); 0 for others.
    pub open spec fn reg16(self, reg: u8) -> u16 {
        if reg == 0 {
            self.ax
        } else if reg == 1 {
            self.cx
        } else if reg == 2 {
            self.dx
        } else if reg == 3 {
            self.bx
        } else if reg == 4 {
            self.sp
        } else if reg == 5 {
            self.bp
        } else if reg == 6 {
            self.si
        } else if reg == 7 {
            self.di
        } else {
            0
        }
    }

    /// The register file with the 16-bit register `reg` set to `val`; unchanged for `reg > 7`.
    pub open spec fn with_reg16(self, reg: u8, val: u16) -> Registers {
        if reg == 0 {
            Registers { ax: val, ..self }
        } else if reg == 1 {
            Registers { cx: val, ..self }
        } else if reg == 2 {
            Registers { dx: val, ..self }
        } else if reg == 3 {
            Registers { bx: val, ..self }
        } else if reg == 4 {
            Registers { sp: val, ..self }
        } else if reg == 5 {
            Registers { bp: val, ..self }
        } else if reg == 6 {
            Registers { si: val, ..self }
        } else if reg == 7 {
            Registers { di: val, ..self }
        } else {
            self
        }
    }

    /// The 8-bit register with encoding `reg` (AL, CL, DL, BL, AH, CH, DH, BH); 0 for others.
    pub open spec fn reg8(self, reg: u8) -> u8 {
        if reg < 4 {
            (self.reg16(reg) % 256) as u8
        } else if reg < 8 {
            (self.reg16((reg - 4) as u8) / 256) as u8
        } else {
            0
        }
    }

    /// The register file with the 8-bit register `reg` set to `val`; unchanged for `reg > 7`.
    pub open spec fn with_reg8(self, reg: u8, val: u8) -> Registers {
        if reg < 4 {
            let w = self.reg16(reg);
            self.with_reg16(reg, (w - w % 256 + val) as u16)
        } else if reg < 8 {
            let r = (reg - 4) as u8;
            let w = self.reg16(r);
            self.with_reg16(r, (w % 256 + 256 * val) as u16)
        } else {
            self
        }
    }

    pub open spec fn with_flags(self, flags: u16) -> Registers {
        Registers { flags, ..self }
    }

    pub open spec fn with_ip(self, ip: u16) -> Registers {
        Registers { ip, ..self }
    }
}

impl Default for Registers {
    fn default() -> (r: Self)
        ensures
            r == zero_registers(),
    {
        Registers {
            ax: 0,
            bx: 0,
            cx: 0,
            dx: 0,
            si: 0,
            di: 0,
            sp: 0,
            bp: 0,
            cs: 0,
            ds: 0,
            es: 0,
            ss: 0,
            ip: 0,
            flags: 0,
        }
    }
}

} // verus!
