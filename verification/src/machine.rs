use vstd::prelude::*;
use crate::memory::{byte_at, word_at, store_byte, store_word};
use crate::regs::{Registers, isz8, isz16};

verus! {

/// What the emulated machine hands to the console.
#[derive(Clone, Copy, Debug, PartialEq, Eq, Structural)]
pub enum ConsoleOutput {
    /// A byte to be shown as the character with that code.
    Char(u8),
    /// Execution met an opcode it does not know, at `cs:ip`.
    UnknownOpcode { opcode: u8, cs: u16, ip: u16 },
}

/// The mathematical state of the emulated machine.
pub struct Machine {
    pub regs: Registers,
    pub mem: Seq<u8>,
    pub disk: Seq<u8>,
    pub seg_override: Option<u16>,
    pub console: Seq<ConsoleOutput>,
}

/// The physical address of `seg:off` in real mode.
pub open spec fn linear(seg: u16, off: u16) -> int {
    seg as int * 16 + off as int
}

/// The `reg` field (bits 3..5) of a ModR/M byte.
pub open spec fn modrm_reg(modrm: u8) -> u8 {
    (modrm / 8) % 8
}

/// The `rm` field (bits 0..2) of a ModR/M byte.
pub open spec fn modrm_rm(modrm: u8) -> u8 {
    modrm % 8
}

/// The `mod` field (bits 6..7) of a ModR/M byte.
pub open spec fn modrm_mode(modrm: u8) -> u8 {
    modrm / 64
}

/// Whether a ModR/M byte names a register operand (`mod == 3`).
pub open spec fn modrm_is_reg(modrm: u8) -> bool {
    modrm_mode(modrm) == 3
}

/// A byte read as a signed displacement, widened to 16 bits.
pub open spec fn sign_extend8(b: u8) -> u16 {
    if b < 128 {
        b as u16
    } else {
        (b as int + 0xFF00) as u16
    }
}

impl Machine {
    pub open spec fn with_regs(self, regs: Registers) -> Machine {
        Machine { regs, ..self }
    }

    pub open spec fn with_mem(self, mem: Seq<u8>) -> Machine {
        Machine { mem, ..self }
    }

    pub open spec fn with_flags(self, flags: u16) -> Machine {
        self.with_regs(self.regs.with_flags(flags))
    }

    pub open spec fn with_ip(self, ip: u16) -> Machine {
        self.with_regs(self.regs.with_ip(ip))
    }

    pub open spec fn emit(self, out: ConsoleOutput) -> Machine {
        Machine { console: self.console.push(out), ..self }
    }

    /// Reads the byte at `cs:ip` and advances `ip` by one (wrapping).
    pub open spec fn fetch8(self) -> (Machine, u8) {
        let b = byte_at(self.mem, linear(self.regs.cs, self.regs.ip));
        (self.with_ip(self.regs.ip.wrapping_add(1)), b)
    }

    /// Reads the little-endian word at `cs:ip`, byte by byte, advancing `ip` by two.
    pub open spec fn fetch16(self) -> (Machine, u16) {
        let (s1, lo) = self.fetch8();
        let (s2, hi) = s1.fetch8();
        (s2, (lo as int + 256 * hi as int) as u16)
    }

    /// The effective offset and default segment of a ModR/M operand, fetching the
    /// displacement that follows the ModR/M byte.
    #[verifier::opaque]
    pub open spec fn offset(self, modrm: u8) -> (Machine, u16, u16) {
        let mode = modrm_mode(modrm);
        let rm = modrm_rm(modrm);
        if rm == 6 && mode == 0 {
            let (s1, off) = self.fetch16();
            (s1, off, s1.regs.ds)
        } else {
            let (s1, disp) = if mode == 1 {
                let (t, b) = self.fetch8();
                (t, sign_extend8(b))
            } else if mode == 2 {
                self.fetch16()
            } else {
                (self, 0u16)
            };
            let r = s1.regs;
            let base: u16 = if rm == 0 {
                r.bx.wrapping_add(r.si)
            } else if rm == 1 {
                r.bx.wrapping_add(r.di)
            } else if rm == 2 {
                r.bp.wrapping_add(r.si)
            } else if rm == 3 {
                r.bp.wrapping_add(r.di)
            } else if rm == 4 {
                r.si
            } else if rm == 5 {
                r.di
            } else if rm == 6 {
                r.bp
            } else {
                r.bx
            };
            let seg = if rm == 2 || rm == 3 || rm == 6 {
                r.ss
            } else {
                r.ds
            };
            (s1, base.wrapping_add(disp), seg)
        }
    }

    /// The segment to use: the override prefix when one is active, else `default`.
    pub open spec fn seg_or(self, default: u16) -> u16 {
        match self.seg_override {
            Some(s) => s,
            None => default,
        }
    }

    /// The physical address of a ModR/M memory operand.
    #[verifier::opaque]
    pub open spec fn ea(self, modrm: u8) -> (Machine, int) {
        let (s1, off, seg) = self.offset(modrm);
        (s1, linear(s1.seg_or(seg), off))
    }

    #[verifier::opaque]
    pub open spec fn get_rm8(self, modrm: u8) -> (Machine, u8) {
        if modrm_is_reg(modrm) {
            (self, self.regs.reg8(modrm_rm(modrm)))
        } else {
            let (s1, addr) = self.ea(modrm);
            (s1, byte_at(s1.mem, addr))
        }
    }

    #[verifier::opaque]
    pub open spec fn get_rm16(self, modrm: u8) -> (Machine, u16) {
        if modrm_is_reg(modrm) {
            (self, self.regs.reg16(modrm_rm(modrm)))
        } else {
            let (s1, addr) = self.ea(modrm);
            (s1, word_at(s1.mem, addr))
        }
    }

    #[verifier::opaque]
    pub open spec fn set_rm8(self, modrm: u8, val: u8) -> Machine {
        if modrm_is_reg(modrm) {
            self.with_regs(self.regs.with_reg8(modrm_rm(modrm), val))
        } else {
            let (s1, addr) = self.ea(modrm);
            s1.with_mem(store_byte(s1.mem, addr, val))
        }
    }

    #[verifier::opaque]
    pub open spec fn set_rm16(self, modrm: u8, val: u16) -> Machine {
        if modrm_is_reg(modrm) {
            self.with_regs(self.regs.with_reg16(modrm_rm(modrm), val))
        } else {
            let (s1, addr) = self.ea(modrm);
            s1.with_mem(store_word(s1.mem, addr, val))
        }
    }

    pub open spec fn set_reg8(self, reg: u8, val: u8) -> Machine {
        self.with_regs(self.regs.with_reg8(reg, val))
    }

    pub open spec fn set_reg16(self, reg: u8, val: u16) -> Machine {
        self.with_regs(self.regs.with_reg16(reg, val))
    }

    pub open spec fn read_mem8(self, seg: u16, off: u16) -> u8 {
        byte_at(self.mem, linear(seg, off))
    }

    pub open spec fn read_mem16(self, seg: u16, off: u16) -> u16 {
        word_at(self.mem, linear(seg, off))
    }

    pub open spec fn write_mem8(self, seg: u16, off: u16, val: u8) -> Machine {
        self.with_mem(store_byte(self.mem, linear(seg, off), val))
    }

    pub open spec fn write_mem16(self, seg: u16, off: u16, val: u16) -> Machine {
        self.with_mem(store_word(self.mem, linear(seg, off), val))
    }

    /// Pushes `val`: `sp` drops by two (wrapping), then the word is stored at `ss:sp`.
    #[verifier::opaque]
    pub open spec fn push16(self, val: u16) -> Machine {
        let sp = self.regs.sp.wrapping_sub(2);
        let s1 = self.with_regs(Registers { sp, ..self.regs });
        s1.write_mem16(s1.regs.ss, sp, val)
    }

    /// Pops the word at `ss:sp`, then `sp` rises by two (wrapping).
    #[verifier::opaque]
    pub open spec fn pop16(self) -> (Machine, u16) {
        let val = self.read_mem16(self.regs.ss, self.regs.sp);
        (self.with_regs(Registers { sp: self.regs.sp.wrapping_add(2), ..self.regs }), val)
    }

    pub open spec fn flags_isz8(self, val: u8) -> Machine {
        self.with_flags(isz8(self.regs.flags, val))
    }

    pub open spec fn flags_isz16(self, val: u16) -> Machine {
        self.with_flags(isz16(self.regs.flags, val))
    }
}

} // verus!
