use vstd::prelude::*;
use crate::cpu::Cpu;
use crate::machine::{Machine, modrm_mode, modrm_rm, modrm_reg, modrm_is_reg, sign_extend8};

verus! {

/// The bit-field extractions used on ModR/M bytes agree with their arithmetic reading.
pub proof fn lemma_modrm_fields(modrm: u8)
    ensures
        (modrm >> 6) & 0x03 == modrm_mode(modrm),
        modrm & 0x07 == modrm_rm(modrm),
        (modrm >> 3) & 0x07 == modrm_reg(modrm),
        ((modrm & 0xC0) == 0xC0) == modrm_is_reg(modrm),
{
    assert((modrm >> 6) & 0x03 == modrm / 64) by (bit_vector);
    assert(modrm & 0x07 == modrm % 8) by (bit_vector);
    assert((modrm >> 3) & 0x07 == (modrm / 8) % 8) by (bit_vector);
    assert(((modrm & 0xC0) == 0xC0) == (modrm / 64 == 3)) by (bit_vector);
}

/// Reading a byte as `i8`, widening to `i16` and reinterpreting as `u16` sign-extends it.
pub proof fn lemma_sign_extend(b: u8)
    ensures
        (b as i8) as i16 as u16 == sign_extend8(b),
{
    assert((b as i8) as i16 as u16 == (if b < 128 { b as u16 } else { (b as u16) | 0xFF00 }))
        by (bit_vector);
    assert(b >= 128 ==> (b as u16) | 0xFF00 == b as u16 + 0xFF00) by (bit_vector);
}

impl Cpu {
    /// The effective offset and default segment of the operand named by `modrm`,
    /// fetching any displacement bytes that follow it.
    pub fn get_offset(&mut self, modrm: u8) -> (res: (u16, u16))
        ensures
            final(self)@ == old(self)@.offset(modrm).0,
            res.0 == old(self)@.offset(modrm).1,
            res.1 == old(self)@.offset(modrm).2,
    {
        proof {
            reveal(Machine::offset);
        }
        proof {
            lemma_modrm_fields(modrm);
        }
        let mode = (modrm >> 6) & 0x03;
        let rm = modrm & 0x07;
        let mut disp: i16 = 0;
        if mode == 1 {
            let b = self.fetch_u8();
            proof {
                lemma_sign_extend(b);
            }
            disp = b as i8 as i16;
        } else if mode == 2 {
            let w = self.fetch_u16();
            assert(w as i16 as u16 == w) by (bit_vector);
            disp = w as i16;
        }
        let base = match rm {
            0 => self.regs.bx.wrapping_add(self.regs.si),
            1 => self.regs.bx.wrapping_add(self.regs.di),
            2 => self.regs.bp.wrapping_add(self.regs.si),
            3 => self.regs.bp.wrapping_add(self.regs.di),
            4 => self.regs.si,
            5 => self.regs.di,
            6 => {
                if mode == 0 {
                    let off = self.fetch_u16();
                    return (off, self.regs.ds);
                } else {
                    self.regs.bp
                }
            },
            7 => self.regs.bx,
            _ => 0,
        };
        let offset = base.wrapping_add(disp as u16);
        let seg = if rm == 2 || rm == 3 || (rm == 6 && mode != 0) {
            self.regs.ss
        } else {
            self.regs.ds
        };
        (offset, seg)
    }

    /// The physical address of the memory operand named by `modrm`, honouring an
    /// active segment-override prefix.
    pub fn get_ea(&mut self, modrm: u8) -> (addr: usize)
        ensures
            final(self)@ == old(self)@.ea(modrm).0,
            addr == old(self)@.ea(modrm).1,
            addr < 0x110000,
    {
        proof {
            reveal(Machine::ea);
        }
        let (offset, mut seg) = self.get_offset(modrm);
        if let Some(s) = self.seg_override {
            seg = s;
        }
        (seg as usize * 16) + offset as usize
    }

    /// The segment override when a prefix is active, else `default`.
    pub fn get_seg(&self, default: u16) -> (seg: u16)
        ensures
            seg == self@.seg_or(default),
    {
        match self.seg_override {
            Some(s) => s,
            None => default,
        }
    }

    pub fn set_rm16(&mut self, modrm: u8, val: u16)
        ensures
            final(self)@ == old(self)@.set_rm16(modrm, val),
    {
        proof {
            reveal(Machine::set_rm16);
        }
        proof {
            lemma_modrm_fields(modrm);
        }
        if (modrm & 0xC0) == 0xC0 {
            self.set_reg16(modrm & 0x07, val);
        } else {
            let addr = self.get_ea(modrm);
            self.memory.write_u16(addr, val);
        }
    }

    pub fn get_rm16(&mut self, modrm: u8) -> (val: u16)
        ensures
            final(self)@ == old(self)@.get_rm16(modrm).0,
            val == old(self)@.get_rm16(modrm).1,
    {
        proof {
            reveal(Machine::get_rm16);
        }
        proof {
            lemma_modrm_fields(modrm);
        }
        if (modrm & 0xC0) == 0xC0 {
            self.get_reg16(modrm & 0x07)
        } else {
            let addr = self.get_ea(modrm);
            self.memory.read_u16(addr)
        }
    }

    pub fn set_rm8(&mut self, modrm: u8, val: u8)
        ensures
            final(self)@ == old(self)@.set_rm8(modrm, val),
    {
        proof {
            reveal(Machine::set_rm8);
        }
        proof {
            lemma_modrm_fields(modrm);
        }
        if (modrm & 0xC0) == 0xC0 {
            self.set_reg8(modrm & 0x07, val);
        } else {
            let addr = self.get_ea(modrm);
            self.memory.write_u8(addr, val);
        }
    }

    pub fn get_rm8(&mut self, modrm: u8) -> (val: u8)
        ensures
            final(self)@ == old(self)@.get_rm8(modrm).0,
            val == old(self)@.get_rm8(modrm).1,
    {
        proof {
            reveal(Machine::get_rm8);
        }
        proof {
            lemma_modrm_fields(modrm);
        }
        if (modrm & 0xC0) == 0xC0 {
            self.get_reg8(modrm & 0x07)
        } else {
            let addr = self.get_ea(modrm);
            self.memory.read_u8(addr)
        }
    }

    pub fn read_mem8(&self, seg: u16, off: u16) -> (val: u8)
        ensures
            val == self@.read_mem8(seg, off),
    {
        let addr = (seg as usize * 16) + off as usize;
        self.memory.read_u8(addr)
    }

    pub fn read_mem16(&self, seg: u16, off: u16) -> (val: u16)
        ensures
            val == self@.read_mem16(seg, off),
    {
        let addr = (seg as usize * 16) + off as usize;
        self.memory.read_u16(addr)
    }

    pub fn write_mem8(&mut self, seg: u16, off: u16, val: u8)
        ensures
            final(self)@ == old(self)@.write_mem8(seg, off, val),
    {
        let addr = (seg as usize * 16) + off as usize;
        self.memory.write_u8(addr, val);
    }

    pub fn write_mem16(&mut self, seg: u16, off: u16, val: u16)
        ensures
            final(self)@ == old(self)@.write_mem16(seg, off, val),
    {
        let addr = (seg as usize * 16) + off as usize;
        self.memory.write_u16(addr, val);
    }

    /// Sets ZF iff `val == 0` and SF iff bit 15 of `val`; all other flags are kept.
    pub fn update_flags_isz16(&mut self, val: u16)
        ensures
            final(self)@ == old(self)@.flags_isz16(val),
    {
        if val == 0 {
            self.regs.flags |= 0x0040;
        } else {
            self.regs.flags &= !0x0040;
        }
        if (val & 0x8000) != 0 {
            self.regs.flags |= 0x0080;
        } else {
            self.regs.flags &= !0x0080;
        }
    }
}

} // verus!
