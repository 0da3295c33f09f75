use vstd::prelude::*;

use super::{
    dec16, dec_word, inc16, inc_word, io_read, io_write, pair, sub2_16, with_regs, CpuState, Flag, GPR, RegisterPair,
    Registers, Z80A,
};
use super::alu::Flags;
use crate::components::mem_64k::{high_byte, low_byte, make_word, spec_make_word};

verus! {

/// The block transfer, search and I/O instructions of the ED page.
#[derive(Clone, Copy, Debug, PartialEq, Eq, Structural)]
pub enum BlockInstruction {
    LDI,
    LDD,
    LDIR,
    LDDR,
    CPI,
    CPD,
    CPIR,
    CPDR,
    INI,
    IND,
    INIR,
    INDR,
    OUTI,
    OUTD,
    OTIR,
    OTDR,
}

/// The block instruction with opcode fields `y` (4 to 7) and `z` (0 to 3).
pub open spec fn bli_of(y: u8, z: u8) -> BlockInstruction {
    if y == 4 {
        if z == 0 {
            BlockInstruction::LDI
        } else if z == 1 {
            BlockInstruction::CPI
        } else if z == 2 {
            BlockInstruction::INI
        } else {
            BlockInstruction::OUTI
        }
    } else if y == 5 {
        if z == 0 {
            BlockInstruction::LDD
        } else if z == 1 {
            BlockInstruction::CPD
        } else if z == 2 {
            BlockInstruction::IND
        } else {
            BlockInstruction::OUTD
        }
    } else if y == 6 {
        if z == 0 {
            BlockInstruction::LDIR
        } else if z == 1 {
            BlockInstruction::CPIR
        } else if z == 2 {
            BlockInstruction::INIR
        } else {
            BlockInstruction::OTIR
        }
    } else {
        if z == 0 {
            BlockInstruction::LDDR
        } else if z == 1 {
            BlockInstruction::CPDR
        } else if z == 2 {
            BlockInstruction::INDR
        } else {
            BlockInstruction::OTDR
        }
    }
}

/// The block instruction with opcode fields `y` and `z`.
pub fn table_bli(y: u8, z: u8) -> (b: BlockInstruction)
    ensures
        b == bli_of(y, z),
{
    if y == 4 {
        if z == 0 {
            BlockInstruction::LDI
        } else if z == 1 {
            BlockInstruction::CPI
        } else if z == 2 {
            BlockInstruction::INI
        } else {
            BlockInstruction::OUTI
        }
    } else if y == 5 {
        if z == 0 {
            BlockInstruction::LDD
        } else if z == 1 {
            BlockInstruction::CPD
        } else if z == 2 {
            BlockInstruction::IND
        } else {
            BlockInstruction::OUTD
        }
    } else if y == 6 {
        if z == 0 {
            BlockInstruction::LDIR
        } else if z == 1 {
            BlockInstruction::CPIR
        } else if z == 2 {
            BlockInstruction::INIR
        } else {
            BlockInstruction::OTIR
        }
    } else {
        if z == 0 {
            BlockInstruction::LDDR
        } else if z == 1 {
            BlockInstruction::CPDR
        } else if z == 2 {
            BlockInstruction::INDR
        } else {
            BlockInstruction::OTDR
        }
    }
}

/// One transfer step: the byte at HL is copied to DE, HL and DE move by one
/// (up or down), BC counts down; H and N are cleared and P/V tells whether
/// BC is still non-zero.
pub open spec fn s_ld_step(s: CpuState, up: bool) -> CpuState {
    let hl = pair(s.regs, RegisterPair::HL);
    let de = pair(s.regs, RegisterPair::DE);
    let bc = pair(s.regs, RegisterPair::BC);
    let v = s.mem[hl as int];
    let bc2 = dec16(bc);
    let hl2 = if up {
        inc16(hl)
    } else {
        dec16(hl)
    };
    let de2 = if up {
        inc16(de)
    } else {
        dec16(de)
    };
    CpuState {
        mem: s.mem.update(de as int, v),
        regs: Registers {
            h: (hl2 / 256) as u8,
            l: (hl2 % 256) as u8,
            d: (de2 / 256) as u8,
            e: (de2 % 256) as u8,
            b: (bc2 / 256) as u8,
            c: (bc2 % 256) as u8,
            flags: Flags { h: false, n: false, pv: bc2 != 0, ..s.regs.flags },
            ..s.regs
        },
        ..s
    }
}

/// One search step: A is compared with the byte at HL, HL moves by one, BC
/// counts down; S, Z and H come from the comparison, P/V tells whether BC is
/// still non-zero, N is set.
pub open spec fn s_cp_step(s: CpuState, up: bool) -> CpuState {
    let a = s.regs.a;
    let hl = pair(s.regs, RegisterPair::HL);
    let bc = pair(s.regs, RegisterPair::BC);
    let v = s.mem[hl as int];
    let res = ((a + 256 - v) % 256) as u8;
    let bc2 = dec16(bc);
    let hl2 = if up {
        inc16(hl)
    } else {
        dec16(hl)
    };
    with_regs(s, Registers {
        h: (hl2 / 256) as u8,
        l: (hl2 % 256) as u8,
        b: (bc2 / 256) as u8,
        c: (bc2 % 256) as u8,
        flags: Flags {
            z: res == 0,
            s: res >= 128,
            h: a % 16 < v % 16,
            pv: bc2 != 0,
            n: true,
            ..s.regs.flags
        },
        ..s.regs
    })
}

/// One input step: a byte is read from port BC into the byte at HL, HL moves
/// by one, B counts down; Z tells whether B reached zero, N is set.
pub open spec fn s_in_step(s: CpuState, up: bool) -> CpuState {
    let b = s.regs.b;
    let hl = pair(s.regs, RegisterPair::HL);
    let port = spec_make_word(b, s.regs.c);
    let (s1, v) = io_read(s, port);
    let hl2 = if up {
        inc16(hl)
    } else {
        dec16(hl)
    };
    let b2 = ((b + 255) % 256) as u8;
    CpuState {
        mem: s1.mem.update(hl as int, v),
        regs: Registers {
            h: (hl2 / 256) as u8,
            l: (hl2 % 256) as u8,
            b: b2,
            flags: Flags { z: b2 == 0, n: true, ..s1.regs.flags },
            ..s1.regs
        },
        ..s1
    }
}

/// One output step: B counts down, the byte at HL is written to port BC
/// (with the new B), HL moves by one; Z tells whether B reached zero, N is set.
pub open spec fn s_out_step(s: CpuState, up: bool) -> CpuState {
    let b = s.regs.b;
    let hl = pair(s.regs, RegisterPair::HL);
    let v = s.mem[hl as int];
    let b2 = ((b + 255) % 256) as u8;
    let s1 = io_write(s, spec_make_word(b2, s.regs.c), v);
    let hl2 = if up {
        inc16(hl)
    } else {
        dec16(hl)
    };
    with_regs(s1, Registers {
        h: (hl2 / 256) as u8,
        l: (hl2 % 256) as u8,
        b: b2,
        flags: Flags { z: b2 == 0, n: true, ..s1.regs.flags },
        ..s1.regs
    })
}

/// Repeats the instruction: PC goes back by two.
pub open spec fn s_repeat(s: CpuState) -> CpuState {
    with_regs(s, Registers { pc: sub2_16(s.regs.pc), ..s.regs })
}

/// The state after a block instruction. The repeating forms run one step and
/// then go back to themselves while BC (transfers) or B (I/O) is non-zero;
/// searches also stop when a match is found.
pub open spec fn spec_block(s: CpuState, inst: BlockInstruction) -> CpuState {
    match inst {
        BlockInstruction::LDI => s_ld_step(s, true),
        BlockInstruction::LDD => s_ld_step(s, false),
        BlockInstruction::LDIR => {
            let s1 = s_ld_step(s, true);
            if pair(s1.regs, RegisterPair::BC) != 0 {
                s_repeat(s1)
            } else {
                s1
            }
        },
        BlockInstruction::LDDR => {
            let s1 = s_ld_step(s, false);
            if pair(s1.regs, RegisterPair::BC) != 0 {
                s_repeat(s1)
            } else {
                s1
            }
        },
        BlockInstruction::CPI => s_cp_step(s, true),
        BlockInstruction::CPD => s_cp_step(s, false),
        BlockInstruction::CPIR => {
            let s1 = s_cp_step(s, true);
            if pair(s1.regs, RegisterPair::BC) != 0 && !s1.regs.flags.z {
                s_repeat(s1)
            } else {
                s1
            }
        },
        BlockInstruction::CPDR => {
            let s1 = s_cp_step(s, false);
            if pair(s1.regs, RegisterPair::BC) != 0 && !s1.regs.flags.z {
                s_repeat(s1)
            } else {
                s1
            }
        },
        BlockInstruction::INI => s_in_step(s, true),
        BlockInstruction::IND => s_in_step(s, false),
        BlockInstruction::INIR => {
            let s1 = s_in_step(s, true);
            if s1.regs.b != 0 {
                s_repeat(s1)
            } else {
                s1
            }
        },
        BlockInstruction::INDR => {
            let s1 = s_in_step(s, false);
            if s1.regs.b != 0 {
                s_repeat(s1)
            } else {
                s1
            }
        },
        BlockInstruction::OUTI => s_out_step(s, true),
        BlockInstruction::OUTD => s_out_step(s, false),
        BlockInstruction::OTIR => {
            let s1 = s_out_step(s, true);
            if s1.regs.b != 0 {
                s_repeat(s1)
            } else {
                s1
            }
        },
        BlockInstruction::OTDR => {
            let s1 = s_out_step(s, false);
            if s1.regs.b != 0 {
                s_repeat(s1)
            } else {
                s1
            }
        },
    }
}

/// The transfers: LDI, LDD, LDIR, LDDR.
pub open spec fn is_transfer(i: BlockInstruction) -> bool {
    i is LDI || i is LDD || i is LDIR || i is LDDR
}

/// The searches: CPI, CPD, CPIR, CPDR.
pub open spec fn is_search(i: BlockInstruction) -> bool {
    i is CPI || i is CPD || i is CPIR || i is CPDR
}

/// The inputs: INI, IND, INIR, INDR.
pub open spec fn is_input(i: BlockInstruction) -> bool {
    i is INI || i is IND || i is INIR || i is INDR
}

/// The outputs: OUTI, OUTD, OTIR, OTDR.
pub open spec fn is_output(i: BlockInstruction) -> bool {
    i is OUTI || i is OUTD || i is OTIR || i is OTDR
}

/// The forms that move their pointers up.
pub open spec fn moves_up(i: BlockInstruction) -> bool {
    i is LDI || i is LDIR || i is CPI || i is CPIR || i is INI || i is INIR || i is OUTI || i is OTIR
}

/// The repeating forms.
pub open spec fn repeats(i: BlockInstruction) -> bool {
    i is LDIR || i is LDDR || i is CPIR || i is CPDR || i is INIR || i is INDR || i is OTIR || i is OTDR
}

/// A 16-bit pointer moved up or down by one.
pub open spec fn step16(a: u16, up: bool) -> u16 {
    if up {
        inc16(a)
    } else {
        dec16(a)
    }
}

/// The PC after a block instruction fetched before `pc`: back by two to run
/// again, else unchanged.
pub open spec fn block_pc(pc: u16, again: bool) -> u16 {
    if again {
        sub2_16(pc)
    } else {
        pc
    }
}

/// A transfer copies the byte at HL to DE and changes no other byte; HL
/// and DE move by one, BC counts down; P/V tells whether BC is non-zero, H
/// and N are cleared, S, Z, C and A are kept; a repeating form goes back to
/// itself while BC is non-zero.
pub proof fn lemma_block_transfer(s: CpuState, inst: BlockInstruction)
    requires
        is_transfer(inst),
    ensures
        spec_block(s, inst).mem == s.mem.update(
            pair(s.regs, RegisterPair::DE) as int,
            s.mem[pair(s.regs, RegisterPair::HL) as int],
        ),
        pair(spec_block(s, inst).regs, RegisterPair::HL) == step16(pair(s.regs, RegisterPair::HL), moves_up(inst)),
        pair(spec_block(s, inst).regs, RegisterPair::DE) == step16(pair(s.regs, RegisterPair::DE), moves_up(inst)),
        pair(spec_block(s, inst).regs, RegisterPair::BC) == dec16(pair(s.regs, RegisterPair::BC)),
        spec_block(s, inst).regs.flags.pv == (dec16(pair(s.regs, RegisterPair::BC)) != 0),
        !spec_block(s, inst).regs.flags.h,
        !spec_block(s, inst).regs.flags.n,
        spec_block(s, inst).regs.flags.s == s.regs.flags.s,
        spec_block(s, inst).regs.flags.z == s.regs.flags.z,
        spec_block(s, inst).regs.flags.c == s.regs.flags.c,
        spec_block(s, inst).regs.a == s.regs.a,
        spec_block(s, inst).regs.pc == block_pc(
            s.regs.pc,
            repeats(inst) && dec16(pair(s.regs, RegisterPair::BC)) != 0,
        ),
        spec_block(s, inst).devs == s.devs,
{
}

/// A search compares A with the byte at HL and changes neither A nor
/// memory; HL moves by one, BC counts down; Z tells whether they are equal,
/// S is bit 7 of A minus the byte, H the borrow from bit 4, P/V whether BC is
/// non-zero, N is set and C kept; a repeating form goes back to itself while
/// BC is non-zero and no match was found.
pub proof fn lemma_block_search(s: CpuState, inst: BlockInstruction)
    requires
        is_search(inst),
    ensures
        spec_block(s, inst).mem == s.mem,
        spec_block(s, inst).regs.a == s.regs.a,
        pair(spec_block(s, inst).regs, RegisterPair::HL) == step16(pair(s.regs, RegisterPair::HL), moves_up(inst)),
        pair(spec_block(s, inst).regs, RegisterPair::BC) == dec16(pair(s.regs, RegisterPair::BC)),
        spec_block(s, inst).regs.flags.z == (s.regs.a == s.mem[pair(s.regs, RegisterPair::HL) as int]),
        spec_block(s, inst).regs.flags.s == ((s.regs.a + 256 - s.mem[pair(s.regs, RegisterPair::HL) as int])
            % 256 >= 128),
        spec_block(s, inst).regs.flags.h == (s.regs.a % 16 < s.mem[pair(s.regs, RegisterPair::HL) as int] % 16),
        spec_block(s, inst).regs.flags.pv == (dec16(pair(s.regs, RegisterPair::BC)) != 0),
        spec_block(s, inst).regs.flags.n,
        spec_block(s, inst).regs.flags.c == s.regs.flags.c,
        spec_block(s, inst).regs.pc == block_pc(
            s.regs.pc,
            repeats(inst) && dec16(pair(s.regs, RegisterPair::BC)) != 0 && s.regs.a != s.mem[pair(
                s.regs,
                RegisterPair::HL,
            ) as int],
        ),
        spec_block(s, inst).devs == s.devs,
{
}

/// An input reads one byte from port `B * 256 + C` (the only bus access)
/// into the byte at HL; an output writes the byte at HL to port
/// `(B - 1) * 256 + C` (the only bus access) and changes no memory. Either
/// way HL moves by one and B counts down; Z tells whether B reached zero, N
/// is set; a repeating form goes back to itself while B is non-zero.
pub proof fn lemma_block_io(s: CpuState, inst: BlockInstruction)
    requires
        is_input(inst) || is_output(inst),
    ensures
        is_input(inst) ==> ({
            let (s1, v) = io_read(s, spec_make_word(s.regs.b, s.regs.c));
            &&& spec_block(s, inst).devs == s1.devs
            &&& spec_block(s, inst).mem == s.mem.update(pair(s.regs, RegisterPair::HL) as int, v)
        }),
        is_output(inst) ==> spec_block(s, inst).devs == io_write(
            s,
            spec_make_word(((s.regs.b + 255) % 256) as u8, s.regs.c),
            s.mem[pair(s.regs, RegisterPair::HL) as int],
        ).devs && spec_block(s, inst).mem == s.mem,
        spec_block(s, inst).regs.b == ((s.regs.b + 255) % 256) as u8,
        pair(spec_block(s, inst).regs, RegisterPair::HL) == step16(pair(s.regs, RegisterPair::HL), moves_up(inst)),
        spec_block(s, inst).regs.flags.z == (spec_block(s, inst).regs.b == 0),
        spec_block(s, inst).regs.flags.n,
        spec_block(s, inst).regs.pc == block_pc(s.regs.pc, repeats(inst) && spec_block(s, inst).regs.b != 0),
{
}

/// Runs a block instruction on `cpu`.
pub fn execute(cpu: &mut Z80A, instruction: BlockInstruction)
    requires
        old(cpu).wf(),
    ensures
        final(cpu).wf(),
        final(cpu)@ == spec_block(old(cpu)@, instruction),
{
    cpu.execute_block_instruction_impl(instruction);
}

impl Z80A {
    #[verifier::rlimit(40)]
    fn ld_step(&mut self, up: bool)
        requires
            old(self).wf(),
        ensures
            final(self).wf(),
            final(self)@ == s_ld_step(old(self)@, up),
    {
        let hl = self.get_register_pair(RegisterPair::HL);
        let de = self.get_register_pair(RegisterPair::DE);
        let bc = self.get_register_pair(RegisterPair::BC);
        let val = self.memory.read(hl);
        self.memory.write(de, val);
        let hl2 = if up {
            inc_word(hl)
        } else {
            dec_word(hl)
        };
        let de2 = if up {
            inc_word(de)
        } else {
            dec_word(de)
        };
        let next_bc = dec_word(bc);
        let r = self.regs;
        self.regs = Registers {
            h: high_byte(hl2),
            l: low_byte(hl2),
            d: high_byte(de2),
            e: low_byte(de2),
            b: high_byte(next_bc),
            c: low_byte(next_bc),
            flags: Flags { h: false, n: false, pv: next_bc != 0, ..r.flags },
            ..r
        };
    }

    #[verifier::rlimit(40)]
    fn cp_step(&mut self, up: bool)
        requires
            old(self).wf(),
        ensures
            final(self).wf(),
            final(self)@ == s_cp_step(old(self)@, up),
    {
        let a = self.get_register(GPR::A);
        let hl = self.get_register_pair(RegisterPair::HL);
        let bc = self.get_register_pair(RegisterPair::BC);
        let val = self.memory.read(hl);
        let res = ((a as u16 + 256 - val as u16) % 256) as u8;
        let next_bc = dec_word(bc);
        let hl2 = if up {
            inc_word(hl)
        } else {
            dec_word(hl)
        };
        let r = self.regs;
        self.regs = Registers {
            h: high_byte(hl2),
            l: low_byte(hl2),
            b: high_byte(next_bc),
            c: low_byte(next_bc),
            flags: Flags {
                z: res == 0,
                s: res >= 128,
                h: (a % 16) < (val % 16),
                pv: next_bc != 0,
                n: true,
                ..r.flags
            },
            ..r
        };
    }

    fn in_step(&mut self, up: bool)
        requires
            old(self).wf(),
        ensures
            final(self).wf(),
            final(self)@ == s_in_step(old(self)@, up),
    {
        let b = self.get_register(GPR::B);
        let c = self.get_register(GPR::C);
        let hl = self.get_register_pair(RegisterPair::HL);
        let port = make_word(b, c);
        let val = self.read_io(port);
        self.memory.write(hl, val);
        let hl2 = if up {
            inc_word(hl)
        } else {
            dec_word(hl)
        };
        let next_b = b.wrapping_sub(1);
        let r = self.regs;
        self.regs = Registers {
            h: high_byte(hl2),
            l: low_byte(hl2),
            b: next_b,
            flags: Flags { z: next_b == 0, n: true, ..r.flags },
            ..r
        };
    }

    fn out_step(&mut self, up: bool)
        requires
            old(self).wf(),
        ensures
            final(self).wf(),
            final(self)@ == s_out_step(old(self)@, up),
    {
        let b = self.get_register(GPR::B);
        let c = self.get_register(GPR::C);
        let hl = self.get_register_pair(RegisterPair::HL);
        let val = self.memory.read(hl);
        let next_b = b.wrapping_sub(1);
        let port = make_word(next_b, c);
        self.write_io(port, val);
        let hl2 = if up {
            inc_word(hl)
        } else {
            dec_word(hl)
        };
        let r = self.regs;
        self.regs = Registers {
            h: high_byte(hl2),
            l: low_byte(hl2),
            b: next_b,
            flags: Flags { z: next_b == 0, n: true, ..r.flags },
            ..r
        };
    }

    fn repeat(&mut self)
        requires
            old(self).wf(),
        ensures
            final(self).wf(),
            final(self)@ == s_repeat(old(self)@),
    {
        self.regs.pc = self.regs.pc.wrapping_sub(2);
    }

    /// Runs a block instruction.
    pub fn execute_block_instruction(&mut self, instruction: BlockInstruction)
        requires
            old(self).wf(),
        ensures
            final(self).wf(),
            final(self)@ == spec_block(old(self)@, instruction),
    {
        self.execute_block_instruction_impl(instruction);
    }

    fn execute_block_instruction_impl(&mut self, instruction: BlockInstruction)
        requires
            old(self).wf(),
        ensures
            final(self).wf(),
            final(self)@ == spec_block(old(self)@, instruction),
    {
        match instruction {
            BlockInstruction::LDI => self.ld_step(true),
            BlockInstruction::LDD => self.ld_step(false),
            BlockInstruction::LDIR => {
                self.ld_step(true);
                if self.get_register_pair(RegisterPair::BC) != 0 {
                    self.repeat();
                }
            },
            BlockInstruction::LDDR => {
                self.ld_step(false);
                if self.get_register_pair(RegisterPair::BC) != 0 {
                    self.repeat();
                }
            },
            BlockInstruction::CPI => self.cp_step(true),
            BlockInstruction::CPD => self.cp_step(false),
            BlockInstruction::CPIR => {
                self.cp_step(true);
                let bc = self.get_register_pair(RegisterPair::BC);
                let z = self.get_flag(Flag::Z);
                if bc != 0 && !z {
                    self.repeat();
                }
            },
            BlockInstruction::CPDR => {
                self.cp_step(false);
                let bc = self.get_register_pair(RegisterPair::BC);
                let z = self.get_flag(Flag::Z);
                if bc != 0 && !z {
                    self.repeat();
                }
            },
            BlockInstruction::INI => self.in_step(true),
            BlockInstruction::IND => self.in_step(false),
            BlockInstruction::INIR => {
                self.in_step(true);
                if self.get_register(GPR::B) != 0 {
                    self.repeat();
                }
            },
            BlockInstruction::INDR => {
                self.in_step(false);
                if self.get_register(GPR::B) != 0 {
                    self.repeat();
                }
            },
            BlockInstruction::OUTI => self.out_step(true),
            BlockInstruction::OUTD => self.out_step(false),
            BlockInstruction::OTIR => {
                self.out_step(true);
                if self.get_register(GPR::B) != 0 {
                    self.repeat();
                }
            },
            BlockInstruction::OTDR => {
                self.out_step(false);
                if self.get_register(GPR::B) != 0 {
                    self.repeat();
                }
            },
        }
    }
}

} // verus!
