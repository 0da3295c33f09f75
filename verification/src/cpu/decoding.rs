use vstd::prelude::*;

use super::alu::{
    alu_of, bit3, bit5, daa, spec_alu, parity, parity_even, rot, spec_alu_of, spec_daa, spec_rot, spec_sub8, sub8,
    Flags, RotOperation,
};
use super::block_instructions::{bli_of, spec_block, table_bli};
use super::{
    call_to, cc_of, cond_holds, dec16, fetch16, fetch8, fetch_disp, hl_pair, index_addr, index_address,
    inc16, io_read, io_write, operand_r, pair, pop16, push16, r_reg, rd8, rp2_of, rp_of, s_alu, s_arith16,
    s_dec8, s_inc8, s_jump, s_ld8, s_set_a, s_set_pair, s_store16, table_cc, table_hl, table_r,
    table_rp, table_rp2, with_flags, with_regs, wr8, CpuState, Loc8, PrefixAddressing, Registers,
    RegisterPair, GPR, Z80A, spec_execute,
};
use crate::components::mem_64k::{make_word, spec_make_word, spec_word, spec_write_word};

verus! {

/// The `x` field of an opcode (bits 7-6).
pub open spec fn op_x(op: u8) -> u8 {
    op / 64
}

/// The `y` field of an opcode (bits 5-3).
pub open spec fn op_y(op: u8) -> u8 {
    (op / 8) % 8
}

/// The `z` field of an opcode (bits 2-0).
pub open spec fn op_z(op: u8) -> u8 {
    op % 8
}

/// The `p` field of an opcode (bits 5-4).
pub open spec fn op_p(op: u8) -> u8 {
    op_y(op) / 2
}

/// The `q` field of an opcode (bit 3).
pub open spec fn op_q(op: u8) -> bool {
    op_y(op) % 2 == 1
}

/// Splits an opcode into its `x`, `y`, `z`, `p` and `q` fields.
pub fn decode_opcode(op: u8) -> (f: (u8, u8, u8, u8, bool))
    ensures
        f == (op_x(op), op_y(op), op_z(op), op_p(op), op_q(op)),
        f.0 < 4,
        f.1 < 8,
        f.2 < 8,
        f.3 < 4,
{
    let y = (op / 8) % 8;
    (op / 64, y, op % 8, y / 2, y % 2 == 1)
}

// ----- unprefixed page (and its DD/FD forms) -----

/// Relative jumps, `DJNZ`, `EX AF, AF'` and `NOP` (x = 0, z = 0).
pub open spec fn sp_x0z0(s: CpuState, y: u8) -> CpuState {
    if y == 0 {
        s
    } else if y == 1 {
        with_regs(s, Registers {
            a: s.regs.a_alt,
            flags: s.regs.flags_alt,
            a_alt: s.regs.a,
            flags_alt: s.regs.flags,
            ..s.regs
        })
    } else if y == 2 {
        let (s1, d) = fetch_disp(s);
        let b = ((s1.regs.b + 255) % 256) as u8;
        let s2 = with_regs(s1, Registers { b, ..s1.regs });
        if b != 0 {
            s_jump(s2, index_addr(s2.regs.pc, d))
        } else {
            s2
        }
    } else if y == 3 {
        let (s1, d) = fetch_disp(s);
        s_jump(s1, index_addr(s1.regs.pc, d))
    } else {
        let (s1, d) = fetch_disp(s);
        if cond_holds(s1.regs.flags, cc_of((y - 4) as u8)) {
            s_jump(s1, index_addr(s1.regs.pc, d))
        } else {
            s1
        }
    }
}

/// 16-bit loads of an immediate and `ADD HL, rr` (x = 0, z = 1).
pub open spec fn sp_x0z1(s: CpuState, p: u8, q: bool, prefix: PrefixAddressing) -> CpuState {
    if q {
        s_arith16(s, hl_pair(prefix), rp_of(p, prefix), 0)
    } else {
        let (s1, nn) = fetch16(s);
        s_set_pair(s1, rp_of(p, prefix), nn)
    }
}

/// Indirect loads of A and HL (x = 0, z = 2).
pub open spec fn sp_x0z2(s: CpuState, p: u8, q: bool, prefix: PrefixAddressing) -> CpuState {
    if !q {
        if p == 0 {
            s_ld8(s, Loc8::Mem(pair(s.regs, RegisterPair::BC)), Loc8::Reg(GPR::A))
        } else if p == 1 {
            s_ld8(s, Loc8::Mem(pair(s.regs, RegisterPair::DE)), Loc8::Reg(GPR::A))
        } else if p == 2 {
            let (s1, addr) = fetch16(s);
            s_store16(s1, addr, pair(s1.regs, hl_pair(prefix)))
        } else {
            let (s1, addr) = fetch16(s);
            s_ld8(s1, Loc8::Mem(addr), Loc8::Reg(GPR::A))
        }
    } else {
        if p == 0 {
            s_ld8(s, Loc8::Reg(GPR::A), Loc8::Mem(pair(s.regs, RegisterPair::BC)))
        } else if p == 1 {
            s_ld8(s, Loc8::Reg(GPR::A), Loc8::Mem(pair(s.regs, RegisterPair::DE)))
        } else if p == 2 {
            let (s1, addr) = fetch16(s);
            s_set_pair(s1, hl_pair(prefix), spec_word(s1.mem, addr))
        } else {
            let (s1, addr) = fetch16(s);
            s_ld8(s1, Loc8::Reg(GPR::A), Loc8::Mem(addr))
        }
    }
}

/// 16-bit increment and decrement (x = 0, z = 3).
pub open spec fn sp_x0z3(s: CpuState, p: u8, q: bool, prefix: PrefixAddressing) -> CpuState {
    let rp = rp_of(p, prefix);
    let v = pair(s.regs, rp);
    s_set_pair(s, rp, if q {
        dec16(v)
    } else {
        inc16(v)
    })
}

/// The accumulator and flag operations (x = 0, z = 7).
pub open spec fn sp_x0z7(s: CpuState, y: u8) -> CpuState {
    let a = s.regs.a;
    let f = s.regs.flags;
    if y <= 3 {
        let (r, c) = if y == 0 {
            spec_rot(RotOperation::RLC, a, false)
        } else if y == 1 {
            spec_rot(RotOperation::RRC, a, false)
        } else if y == 2 {
            spec_rot(RotOperation::RL, a, f.c)
        } else {
            spec_rot(RotOperation::RR, a, f.c)
        };
        with_regs(s, Registers { a: r, flags: Flags { c, n: false, h: false, ..f }, ..s.regs })
    } else if y == 4 {
        let (r, f2) = spec_daa(a, f);
        with_regs(s, Registers { a: r, flags: f2, ..s.regs })
    } else if y == 5 {
        let r = (255 - a) as u8;
        with_regs(s, Registers {
            a: r,
            flags: Flags { n: true, h: true, x: bit3(r as int), y: bit5(r as int), ..f },
            ..s.regs
        })
    } else if y == 6 {
        with_flags(s, Flags { c: true, n: false, h: false, x: bit3(a as int), y: bit5(a as int), ..f })
    } else {
        with_flags(s, Flags { c: !f.c, n: false, h: f.c, x: bit3(a as int), y: bit5(a as int), ..f })
    }
}

/// The instructions with x = 0.
pub open spec fn sp_x0(s: CpuState, y: u8, z: u8, p: u8, q: bool, prefix: PrefixAddressing) -> CpuState {
    if z == 0 {
        sp_x0z0(s, y)
    } else if z == 1 {
        sp_x0z1(s, p, q, prefix)
    } else if z == 2 {
        sp_x0z2(s, p, q, prefix)
    } else if z == 3 {
        sp_x0z3(s, p, q, prefix)
    } else if z == 4 {
        let (s1, loc) = operand_r(s, y, prefix, true);
        s_inc8(s1, loc)
    } else if z == 5 {
        let (s1, loc) = operand_r(s, y, prefix, true);
        s_dec8(s1, loc)
    } else if z == 6 {
        let (s1, loc) = operand_r(s, y, prefix, true);
        let (s2, n) = fetch8(s1);
        s_ld8(s2, loc, Loc8::Imm(n))
    } else {
        sp_x0z7(s, y)
    }
}

/// `HALT` and the 8-bit register loads (x = 1). When one operand is the
/// memory operand, the other names H or L, not a half of IX/IY.
pub open spec fn sp_x1(s: CpuState, y: u8, z: u8, prefix: PrefixAddressing) -> CpuState {
    if y == 6 && z == 6 {
        with_regs(s, Registers { halted: true, ..s.regs })
    } else {
        let halves = y != 6 && z != 6;
        let (s1, dest) = operand_r(s, y, prefix, halves);
        let (s2, src) = operand_r(s1, z, prefix, halves);
        s_ld8(s2, dest, src)
    }
}

/// Accumulator operations with a register or memory operand (x = 2).
pub open spec fn sp_x2(s: CpuState, y: u8, z: u8, prefix: PrefixAddressing) -> CpuState {
    let (s1, src) = operand_r(s, z, prefix, true);
    s_alu(s1, spec_alu_of(y), rd8(s1, src))
}

/// Pops and the one-byte jumps of x = 3, z = 1.
pub open spec fn sp_x3z1(s: CpuState, p: u8, q: bool, prefix: PrefixAddressing) -> CpuState {
    if !q {
        let (s1, v) = pop16(s);
        s_set_pair(s1, rp2_of(p, prefix), v)
    } else if p == 0 {
        let (s1, v) = pop16(s);
        s_jump(s1, v)
    } else if p == 1 {
        with_regs(s, super::exx_regs(s.regs))
    } else if p == 2 {
        s_jump(s, pair(s.regs, hl_pair(prefix)))
    } else {
        s_set_pair(s, RegisterPair::SP, pair(s.regs, hl_pair(prefix)))
    }
}

/// `JP nn`, port I/O, exchanges and interrupt enables (x = 3, z = 3; y = 1 is the CB prefix).
pub open spec fn sp_x3z3(s: CpuState, y: u8, prefix: PrefixAddressing) -> CpuState {
    if y == 0 {
        let (s1, nn) = fetch16(s);
        s_jump(s1, nn)
    } else if y == 2 {
        let (s1, n) = fetch8(s);
        io_write(s1, n as u16, s1.regs.a)
    } else if y == 3 {
        let (s1, n) = fetch8(s);
        let (s2, v) = io_read(s1, n as u16);
        s_set_a(s2, v)
    } else if y == 4 {
        let t = spec_word(s.mem, s.regs.sp);
        let hl = pair(s.regs, hl_pair(prefix));
        s_set_pair(s_store16(s, s.regs.sp, hl), hl_pair(prefix), t)
    } else if y == 5 {
        let de = pair(s.regs, RegisterPair::DE);
        let hl = pair(s.regs, RegisterPair::HL);
        s_set_pair(s_set_pair(s, RegisterPair::DE, hl), RegisterPair::HL, de)
    } else if y == 6 {
        with_regs(s, Registers { iff1: false, iff2: false, iff_delay: 0, ..s.regs })
    } else {
        with_regs(s, Registers { iff_delay: 2, ..s.regs })
    }
}

/// The instructions with x = 3.
pub open spec fn sp_x3(s: CpuState, y: u8, z: u8, p: u8, q: bool, prefix: PrefixAddressing) -> CpuState {
    if z == 0 {
        if cond_holds(s.regs.flags, cc_of(y)) {
            let (s1, v) = pop16(s);
            s_jump(s1, v)
        } else {
            s
        }
    } else if z == 1 {
        sp_x3z1(s, p, q, prefix)
    } else if z == 2 {
        let (s1, nn) = fetch16(s);
        if cond_holds(s1.regs.flags, cc_of(y)) {
            s_jump(s1, nn)
        } else {
            s1
        }
    } else if z == 3 {
        sp_x3z3(s, y, prefix)
    } else if z == 4 {
        let (s1, nn) = fetch16(s);
        if cond_holds(s1.regs.flags, cc_of(y)) {
            call_to(s1, nn)
        } else {
            s1
        }
    } else if z == 5 {
        if !q {
            push16(s, pair(s.regs, rp2_of(p, prefix)))
        } else {
            let (s1, nn) = fetch16(s);
            call_to(s1, nn)
        }
    } else if z == 6 {
        let (s1, n) = fetch8(s);
        s_alu(s1, spec_alu_of(y), n)
    } else {
        call_to(s, (y as int * 8) as u16)
    }
}

/// An opcode of the unprefixed page that is not itself a prefix.
pub open spec fn is_plain_opcode(op: u8) -> bool {
    op != 0xCB && op != 0xDD && op != 0xED && op != 0xFD
}

/// The effect of an opcode of the unprefixed page, with HL standing for IX or
/// IY under a DD or FD prefix.
pub open spec fn spec_unprefixed(s: CpuState, op: u8, prefix: PrefixAddressing) -> CpuState {
    let x = op_x(op);
    let y = op_y(op);
    let z = op_z(op);
    let p = op_p(op);
    let q = op_q(op);
    if x == 0 {
        sp_x0(s, y, z, p, q, prefix)
    } else if x == 1 {
        sp_x1(s, y, z, prefix)
    } else if x == 2 {
        sp_x2(s, y, z, prefix)
    } else {
        sp_x3(s, y, z, p, q, prefix)
    }
}

impl Z80A {
    fn x0z0(&mut self, y: u8)
        requires
            old(self).wf(),
            y < 8,
        ensures
            final(self).wf(),
            final(self)@ == sp_x0z0(old(self)@, y),
    {
        if y == 0 {
        } else if y == 1 {
            self.ex_af_af_prime();
        } else if y == 2 {
            let d = self.fetch_displacement();
            let b = ((self.regs.b as u16 + 255) % 256) as u8;
            self.regs.b = b;
            if b != 0 {
                let pc = index_address(self.regs.pc, d);
                self.regs.pc = pc;
            }
        } else if y == 3 {
            let d = self.fetch_displacement();
            let pc = index_address(self.regs.pc, d);
            self.regs.pc = pc;
        } else {
            let condition = table_cc(y - 4);
            let d = self.fetch_displacement();
            if self.evaluate_condition(condition) {
                let pc = index_address(self.regs.pc, d);
                self.regs.pc = pc;
            }
        }
    }

    fn x0z1(&mut self, p: u8, q: bool, prefix: PrefixAddressing)
        requires
            old(self).wf(),
        ensures
            final(self).wf(),
            final(self)@ == sp_x0z1(old(self)@, p, q, prefix),
    {
        if q {
            let dest = table_hl(prefix);
            let src = table_rp(p, prefix);
            self.arith_16(dest, src, 0);
        } else {
            let nn = self.fetch_word();
            let rp = table_rp(p, prefix);
            self.set_register_pair(rp, nn);
        }
    }

    fn x0z2(&mut self, p: u8, q: bool, prefix: PrefixAddressing)
        requires
            old(self).wf(),
        ensures
            final(self).wf(),
            final(self)@ == sp_x0z2(old(self)@, p, q, prefix),
    {
        if !q {
            if p == 0 {
                let bc = self.get_register_pair(RegisterPair::BC);
                self.ld(Loc8::Mem(bc), Loc8::Reg(GPR::A));
            } else if p == 1 {
                let de = self.get_register_pair(RegisterPair::DE);
                self.ld(Loc8::Mem(de), Loc8::Reg(GPR::A));
            } else if p == 2 {
                let addr = self.fetch_word();
                let v = self.get_register_pair(table_hl(prefix));
                self.memory.write_word(addr, v);
            } else {
                let addr = self.fetch_word();
                self.ld(Loc8::Mem(addr), Loc8::Reg(GPR::A));
            }
        } else {
            if p == 0 {
                let bc = self.get_register_pair(RegisterPair::BC);
                self.ld(Loc8::Reg(GPR::A), Loc8::Mem(bc));
            } else if p == 1 {
                let de = self.get_register_pair(RegisterPair::DE);
                self.ld(Loc8::Reg(GPR::A), Loc8::Mem(de));
            } else if p == 2 {
                let addr = self.fetch_word();
                let v = self.memory.read_word(addr);
                self.set_register_pair(table_hl(prefix), v);
            } else {
                let addr = self.fetch_word();
                self.ld(Loc8::Reg(GPR::A), Loc8::Mem(addr));
            }
        }
    }

    fn x0z3(&mut self, p: u8, q: bool, prefix: PrefixAddressing)
        requires
            old(self).wf(),
        ensures
            final(self).wf(),
            final(self)@ == sp_x0z3(old(self)@, p, q, prefix),
    {
        let rp = table_rp(p, prefix);
        let v = self.get_register_pair(rp);
        let nv = if q {
            super::dec_word(v)
        } else {
            super::inc_word(v)
        };
        self.set_register_pair(rp, nv);
    }

    fn x0z7(&mut self, y: u8)
        requires
            old(self).wf(),
        ensures
            final(self).wf(),
            final(self)@ == sp_x0z7(old(self)@, y),
    {
        let a = self.regs.a;
        let f = self.regs.flags;
        if y <= 3 {
            let (r, c) = if y == 0 {
                rot(RotOperation::RLC, a, false)
            } else if y == 1 {
                rot(RotOperation::RRC, a, false)
            } else if y == 2 {
                rot(RotOperation::RL, a, f.c)
            } else {
                rot(RotOperation::RR, a, f.c)
            };
            self.regs.a = r;
            self.regs.flags = Flags { c, n: false, h: false, ..f };
        } else if y == 4 {
            let (r, f2) = daa(a, f);
            self.regs.a = r;
            self.regs.flags = f2;
        } else if y == 5 {
            let r = 255 - a;
            self.regs.a = r;
            self.regs.flags = Flags { n: true, h: true, x: (r / 8) % 2 == 1, y: (r / 32) % 2 == 1, ..f };
        } else if y == 6 {
            self.regs.flags = Flags {
                c: true,
                n: false,
                h: false,
                x: (a / 8) % 2 == 1,
                y: (a / 32) % 2 == 1,
                ..f
            };
        } else {
            self.regs.flags = Flags {
                c: !f.c,
                n: false,
                h: f.c,
                x: (a / 8) % 2 == 1,
                y: (a / 32) % 2 == 1,
                ..f
            };
        }
    }

    fn x0(&mut self, y: u8, z: u8, p: u8, q: bool, prefix: PrefixAddressing)
        requires
            old(self).wf(),
            y < 8,
        ensures
            final(self).wf(),
            final(self)@ == sp_x0(old(self)@, y, z, p, q, prefix),
    {
        if z == 0 {
            self.x0z0(y);
        } else if z == 1 {
            self.x0z1(p, q, prefix);
        } else if z == 2 {
            self.x0z2(p, q, prefix);
        } else if z == 3 {
            self.x0z3(p, q, prefix);
        } else if z == 4 {
            let dest = self.operand_r(y, prefix, true);
            self.inc_op(dest);
        } else if z == 5 {
            let dest = self.operand_r(y, prefix, true);
            self.dec_op(dest);
        } else if z == 6 {
            let dest = self.operand_r(y, prefix, true);
            let n = self.fetch();
            self.ld(dest, Loc8::Imm(n));
        } else {
            self.x0z7(y);
        }
    }

    fn x1(&mut self, y: u8, z: u8, prefix: PrefixAddressing)
        requires
            old(self).wf(),
        ensures
            final(self).wf(),
            final(self)@ == sp_x1(old(self)@, y, z, prefix),
    {
        if y == 6 && z == 6 {
            self.regs.halted = true;
        } else {
            let halves = y != 6 && z != 6;
            let dest = self.operand_r(y, prefix, halves);
            let src = self.operand_r(z, prefix, halves);
            self.ld(dest, src);
        }
    }

    fn x2(&mut self, y: u8, z: u8, prefix: PrefixAddressing)
        requires
            old(self).wf(),
        ensures
            final(self).wf(),
            final(self)@ == sp_x2(old(self)@, y, z, prefix),
    {
        let operation = alu_of(y);
        let src = self.operand_r(z, prefix, true);
        let value = self.read_8(src);
        self.alu_op(operation, value);
    }

    fn x3z1(&mut self, p: u8, q: bool, prefix: PrefixAddressing)
        requires
            old(self).wf(),
        ensures
            final(self).wf(),
            final(self)@ == sp_x3z1(old(self)@, p, q, prefix),
    {
        if !q {
            let rp = table_rp2(p, prefix);
            let value = self.pop();
            self.set_register_pair(rp, value);
        } else if p == 0 {
            let v = self.pop();
            self.regs.pc = v;
        } else if p == 1 {
            self.exx();
        } else if p == 2 {
            let v = self.get_register_pair(table_hl(prefix));
            self.regs.pc = v;
        } else {
            let v = self.get_register_pair(table_hl(prefix));
            self.regs.sp = v;
        }
    }

    /// Pushes PC and jumps to `target`.
    pub fn call(&mut self, target: u16)
        requires
            old(self).wf(),
        ensures
            final(self).wf(),
            final(self)@ == call_to(old(self)@, target),
    {
        let pc = self.regs.pc;
        self.push(pc);
        self.regs.pc = target;
    }

    fn ex_sp_hl(&mut self, prefix: PrefixAddressing)
        requires
            old(self).wf(),
        ensures
            final(self).wf(),
            final(self)@ == ({
                let s = old(self)@;
                let t = spec_word(s.mem, s.regs.sp);
                let hl = pair(s.regs, hl_pair(prefix));
                s_set_pair(s_store16(s, s.regs.sp, hl), hl_pair(prefix), t)
            }),
    {
        let sp = self.regs.sp;
        let t = self.memory.read_word(sp);
        let rp = table_hl(prefix);
        let hl = self.get_register_pair(rp);
        self.memory.write_word(sp, hl);
        self.set_register_pair(rp, t);
    }

    fn out_n_a(&mut self)
        requires
            old(self).wf(),
        ensures
            final(self).wf(),
            final(self)@ == ({
                let (s1, n) = fetch8(old(self)@);
                io_write(s1, n as u16, s1.regs.a)
            }),
    {
        let port = self.fetch() as u16;
        let a = self.regs.a;
        self.write_io(port, a);
    }

    fn in_a_n(&mut self)
        requires
            old(self).wf(),
        ensures
            final(self).wf(),
            final(self)@ == ({
                let (s1, n) = fetch8(old(self)@);
                let (s2, v) = io_read(s1, n as u16);
                s_set_a(s2, v)
            }),
    {
        let port = self.fetch() as u16;
        let val = self.read_io(port);
        self.regs.a = val;
    }

    fn ex_de_hl(&mut self)
        requires
            old(self).wf(),
        ensures
            final(self).wf(),
            final(self)@ == ({
                let s = old(self)@;
                let de = pair(s.regs, RegisterPair::DE);
                let hl = pair(s.regs, RegisterPair::HL);
                s_set_pair(s_set_pair(s, RegisterPair::DE, hl), RegisterPair::HL, de)
            }),
    {
        let de = self.get_register_pair(RegisterPair::DE);
        let hl = self.get_register_pair(RegisterPair::HL);
        self.set_register_pair(RegisterPair::DE, hl);
        self.set_register_pair(RegisterPair::HL, de);
    }

    fn x3z3(&mut self, y: u8, prefix: PrefixAddressing)
        requires
            old(self).wf(),
        ensures
            final(self).wf(),
            final(self)@ == sp_x3z3(old(self)@, y, prefix),
    {
        if y == 0 {
            let nn = self.fetch_word();
            self.regs.pc = nn;
        } else if y == 2 {
            self.out_n_a();
        } else if y == 3 {
            self.in_a_n();
        } else if y == 4 {
            self.ex_sp_hl(prefix);
        } else if y == 5 {
            self.ex_de_hl();
        } else if y == 6 {
            self.regs.iff1 = false;
            self.regs.iff2 = false;
            self.regs.iff_delay = 0;
        } else {
            self.regs.iff_delay = 2;
        }
    }

    fn x3(&mut self, y: u8, z: u8, p: u8, q: bool, prefix: PrefixAddressing)
        requires
            old(self).wf(),
            y < 8,
        ensures
            final(self).wf(),
            final(self)@ == sp_x3(old(self)@, y, z, p, q, prefix),
    {
        if z == 0 {
            let condition = table_cc(y);
            if self.evaluate_condition(condition) {
                let v = self.pop();
                self.regs.pc = v;
            }
        } else if z == 1 {
            self.x3z1(p, q, prefix);
        } else if z == 2 {
            let condition = table_cc(y);
            let addr = self.fetch_word();
            if self.evaluate_condition(condition) {
                self.regs.pc = addr;
            }
        } else if z == 3 {
            self.x3z3(y, prefix);
        } else if z == 4 {
            let condition = table_cc(y);
            let addr = self.fetch_word();
            if self.evaluate_condition(condition) {
                self.call(addr);
            }
        } else if z == 5 {
            if !q {
                let rp = table_rp2(p, prefix);
                let value = self.get_register_pair(rp);
                self.push(value);
            } else {
                let addr = self.fetch_word();
                self.call(addr);
            }
        } else if z == 6 {
            let operation = alu_of(y);
            let n = self.fetch();
            self.alu_op(operation, n);
        } else {
            self.call(y as u16 * 8);
        }
    }
}

/// Decodes and runs an opcode of the unprefixed page; under a DD or FD
/// prefix HL stands for IX or IY. Prefix bytes themselves are dispatched
/// before this is reached.
pub fn decode_unprefixed(cpu: &mut Z80A, opcode: u8, addressing: PrefixAddressing)
    requires
        old(cpu).wf(),
        is_plain_opcode(opcode),
    ensures
        final(cpu).wf(),
        final(cpu)@ == spec_unprefixed(old(cpu)@, opcode, addressing),
{
    let (x, y, z, p, q) = decode_opcode(opcode);
    if x == 0 {
        cpu.x0(y, z, p, q, addressing);
    } else if x == 1 {
        cpu.x1(y, z, addressing);
    } else if x == 2 {
        cpu.x2(y, z, addressing);
    } else {
        cpu.x3(y, z, p, q, addressing);
    }
}

} // verus!

verus! {

// ----- ED page -----

/// The flags after `IN r, (C)`: S, Z and P/V from the byte, H and N cleared.
pub open spec fn in_flags(f: Flags, v: u8) -> Flags {
    Flags { s: v >= 128, z: v == 0, h: false, n: false, pv: parity_even(v), ..f }
}

/// Port I/O through C (x = 1, z = 0 and 1 of the ED page); the port address is BC.
pub open spec fn sp_ed_io(s: CpuState, y: u8, z: u8) -> CpuState {
    let port = spec_make_word(s.regs.b, s.regs.c);
    if z == 0 {
        let (s1, v) = io_read(s, port);
        let s2 = if y == 6 {
            s1
        } else {
            wr8(s1, Loc8::Reg(r_reg(y)), v)
        };
        with_flags(s2, in_flags(s2.regs.flags, v))
    } else {
        let v = if y == 6 {
            0u8
        } else {
            rd8(s, Loc8::Reg(r_reg(y)))
        };
        io_write(s, port, v)
    }
}

/// Loads of I and R and the decimal rotates (x = 1, z = 7 of the ED page).
pub open spec fn sp_ed_z7(s: CpuState, y: u8) -> CpuState {
    let a = s.regs.a;
    if y == 0 {
        with_regs(s, Registers { i: a, ..s.regs })
    } else if y == 1 {
        with_regs(s, Registers { r: a, ..s.regs })
    } else if y == 2 || y == 3 {
        let v = if y == 2 {
            s.regs.i
        } else {
            s.regs.r
        };
        with_regs(s, Registers {
            a: v,
            flags: Flags { s: v >= 128, z: v == 0, h: false, n: false, pv: s.regs.iff2, ..s.regs.flags },
            ..s.regs
        })
    } else if y == 4 || y == 5 {
        let hl = pair(s.regs, RegisterPair::HL);
        let m = s.mem[hl as int];
        let new_a: u8 = if y == 4 {
            ((a / 16) * 16 + m % 16) as u8
        } else {
            ((a / 16) * 16 + m / 16) as u8
        };
        let new_m: u8 = if y == 4 {
            ((a % 16) * 16 + m / 16) as u8
        } else {
            ((m % 16) * 16 + a % 16) as u8
        };
        CpuState {
            mem: s.mem.update(hl as int, new_m),
            regs: Registers {
                a: new_a,
                flags: Flags {
                    s: new_a >= 128,
                    z: new_a == 0,
                    pv: parity_even(new_a),
                    h: false,
                    n: false,
                    x: bit3(new_a as int),
                    y: bit5(new_a as int),
                    ..s.regs.flags
                },
                ..s.regs
            },
            ..s
        }
    } else {
        s
    }
}

/// The instructions with x = 1 of the ED page.
pub open spec fn sp_ed_x1(s: CpuState, y: u8, z: u8, p: u8, q: bool) -> CpuState {
    if z <= 1 {
        sp_ed_io(s, y, z)
    } else if z == 2 {
        s_arith16(s, RegisterPair::HL, rp_of(p, PrefixAddressing::HL), if q {
            1
        } else {
            2
        })
    } else if z == 3 {
        let (s1, addr) = fetch16(s);
        if !q {
            s_store16(s1, addr, pair(s1.regs, rp_of(p, PrefixAddressing::HL)))
        } else {
            s_set_pair(s1, rp_of(p, PrefixAddressing::HL), spec_word(s1.mem, addr))
        }
    } else if z == 4 {
        if y == 0 {
            let (r, f) = spec_sub8(0, s.regs.a, false);
            with_regs(s, Registers { a: r, flags: f, ..s.regs })
        } else {
            s
        }
    } else if z == 5 {
        if y == 0 {
            let s1 = with_regs(s, Registers { iff1: s.regs.iff2, ..s.regs });
            let (s2, v) = pop16(s1);
            s_jump(s2, v)
        } else if y == 1 {
            let (s1, v) = pop16(s);
            s_jump(s1, v)
        } else {
            s
        }
    } else if z == 6 {
        if y == 0 {
            with_regs(s, Registers { interrupt_mode: 0, ..s.regs })
        } else if y == 2 {
            with_regs(s, Registers { interrupt_mode: 1, ..s.regs })
        } else if y == 3 {
            with_regs(s, Registers { interrupt_mode: 2, ..s.regs })
        } else {
            s
        }
    } else {
        sp_ed_z7(s, y)
    }
}

/// The effect of an opcode of the ED page; opcodes without an instruction do nothing.
pub open spec fn spec_ed(s: CpuState, op: u8) -> CpuState {
    let x = op_x(op);
    let y = op_y(op);
    let z = op_z(op);
    if x == 1 {
        sp_ed_x1(s, y, z, op_p(op), op_q(op))
    } else if x == 2 {
        if z <= 3 && y >= 4 {
            spec_block(s, bli_of(y, z))
        } else {
            s
        }
    } else {
        s
    }
}

impl Z80A {
    fn ed_io(&mut self, y: u8, z: u8)
        requires
            old(self).wf(),
            z <= 1,
        ensures
            final(self).wf(),
            final(self)@ == sp_ed_io(old(self)@, y, z),
    {
        let c = self.regs.c;
        let b = self.regs.b;
        let port = make_word(b, c);
        if z == 0 {
            let val = self.read_io(port);
            if y != 6 {
                let reg = table_r(y);
                self.write_8(Loc8::Reg(reg), val);
            }
            let f = self.regs.flags;
            self.regs.flags = Flags { s: val >= 128, z: val == 0, h: false, n: false, pv: parity(val), ..f };
        } else {
            let value = if y == 6 {
                0u8
            } else {
                let reg = table_r(y);
                self.read_8(Loc8::Reg(reg))
            };
            self.write_io(port, value);
        }
    }

    #[verifier::rlimit(30)]
    fn ed_z7(&mut self, y: u8)
        requires
            old(self).wf(),
        ensures
            final(self).wf(),
            final(self)@ == sp_ed_z7(old(self)@, y),
    {
        let a = self.regs.a;
        if y == 0 {
            self.regs.i = a;
        } else if y == 1 {
            self.regs.r = a;
        } else if y == 2 || y == 3 {
            let v = if y == 2 {
                self.regs.i
            } else {
                self.regs.r
            };
            let f = self.regs.flags;
            self.regs.a = v;
            self.regs.flags = Flags { s: v >= 128, z: v == 0, h: false, n: false, pv: self.regs.iff2, ..f };
        } else if y == 4 || y == 5 {
            let hl_addr = self.get_register_pair(RegisterPair::HL);
            let value = self.memory.read(hl_addr);
            let new_a: u8 = if y == 4 {
                (a / 16) * 16 + value % 16
            } else {
                (a / 16) * 16 + value / 16
            };
            let new_hl: u8 = if y == 4 {
                (a % 16) * 16 + value / 16
            } else {
                (value % 16) * 16 + a % 16
            };
            self.memory.write(hl_addr, new_hl);
            let f = self.regs.flags;
            self.regs.a = new_a;
            self.regs.flags = Flags {
                s: new_a >= 128,
                z: new_a == 0,
                pv: parity(new_a),
                h: false,
                n: false,
                x: (new_a / 8) % 2 == 1,
                y: (new_a / 32) % 2 == 1,
                ..f
            };
        }
    }

    fn ed_x1(&mut self, y: u8, z: u8, p: u8, q: bool)
        requires
            old(self).wf(),
            z < 8,
        ensures
            final(self).wf(),
            final(self)@ == sp_ed_x1(old(self)@, y, z, p, q),
    {
        if z <= 1 {
            self.ed_io(y, z);
        } else if z == 2 {
            let rp = table_rp(p, PrefixAddressing::HL);
            if !q {
                self.arith_16(RegisterPair::HL, rp, 2);
            } else {
                self.arith_16(RegisterPair::HL, rp, 1);
            }
        } else if z == 3 {
            let addr = self.fetch_word();
            let rp = table_rp(p, PrefixAddressing::HL);
            if !q {
                let v = self.get_register_pair(rp);
                self.memory.write_word(addr, v);
            } else {
                let v = self.memory.read_word(addr);
                self.set_register_pair(rp, v);
            }
        } else if z == 4 {
            if y == 0 {
                let a = self.regs.a;
                let (result, alu_flags) = sub8(0, a, false);
                self.regs.a = result;
                self.regs.flags = alu_flags;
            }
        } else if z == 5 {
            if y == 0 {
                self.regs.iff1 = self.regs.iff2;
                let v = self.pop();
                self.regs.pc = v;
            } else if y == 1 {
                let v = self.pop();
                self.regs.pc = v;
            }
        } else if z == 6 {
            if y == 0 {
                self.regs.interrupt_mode = 0;
            } else if y == 2 {
                self.regs.interrupt_mode = 1;
            } else if y == 3 {
                self.regs.interrupt_mode = 2;
            }
        } else {
            self.ed_z7(y);
        }
    }
}

/// Decodes and runs an opcode of the ED page.
pub fn decode_ed(cpu: &mut Z80A, opcode: u8)
    requires
        old(cpu).wf(),
    ensures
        final(cpu).wf(),
        final(cpu)@ == spec_ed(old(cpu)@, opcode),
{
    let (x, y, z, p, q) = decode_opcode(opcode);
    if x == 1 {
        cpu.ed_x1(y, z, p, q);
    } else if x == 2 {
        if z <= 3 && y >= 4 {
            let inst = table_bli(y, z);
            cpu.execute_block_instruction(inst);
        }
    }
}

} // verus!

verus! {

// ----- CB page -----

/// The mask of bit `y`.
pub open spec fn bit_mask(y: u8) -> u8 {
    if y == 0 {
        1
    } else if y == 1 {
        2
    } else if y == 2 {
        4
    } else if y == 3 {
        8
    } else if y == 4 {
        16
    } else if y == 5 {
        32
    } else if y == 6 {
        64
    } else {
        128
    }
}

/// Whether bit `y` of `v` is set.
pub open spec fn bit_is_set(v: u8, y: u8) -> bool {
    (v / bit_mask(y)) % 2 == 1
}

/// The flags after `BIT y` of `v`: Z and P/V tell that the bit is clear, S
/// that bit 7 is tested and set; H is set, N cleared, C kept.
pub open spec fn bit_flags(v: u8, y: u8, f: Flags) -> Flags {
    let set = bit_is_set(v, y);
    Flags {
        z: !set,
        pv: !set,
        s: y == 7 && set,
        h: true,
        n: false,
        y: bit5(v as int),
        x: bit3(v as int),
        ..f
    }
}

/// The byte and flags after a rotate (x = 0), `RES` (x = 2) or `SET` (x = 3) on `v`.
pub open spec fn cb_result(x: u8, y: u8, v: u8, f: Flags) -> (u8, Flags) {
    if x == 0 {
        let (r, c) = spec_rot(super::alu::spec_rot_of(y), v, f.c);
        (r, Flags { c, ..super::alu::logic_flags(r, false) })
    } else if x == 2 {
        (if bit_is_set(v, y) {
            (v - bit_mask(y)) as u8
        } else {
            v
        }, f)
    } else {
        (if bit_is_set(v, y) {
            v
        } else {
            (v + bit_mask(y)) as u8
        }, f)
    }
}

/// The effect of an opcode of the CB page: rotates and shifts, `BIT`, `RES`, `SET`.
pub open spec fn spec_cb(s: CpuState, op: u8) -> CpuState {
    let x = op_x(op);
    let y = op_y(op);
    let z = op_z(op);
    let loc = if z == 6 {
        Loc8::Mem(pair(s.regs, RegisterPair::HL))
    } else {
        Loc8::Reg(r_reg(z))
    };
    let v = rd8(s, loc);
    if x == 1 {
        with_flags(s, bit_flags(v, y, s.regs.flags))
    } else {
        let (r, f) = cb_result(x, y, v, s.regs.flags);
        with_flags(wr8(s, loc, r), f)
    }
}

/// The effect of a DD CB or FD CB opcode on the byte at `addr`; except for
/// `BIT`, a register field other than 6 also receives the result.
pub open spec fn spec_indexed_cb(s: CpuState, addr: u16, op: u8) -> CpuState {
    let x = op_x(op);
    let y = op_y(op);
    let z = op_z(op);
    let v = s.mem[addr as int];
    if x == 1 {
        with_flags(s, bit_flags(v, y, s.regs.flags))
    } else {
        let (r, f) = cb_result(x, y, v, s.regs.flags);
        let s1 = wr8(s, Loc8::Mem(addr), r);
        let s2 = if z != 6 {
            wr8(s1, Loc8::Reg(r_reg(z)), r)
        } else {
            s1
        };
        with_flags(s2, f)
    }
}

fn mask_of(y: u8) -> (m: u8)
    ensures
        m == bit_mask(y),
{
    if y == 0 {
        1
    } else if y == 1 {
        2
    } else if y == 2 {
        4
    } else if y == 3 {
        8
    } else if y == 4 {
        16
    } else if y == 5 {
        32
    } else if y == 6 {
        64
    } else {
        128
    }
}

fn bit_flags_of(v: u8, y: u8, f: Flags) -> (g: Flags)
    ensures
        g == bit_flags(v, y, f),
{
    let set = (v / mask_of(y)) % 2 == 1;
    Flags {
        z: !set,
        pv: !set,
        s: y == 7 && set,
        h: true,
        n: false,
        y: (v / 32) % 2 == 1,
        x: (v / 8) % 2 == 1,
        ..f
    }
}

fn cb_result_of(x: u8, y: u8, v: u8, f: Flags) -> (r: (u8, Flags))
    requires
        x != 1,
    ensures
        r == cb_result(x, y, v, f),
{
    let m = mask_of(y);
    let set = (v / m) % 2 == 1;
    if x == 0 {
        let (r, c) = rot(super::alu::rot_of(y), v, f.c);
        (r, Flags { c, ..super::alu::logic(r, false) })
    } else if x == 2 {
        (if set {
            v - m
        } else {
            v
        }, f)
    } else {
        proof {
            if !set {
                assert(v as int + m <= 255) by {
                    assert(m == 1 || m == 2 || m == 4 || m == 8 || m == 16 || m == 32 || m == 64 || m
                        == 128);
                }
            }
        }
        (if set {
            v
        } else {
            v + m
        }, f)
    }
}

/// Decodes and runs an opcode of the CB page.
pub fn decode_cb(cpu: &mut Z80A, opcode: u8)
    requires
        old(cpu).wf(),
    ensures
        final(cpu).wf(),
        final(cpu)@ == spec_cb(old(cpu)@, opcode),
{
    let (x, y, z, _p, _q) = decode_opcode(opcode);
    let loc = if z == 6 {
        Loc8::Mem(cpu.get_register_pair(RegisterPair::HL))
    } else {
        Loc8::Reg(table_r(z))
    };
    let v = cpu.read_8(loc);
    let f = cpu.regs.flags;
    if x == 1 {
        cpu.regs.flags = bit_flags_of(v, y, f);
    } else {
        let (r, f2) = cb_result_of(x, y, v, f);
        cpu.write_8(loc, r);
        cpu.regs.flags = f2;
    }
}

/// Decodes and runs a DD CB or FD CB opcode on the byte at `addr`.
pub fn decode_indexed_cb(cpu: &mut Z80A, addr: u16, opcode: u8)
    requires
        old(cpu).wf(),
    ensures
        final(cpu).wf(),
        final(cpu)@ == spec_indexed_cb(old(cpu)@, addr, opcode),
{
    let (x, y, z, _p, _q) = decode_opcode(opcode);
    let v = cpu.memory.read(addr);
    let f = cpu.regs.flags;
    if x == 1 {
        cpu.regs.flags = bit_flags_of(v, y, f);
    } else {
        let (r, f2) = cb_result_of(x, y, v, f);
        cpu.write_8(Loc8::Mem(addr), r);
        if z != 6 {
            let reg = table_r(z);
            cpu.write_8(Loc8::Reg(reg), r);
        }
        cpu.regs.flags = f2;
    }
}

// ----- laws of single instructions -----

/// The value of a byte read as a two's-complement signed number.
pub open spec fn signed_byte(b: u8) -> int {
    if b >= 128 {
        b - 256
    } else {
        b as int
    }
}

/// The byte at `offset` past PC.
pub open spec fn code_at(s: CpuState, offset: int) -> u8 {
    s.mem[(s.regs.pc + offset) % 0x10000]
}

/// HL as a number.
pub open spec fn hl_value(r: Registers) -> int {
    r.h * 256 + r.l
}

/// The register pair with `p` = 0, 1, 2, 3 (BC, DE, HL, SP), as a number.
pub open spec fn rr_value(r: Registers, p: u8) -> int {
    if p == 0 {
        r.b * 256 + r.c
    } else if p == 1 {
        r.d * 256 + r.e
    } else if p == 2 {
        r.h * 256 + r.l
    } else {
        r.sp as int
    }
}

proof fn lemma_signed_disp(b: u8)
    ensures
        (b as i8) as int == signed_byte(b),
{
    assert(b >= 128 ==> (b as i8) as int == b as int - 256) by (bit_vector);
    assert(b < 128 ==> (b as i8) as int == b as int) by (bit_vector);
}

/// `DJNZ d`: B counts down by one (wrapping); the jump to the address after
/// the two-byte instruction plus `d` (signed) is taken exactly when B is
/// then non-zero, and otherwise execution goes on right after the
/// instruction. Nothing else but the refresh counter changes.
#[verifier::rlimit(40)]
pub proof fn lemma_djnz(s: CpuState)
    requires
        s.mem.len() == 0x10000,
        code_at(s, 0) == 0x10,
    ensures
        spec_execute(s).regs.b == (s.regs.b + 255) % 256,
        spec_execute(s).regs.pc == (if (s.regs.b + 255) % 256 != 0 {
            (s.regs.pc + 2 + signed_byte(code_at(s, 1)) + 0x10000) % 0x10000
        } else {
            (s.regs.pc + 2) % 0x10000
        }),
        spec_execute(s).mem == s.mem,
        spec_execute(s).devs == s.devs,
        spec_execute(s).regs.flags == s.regs.flags,
        spec_execute(s).regs.a == s.regs.a,
        spec_execute(s).regs.c == s.regs.c,
{
    let s0 = with_regs(s, Registers { r: super::refresh(s.regs.r), ..s.regs });
    let s1 = fetch8(s0).0;
    assert(fetch8(s0).1 == 0x10);
    assert(spec_execute(s) == spec_unprefixed(s1, 0x10, PrefixAddressing::HL));
    assert(op_x(0x10) == 0 && op_y(0x10) == 2 && op_z(0x10) == 0 && op_p(0x10) == 1 && !op_q(0x10));
    assert(spec_unprefixed(s1, 0x10, PrefixAddressing::HL) == sp_x0z0(s1, 2));
    lemma_signed_disp(code_at(s, 1));
}

/// `JR d`: the jump to the address after the two-byte instruction plus `d`
/// (signed) is always taken; only PC (and the refresh counter) change.
#[verifier::rlimit(40)]
pub proof fn lemma_jr(s: CpuState)
    requires
        s.mem.len() == 0x10000,
        code_at(s, 0) == 0x18,
    ensures
        spec_execute(s).regs.pc == (s.regs.pc + 2 + signed_byte(code_at(s, 1)) + 0x10000) % 0x10000,
        spec_execute(s).regs.b == s.regs.b,
        spec_execute(s).regs.flags == s.regs.flags,
        spec_execute(s).mem == s.mem,
{
    let s0 = with_regs(s, Registers { r: super::refresh(s.regs.r), ..s.regs });
    let s1 = fetch8(s0).0;
    assert(fetch8(s0).1 == 0x18);
    assert(spec_execute(s) == spec_unprefixed(s1, 0x18, PrefixAddressing::HL));
    assert(op_x(0x18) == 0 && op_y(0x18) == 3 && op_z(0x18) == 0);
    assert(spec_unprefixed(s1, 0x18, PrefixAddressing::HL) == sp_x0z0(s1, 3));
    lemma_signed_disp(code_at(s, 1));
}

/// `SCF` (0x37) sets the carry and `CCF` (0x3F) complements it; both leave
/// A and memory alone and go on to the next byte.
#[verifier::rlimit(40)]
pub proof fn lemma_scf_ccf(s: CpuState)
    requires
        s.mem.len() == 0x10000,
        code_at(s, 0) == 0x37 || code_at(s, 0) == 0x3F,
    ensures
        code_at(s, 0) == 0x37 ==> spec_execute(s).regs.flags.c,
        code_at(s, 0) == 0x3F ==> spec_execute(s).regs.flags.c == !s.regs.flags.c,
        !spec_execute(s).regs.flags.n,
        spec_execute(s).regs.a == s.regs.a,
        spec_execute(s).mem == s.mem,
        spec_execute(s).regs.pc == (s.regs.pc + 1) % 0x10000,
{
    let op = code_at(s, 0);
    let s0 = with_regs(s, Registers { r: super::refresh(s.regs.r), ..s.regs });
    let s1 = fetch8(s0).0;
    assert(fetch8(s0).1 == op);
    assert(spec_execute(s) == spec_unprefixed(s1, op, PrefixAddressing::HL));
    assert(op_x(op) == 0 && op_z(op) == 7 && (op_y(op) == 6 || op_y(op) == 7));
    assert(spec_unprefixed(s1, op, PrefixAddressing::HL) == sp_x0z7(s1, op_y(op)));
}

/// `SBC HL, rr` (ED 42 + 16p) leaves HL = HL - rr - C modulo 2^16, with the
/// incoming carry counting one when set, and sets the carry exactly on a
/// borrow; `ADC HL, rr` (ED 4A + 16p) leaves HL = HL + rr + C modulo 2^16
/// and sets the carry exactly on a carry out. Here rr is BC, DE, HL or SP
/// for p = 0, 1, 2, 3. Execution goes on after the two-byte instruction.
#[verifier::rlimit(40)]
pub proof fn lemma_sbc_adc_hl(s: CpuState, p: u8)
    requires
        s.mem.len() == 0x10000,
        p < 4,
        code_at(s, 0) == 0xED,
        code_at(s, 1) == 0x42 + 16 * p || code_at(s, 1) == 0x4A + 16 * p,
    ensures
        code_at(s, 1) == 0x42 + 16 * p ==> {
            &&& hl_value(spec_execute(s).regs) == (hl_value(s.regs) - rr_value(s.regs, p) - (if s.regs.flags.c {
                1int
            } else {
                0
            }) + 0x20000) % 0x10000
            &&& spec_execute(s).regs.flags.c == (hl_value(s.regs) - rr_value(s.regs, p) - (if s.regs.flags.c {
                1int
            } else {
                0
            }) < 0)
        },
        code_at(s, 1) == 0x4A + 16 * p ==> {
            &&& hl_value(spec_execute(s).regs) == (hl_value(s.regs) + rr_value(s.regs, p) + (if s.regs.flags.c {
                1int
            } else {
                0
            })) % 0x10000
            &&& spec_execute(s).regs.flags.c == (hl_value(s.regs) + rr_value(s.regs, p) + (if s.regs.flags.c {
                1int
            } else {
                0
            }) >= 0x10000)
        },
        spec_execute(s).regs.pc == (s.regs.pc + 2) % 0x10000,
        spec_execute(s).mem == s.mem,
{
    let op = code_at(s, 1);
    assert(op_x(op) == 1 && op_z(op) == 2 && op_p(op) == p);
    assert(op == 0x42 + 16 * p ==> !op_q(op));
    assert(op == 0x4A + 16 * p ==> op_q(op));
    let s0 = with_regs(s, Registers { r: super::refresh(s.regs.r), ..s.regs });
    let s1 = fetch8(s0).0;
    let s2 = fetch8(s1).0;
    assert(fetch8(s0).1 == 0xED);
    assert(fetch8(s1).1 == op);
    let kind: u8 = if op_q(op) {
        1
    } else {
        2
    };
    let rr = rp_of(p, PrefixAddressing::HL);
    assert(spec_execute(s) == spec_ed(s2, op));
    assert(spec_ed(s2, op) == s_arith16(s2, RegisterPair::HL, rr, kind));
    assert(pair(s2.regs, rr) as int == rr_value(s.regs, p));
    assert(pair(s2.regs, RegisterPair::HL) as int == hl_value(s.regs));
}

/// `ADD HL, rr` (09 + 16p) leaves HL = HL + rr modulo 2^16 and sets the
/// carry exactly on a carry out; rr is BC, DE, HL or SP for p = 0, 1, 2, 3.
#[verifier::rlimit(40)]
pub proof fn lemma_add_hl(s: CpuState, p: u8)
    requires
        s.mem.len() == 0x10000,
        p < 4,
        code_at(s, 0) == 0x09 + 16 * p,
    ensures
        hl_value(spec_execute(s).regs) == (hl_value(s.regs) + rr_value(s.regs, p)) % 0x10000,
        spec_execute(s).regs.flags.c == (hl_value(s.regs) + rr_value(s.regs, p) >= 0x10000),
        spec_execute(s).regs.pc == (s.regs.pc + 1) % 0x10000,
{
    let op = code_at(s, 0);
    assert(op_x(op) == 0 && op_z(op) == 1 && op_p(op) == p && op_q(op));
    let s0 = with_regs(s, Registers { r: super::refresh(s.regs.r), ..s.regs });
    let s1 = fetch8(s0).0;
    assert(fetch8(s0).1 == op);
    assert(spec_execute(s) == spec_unprefixed(s1, op, PrefixAddressing::HL));
    assert(spec_unprefixed(s1, op, PrefixAddressing::HL) == sp_x0z1(s1, p, true, PrefixAddressing::HL));
}

/// The block instructions of the ED page (A0-A3, A8-AB, B0-B3, B8-BB):
/// HL moves up when bit 3 of the opcode is clear and down when it is set;
/// the low two bits choose transfer (LDI...), search (CPI...), input or
/// output; the B0-BB forms repeat, going back to the ED prefix, while the
/// count is non-zero (and, for searches, no match was found), else
/// execution goes on after the two-byte instruction.
#[verifier::rlimit(40)]
pub proof fn lemma_block_opcodes(s: CpuState)
    requires
        s.mem.len() == 0x10000,
        code_at(s, 0) == 0xED,
        0xA0 <= code_at(s, 1) <= 0xBB,
        code_at(s, 1) % 8 <= 3,
    ensures
        ({
            let op = code_at(s, 1);
            let t = spec_execute(s);
            let hl = hl_value(s.regs);
            let up = (op / 8) % 2 == 0;
            let rep = op >= 0xB0;
            let v = s.mem[hl];
            let bc2 = (s.regs.b * 256 + s.regs.c + 0xFFFF) % 0x10000;
            let b2 = (s.regs.b + 255) % 256;
            &&& hl_value(t.regs) == (if up {
                (hl + 1) % 0x10000
            } else {
                (hl + 0xFFFF) % 0x10000
            })
            &&& op % 8 == 0 ==> {
                &&& t.mem == s.mem.update(s.regs.d * 256 + s.regs.e, v)
                &&& t.regs.b * 256 + t.regs.c == bc2
                &&& t.regs.d * 256 + t.regs.e == (if up {
                    (s.regs.d * 256 + s.regs.e + 1) % 0x10000
                } else {
                    (s.regs.d * 256 + s.regs.e + 0xFFFF) % 0x10000
                })
                &&& t.regs.pc == (if rep && bc2 != 0 {
                    s.regs.pc as int
                } else {
                    (s.regs.pc + 2) % 0x10000
                })
            }
            &&& op % 8 == 1 ==> {
                &&& t.mem == s.mem
                &&& t.regs.a == s.regs.a
                &&& t.regs.b * 256 + t.regs.c == bc2
                &&& t.regs.flags.z == (s.regs.a == v)
                &&& t.regs.pc == (if rep && bc2 != 0 && s.regs.a != v {
                    s.regs.pc as int
                } else {
                    (s.regs.pc + 2) % 0x10000
                })
            }
            &&& op % 8 >= 2 ==> {
                &&& t.regs.b == b2
                &&& t.regs.pc == (if rep && b2 != 0 {
                    s.regs.pc as int
                } else {
                    (s.regs.pc + 2) % 0x10000
                })
            }
        }),
{
    let op = code_at(s, 1);
    assert(op_x(op) == 2 && op_z(op) == op % 8 && op_y(op) >= 4);
    assert(op_y(op) == 4 || op_y(op) == 5 || op_y(op) == 6 || op_y(op) == 7);
    let s0 = with_regs(s, Registers { r: super::refresh(s.regs.r), ..s.regs });
    let s1 = fetch8(s0).0;
    let s2 = fetch8(s1).0;
    assert(fetch8(s0).1 == 0xED);
    assert(fetch8(s1).1 == op);
    assert(spec_execute(s) == spec_ed(s2, op));
    assert(spec_ed(s2, op) == spec_block(s2, bli_of(op_y(op), op_z(op))));
}


/// One when the carry flag is set, else zero.
pub open spec fn carry_value(f: Flags) -> int {
    if f.c {
        1
    } else {
        0
    }
}

/// The accumulator operations with an immediate operand (C6, CE, D6, DE,
/// E6, EE, F6, FE: ADD, ADC, SUB, SBC, AND, XOR, OR, CP with `n`): A and the
/// carry come out as the arithmetic on A and `n` gives them (ADC and SBC
/// counting the incoming carry as one), the logical ones give the bitwise
/// result, and CP leaves A alone with Z set exactly on equality and C
/// exactly when `n` is larger; the others set Z exactly when A comes out
/// zero. Execution goes on after the two bytes.
#[verifier::rlimit(60)]
pub proof fn lemma_alu_immediate(s: CpuState)
    requires
        s.mem.len() == 0x10000,
        code_at(s, 0) >= 0xC0,
        code_at(s, 0) % 8 == 6,
    ensures
        ({
            let op = code_at(s, 0);
            let n = code_at(s, 1);
            let a = s.regs.a;
            let c = carry_value(s.regs.flags);
            let t = spec_execute(s);
            &&& t.regs.pc == (s.regs.pc + 2) % 0x10000
            &&& t.mem == s.mem
            &&& op == 0xC6 ==> t.regs.a == (a + n) % 256 && t.regs.flags.c == (a + n >= 256)
            &&& op == 0xCE ==> t.regs.a == (a + n + c) % 256 && t.regs.flags.c == (a + n + c >= 256)
            &&& op == 0xD6 ==> t.regs.a == (a - n + 256) % 256 && t.regs.flags.c == (a < n)
            &&& op == 0xDE ==> t.regs.a == (a - n - c + 512) % 256 && t.regs.flags.c == (a - n - c < 0)
            &&& op == 0xE6 ==> t.regs.a == a & n
            &&& op == 0xEE ==> t.regs.a == a ^ n
            &&& op == 0xF6 ==> t.regs.a == a | n
            &&& op == 0xFE ==> t.regs.a == a && t.regs.flags.z == (a == n) && t.regs.flags.c == (a < n)
            &&& op != 0xFE ==> t.regs.flags.z == (t.regs.a == 0)
        }),
{
    let op = code_at(s, 0);
    assert(op_x(op) == 3 && op_z(op) == 6);
    assert(op != 0xCB && op != 0xED && op != 0xDD && op != 0xFD);
    let s0 = with_regs(s, Registers { r: super::refresh(s.regs.r), ..s.regs });
    let s1 = fetch8(s0).0;
    assert(fetch8(s0).1 == op);
    assert(spec_execute(s) == spec_unprefixed(s1, op, PrefixAddressing::HL));
    assert(spec_unprefixed(s1, op, PrefixAddressing::HL) == sp_x3(s1, op_y(op), 6, op_p(op), op_q(op), PrefixAddressing::HL));
    let s2 = fetch8(s1).0;
    assert(fetch8(s1).1 == code_at(s, 1));
    assert(sp_x3(s1, op_y(op), 6, op_p(op), op_q(op), PrefixAddressing::HL) == s_alu(s2, spec_alu_of(op_y(op)), code_at(s, 1)));
    let r = spec_alu(spec_alu_of(op_y(op)), s.regs.a, code_at(s, 1), s.regs.flags);
    assert(spec_execute(s).regs.a == r.0 && spec_execute(s).regs.flags == r.1);
    lemma_alu_results(op_y(op), s.regs.a, code_at(s, 1), s.regs.flags);
}

proof fn lemma_add_sub_values(a: u8, n: u8, cin: bool)
    ensures
        super::alu::spec_add8(a, n, cin).0 == (a + n + super::alu::b2i(cin)) % 256,
        super::alu::spec_add8(a, n, cin).1.c == (a + n + super::alu::b2i(cin) >= 256),
        super::alu::spec_add8(a, n, cin).1.z == (super::alu::spec_add8(a, n, cin).0 == 0),
        spec_sub8(a, n, cin).0 == (a - n - super::alu::b2i(cin) + 512) % 256,
        spec_sub8(a, n, cin).1.c == (a - n - super::alu::b2i(cin) < 0),
        spec_sub8(a, n, cin).1.z == (spec_sub8(a, n, cin).0 == 0),
{
    let d = a - n - super::alu::b2i(cin);
    assert(d < 0 ==> (d + 512) % 256 == d + 256);
    assert(d >= 0 ==> (d + 512) % 256 == d);
}

proof fn lemma_alu_results(y: u8, a: u8, n: u8, f: Flags)
    requires
        y < 8,
    ensures
        ({
            let r = spec_alu(spec_alu_of(y), a, n, f);
            let c = carry_value(f);
            &&& y == 0 ==> r.0 == (a + n) % 256 && r.1.c == (a + n >= 256)
            &&& y == 1 ==> r.0 == (a + n + c) % 256 && r.1.c == (a + n + c >= 256)
            &&& y == 2 ==> r.0 == (a - n + 256) % 256 && r.1.c == (a < n)
            &&& y == 3 ==> r.0 == (a - n - c + 512) % 256 && r.1.c == (a - n - c < 0)
            &&& y == 4 ==> r.0 == a & n
            &&& y == 5 ==> r.0 == a ^ n
            &&& y == 6 ==> r.0 == a | n
            &&& y == 7 ==> r.0 == a && r.1.z == (a == n) && r.1.c == (a < n)
            &&& y != 7 ==> r.1.z == (r.0 == 0)
        }),
{
    lemma_add_sub_values(a, n, false);
    lemma_add_sub_values(a, n, f.c);
    assert(super::alu::b2i(f.c) == carry_value(f));
    assert(super::alu::b2i(false) == 0);
    assert(a - n < 0 ==> (a - n + 256) % 256 == (a - n + 512) % 256);
    assert(a - n >= 0 ==> (a - n + 256) % 256 == (a - n + 512) % 256);
}

/// The 8-bit operand with register code `c` in an opcode: B, C, D, E, H, L,
/// the memory at HL, A for 0 to 7.
pub open spec fn operand_by_code(s: CpuState, c: u8) -> u8 {
    if c == 0 {
        s.regs.b
    } else if c == 1 {
        s.regs.c
    } else if c == 2 {
        s.regs.d
    } else if c == 3 {
        s.regs.e
    } else if c == 4 {
        s.regs.h
    } else if c == 5 {
        s.regs.l
    } else if c == 6 {
        s.mem[hl_value(s.regs)]
    } else {
        s.regs.a
    }
}

/// `LD r, r'` (40-7F but 76): the operand with code `y` (bits 5-3) takes the
/// value of the operand with code `z` (bits 2-0); every other register
/// operand keeps its value, memory changes only when the target is (HL),
/// and execution goes on at the next byte. 76 is `HALT`: the CPU stops.
#[verifier::rlimit(40)]
pub proof fn lemma_ld_r_r(s: CpuState)
    requires
        s.mem.len() == 0x10000,
        0x40 <= code_at(s, 0) <= 0x7F,
    ensures
        ({
            let op = code_at(s, 0);
            let y = (op / 8) % 8;
            let z = op % 8;
            let t = spec_execute(s);
            &&& t.regs.pc == (s.regs.pc + 1) % 0x10000
            &&& op == 0x76 ==> t.regs.halted && t.mem == s.mem
            &&& op != 0x76 ==> {
                &&& operand_by_code(t, y) == operand_by_code(s, z)
                &&& forall|c: u8| c < 8 && c != y && c != 6 ==> operand_by_code(t, c) == operand_by_code(s, c)
                &&& y != 6 ==> t.mem == s.mem
                &&& t.regs.flags == s.regs.flags
            }
        }),
{
    let op = code_at(s, 0);
    assert(op_x(op) == 1);
    let s0 = with_regs(s, Registers { r: super::refresh(s.regs.r), ..s.regs });
    let s1 = fetch8(s0).0;
    assert(fetch8(s0).1 == op);
    assert(spec_execute(s) == spec_unprefixed(s1, op, PrefixAddressing::HL));
    assert(spec_unprefixed(s1, op, PrefixAddressing::HL) == sp_x1(s1, op_y(op), op_z(op), PrefixAddressing::HL));
    assert(pair(s1.regs, RegisterPair::HL) as int == hl_value(s.regs));
    if op != 0x76 {
        let t = spec_execute(s);
        let y = op_y(op);
        let z = op_z(op);
        let dest = operand_r(s1, y, PrefixAddressing::HL, true).1;
        let src = operand_r(s1, z, PrefixAddressing::HL, true).1;
        assert(t == s_ld8(s1, dest, src));
        assert(rd8(s1, src) == operand_by_code(s, z));
        assert(forall|c: u8| c < 8 && c != 6 ==> operand_by_code(s1, c) == operand_by_code(s, c));
    }
}

/// The little-endian word whose low byte is at `a` and high byte at the next
/// address (wrapping at the top of memory).
pub open spec fn word_at(mem: Seq<u8>, a: int) -> int {
    mem[a % 0x10000] + 256 * mem[(a + 1) % 0x10000]
}

/// Whether the branch condition with code `y` holds: NZ, Z, NC, C, PO, PE,
/// P, M for 0 to 7.
pub open spec fn condition_by_code(f: Flags, y: u8) -> bool {
    if y == 0 {
        !f.z
    } else if y == 1 {
        f.z
    } else if y == 2 {
        !f.c
    } else if y == 3 {
        f.c
    } else if y == 4 {
        !f.pv
    } else if y == 5 {
        f.pv
    } else if y == 6 {
        !f.s
    } else {
        f.s
    }
}

/// The conditional branches `RET cc` (C0 + 8y), `JP cc, nn` (C2 + 8y) and
/// `CALL cc, nn` (C4 + 8y), with `y` choosing the condition: when it holds,
/// RET pops PC from the stack, JP goes to `nn` and CALL pushes the address
/// after its three bytes and goes to `nn`; when it does not, execution goes
/// on after the instruction and SP and memory stay as they were.
#[verifier::rlimit(80)]
pub proof fn lemma_conditional_branches(s: CpuState)
    requires
        s.mem.len() == 0x10000,
        code_at(s, 0) >= 0xC0,
        code_at(s, 0) % 8 == 0 || code_at(s, 0) % 8 == 2 || code_at(s, 0) % 8 == 4,
    ensures
        ({
            let op = code_at(s, 0);
            let z = op % 8;
            let taken = condition_by_code(s.regs.flags, (op / 8) % 8);
            let nn = code_at(s, 1) + 256 * code_at(s, 2);
            let pc = s.regs.pc as int;
            let sp = s.regs.sp as int;
            let t = spec_execute(s);
            &&& t.regs.flags == s.regs.flags
            &&& !taken ==> t.regs.sp == s.regs.sp && t.mem == s.mem
            &&& z == 0 ==> t.regs.pc == (if taken {
                word_at(s.mem, sp)
            } else {
                (pc + 1) % 0x10000
            })
            &&& z == 0 && taken ==> t.regs.sp == (sp + 2) % 0x10000
            &&& z == 2 ==> t.regs.pc == (if taken {
                nn
            } else {
                (pc + 3) % 0x10000
            })
            &&& z == 4 ==> t.regs.pc == (if taken {
                nn
            } else {
                (pc + 3) % 0x10000
            })
            &&& z == 4 && taken ==> t.regs.sp == (sp + 0xFFFE) % 0x10000 && word_at(t.mem, t.regs.sp as int)
                == (pc + 3) % 0x10000
        }),
{
    let op = code_at(s, 0);
    assert(op_x(op) == 3 && op_z(op) == op % 8);
    assert(op != 0xCB && op != 0xED && op != 0xDD && op != 0xFD);
    let y = op_y(op);
    assert(cond_holds(s.regs.flags, cc_of(y)) == condition_by_code(s.regs.flags, y));
    let s0 = with_regs(s, Registers { r: super::refresh(s.regs.r), ..s.regs });
    let s1 = fetch8(s0).0;
    assert(fetch8(s0).1 == op);
    assert(spec_execute(s) == spec_unprefixed(s1, op, PrefixAddressing::HL));
    assert(spec_unprefixed(s1, op, PrefixAddressing::HL) == sp_x3(s1, y, op % 8, op_p(op), op_q(op), PrefixAddressing::HL));
    let s2 = fetch16(s1).0;
    assert(fetch16(s1).1 as int == code_at(s, 1) + 256 * code_at(s, 2));
    assert(spec_word(s.mem, s.regs.sp) as int == word_at(s.mem, s.regs.sp as int));
    if op % 8 == 4 {
        let sp2 = super::sub2_16(s.regs.sp);
        crate::components::mem_64k::lemma_word_roundtrip(s.mem, sp2, s2.regs.pc);
        assert(spec_word(spec_write_word(s.mem, sp2, s2.regs.pc), sp2) as int == word_at(
            spec_write_word(s.mem, sp2, s2.regs.pc),
            sp2 as int,
        ));
    }
}

/// `INC r` (04 + 8y) and `DEC r` (05 + 8y): the operand with code `y` goes
/// up or down by one, wrapping at 256; Z is set exactly when it comes out
/// zero, the carry is kept, every other register operand keeps its value,
/// and execution goes on at the next byte.
#[verifier::rlimit(60)]
pub proof fn lemma_inc_dec_r(s: CpuState)
    requires
        s.mem.len() == 0x10000,
        code_at(s, 0) < 0x40,
        code_at(s, 0) % 8 == 4 || code_at(s, 0) % 8 == 5,
    ensures
        ({
            let op = code_at(s, 0);
            let y = op / 8;
            let v = operand_by_code(s, y);
            let t = spec_execute(s);
            let r = operand_by_code(t, y);
            &&& op % 8 == 4 ==> r == (v + 1) % 256
            &&& op % 8 == 5 ==> r == (v + 255) % 256
            &&& t.regs.flags.z == (r == 0)
            &&& t.regs.flags.c == s.regs.flags.c
            &&& forall|c: u8| c < 8 && c != y && c != 6 ==> operand_by_code(t, c) == operand_by_code(s, c)
            &&& t.regs.pc == (s.regs.pc + 1) % 0x10000
        }),
{
    let op = code_at(s, 0);
    let y = op_y(op);
    assert(op_x(op) == 0 && op_z(op) == op % 8 && y == op / 8);
    assert(op != 0xCB && op != 0xED && op != 0xDD && op != 0xFD);
    let s0 = with_regs(s, Registers { r: super::refresh(s.regs.r), ..s.regs });
    let s1 = fetch8(s0).0;
    assert(fetch8(s0).1 == op);
    assert(spec_execute(s) == spec_unprefixed(s1, op, PrefixAddressing::HL));
    assert(spec_unprefixed(s1, op, PrefixAddressing::HL) == sp_x0(s1, y, op % 8, op_p(op), op_q(op), PrefixAddressing::HL));
    let loc = operand_r(s1, y, PrefixAddressing::HL, true).1;
    assert(pair(s1.regs, RegisterPair::HL) as int == hl_value(s.regs));
    assert(rd8(s1, loc) == operand_by_code(s, y));
    assert(forall|c: u8| c < 8 && c != 6 ==> operand_by_code(s1, c) == operand_by_code(s, c));
    if op % 8 == 4 {
        assert(spec_execute(s) == s_inc8(s1, loc));
    } else {
        assert(spec_execute(s) == s_dec8(s1, loc));
    }
}

proof fn lemma_bit_ops(v: u8, y: u8)
    requires
        y < 8,
    ensures
        !bit_is_set(v, y) == ((v >> y) & 1 == 0),
{
    if y == 0 {
        assert(((v / 1u8) % 2 != 1) == ((v >> 0u8) & 1 == 0)) by (bit_vector);
    } else if y == 1 {
        assert(((v / 2u8) % 2 != 1) == ((v >> 1u8) & 1 == 0)) by (bit_vector);
    } else if y == 2 {
        assert(((v / 4u8) % 2 != 1) == ((v >> 2u8) & 1 == 0)) by (bit_vector);
    } else if y == 3 {
        assert(((v / 8u8) % 2 != 1) == ((v >> 3u8) & 1 == 0)) by (bit_vector);
    } else if y == 4 {
        assert(((v / 16u8) % 2 != 1) == ((v >> 4u8) & 1 == 0)) by (bit_vector);
    } else if y == 5 {
        assert(((v / 32u8) % 2 != 1) == ((v >> 5u8) & 1 == 0)) by (bit_vector);
    } else if y == 6 {
        assert(((v / 64u8) % 2 != 1) == ((v >> 6u8) & 1 == 0)) by (bit_vector);
    } else if y == 7 {
        assert(((v / 128u8) % 2 != 1) == ((v >> 7u8) & 1 == 0)) by (bit_vector);
    }
}

proof fn lemma_rot_results(y: u8, v: u8, f: Flags)
    requires
        y < 8,
    ensures
        ({
            let r = spec_rot(super::alu::spec_rot_of(y), v, f.c).0 as int;
            let c = spec_rot(super::alu::spec_rot_of(y), v, f.c).1;
            let cin = carry_value(f);
            &&& y == 0 ==> r == (2 * v + v / 128) % 256 && c == (v >= 128)
            &&& y == 1 ==> r == v / 2 + 128 * (v % 2) && c == (v % 2 == 1)
            &&& y == 2 ==> r == (2 * v + cin) % 256 && c == (v >= 128)
            &&& y == 3 ==> r == v / 2 + 128 * cin && c == (v % 2 == 1)
            &&& y == 4 ==> r == (2 * v) % 256 && c == (v >= 128)
            &&& y == 5 ==> r == v / 2 + (if v >= 128 { 128int } else { 0 }) && c == (v % 2 == 1)
            &&& y == 6 ==> r == (2 * v + 1) % 256 && c == (v >= 128)
            &&& y == 7 ==> r == v / 2 && c == (v % 2 == 1)
        }),
{
    assert(super::alu::b2i(f.c) == carry_value(f));
}

/// The rotates and shifts of the CB page (CB 00-3F) on the operand with
/// code `z` (bits 2-0): RLC, RRC, RL, RR, SLA, SRA, SLL, SRL by bits 5-3
/// store the rotated byte and put the bit shifted out into the carry, with
/// Z set exactly when the byte comes out zero. No other register operand
/// changes, and execution goes on after the two bytes.
#[verifier::rlimit(60)]
pub proof fn lemma_cb_rotates(s: CpuState)
    requires
        s.mem.len() == 0x10000,
        code_at(s, 0) == 0xCB,
        0x00 <= code_at(s, 1) <= 0x3F,
    ensures
        ({
            let op = code_at(s, 1);
            let y = (op / 8) % 8;
            let z = op % 8;
            let v = operand_by_code(s, z);
            let cin = carry_value(s.regs.flags);
            let t = spec_execute(s);
            let r = operand_by_code(t, z);
            let c = t.regs.flags.c;
            &&& t.regs.pc == (s.regs.pc + 2) % 0x10000
            &&& forall|k: u8| k < 8 && k != z && k != 6 ==> operand_by_code(t, k) == operand_by_code(s, k)
            &&& {
                &&& y == 0 ==> r == (2 * v + v / 128) % 256 && c == (v >= 128)
                &&& y == 1 ==> r == v / 2 + 128 * (v % 2) && c == (v % 2 == 1)
                &&& y == 2 ==> r == (2 * v + cin) % 256 && c == (v >= 128)
                &&& y == 3 ==> r == v / 2 + 128 * cin && c == (v % 2 == 1)
                &&& y == 4 ==> r == (2 * v) % 256 && c == (v >= 128)
                &&& y == 5 ==> r == v / 2 + (if v >= 128 { 128int } else { 0 }) && c == (v % 2 == 1)
                &&& y == 6 ==> r == (2 * v + 1) % 256 && c == (v >= 128)
                &&& y == 7 ==> r == v / 2 && c == (v % 2 == 1)
                &&& t.regs.flags.z == (r == 0)
            }
        }),
{
    let op = code_at(s, 1);
    let x = op_x(op);
    let y = op_y(op);
    let z = op_z(op);
    let s0 = with_regs(s, Registers { r: super::refresh(s.regs.r), ..s.regs });
    let s1 = fetch8(s0).0;
    let s2 = fetch8(s1).0;
    assert(fetch8(s0).1 == 0xCB);
    assert(fetch8(s1).1 == op);
    assert(spec_execute(s) == spec_cb(s2, op));
    assert(pair(s2.regs, RegisterPair::HL) as int == hl_value(s.regs));
    let loc = if z == 6 {
        Loc8::Mem(pair(s2.regs, RegisterPair::HL))
    } else {
        Loc8::Reg(r_reg(z))
    };
    assert(rd8(s2, loc) == operand_by_code(s, z));
    assert(forall|k: u8| k < 8 ==> operand_by_code(s2, k) == operand_by_code(s, k));
    let v = rd8(s2, loc);
    assert(y == (op / 8) % 8 && z == op % 8 && x == op / 64);
    lemma_rot_results(y, v, s.regs.flags);
    assert(spec_cb(s2, op) == with_flags(wr8(s2, loc, cb_result(x, y, v, s2.regs.flags).0), cb_result(x, y, v, s2.regs.flags).1));
}

/// `BIT b, r` (CB 40-7F): Z is set exactly when bit `b` (bits 5-3) of the
/// operand with code `z` (bits 2-0) is clear; no operand changes, nor the
/// carry or memory, and execution goes on after the two bytes.
#[verifier::rlimit(60)]
pub proof fn lemma_cb_bit(s: CpuState)
    requires
        s.mem.len() == 0x10000,
        code_at(s, 0) == 0xCB,
        0x40 <= code_at(s, 1) <= 0x7F,
    ensures
        ({
            let op = code_at(s, 1);
            let y = (op / 8) % 8;
            let z = op % 8;
            let v = operand_by_code(s, z);
            let cin = carry_value(s.regs.flags);
            let t = spec_execute(s);
            let r = operand_by_code(t, z);
            let c = t.regs.flags.c;
            &&& t.regs.pc == (s.regs.pc + 2) % 0x10000
            &&& forall|k: u8| k < 8 && k != z && k != 6 ==> operand_by_code(t, k) == operand_by_code(s, k)
            &&& {
                &&& t.regs.flags.z == ((v >> y) & 1 == 0)
                &&& t.regs.flags.c == s.regs.flags.c
                &&& t.mem == s.mem
                &&& r == v
            }
        }),
{
    let op = code_at(s, 1);
    let x = op_x(op);
    let y = op_y(op);
    let z = op_z(op);
    let s0 = with_regs(s, Registers { r: super::refresh(s.regs.r), ..s.regs });
    let s1 = fetch8(s0).0;
    let s2 = fetch8(s1).0;
    assert(fetch8(s0).1 == 0xCB);
    assert(fetch8(s1).1 == op);
    assert(spec_execute(s) == spec_cb(s2, op));
    assert(pair(s2.regs, RegisterPair::HL) as int == hl_value(s.regs));
    let loc = if z == 6 {
        Loc8::Mem(pair(s2.regs, RegisterPair::HL))
    } else {
        Loc8::Reg(r_reg(z))
    };
    assert(rd8(s2, loc) == operand_by_code(s, z));
    assert(forall|k: u8| k < 8 ==> operand_by_code(s2, k) == operand_by_code(s, k));
    let v = rd8(s2, loc);
    assert(y == (op / 8) % 8 && z == op % 8 && x == op / 64);
    lemma_bit_ops(v, y);
    assert(spec_cb(s2, op) == with_flags(s2, bit_flags(v, y, s2.regs.flags)));
    assert(spec_execute(s).regs.flags.z == !bit_is_set(v, y));
}

/// `NEG` (ED 44) leaves A = -A modulo 256, with the carry set exactly when
/// A was non-zero and Z exactly when it was zero; `RETN` (ED 45) and `RETI`
/// (ED 4D) pop PC from the stack, `RETN` also copying IFF2 into IFF1; `IM 0`,
/// `IM 1` and `IM 2` (ED 46, 56, 5E) set the interrupt mode to 0, 1 and 2
/// and go on after the two bytes.
#[verifier::rlimit(60)]
pub proof fn lemma_ed_control(s: CpuState)
    requires
        s.mem.len() == 0x10000,
        code_at(s, 0) == 0xED,
        code_at(s, 1) == 0x44 || code_at(s, 1) == 0x45 || code_at(s, 1) == 0x4D || code_at(s, 1) == 0x46
            || code_at(s, 1) == 0x56 || code_at(s, 1) == 0x5E,
    ensures
        ({
            let op = code_at(s, 1);
            let a = s.regs.a;
            let t = spec_execute(s);
            let next = (s.regs.pc + 2) % 0x10000;
            &&& t.mem == s.mem
            &&& op == 0x44 ==> {
                &&& t.regs.a == (256 - a) % 256
                &&& t.regs.flags.c == (a != 0)
                &&& t.regs.flags.z == (a == 0)
                &&& t.regs.pc == next
            }
            &&& (op == 0x45 || op == 0x4D) ==> {
                &&& t.regs.pc == word_at(s.mem, s.regs.sp as int)
                &&& t.regs.sp == (s.regs.sp + 2) % 0x10000
            }
            &&& op == 0x45 ==> t.regs.iff1 == s.regs.iff2
            &&& op == 0x46 ==> t.regs.interrupt_mode == 0 && t.regs.pc == next
            &&& op == 0x56 ==> t.regs.interrupt_mode == 1 && t.regs.pc == next
            &&& op == 0x5E ==> t.regs.interrupt_mode == 2 && t.regs.pc == next
        }),
{
    let op = code_at(s, 1);
    assert(op_x(op) == 1);
    let s0 = with_regs(s, Registers { r: super::refresh(s.regs.r), ..s.regs });
    let s1 = fetch8(s0).0;
    let s2 = fetch8(s1).0;
    assert(fetch8(s0).1 == 0xED);
    assert(fetch8(s1).1 == op);
    assert(spec_execute(s) == spec_ed(s2, op));
    assert(spec_ed(s2, op) == sp_ed_x1(s2, op_y(op), op_z(op), op_p(op), op_q(op)));
    assert(spec_word(s.mem, s.regs.sp) as int == word_at(s.mem, s.regs.sp as int));
    if op == 0x44 {
        assert(op_y(op) == 0 && op_z(op) == 4);
        assert(spec_sub8(0, s.regs.a, false).0 == (256 - s.regs.a) % 256);
    }
}

/// `EX DE, HL` (EB) swaps DE and HL and changes nothing else but PC (and
/// the refresh counter).
#[verifier::rlimit(60)]
pub proof fn lemma_ex_de_hl(s: CpuState)
    requires
        s.mem.len() == 0x10000,
        code_at(s, 0) == 0xEB,
    ensures
        rr_value(spec_execute(s).regs, 1) == hl_value(s.regs),
        hl_value(spec_execute(s).regs) == rr_value(s.regs, 1),
        spec_execute(s).regs.a == s.regs.a,
        spec_execute(s).regs.flags == s.regs.flags,
        rr_value(spec_execute(s).regs, 0) == rr_value(s.regs, 0),
        spec_execute(s).regs.sp == s.regs.sp,
        spec_execute(s).mem == s.mem,
        spec_execute(s).regs.pc == (s.regs.pc + 1) % 0x10000,
{
    let op: u8 = 0xEB;
    assert(op_x(op) == 3 && op_z(op) == 3 && op_y(op) == 5);
    let s0 = with_regs(s, Registers { r: super::refresh(s.regs.r), ..s.regs });
    let s1 = fetch8(s0).0;
    assert(fetch8(s0).1 == op);
    assert(spec_execute(s) == spec_unprefixed(s1, op, PrefixAddressing::HL));
    assert(spec_unprefixed(s1, op, PrefixAddressing::HL) == sp_x3z3(s1, 5, PrefixAddressing::HL));
}

/// `PUSH rr` (C5 + 16p) and `POP rr` (C1 + 16p) for BC, DE and HL
/// (p = 0, 1, 2): PUSH moves SP down by two and stores rr there, low byte
/// first; POP loads rr from the word at SP and moves SP up by two.
#[verifier::rlimit(60)]
pub proof fn lemma_push_pop_opcodes(s: CpuState, p: u8)
    requires
        s.mem.len() == 0x10000,
        p < 3,
        code_at(s, 0) == 0xC5 + 16 * p || code_at(s, 0) == 0xC1 + 16 * p,
    ensures
        ({
            let t = spec_execute(s);
            let sp = s.regs.sp as int;
            &&& t.regs.pc == (s.regs.pc + 1) % 0x10000
            &&& code_at(s, 0) == 0xC5 + 16 * p ==> {
                &&& t.regs.sp == (sp + 0xFFFE) % 0x10000
                &&& word_at(t.mem, t.regs.sp as int) == rr_value(s.regs, p)
                &&& t.regs.a == s.regs.a
                &&& rr_value(t.regs, p) == rr_value(s.regs, p)
            }
            &&& code_at(s, 0) == 0xC1 + 16 * p ==> {
                &&& t.regs.sp == (sp + 2) % 0x10000
                &&& rr_value(t.regs, p) == word_at(s.mem, sp)
                &&& t.mem == s.mem
            }
        }),
{
    let op = code_at(s, 0);
    assert(op_x(op) == 3 && op_p(op) == p);
    assert(op == 0xC5 + 16 * p ==> op_z(op) == 5 && !op_q(op));
    assert(op == 0xC1 + 16 * p ==> op_z(op) == 1 && !op_q(op));
    assert(op != 0xCB && op != 0xED && op != 0xDD && op != 0xFD);
    let s0 = with_regs(s, Registers { r: super::refresh(s.regs.r), ..s.regs });
    let s1 = fetch8(s0).0;
    assert(fetch8(s0).1 == op);
    assert(spec_execute(s) == spec_unprefixed(s1, op, PrefixAddressing::HL));
    assert(spec_unprefixed(s1, op, PrefixAddressing::HL) == sp_x3(s1, op_y(op), op_z(op), p, false, PrefixAddressing::HL));
    let rr = rp2_of(p, PrefixAddressing::HL);
    assert(pair(s1.regs, rr) as int == rr_value(s.regs, p));
    assert(spec_word(s.mem, s.regs.sp) as int == word_at(s.mem, s.regs.sp as int));
    if op == 0xC5 + 16 * p {
        let sp2 = super::sub2_16(s.regs.sp);
        crate::components::mem_64k::lemma_word_roundtrip(s.mem, sp2, pair(s1.regs, rr));
        assert(spec_word(spec_write_word(s.mem, sp2, pair(s1.regs, rr)), sp2) as int == word_at(
            spec_write_word(s.mem, sp2, pair(s1.regs, rr)),
            sp2 as int,
        ));
    }
}

} // verus!
