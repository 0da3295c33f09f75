use vstd::prelude::*;

use super::encoding::{
    branch_cond, encode_add, encode_alu_op, encode_alu_uni, encode_bit_op, encode_call, encode_ex,
    encode_jp, encode_jr, encode_rel_jump, encode_rot_op, spec_add, spec_alu_op, spec_alu_uni,
    spec_bit_op, spec_branch_cond, spec_call, spec_ex, spec_jp, spec_jr, spec_rel_jump, spec_rot_op,
};
use super::parser::{
    ops_after, operand_at, parse_operands, spec_is_condition, spec_is_register, spec_parse_operands,
};
use crate::cpu::alu::{ALUOperation, RotOperation};
use crate::cpu::decoding::{op_x, op_y, op_z};
use crate::cpu::{cc_of, r_reg, rp2_of, rp_of, Condition, PrefixAddressing, RegisterPair, GPR};
use crate::formatting::{decimal, decimal_string};
use vstd::utf8::encode_utf8;
use super::{
    bytes1, bytes2, bytes3, bytes4, bytes_res, disp, disp_byte, err_msg, get_r_code, get_rp2_code,
    get_rp_code, hi, high, index_prefix, lo, low, num_res, prefix_of, resolve_immediate,
    resolve_indirect, resolve_label, spec_r_code, spec_resolve_label, spec_resolve_immediate, spec_resolve_indirect, spec_rp2_code,
    spec_rp_code, spec_condition_code, table_view, text_is, tokens_view, Operand, OperandV, Symbol, Token, TokenV,
};

verus! {

/// `LD` between two registers.
pub open spec fn ld_reg_reg(d: Seq<char>, s: Seq<char>) -> Result<Seq<u8>, Seq<char>> {
    if spec_r_code(d) is Some && spec_r_code(s) is Some {
        Ok(seq![0x40u8 | (spec_r_code(d)->0 << 3u8) | spec_r_code(s)->0])
    } else if d == "SP"@ && s == "HL"@ {
        Ok(seq![0xF9u8])
    } else if d == "SP"@ && s == "IX"@ {
        Ok(seq![0xDDu8, 0xF9u8])
    } else if d == "SP"@ && s == "IY"@ {
        Ok(seq![0xFDu8, 0xF9u8])
    } else if d == "I"@ && s == "A"@ {
        Ok(seq![0xEDu8, 0x47u8])
    } else if d == "R"@ && s == "A"@ {
        Ok(seq![0xEDu8, 0x4Fu8])
    } else if d == "A"@ && s == "I"@ {
        Ok(seq![0xEDu8, 0x57u8])
    } else if d == "A"@ && s == "R"@ {
        Ok(seq![0xEDu8, 0x5Fu8])
    } else {
        Err("Invalid LD Register combination"@)
    }
}

/// `LD` of a value into a register or register pair.
pub open spec fn ld_reg_imm(r: Seq<char>, n: u16) -> Result<Seq<u8>, Seq<char>> {
    if spec_r_code(r) is Some {
        Ok(seq![0x06u8 | (spec_r_code(r)->0 << 3u8), lo(n)])
    } else if spec_rp_code(r) is Some {
        Ok(seq![0x01u8 | (spec_rp_code(r)->0 << 4u8), lo(n), hi(n)])
    } else if r == "IX"@ {
        Ok(seq![0xDDu8, 0x21u8, lo(n), hi(n)])
    } else if r == "IY"@ {
        Ok(seq![0xFDu8, 0x21u8, lo(n), hi(n)])
    } else {
        Err("Invalid LD Register Immediate"@)
    }
}

/// `LD r, (HL)`, `LD A, (BC)`, `LD A, (DE)`.
pub open spec fn ld_reg_indreg(r: Seq<char>, ir: Seq<char>) -> Result<Seq<u8>, Seq<char>> {
    if spec_r_code(r) is Some && ir == "HL"@ {
        Ok(seq![0x46u8 | (spec_r_code(r)->0 << 3u8)])
    } else if r == "A"@ && ir == "BC"@ {
        Ok(seq![0x0Au8])
    } else if r == "A"@ && ir == "DE"@ {
        Ok(seq![0x1Au8])
    } else {
        Err("Invalid LD r, (reg)"@)
    }
}

/// `LD (HL), r`, `LD (BC), A`, `LD (DE), A`.
pub open spec fn ld_indreg_reg(ir: Seq<char>, r: Seq<char>) -> Result<Seq<u8>, Seq<char>> {
    if spec_r_code(r) is Some && ir == "HL"@ {
        Ok(seq![0x70u8 | spec_r_code(r)->0])
    } else if r == "A"@ && ir == "BC"@ {
        Ok(seq![0x02u8])
    } else if r == "A"@ && ir == "DE"@ {
        Ok(seq![0x12u8])
    } else {
        Err("Invalid LD (reg), r"@)
    }
}

/// `LD r, (nn)` for A, HL, BC, DE, SP, IX and IY.
pub open spec fn ld_reg_addr(r: Seq<char>, nn: u16) -> Result<Seq<u8>, Seq<char>> {
    if r == "A"@ {
        Ok(seq![0x3Au8, lo(nn), hi(nn)])
    } else if r == "HL"@ {
        Ok(seq![0x2Au8, lo(nn), hi(nn)])
    } else if r == "BC"@ || r == "DE"@ || r == "SP"@ {
        Ok(seq![0xEDu8, 0x4Bu8 | (spec_rp_code(r)->0 << 4u8), lo(nn), hi(nn)])
    } else if r == "IX"@ {
        Ok(seq![0xDDu8, 0x2Au8, lo(nn), hi(nn)])
    } else if r == "IY"@ {
        Ok(seq![0xFDu8, 0x2Au8, lo(nn), hi(nn)])
    } else {
        Err("Invalid LD r, (nn)"@)
    }
}

/// `LD (nn), r` for A, HL, BC, DE, SP, IX and IY.
pub open spec fn ld_addr_reg(nn: u16, r: Seq<char>) -> Result<Seq<u8>, Seq<char>> {
    if r == "A"@ {
        Ok(seq![0x32u8, lo(nn), hi(nn)])
    } else if r == "HL"@ {
        Ok(seq![0x22u8, lo(nn), hi(nn)])
    } else if r == "BC"@ || r == "DE"@ || r == "SP"@ {
        Ok(seq![0xEDu8, 0x43u8 | (spec_rp_code(r)->0 << 4u8), lo(nn), hi(nn)])
    } else if r == "IX"@ {
        Ok(seq![0xDDu8, 0x22u8, lo(nn), hi(nn)])
    } else if r == "IY"@ {
        Ok(seq![0xFDu8, 0x22u8, lo(nn), hi(nn)])
    } else {
        Err("Invalid LD (nn), r"@)
    }
}

/// Whether an operand is a value: a number or a label.
pub open spec fn is_value(op: OperandV) -> bool {
    op is Immediate || op is Label
}

/// Whether an operand is a memory address in parentheses: `(number)` or `(label)`.
pub open spec fn is_indirect_address(op: OperandV) -> bool {
    op is IndirectImmediate || op is IndirectLabel
}

/// Applies `f` to a resolved value, or passes its error on.
pub open spec fn then_bytes(r: Result<u16, Seq<char>>, f: spec_fn(u16) -> Result<Seq<u8>, Seq<char>>) -> Result<
    Seq<u8>,
    Seq<char>,
> {
    match r {
        Ok(n) => f(n),
        Err(e) => Err(e),
    }
}

/// `LD` in all its forms.
pub open spec fn spec_ld(ops: Seq<OperandV>, labels: Seq<(Seq<char>, Symbol)>, dry: bool) -> Result<
    Seq<u8>,
    Seq<char>,
> {
    if ops.len() != 2 {
        Err("LD requires 2 ops"@)
    } else {
        let a = ops[0];
        let b = ops[1];
        match a {
            OperandV::Register(d) => match b {
                OperandV::Register(s) => ld_reg_reg(d, s),
                OperandV::Immediate(_) | OperandV::Label(_) => then_bytes(
                    spec_resolve_immediate(b, labels, dry),
                    |n: u16| ld_reg_imm(d, n),
                ),
                OperandV::IndirectRegister(ir) => ld_reg_indreg(d, ir),
                OperandV::IndirectIndex(idx, dd) => if spec_r_code(d) is Some {
                    Ok(seq![index_prefix(idx), 0x46u8 | (spec_r_code(d)->0 << 3u8), disp_byte(dd)])
                } else {
                    Err("Invalid LD r, (idx+d)"@)
                },
                OperandV::IndirectImmediate(_) | OperandV::IndirectLabel(_) => then_bytes(
                    spec_resolve_indirect(b, labels, dry),
                    |nn: u16| ld_reg_addr(d, nn),
                ),
                _ => Err("Unsupported instruction"@),
            },
            OperandV::IndirectRegister(ir) => match b {
                OperandV::Register(r) => ld_indreg_reg(ir, r),
                OperandV::Immediate(_) | OperandV::Label(_) => if ir == "HL"@ {
                    then_bytes(spec_resolve_immediate(b, labels, dry), |n: u16| Ok(seq![0x36u8, lo(n)]))
                } else {
                    Err("Unsupported instruction"@)
                },
                _ => Err("Unsupported instruction"@),
            },
            OperandV::IndirectIndex(idx, dd) => match b {
                OperandV::Register(r) => if spec_r_code(r) is Some {
                    Ok(seq![index_prefix(idx), 0x70u8 | spec_r_code(r)->0, disp_byte(dd)])
                } else {
                    Err("Invalid LD (idx+d), r"@)
                },
                OperandV::Immediate(_) | OperandV::Label(_) => then_bytes(
                    spec_resolve_immediate(b, labels, dry),
                    |n: u16| Ok(seq![index_prefix(idx), 0x36u8, disp_byte(dd), lo(n)]),
                ),
                _ => Err("Unsupported instruction"@),
            },
            OperandV::IndirectImmediate(_) | OperandV::IndirectLabel(_) => match b {
                OperandV::Register(r) => then_bytes(
                    spec_resolve_indirect(a, labels, dry),
                    |nn: u16| ld_addr_reg(nn, r),
                ),
                _ => Err("Unsupported instruction"@),
            },
            _ => Err("Unsupported instruction"@),
        }
    }
}

fn encode_ld_reg_reg(d: &String, s: &String) -> (r: Result<Vec<u8>, String>)
    ensures
        bytes_res(r) == ld_reg_reg(d@, s@),
{
    match (get_r_code(d), get_r_code(s)) {
        (Some(dc), Some(sc)) => {
            return Ok(bytes1(0x40u8 | (dc << 3u8) | sc));
        },
        _ => {},
    }
    if text_is(d, "SP") && text_is(s, "HL") {
        Ok(bytes1(0xF9))
    } else if text_is(d, "SP") && text_is(s, "IX") {
        Ok(bytes2(0xDD, 0xF9))
    } else if text_is(d, "SP") && text_is(s, "IY") {
        Ok(bytes2(0xFD, 0xF9))
    } else if text_is(d, "I") && text_is(s, "A") {
        Ok(bytes2(0xED, 0x47))
    } else if text_is(d, "R") && text_is(s, "A") {
        Ok(bytes2(0xED, 0x4F))
    } else if text_is(d, "A") && text_is(s, "I") {
        Ok(bytes2(0xED, 0x57))
    } else if text_is(d, "A") && text_is(s, "R") {
        Ok(bytes2(0xED, 0x5F))
    } else {
        Err(err_msg("Invalid LD Register combination"))
    }
}

fn encode_ld_reg_imm(r: &String, n: u16) -> (res: Result<Vec<u8>, String>)
    ensures
        bytes_res(res) == ld_reg_imm(r@, n),
{
    if let Some(rc) = get_r_code(r) {
        Ok(bytes2(0x06u8 | (rc << 3u8), low(n)))
    } else if let Some(rpc) = get_rp_code(r) {
        Ok(bytes3(0x01u8 | (rpc << 4u8), low(n), high(n)))
    } else if text_is(r, "IX") {
        Ok(bytes4(0xDD, 0x21, low(n), high(n)))
    } else if text_is(r, "IY") {
        Ok(bytes4(0xFD, 0x21, low(n), high(n)))
    } else {
        Err(err_msg("Invalid LD Register Immediate"))
    }
}

fn encode_ld_reg_indreg(r: &String, ir: &String) -> (res: Result<Vec<u8>, String>)
    ensures
        bytes_res(res) == ld_reg_indreg(r@, ir@),
{
    if let Some(rc) = get_r_code(r) {
        if text_is(ir, "HL") {
            return Ok(bytes1(0x46u8 | (rc << 3u8)));
        }
    }
    if text_is(r, "A") && text_is(ir, "BC") {
        Ok(bytes1(0x0A))
    } else if text_is(r, "A") && text_is(ir, "DE") {
        Ok(bytes1(0x1A))
    } else {
        Err(err_msg("Invalid LD r, (reg)"))
    }
}

fn encode_ld_indreg_reg(ir: &String, r: &String) -> (res: Result<Vec<u8>, String>)
    ensures
        bytes_res(res) == ld_indreg_reg(ir@, r@),
{
    if let Some(rc) = get_r_code(r) {
        if text_is(ir, "HL") {
            return Ok(bytes1(0x70u8 | rc));
        }
    }
    if text_is(r, "A") && text_is(ir, "BC") {
        Ok(bytes1(0x02))
    } else if text_is(r, "A") && text_is(ir, "DE") {
        Ok(bytes1(0x12))
    } else {
        Err(err_msg("Invalid LD (reg), r"))
    }
}

fn encode_ld_reg_addr(r: &String, nn: u16) -> (res: Result<Vec<u8>, String>)
    ensures
        bytes_res(res) == ld_reg_addr(r@, nn),
{
    if text_is(r, "A") {
        Ok(bytes3(0x3A, low(nn), high(nn)))
    } else if text_is(r, "HL") {
        Ok(bytes3(0x2A, low(nn), high(nn)))
    } else if text_is(r, "BC") || text_is(r, "DE") || text_is(r, "SP") {
        match get_rp_code(r) {
            Some(rpc) => Ok(bytes4(0xED, 0x4Bu8 | (rpc << 4u8), low(nn), high(nn))),
            None => Err(err_msg("Invalid LD r, (nn)")),
        }
    } else if text_is(r, "IX") {
        Ok(bytes4(0xDD, 0x2A, low(nn), high(nn)))
    } else if text_is(r, "IY") {
        Ok(bytes4(0xFD, 0x2A, low(nn), high(nn)))
    } else {
        Err(err_msg("Invalid LD r, (nn)"))
    }
}

fn encode_ld_addr_reg(nn: u16, r: &String) -> (res: Result<Vec<u8>, String>)
    ensures
        bytes_res(res) == ld_addr_reg(nn, r@),
{
    if text_is(r, "A") {
        Ok(bytes3(0x32, low(nn), high(nn)))
    } else if text_is(r, "HL") {
        Ok(bytes3(0x22, low(nn), high(nn)))
    } else if text_is(r, "BC") || text_is(r, "DE") || text_is(r, "SP") {
        match get_rp_code(r) {
            Some(rpc) => Ok(bytes4(0xED, 0x43u8 | (rpc << 4u8), low(nn), high(nn))),
            None => Err(err_msg("Invalid LD (nn), r")),
        }
    } else if text_is(r, "IX") {
        Ok(bytes4(0xDD, 0x22, low(nn), high(nn)))
    } else if text_is(r, "IY") {
        Ok(bytes4(0xFD, 0x22, low(nn), high(nn)))
    } else {
        Err(err_msg("Invalid LD (nn), r"))
    }
}

/// Encodes `LD`.
#[verifier::rlimit(30)]
pub fn encode_ld(ops: &Vec<Operand>, labels: &Vec<(String, Symbol)>, dry: bool) -> (r: Result<
    Vec<u8>,
    String,
>)
    ensures
        bytes_res(r) == spec_ld(super::operands_view(ops@), table_view(labels@), dry),
{
    if ops.len() != 2 {
        return Err(err_msg("LD requires 2 ops"));
    }
    let a = &ops[0];
    let b = &ops[1];
    match a {
        Operand::Register(d) => match b {
            Operand::Register(s) => encode_ld_reg_reg(d, s),
            Operand::Immediate(_) | Operand::Label(_) => match resolve_immediate(b, labels, dry) {
                Ok(n) => encode_ld_reg_imm(d, n),
                Err(e) => Err(e),
            },
            Operand::IndirectRegister(ir) => encode_ld_reg_indreg(d, ir),
            Operand::IndirectIndex(idx, dd) => {
                if let Some(rc) = get_r_code(d) {
                    Ok(bytes3(prefix_of(idx), 0x46u8 | (rc << 3u8), disp(*dd)))
                } else {
                    Err(err_msg("Invalid LD r, (idx+d)"))
                }
            },
            Operand::IndirectImmediate(_) | Operand::IndirectLabel(_) => match resolve_indirect(
                b,
                labels,
                dry,
            ) {
                Ok(nn) => encode_ld_reg_addr(d, nn),
                Err(e) => Err(e),
            },
            _ => Err(err_msg("Unsupported instruction")),
        },
        Operand::IndirectRegister(ir) => match b {
            Operand::Register(r) => encode_ld_indreg_reg(ir, r),
            Operand::Immediate(_) | Operand::Label(_) => {
                if text_is(ir, "HL") {
                    match resolve_immediate(b, labels, dry) {
                        Ok(n) => Ok(bytes2(0x36, low(n))),
                        Err(e) => Err(e),
                    }
                } else {
                    Err(err_msg("Unsupported instruction"))
                }
            },
            _ => Err(err_msg("Unsupported instruction")),
        },
        Operand::IndirectIndex(idx, dd) => match b {
            Operand::Register(r) => {
                if let Some(rc) = get_r_code(r) {
                    Ok(bytes3(prefix_of(idx), 0x70u8 | rc, disp(*dd)))
                } else {
                    Err(err_msg("Invalid LD (idx+d), r"))
                }
            },
            Operand::Immediate(_) | Operand::Label(_) => match resolve_immediate(b, labels, dry) {
                Ok(n) => Ok(bytes4(prefix_of(idx), 0x36, disp(*dd), low(n))),
                Err(e) => Err(e),
            },
            _ => Err(err_msg("Unsupported instruction")),
        },
        Operand::IndirectImmediate(_) | Operand::IndirectLabel(_) => match b {
            Operand::Register(r) => match resolve_indirect(a, labels, dry) {
                Ok(nn) => encode_ld_addr_reg(nn, r),
                Err(e) => Err(e),
            },
            _ => Err(err_msg("Unsupported instruction")),
        },
        _ => Err(err_msg("Unsupported instruction")),
    }
}

/// `SBC HL, rr`, else the accumulator form.
pub open spec fn spec_sbc(ops: Seq<OperandV>, labels: Seq<(Seq<char>, Symbol)>, dry: bool) -> Result<
    Seq<u8>,
    Seq<char>,
> {
    if ops.len() == 2 && ops[0] == OperandV::Register("HL"@) && ops[1] is Register && spec_rp_code(
        ops[1]->Register_0,
    ) is Some {
        Ok(seq![0xEDu8, 0x42u8 | (spec_rp_code(ops[1]->Register_0)->0 << 4u8)])
    } else {
        spec_alu_op(ALUOperation::SBC, ops, labels, dry)
    }
}

/// Encodes `SBC`.
pub fn encode_sbc(ops: &Vec<Operand>, labels: &Vec<(String, Symbol)>, dry: bool) -> (r: Result<
    Vec<u8>,
    String,
>)
    ensures
        bytes_res(r) == spec_sbc(super::operands_view(ops@), table_view(labels@), dry),
{
    if ops.len() == 2 {
        if let Operand::Register(dest) = &ops[0] {
            if text_is(dest, "HL") {
                if let Operand::Register(src) = &ops[1] {
                    if let Some(rpc) = get_rp_code(src) {
                        return Ok(bytes2(0xED, 0x42u8 | (rpc << 4u8)));
                    }
                }
            }
        }
    }
    encode_alu_op(ALUOperation::SBC, ops, labels, dry)
}

/// `DJNZ d`: a relative jump from `pc`.
pub open spec fn spec_djnz(ops: Seq<OperandV>, pc: u16, labels: Seq<(Seq<char>, Symbol)>, dry: bool) -> Result<
    Seq<u8>,
    Seq<char>,
> {
    if ops.len() != 1 {
        Err("DJNZ 1 op"@)
    } else {
        spec_rel_jump(0x10u8, ops[0], pc, labels, dry, "DJNZ offset out of range"@)
    }
}

/// Encodes `DJNZ` at address `pc`.
pub fn encode_djnz(ops: &Vec<Operand>, pc: u16, labels: &Vec<(String, Symbol)>, dry: bool) -> (r:
    Result<Vec<u8>, String>)
    ensures
        bytes_res(r) == spec_djnz(super::operands_view(ops@), pc, table_view(labels@), dry),
{
    if ops.len() != 1 {
        return Err(err_msg("DJNZ 1 op"));
    }
    encode_rel_jump(0x10, &ops[0], pc, labels, dry, "DJNZ offset out of range")
}

/// `RET` and `RET cc`.
pub open spec fn spec_ret(ops: Seq<OperandV>) -> Result<Seq<u8>, Seq<char>> {
    if ops.len() == 0 {
        Ok(seq![0xC9u8])
    } else if ops.len() == 1 && spec_branch_cond(ops[0]) matches Some(Some(cc)) {
        Ok(seq![0xC0u8 | (spec_branch_cond(ops[0])->0->0 << 3u8)])
    } else {
        Err("RET args"@)
    }
}

/// Encodes `RET`.
pub fn encode_ret(ops: &Vec<Operand>) -> (r: Result<Vec<u8>, String>)
    ensures
        bytes_res(r) == spec_ret(super::operands_view(ops@)),
{
    if ops.len() == 0 {
        return Ok(bytes1(0xC9));
    }
    if ops.len() == 1 {
        if let Some(Some(cc)) = branch_cond(&ops[0]) {
            return Ok(bytes1(0xC0u8 | (cc << 3u8)));
        }
    }
    Err(err_msg("RET args"))
}

/// `RST p` for a restart address with no bits outside 0x38 in its low byte.
pub open spec fn spec_rst(ops: Seq<OperandV>) -> Result<Seq<u8>, Seq<char>> {
    if ops.len() != 1 {
        Err("RST 1 op"@)
    } else {
        match ops[0] {
            OperandV::Immediate(n) => if n & 0xC7 != 0 {
                Err("Invalid RST address"@)
            } else {
                Ok(seq![0xC7u8 | lo(n)])
            },
            _ => Err("RST invalid"@),
        }
    }
}

/// Encodes `RST`.
pub fn encode_rst(ops: &Vec<Operand>) -> (r: Result<Vec<u8>, String>)
    ensures
        bytes_res(r) == spec_rst(super::operands_view(ops@)),
{
    if ops.len() != 1 {
        return Err(err_msg("RST 1 op"));
    }
    if let Operand::Immediate(n) = &ops[0] {
        if *n & 0xC7 != 0 {
            return Err(err_msg("Invalid RST address"));
        }
        return Ok(bytes1(0xC7u8 | low(*n)));
    }
    Err(err_msg("RST invalid"))
}

/// `PUSH` (base 0xC5) or `POP` (base 0xC1) of a register pair or index register.
pub open spec fn spec_stack_op(
    base: u8,
    index_op: u8,
    ops: Seq<OperandV>,
    count_err: Seq<char>,
    invalid_err: Seq<char>,
) -> Result<Seq<u8>, Seq<char>> {
    if ops.len() != 1 {
        Err(count_err)
    } else {
        match ops[0] {
            OperandV::Register(r) => if spec_rp2_code(r) is Some {
                Ok(seq![base | (spec_rp2_code(r)->0 << 4u8)])
            } else if r == "IX"@ {
                Ok(seq![0xDDu8, index_op])
            } else if r == "IY"@ {
                Ok(seq![0xFDu8, index_op])
            } else {
                Err(invalid_err)
            },
            _ => Err(invalid_err),
        }
    }
}

fn encode_stack_op(base: u8, index_op: u8, ops: &Vec<Operand>, count_err: &str, invalid_err: &str) -> (r:
    Result<Vec<u8>, String>)
    ensures
        bytes_res(r) == spec_stack_op(
            base,
            index_op,
            super::operands_view(ops@),
            count_err@,
            invalid_err@,
        ),
{
    if ops.len() != 1 {
        return Err(err_msg(count_err));
    }
    if let Operand::Register(r) = &ops[0] {
        if let Some(c) = get_rp2_code(r) {
            return Ok(bytes1(base | (c << 4u8)));
        }
        if text_is(r, "IX") {
            return Ok(bytes2(0xDD, index_op));
        }
        if text_is(r, "IY") {
            return Ok(bytes2(0xFD, index_op));
        }
    }
    Err(err_msg(invalid_err))
}

/// `PUSH`.
pub open spec fn spec_push(ops: Seq<OperandV>) -> Result<Seq<u8>, Seq<char>> {
    spec_stack_op(0xC5u8, 0xE5u8, ops, "PUSH 1 op"@, "PUSH invalid"@)
}

/// `POP`.
pub open spec fn spec_pop(ops: Seq<OperandV>) -> Result<Seq<u8>, Seq<char>> {
    spec_stack_op(0xC1u8, 0xE1u8, ops, "POP 1 op"@, "POP invalid"@)
}

/// Encodes `PUSH`.
pub fn encode_push(ops: &Vec<Operand>) -> (r: Result<Vec<u8>, String>)
    ensures
        bytes_res(r) == spec_push(super::operands_view(ops@)),
{
    encode_stack_op(0xC5, 0xE5, ops, "PUSH 1 op", "PUSH invalid")
}

/// Encodes `POP`.
pub fn encode_pop(ops: &Vec<Operand>) -> (r: Result<Vec<u8>, String>)
    ensures
        bytes_res(r) == spec_pop(super::operands_view(ops@)),
{
    encode_stack_op(0xC1, 0xE1, ops, "POP 1 op", "POP invalid")
}

/// `IN A, (n)` and `IN r, (C)`. With `A` as destination only the port-number
/// form is accepted.
pub open spec fn spec_in(ops: Seq<OperandV>, labels: Seq<(Seq<char>, Symbol)>, dry: bool) -> Result<
    Seq<u8>,
    Seq<char>,
> {
    if ops.len() != 2 {
        Err("IN 2 ops"@)
    } else {
        match ops[0] {
            OperandV::Register(r) => if r == "A"@ {
                if is_indirect_address(ops[1]) {
                    then_bytes(spec_resolve_indirect(ops[1], labels, dry), |p: u16| Ok(seq![0xDBu8, lo(p)]))
                } else {
                    Err("Invalid IN form"@)
                }
            } else if ops[1] == OperandV::IndirectRegister("C"@) {
                if spec_r_code(r) is Some {
                    Ok(seq![0xEDu8, 0x40u8 | (spec_r_code(r)->0 << 3u8)])
                } else {
                    Err("Invalid IN reg"@)
                }
            } else {
                Err("Invalid IN form"@)
            },
            _ => Err("Invalid IN form"@),
        }
    }
}

/// Encodes `IN`.
pub fn encode_in(ops: &Vec<Operand>, labels: &Vec<(String, Symbol)>, dry: bool) -> (r: Result<
    Vec<u8>,
    String,
>)
    ensures
        bytes_res(r) == spec_in(super::operands_view(ops@), table_view(labels@), dry),
{
    if ops.len() != 2 {
        return Err(err_msg("IN 2 ops"));
    }
    match &ops[0] {
        Operand::Register(r) => {
            if text_is(r, "A") {
                match &ops[1] {
                    Operand::IndirectImmediate(_) | Operand::IndirectLabel(_) => match resolve_indirect(
                        &ops[1],
                        labels,
                        dry,
                    ) {
                        Ok(port) => Ok(bytes2(0xDB, low(port))),
                        Err(e) => Err(e),
                    },
                    _ => Err(err_msg("Invalid IN form")),
                }
            } else {
                match &ops[1] {
                    Operand::IndirectRegister(ir) => {
                        if text_is(ir, "C") {
                            if let Some(rc) = get_r_code(r) {
                                Ok(bytes2(0xED, 0x40u8 | (rc << 3u8)))
                            } else {
                                Err(err_msg("Invalid IN reg"))
                            }
                        } else {
                            Err(err_msg("Invalid IN form"))
                        }
                    },
                    _ => Err(err_msg("Invalid IN form")),
                }
            }
        },
        _ => Err(err_msg("Invalid IN form")),
    }
}

/// `OUT (n), A` and `OUT (C), r`. With `A` as source only the port-number
/// form is accepted.
pub open spec fn spec_out(ops: Seq<OperandV>, labels: Seq<(Seq<char>, Symbol)>, dry: bool) -> Result<
    Seq<u8>,
    Seq<char>,
> {
    if ops.len() != 2 {
        Err("OUT 2 ops"@)
    } else {
        match ops[1] {
            OperandV::Register(r) => if r == "A"@ {
                if is_indirect_address(ops[0]) {
                    then_bytes(spec_resolve_indirect(ops[0], labels, dry), |p: u16| Ok(seq![0xD3u8, lo(p)]))
                } else {
                    Err("Invalid OUT form"@)
                }
            } else if ops[0] == OperandV::IndirectRegister("C"@) {
                if spec_r_code(r) is Some {
                    Ok(seq![0xEDu8, 0x41u8 | (spec_r_code(r)->0 << 3u8)])
                } else {
                    Err("Invalid OUT reg"@)
                }
            } else {
                Err("Invalid OUT form"@)
            },
            _ => Err("Invalid OUT form"@),
        }
    }
}

/// Encodes `OUT`.
pub fn encode_out(ops: &Vec<Operand>, labels: &Vec<(String, Symbol)>, dry: bool) -> (r: Result<
    Vec<u8>,
    String,
>)
    ensures
        bytes_res(r) == spec_out(super::operands_view(ops@), table_view(labels@), dry),
{
    if ops.len() != 2 {
        return Err(err_msg("OUT 2 ops"));
    }
    match &ops[1] {
        Operand::Register(r) => {
            if text_is(r, "A") {
                match &ops[0] {
                    Operand::IndirectImmediate(_) | Operand::IndirectLabel(_) => match resolve_indirect(
                        &ops[0],
                        labels,
                        dry,
                    ) {
                        Ok(port) => Ok(bytes2(0xD3, low(port))),
                        Err(e) => Err(e),
                    },
                    _ => Err(err_msg("Invalid OUT form")),
                }
            } else {
                match &ops[0] {
                    Operand::IndirectRegister(ir) => {
                        if text_is(ir, "C") {
                            if let Some(rc) = get_r_code(r) {
                                Ok(bytes2(0xED, 0x41u8 | (rc << 3u8)))
                            } else {
                                Err(err_msg("Invalid OUT reg"))
                            }
                        } else {
                            Err(err_msg("Invalid OUT form"))
                        }
                    },
                    _ => Err(err_msg("Invalid OUT form")),
                }
            }
        },
        _ => Err(err_msg("Invalid OUT form")),
    }
}

/// `IM 0`, `IM 1`, `IM 2`.
pub open spec fn spec_im(ops: Seq<OperandV>) -> Result<Seq<u8>, Seq<char>> {
    if ops.len() != 1 {
        Err("IM expects 1 operand"@)
    } else if ops[0] == OperandV::Immediate(0) {
        Ok(seq![0xEDu8, 0x46u8])
    } else if ops[0] == OperandV::Immediate(1) {
        Ok(seq![0xEDu8, 0x56u8])
    } else if ops[0] == OperandV::Immediate(2) {
        Ok(seq![0xEDu8, 0x5Eu8])
    } else {
        Err("Invalid IM mode (0, 1, 2)"@)
    }
}

/// Encodes `IM`.
pub fn encode_im(ops: &Vec<Operand>) -> (r: Result<Vec<u8>, String>)
    ensures
        bytes_res(r) == spec_im(super::operands_view(ops@)),
{
    if ops.len() != 1 {
        return Err(err_msg("IM expects 1 operand"));
    }
    match &ops[0] {
        Operand::Immediate(n) => {
            if *n == 0 {
                Ok(bytes2(0xED, 0x46))
            } else if *n == 1 {
                Ok(bytes2(0xED, 0x56))
            } else if *n == 2 {
                Ok(bytes2(0xED, 0x5E))
            } else {
                Err(err_msg("Invalid IM mode (0, 1, 2)"))
            }
        },
        _ => Err(err_msg("Invalid IM mode (0, 1, 2)")),
    }
}

/// A byte list of `count` copies of `value`.
pub open spec fn filled(value: u8, count: nat) -> Seq<u8> {
    Seq::new(count, |_i: int| value)
}

/// `ORG nn`: zero bytes up to the target address, which may not lie below `pc`.
pub open spec fn spec_org(ops: Seq<OperandV>, pc: u16, labels: Seq<(Seq<char>, Symbol)>, dry: bool) -> Result<
    Seq<u8>,
    Seq<char>,
> {
    if ops.len() != 1 {
        Err("ORG expects 1 operand"@)
    } else {
        match spec_resolve_immediate(ops[0], labels, dry) {
            Ok(target) => if target < pc {
                Err("ORG cannot go backwards"@)
            } else {
                Ok(filled(0, (target - pc) as nat))
            },
            Err(e) => Err(e),
        }
    }
}

/// The bytes of one `DB` operand: a number below 256, a string (as UTF-8),
/// or a label whose value, once known, fits in a byte.
pub open spec fn db_item(op: OperandV, labels: Seq<(Seq<char>, Symbol)>, dry: bool) -> Result<
    Seq<u8>,
    Seq<char>,
> {
    match op {
        OperandV::Immediate(n) => if n > 255 {
            Err("Value "@ + decimal(n as nat) + " too large for DB"@)
        } else {
            Ok(seq![n as u8])
        },
        OperandV::StringLiteral(s) => Ok(encode_utf8(s)),
        OperandV::Label(l) => match spec_resolve_label(l, labels, dry) {
            Ok(v) => if !dry && v > 255 {
                Err(
                    "Label '"@ + l + "' value "@ + decimal(v as nat)
                        + " is too large for DB (byte)"@,
                )
            } else {
                Ok(seq![lo(v)])
            },
            Err(e) => Err(e),
        },
        _ => Err("Invalid DB operand"@),
    }
}

/// The bytes of one `DW` operand: a number or label, low byte first.
pub open spec fn dw_item(op: OperandV, labels: Seq<(Seq<char>, Symbol)>, dry: bool) -> Result<
    Seq<u8>,
    Seq<char>,
> {
    match op {
        OperandV::Immediate(n) => Ok(seq![lo(n), hi(n)]),
        OperandV::Label(l) => match spec_resolve_label(l, labels, dry) {
            Ok(v) => Ok(seq![lo(v), hi(v)]),
            Err(e) => Err(e),
        },
        _ => Err("Invalid DW operand"@),
    }
}

/// The bytes of a data directive: its operands' bytes in order; the first
/// failing operand gives the error.
pub open spec fn data_bytes(
    ops: Seq<OperandV>,
    labels: Seq<(Seq<char>, Symbol)>,
    dry: bool,
    word: bool,
) -> Result<Seq<u8>, Seq<char>>
    decreases ops.len(),
{
    if ops.len() == 0 {
        Ok(Seq::empty())
    } else {
        match data_bytes(ops.drop_last(), labels, dry, word) {
            Ok(pre) => match (if word {
                dw_item(ops.last(), labels, dry)
            } else {
                db_item(ops.last(), labels, dry)
            }) {
                Ok(b) => Ok(pre + b),
                Err(e) => Err(e),
            },
            Err(e) => Err(e),
        }
    }
}

/// `DS count[, fill]`: `count` copies of the fill byte (zero by default).
pub open spec fn spec_ds(ops: Seq<OperandV>, labels: Seq<(Seq<char>, Symbol)>, dry: bool) -> Result<
    Seq<u8>,
    Seq<char>,
> {
    if ops.len() == 0 {
        Err("DS requires at least one operand (count)"@)
    } else {
        match spec_resolve_immediate(ops[0], labels, dry) {
            Ok(count) => if ops.len() >= 2 {
                match spec_resolve_immediate(ops[1], labels, dry) {
                    Ok(f) => Ok(filled(lo(f), count as nat)),
                    Err(e) => Err(e),
                }
            } else {
                Ok(filled(0, count as nat))
            },
            Err(e) => Err(e),
        }
    }
}

fn fill_bytes(value: u8, count: u16) -> (v: Vec<u8>)
    ensures
        v@ == filled(value, count as nat),
{
    let mut v: Vec<u8> = Vec::new();
    let mut i: u16 = 0;
    while i < count
        invariant
            i <= count,
            v@ == filled(value, i as nat),
        decreases count - i,
    {
        v.push(value);
        i = i + 1;
        assert(v@ =~= filled(value, i as nat));
    }
    v
}

/// Encodes `ORG` at address `pc`.
pub fn encode_org(ops: &Vec<Operand>, pc: u16, labels: &Vec<(String, Symbol)>, dry: bool) -> (r:
    Result<Vec<u8>, String>)
    ensures
        bytes_res(r) == spec_org(super::operands_view(ops@), pc, table_view(labels@), dry),
{
    if ops.len() != 1 {
        return Err(err_msg("ORG expects 1 operand"));
    }
    match resolve_immediate(&ops[0], labels, dry) {
        Ok(target) => {
            if target < pc {
                Err(err_msg("ORG cannot go backwards"))
            } else {
                Ok(fill_bytes(0, target - pc))
            }
        },
        Err(e) => Err(e),
    }
}

/// Encodes `DS`.
pub fn encode_ds(ops: &Vec<Operand>, labels: &Vec<(String, Symbol)>, dry: bool) -> (r: Result<
    Vec<u8>,
    String,
>)
    ensures
        bytes_res(r) == spec_ds(super::operands_view(ops@), table_view(labels@), dry),
{
    if ops.len() == 0 {
        return Err(err_msg("DS requires at least one operand (count)"));
    }
    let count = match resolve_immediate(&ops[0], labels, dry) {
        Ok(c) => c,
        Err(e) => {
            return Err(e);
        },
    };
    let fill: u8 = if ops.len() >= 2 {
        match resolve_immediate(&ops[1], labels, dry) {
            Ok(f) => low(f),
            Err(e) => {
                return Err(e);
            },
        }
    } else {
        0
    };
    Ok(fill_bytes(fill, count))
}

/// `a`, then `b`, then `c`.
fn msg3(a: &str, b: String, c: &str) -> (s: String)
    ensures
        s@ == a@ + b@ + c@,
{
    let mut s = err_msg(a);
    s.append(b.as_str());
    s.append(c);
    s
}

fn push_all(out: &mut Vec<u8>, b: &[u8])
    ensures
        final(out)@ == old(out)@ + b@,
{
    let mut i: usize = 0;
    while i < b.len()
        invariant
            i <= b@.len(),
            out@ == old(out)@ + b@.take(i as int),
        decreases b@.len() - i,
    {
        out.push(b[i]);
        i = i + 1;
        assert(out@ =~= old(out)@ + b@.take(i as int));
    }
    assert(b@.take(i as int) =~= b@);
}

fn db_operand(out: &mut Vec<u8>, op: &Operand, labels: &Vec<(String, Symbol)>, dry: bool) -> (r: Result<
    (),
    String,
>)
    ensures
        match (r, db_item(op@, table_view(labels@), dry)) {
            (Ok(_), Ok(b)) => final(out)@ == old(out)@ + b,
            (Err(e), Err(se)) => e@ == se,
            _ => false,
        },
{
    match op {
        Operand::Immediate(n) => {
            if *n > 255 {
                return Err(msg3("Value ", decimal_string(*n as u64), " too large for DB"));
            }
            out.push(*n as u8);
            assert(out@ =~= old(out)@ + seq![*n as u8]);
            Ok(())
        },
        Operand::StringLiteral(s) => {
            let b = s.as_str().as_bytes();
            push_all(out, b);
            Ok(())
        },
        Operand::Label(l) => match resolve_label(l, labels, dry) {
            Ok(val) => {
                if !dry && val > 255 {
                    let mut e = err_msg("Label '");
                    e.append(l.as_str());
                    e.append("' value ");
                    let d = decimal_string(val as u64);
                    e.append(d.as_str());
                    e.append(" is too large for DB (byte)");
                    assert(e@ =~= "Label '"@ + l@ + "' value "@ + decimal(val as nat)
                        + " is too large for DB (byte)"@);
                    return Err(e);
                }
                out.push(low(val));
                assert(out@ =~= old(out)@ + seq![lo(val)]);
                Ok(())
            },
            Err(e) => Err(e),
        },
        _ => Err(err_msg("Invalid DB operand")),
    }
}

fn dw_operand(out: &mut Vec<u8>, op: &Operand, labels: &Vec<(String, Symbol)>, dry: bool) -> (r: Result<
    (),
    String,
>)
    ensures
        match (r, dw_item(op@, table_view(labels@), dry)) {
            (Ok(_), Ok(b)) => final(out)@ == old(out)@ + b,
            (Err(e), Err(se)) => e@ == se,
            _ => false,
        },
{
    match op {
        Operand::Immediate(n) => {
            out.push(low(*n));
            out.push(high(*n));
            assert(out@ =~= old(out)@ + seq![lo(*n), hi(*n)]);
            Ok(())
        },
        Operand::Label(l) => match resolve_label(l, labels, dry) {
            Ok(val) => {
                out.push(low(val));
                out.push(high(val));
                assert(out@ =~= old(out)@ + seq![lo(val), hi(val)]);
                Ok(())
            },
            Err(e) => Err(e),
        },
        _ => Err(err_msg("Invalid DW operand")),
    }
}

/// Encodes `DB` (`word` false) or `DW` (`word` true).
pub fn encode_data(ops: &Vec<Operand>, labels: &Vec<(String, Symbol)>, dry: bool, word: bool) -> (r:
    Result<Vec<u8>, String>)
    ensures
        bytes_res(r) == data_bytes(super::operands_view(ops@), table_view(labels@), dry, word),
{
    let ghost ov = super::operands_view(ops@);
    let mut bytes: Vec<u8> = Vec::new();
    let mut k: usize = 0;
    assert(ov.take(0) =~= Seq::<OperandV>::empty());
    while k < ops.len()
        invariant
            ov == super::operands_view(ops@),
            k <= ops@.len(),
            data_bytes(ov.take(k as int), table_view(labels@), dry, word) == Ok::<Seq<u8>, Seq<char>>(
                bytes@,
            ),
        decreases ops@.len() - k,
    {
        assert(ov.take(k + 1).drop_last() =~= ov.take(k as int));
        assert(ov.take(k + 1).last() == ops@[k as int]@);
        let res = if word {
            dw_operand(&mut bytes, &ops[k], labels, dry)
        } else {
            db_operand(&mut bytes, &ops[k], labels, dry)
        };
        match res {
            Ok(_) => {},
            Err(e) => {
                assert(data_bytes(ov.take(k + 1), table_view(labels@), dry, word) is Err);
                proof {
                    lemma_data_bytes_err_prefix(ov, k as int + 1, table_view(labels@), dry, word);
                }
                return Err(e);
            },
        }
        k = k + 1;
    }
    assert(ov.take(k as int) =~= ov);
    Ok(bytes)
}

proof fn lemma_data_bytes_err_prefix(
    ov: Seq<OperandV>,
    k: int,
    labels: Seq<(Seq<char>, Symbol)>,
    dry: bool,
    word: bool,
)
    requires
        0 <= k <= ov.len(),
        data_bytes(ov.take(k), labels, dry, word) is Err,
    ensures
        data_bytes(ov, labels, dry, word) == data_bytes(ov.take(k), labels, dry, word),
    decreases ov.len() - k,
{
    if k < ov.len() {
        assert(ov.take(k + 1).drop_last() =~= ov.take(k));
        lemma_data_bytes_err_prefix(ov, k + 1, labels, dry, word);
    } else {
        assert(ov.take(k) =~= ov);
    }
}

/// The bytes of an instruction that takes no operands.
pub open spec fn fixed_opcode(m: Seq<char>) -> Option<Seq<u8>> {
    if m == "HALT"@ {
        Some(seq![0x76u8])
    } else if m == "NOP"@ {
        Some(seq![0x00u8])
    } else if m == "DI"@ {
        Some(seq![0xF3u8])
    } else if m == "EI"@ {
        Some(seq![0xFBu8])
    } else if m == "RETI"@ {
        Some(seq![0xEDu8, 0x4Du8])
    } else if m == "RETN"@ {
        Some(seq![0xEDu8, 0x45u8])
    } else if m == "EXX"@ {
        Some(seq![0xD9u8])
    } else if m == "DAA"@ {
        Some(seq![0x27u8])
    } else if m == "CPL"@ {
        Some(seq![0x2Fu8])
    } else if m == "CCF"@ {
        Some(seq![0x3Fu8])
    } else if m == "SCF"@ {
        Some(seq![0x37u8])
    } else if m == "RLA"@ {
        Some(seq![0x17u8])
    } else if m == "RRA"@ {
        Some(seq![0x1Fu8])
    } else if m == "RLCA"@ {
        Some(seq![0x07u8])
    } else if m == "RRCA"@ {
        Some(seq![0x0Fu8])
    } else if m == "LDI"@ {
        Some(seq![0xEDu8, 0xA0u8])
    } else if m == "LDIR"@ {
        Some(seq![0xEDu8, 0xB0u8])
    } else if m == "LDD"@ {
        Some(seq![0xEDu8, 0xA8u8])
    } else if m == "LDDR"@ {
        Some(seq![0xEDu8, 0xB8u8])
    } else if m == "CPI"@ {
        Some(seq![0xEDu8, 0xA1u8])
    } else if m == "CPIR"@ {
        Some(seq![0xEDu8, 0xB1u8])
    } else if m == "CPD"@ {
        Some(seq![0xEDu8, 0xA9u8])
    } else if m == "CPDR"@ {
        Some(seq![0xEDu8, 0xB9u8])
    } else if m == "INI"@ {
        Some(seq![0xEDu8, 0xA2u8])
    } else if m == "INIR"@ {
        Some(seq![0xEDu8, 0xB2u8])
    } else if m == "IND"@ {
        Some(seq![0xEDu8, 0xAAu8])
    } else if m == "INDR"@ {
        Some(seq![0xEDu8, 0xBAu8])
    } else if m == "OUTI"@ {
        Some(seq![0xEDu8, 0xA3u8])
    } else if m == "OTIR"@ {
        Some(seq![0xEDu8, 0xB3u8])
    } else if m == "OUTD"@ {
        Some(seq![0xEDu8, 0xABu8])
    } else if m == "OTDR"@ {
        Some(seq![0xEDu8, 0xBBu8])
    } else {
        None
    }
}

/// The bytes of an instruction that takes no operands (see [`fixed_opcode`]).
pub fn fixed_bytes(m: &String) -> (r: Option<Vec<u8>>)
    ensures
        match (r, fixed_opcode(m@)) {
            (Some(v), Some(b)) => v@ == b,
            (None, None) => true,
            _ => false,
        },
{
    if text_is(m, "HALT") {
        Some(bytes1(0x76u8))
    } else if text_is(m, "NOP") {
        Some(bytes1(0x00u8))
    } else if text_is(m, "DI") {
        Some(bytes1(0xF3u8))
    } else if text_is(m, "EI") {
        Some(bytes1(0xFBu8))
    } else if text_is(m, "RETI") {
        Some(bytes2(0xEDu8, 0x4Du8))
    } else if text_is(m, "RETN") {
        Some(bytes2(0xEDu8, 0x45u8))
    } else if text_is(m, "EXX") {
        Some(bytes1(0xD9u8))
    } else if text_is(m, "DAA") {
        Some(bytes1(0x27u8))
    } else if text_is(m, "CPL") {
        Some(bytes1(0x2Fu8))
    } else if text_is(m, "CCF") {
        Some(bytes1(0x3Fu8))
    } else if text_is(m, "SCF") {
        Some(bytes1(0x37u8))
    } else if text_is(m, "RLA") {
        Some(bytes1(0x17u8))
    } else if text_is(m, "RRA") {
        Some(bytes1(0x1Fu8))
    } else if text_is(m, "RLCA") {
        Some(bytes1(0x07u8))
    } else if text_is(m, "RRCA") {
        Some(bytes1(0x0Fu8))
    } else if text_is(m, "LDI") {
        Some(bytes2(0xEDu8, 0xA0u8))
    } else if text_is(m, "LDIR") {
        Some(bytes2(0xEDu8, 0xB0u8))
    } else if text_is(m, "LDD") {
        Some(bytes2(0xEDu8, 0xA8u8))
    } else if text_is(m, "LDDR") {
        Some(bytes2(0xEDu8, 0xB8u8))
    } else if text_is(m, "CPI") {
        Some(bytes2(0xEDu8, 0xA1u8))
    } else if text_is(m, "CPIR") {
        Some(bytes2(0xEDu8, 0xB1u8))
    } else if text_is(m, "CPD") {
        Some(bytes2(0xEDu8, 0xA9u8))
    } else if text_is(m, "CPDR") {
        Some(bytes2(0xEDu8, 0xB9u8))
    } else if text_is(m, "INI") {
        Some(bytes2(0xEDu8, 0xA2u8))
    } else if text_is(m, "INIR") {
        Some(bytes2(0xEDu8, 0xB2u8))
    } else if text_is(m, "IND") {
        Some(bytes2(0xEDu8, 0xAAu8))
    } else if text_is(m, "INDR") {
        Some(bytes2(0xEDu8, 0xBAu8))
    } else if text_is(m, "OUTI") {
        Some(bytes2(0xEDu8, 0xA3u8))
    } else if text_is(m, "OTIR") {
        Some(bytes2(0xEDu8, 0xB3u8))
    } else if text_is(m, "OUTD") {
        Some(bytes2(0xEDu8, 0xABu8))
    } else if text_is(m, "OTDR") {
        Some(bytes2(0xEDu8, 0xBBu8))
    } else {
        None
    }
}

/// The accumulator operation a mnemonic names.
pub open spec fn alu_mnemonic(m: Seq<char>) -> Option<ALUOperation> {
    if m == "ADC"@ {
        Some(ALUOperation::ADC)
    } else if m == "SUB"@ {
        Some(ALUOperation::SUB)
    } else if m == "AND"@ {
        Some(ALUOperation::AND)
    } else if m == "XOR"@ {
        Some(ALUOperation::XOR)
    } else if m == "OR"@ {
        Some(ALUOperation::OR)
    } else if m == "CP"@ {
        Some(ALUOperation::CP)
    } else {
        None
    }
}

/// The accumulator operation a mnemonic names. (see [`alu_mnemonic`]).
pub fn alu_of_mnemonic(m: &String) -> (r: Option<ALUOperation>)
    ensures
        r == alu_mnemonic(m@),
{
    if text_is(m, "ADC") {
        Some(ALUOperation::ADC)
    } else if text_is(m, "SUB") {
        Some(ALUOperation::SUB)
    } else if text_is(m, "AND") {
        Some(ALUOperation::AND)
    } else if text_is(m, "XOR") {
        Some(ALUOperation::XOR)
    } else if text_is(m, "OR") {
        Some(ALUOperation::OR)
    } else if text_is(m, "CP") {
        Some(ALUOperation::CP)
    } else {
        None
    }
}

/// The rotate or shift a mnemonic names.
pub open spec fn rot_mnemonic(m: Seq<char>) -> Option<RotOperation> {
    if m == "RLC"@ {
        Some(RotOperation::RLC)
    } else if m == "RRC"@ {
        Some(RotOperation::RRC)
    } else if m == "RL"@ {
        Some(RotOperation::RL)
    } else if m == "RR"@ {
        Some(RotOperation::RR)
    } else if m == "SLA"@ {
        Some(RotOperation::SLA)
    } else if m == "SRA"@ {
        Some(RotOperation::SRA)
    } else if m == "SLL"@ {
        Some(RotOperation::SLL)
    } else if m == "SRL"@ {
        Some(RotOperation::SRL)
    } else {
        None
    }
}

/// The rotate or shift a mnemonic names. (see [`rot_mnemonic`]).
pub fn rot_of_mnemonic(m: &String) -> (r: Option<RotOperation>)
    ensures
        r == rot_mnemonic(m@),
{
    if text_is(m, "RLC") {
        Some(RotOperation::RLC)
    } else if text_is(m, "RRC") {
        Some(RotOperation::RRC)
    } else if text_is(m, "RL") {
        Some(RotOperation::RL)
    } else if text_is(m, "RR") {
        Some(RotOperation::RR)
    } else if text_is(m, "SLA") {
        Some(RotOperation::SLA)
    } else if text_is(m, "SRA") {
        Some(RotOperation::SRA)
    } else if text_is(m, "SLL") {
        Some(RotOperation::SLL)
    } else if text_is(m, "SRL") {
        Some(RotOperation::SRL)
    } else {
        None
    }
}

/// The opcode base of a bit operation mnemonic.
pub open spec fn bit_mnemonic(m: Seq<char>) -> Option<u8> {
    if m == "BIT"@ {
        Some(0x40u8)
    } else if m == "RES"@ {
        Some(0x80u8)
    } else if m == "SET"@ {
        Some(0xC0u8)
    } else {
        None
    }
}

/// The opcode base of a bit operation mnemonic. (see [`bit_mnemonic`]).
pub fn bit_base_of_mnemonic(m: &String) -> (r: Option<u8>)
    ensures
        r == bit_mnemonic(m@),
{
    if text_is(m, "BIT") {
        Some(0x40u8)
    } else if text_is(m, "RES") {
        Some(0x80u8)
    } else if text_is(m, "SET") {
        Some(0xC0u8)
    } else {
        None
    }
}

/// The bytes of an instruction with mnemonic `m` and operands `ops` at
/// address `pc`, or why it cannot be assembled.
pub open spec fn spec_mnemonic(
    m: Seq<char>,
    ops: Seq<OperandV>,
    pc: u16,
    labels: Seq<(Seq<char>, Symbol)>,
    dry: bool,
) -> Result<Seq<u8>, Seq<char>> {
    if m == "LD"@ {
        spec_ld(ops, labels, dry)
    } else if m == "INC"@ {
        spec_alu_uni(0x04, ops)
    } else if m == "DEC"@ {
        spec_alu_uni(0x05, ops)
    } else if m == "ADD"@ {
        spec_add(ops, labels, dry)
    } else if m == "SBC"@ {
        spec_sbc(ops, labels, dry)
    } else if alu_mnemonic(m) is Some {
        spec_alu_op(alu_mnemonic(m)->0, ops, labels, dry)
    } else if fixed_opcode(m) is Some {
        Ok(fixed_opcode(m)->0)
    } else if m == "IM"@ {
        spec_im(ops)
    } else if m == "EX"@ {
        spec_ex(ops)
    } else if m == "JP"@ {
        spec_jp(ops, labels, dry)
    } else if m == "JR"@ {
        spec_jr(ops, pc, labels, dry)
    } else if m == "DJNZ"@ {
        spec_djnz(ops, pc, labels, dry)
    } else if m == "CALL"@ {
        spec_call(ops, labels, dry)
    } else if m == "RET"@ {
        spec_ret(ops)
    } else if m == "RST"@ {
        spec_rst(ops)
    } else if m == "PUSH"@ {
        spec_push(ops)
    } else if m == "POP"@ {
        spec_pop(ops)
    } else if m == "IN"@ {
        spec_in(ops, labels, dry)
    } else if m == "OUT"@ {
        spec_out(ops, labels, dry)
    } else if m == "ORG"@ {
        spec_org(ops, pc, labels, dry)
    } else if m == "DB"@ || m == "DEFB"@ {
        data_bytes(ops, labels, dry, false)
    } else if m == "DW"@ || m == "DEFW"@ {
        data_bytes(ops, labels, dry, true)
    } else if m == "DS"@ || m == "DEFS"@ {
        spec_ds(ops, labels, dry)
    } else if rot_mnemonic(m) is Some {
        spec_rot_op(rot_mnemonic(m)->0, ops)
    } else if bit_mnemonic(m) is Some {
        spec_bit_op(bit_mnemonic(m)->0, ops)
    } else {
        Err("Unknown mnemonic: "@ + m)
    }
}

/// Encodes the instruction with mnemonic `m` (see [`spec_mnemonic`]).
#[verifier::rlimit(40)]
pub fn encode_mnemonic(
    m: &String,
    ops: &Vec<Operand>,
    pc: u16,
    labels: &Vec<(String, Symbol)>,
    dry: bool,
) -> (r: Result<Vec<u8>, String>)
    ensures
        bytes_res(r) == spec_mnemonic(m@, super::operands_view(ops@), pc, table_view(labels@), dry),
{
    if text_is(m, "LD") {
        return encode_ld(ops, labels, dry);
    }
    if text_is(m, "INC") {
        return encode_alu_uni(0x04, ops);
    }
    if text_is(m, "DEC") {
        return encode_alu_uni(0x05, ops);
    }
    if text_is(m, "ADD") {
        return encode_add(ops, labels, dry);
    }
    if text_is(m, "SBC") {
        return encode_sbc(ops, labels, dry);
    }
    if let Some(op) = alu_of_mnemonic(m) {
        return encode_alu_op(op, ops, labels, dry);
    }
    if let Some(b) = fixed_bytes(m) {
        return Ok(b);
    }
    if text_is(m, "IM") {
        return encode_im(ops);
    }
    if text_is(m, "EX") {
        return encode_ex(ops);
    }
    if text_is(m, "JP") {
        return encode_jp(ops, labels, dry);
    }
    if text_is(m, "JR") {
        return encode_jr(ops, pc, labels, dry);
    }
    if text_is(m, "DJNZ") {
        return encode_djnz(ops, pc, labels, dry);
    }
    if text_is(m, "CALL") {
        return encode_call(ops, labels, dry);
    }
    if text_is(m, "RET") {
        return encode_ret(ops);
    }
    if text_is(m, "RST") {
        return encode_rst(ops);
    }
    if text_is(m, "PUSH") {
        return encode_push(ops);
    }
    if text_is(m, "POP") {
        return encode_pop(ops);
    }
    if text_is(m, "IN") {
        return encode_in(ops, labels, dry);
    }
    if text_is(m, "OUT") {
        return encode_out(ops, labels, dry);
    }
    if text_is(m, "ORG") {
        return encode_org(ops, pc, labels, dry);
    }
    if text_is(m, "DB") || text_is(m, "DEFB") {
        return encode_data(ops, labels, dry, false);
    }
    if text_is(m, "DW") || text_is(m, "DEFW") {
        return encode_data(ops, labels, dry, true);
    }
    if text_is(m, "DS") || text_is(m, "DEFS") {
        return encode_ds(ops, labels, dry);
    }
    if let Some(op) = rot_of_mnemonic(m) {
        return encode_rot_op(op, ops);
    }
    if let Some(base) = bit_base_of_mnemonic(m) {
        return encode_bit_op(base, ops);
    }
    let mut e = err_msg("Unknown mnemonic: ");
    e.append(m.as_str());
    Err(e)
}

/// The bytes of an assembled instruction: a mnemonic followed by its
/// operands, at address `pc`. While sizing (`dry`), unknown labels count as zero.
pub open spec fn spec_instruction(
    t: Seq<TokenV>,
    pc: u16,
    labels: Seq<(Seq<char>, Symbol)>,
    dry: bool,
) -> Result<Seq<u8>, Seq<char>> {
    match t[0] {
        TokenV::Identifier(m) => match spec_parse_operands(t.drop_first()) {
            Ok(ops) => spec_mnemonic(m, ops, pc, labels, dry),
            Err(e) => Err(e),
        },
        _ => Err("Expected mnemonic"@),
    }
}

/// A copy of a token.
pub fn copy_token(t: &Token) -> (r: Token)
    ensures
        r@ == t@,
{
    match t {
        Token::Identifier(s) => Token::Identifier(s.clone()),
        Token::Number(n) => Token::Number(*n),
        Token::String(s) => Token::String(s.clone()),
        Token::Comma => Token::Comma,
        Token::OpenParen => Token::OpenParen,
        Token::CloseParen => Token::CloseParen,
        Token::Plus => Token::Plus,
        Token::Minus => Token::Minus,
        Token::Colon => Token::Colon,
    }
}

/// The tokens from position `start` on.
pub fn tokens_from(t: &Vec<Token>, start: usize) -> (r: Vec<Token>)
    requires
        start <= t@.len(),
    ensures
        tokens_view(r@) == tokens_view(t@).subrange(start as int, t@.len() as int),
{
    let mut r: Vec<Token> = Vec::new();
    let mut i = start;
    while i < t.len()
        invariant
            start <= i <= t@.len(),
            tokens_view(r@) == tokens_view(t@).subrange(start as int, i as int),
        decreases t@.len() - i,
    {
        let c = copy_token(&t[i]);
        let ghost before = r@;
        r.push(c);
        assert(tokens_view(r@) =~= tokens_view(before).push(c@));
        assert(tokens_view(t@)[i as int] == t@[i as int]@);
        assert(tokens_view(r@) =~= tokens_view(t@).subrange(start as int, i + 1));
        i = i + 1;
    }
    r
}

/// Assembles one instruction (see [`spec_instruction`]).
pub fn parse_instruction(tokens: &Vec<Token>, pc: u16, labels: &Vec<(String, Symbol)>, dry: bool) -> (r:
    Result<Vec<u8>, String>)
    requires
        tokens@.len() > 0,
    ensures
        bytes_res(r) == spec_instruction(tokens_view(tokens@), pc, table_view(labels@), dry),
{
    let ghost tv = tokens_view(tokens@);
    assert(tv[0] == tokens@[0]@);
    let mnemonic = match &tokens[0] {
        Token::Identifier(m) => m,
        _ => {
            return Err(err_msg("Expected mnemonic"));
        },
    };
    let rest = tokens_from(tokens, 1);
    assert(tokens_view(rest@) =~= tv.drop_first());
    match parse_operands(&rest) {
        Ok(operands) => encode_mnemonic(mnemonic, &operands, pc, labels, dry),
        Err(e) => Err(e),
    }
}

/// `ORG` with a number, or with a label that is neither a register nor a
/// condition and resolves to a number: a target below the current address
/// is an error; otherwise the bytes are zeros up to the target.
pub proof fn lemma_org_pads(t: TokenV, n: u16, pc: u16, labels: Seq<(Seq<char>, Symbol)>, dry: bool)
    requires
        t == TokenV::Number(n) || (t matches TokenV::Identifier(l) && !spec_is_condition(l)
            && !spec_is_register(l) && spec_resolve_label(l, labels, dry) == Ok::<u16, Seq<char>>(n)),
    ensures
        spec_instruction(seq![TokenV::Identifier("ORG"@), t], pc, labels, dry) == (if n < pc {
            Err::<Seq<u8>, Seq<char>>("ORG cannot go backwards"@)
        } else {
            Ok(filled(0, (n - pc) as nat))
        }),
{
    reveal_strlit("LD");
    reveal_strlit("INC");
    reveal_strlit("DEC");
    reveal_strlit("ADD");
    reveal_strlit("SBC");
    reveal_strlit("ADC");
    reveal_strlit("SUB");
    reveal_strlit("AND");
    reveal_strlit("XOR");
    reveal_strlit("OR");
    reveal_strlit("CP");
    reveal_strlit("HALT");
    reveal_strlit("NOP");
    reveal_strlit("DI");
    reveal_strlit("EI");
    reveal_strlit("RETI");
    reveal_strlit("RETN");
    reveal_strlit("EXX");
    reveal_strlit("DAA");
    reveal_strlit("CPL");
    reveal_strlit("CCF");
    reveal_strlit("SCF");
    reveal_strlit("RLA");
    reveal_strlit("RRA");
    reveal_strlit("RLCA");
    reveal_strlit("RRCA");
    reveal_strlit("LDI");
    reveal_strlit("LDIR");
    reveal_strlit("LDD");
    reveal_strlit("LDDR");
    reveal_strlit("CPI");
    reveal_strlit("CPIR");
    reveal_strlit("CPD");
    reveal_strlit("CPDR");
    reveal_strlit("INI");
    reveal_strlit("INIR");
    reveal_strlit("IND");
    reveal_strlit("INDR");
    reveal_strlit("OUTI");
    reveal_strlit("OTIR");
    reveal_strlit("OUTD");
    reveal_strlit("OTDR");
    reveal_strlit("IM");
    reveal_strlit("EX");
    reveal_strlit("JP");
    reveal_strlit("JR");
    reveal_strlit("DJNZ");
    reveal_strlit("CALL");
    reveal_strlit("RET");
    reveal_strlit("RST");
    reveal_strlit("PUSH");
    reveal_strlit("POP");
    reveal_strlit("IN");
    reveal_strlit("OUT");
    reveal_strlit("ORG");
    let toks = seq![TokenV::Identifier("ORG"@), t];
    let rest = seq![t];
    assert(toks.drop_first() =~= rest);
    let op = match t {
        TokenV::Number(m) => OperandV::Immediate(m),
        TokenV::Identifier(l) => OperandV::Label(l),
        _ => OperandV::Immediate(0),
    };
    assert(operand_at(rest, 0) == Ok::<(OperandV, int), Seq<char>>((op, 1)));
    assert(ops_after(rest, 1) == Ok::<Seq<OperandV>, Seq<char>>(Seq::empty()));
    assert(spec_parse_operands(rest) == Ok::<Seq<OperandV>, Seq<char>>(seq![op])) by {
        assert(seq![op] + Seq::<OperandV>::empty() =~= seq![op]);
    }
    assert(spec_resolve_immediate(op, labels, dry) == Ok::<u16, Seq<char>>(n));
    let m = "ORG"@;
    assert(m[0] == 'O' && m[1] == 'R' && m[2] == 'G' && m.len() == 3);
    assert(alu_mnemonic(m) is None);
    assert(fixed_opcode(m) is None);
    assert(spec_mnemonic(m, seq![op], pc, labels, dry) == spec_org(seq![op], pc, labels, dry));
}

/// The number an opcode of one or two bytes spells, first byte high.
pub open spec fn opcode_number(b: Seq<u8>) -> int {
    if b.len() == 1 {
        b[0] as int
    } else if b.len() == 2 {
        b[0] * 256 + b[1]
    } else {
        -1
    }
}

spec fn fixed_name(code: int) -> Seq<char> {
    if code == 118 {
        "HALT"@
    } else if code == 0 {
        "NOP"@
    } else if code == 243 {
        "DI"@
    } else if code == 251 {
        "EI"@
    } else if code == 60749 {
        "RETI"@
    } else if code == 60741 {
        "RETN"@
    } else if code == 217 {
        "EXX"@
    } else if code == 39 {
        "DAA"@
    } else if code == 47 {
        "CPL"@
    } else if code == 63 {
        "CCF"@
    } else if code == 55 {
        "SCF"@
    } else if code == 23 {
        "RLA"@
    } else if code == 31 {
        "RRA"@
    } else if code == 7 {
        "RLCA"@
    } else if code == 15 {
        "RRCA"@
    } else if code == 60832 {
        "LDI"@
    } else if code == 60848 {
        "LDIR"@
    } else if code == 60840 {
        "LDD"@
    } else if code == 60856 {
        "LDDR"@
    } else if code == 60833 {
        "CPI"@
    } else if code == 60849 {
        "CPIR"@
    } else if code == 60841 {
        "CPD"@
    } else if code == 60857 {
        "CPDR"@
    } else if code == 60834 {
        "INI"@
    } else if code == 60850 {
        "INIR"@
    } else if code == 60842 {
        "IND"@
    } else if code == 60858 {
        "INDR"@
    } else if code == 60835 {
        "OUTI"@
    } else if code == 60851 {
        "OTIR"@
    } else if code == 60843 {
        "OUTD"@
    } else if code == 60859 {
        "OTDR"@
    } else {
        Seq::empty()
    }
}

proof fn lemma_fixed_name(m: Seq<char>)
    requires
        fixed_opcode(m) is Some,
    ensures
        fixed_name(opcode_number(fixed_opcode(m)->0)) == m,
{
}

/// No two operand-free mnemonics assemble to the same opcode.
pub proof fn lemma_fixed_opcodes_distinct(m1: Seq<char>, m2: Seq<char>)
    requires
        fixed_opcode(m1) is Some,
        fixed_opcode(m2) is Some,
        m1 != m2,
    ensures
        fixed_opcode(m1)->0 != fixed_opcode(m2)->0,
{
    lemma_fixed_name(m1);
    lemma_fixed_name(m2);
}

/// Each operand-free mnemonic assembles to its Z80 opcode, whatever
/// operands follow it and wherever it stands: HALT 76, NOP 00, DI F3, EI FB,
/// RETI ED 4D, RETN ED 45, EXX D9, DAA 27, CPL 2F, CCF 3F, SCF 37, RLA 17,
/// RRA 1F, RLCA 07, RRCA 0F, and the block instructions ED A0-BB.
#[verifier::rlimit(100)]
pub proof fn lemma_operand_free_opcodes(
    ops: Seq<OperandV>,
    pc: u16,
    labels: Seq<(Seq<char>, Symbol)>,
    dry: bool,
)
    ensures
        spec_mnemonic("HALT"@, ops, pc, labels, dry) == Ok::<Seq<u8>, Seq<char>>(seq![0x76u8]),
        spec_mnemonic("NOP"@, ops, pc, labels, dry) == Ok::<Seq<u8>, Seq<char>>(seq![0x00u8]),
        spec_mnemonic("DI"@, ops, pc, labels, dry) == Ok::<Seq<u8>, Seq<char>>(seq![0xF3u8]),
        spec_mnemonic("EI"@, ops, pc, labels, dry) == Ok::<Seq<u8>, Seq<char>>(seq![0xFBu8]),
        spec_mnemonic("RETI"@, ops, pc, labels, dry) == Ok::<Seq<u8>, Seq<char>>(seq![0xEDu8, 0x4Du8]),
        spec_mnemonic("RETN"@, ops, pc, labels, dry) == Ok::<Seq<u8>, Seq<char>>(seq![0xEDu8, 0x45u8]),
        spec_mnemonic("EXX"@, ops, pc, labels, dry) == Ok::<Seq<u8>, Seq<char>>(seq![0xD9u8]),
        spec_mnemonic("DAA"@, ops, pc, labels, dry) == Ok::<Seq<u8>, Seq<char>>(seq![0x27u8]),
        spec_mnemonic("CPL"@, ops, pc, labels, dry) == Ok::<Seq<u8>, Seq<char>>(seq![0x2Fu8]),
        spec_mnemonic("CCF"@, ops, pc, labels, dry) == Ok::<Seq<u8>, Seq<char>>(seq![0x3Fu8]),
        spec_mnemonic("SCF"@, ops, pc, labels, dry) == Ok::<Seq<u8>, Seq<char>>(seq![0x37u8]),
        spec_mnemonic("RLA"@, ops, pc, labels, dry) == Ok::<Seq<u8>, Seq<char>>(seq![0x17u8]),
        spec_mnemonic("RRA"@, ops, pc, labels, dry) == Ok::<Seq<u8>, Seq<char>>(seq![0x1Fu8]),
        spec_mnemonic("RLCA"@, ops, pc, labels, dry) == Ok::<Seq<u8>, Seq<char>>(seq![0x07u8]),
        spec_mnemonic("RRCA"@, ops, pc, labels, dry) == Ok::<Seq<u8>, Seq<char>>(seq![0x0Fu8]),
        spec_mnemonic("LDI"@, ops, pc, labels, dry) == Ok::<Seq<u8>, Seq<char>>(seq![0xEDu8, 0xA0u8]),
        spec_mnemonic("LDIR"@, ops, pc, labels, dry) == Ok::<Seq<u8>, Seq<char>>(seq![0xEDu8, 0xB0u8]),
        spec_mnemonic("LDD"@, ops, pc, labels, dry) == Ok::<Seq<u8>, Seq<char>>(seq![0xEDu8, 0xA8u8]),
        spec_mnemonic("LDDR"@, ops, pc, labels, dry) == Ok::<Seq<u8>, Seq<char>>(seq![0xEDu8, 0xB8u8]),
        spec_mnemonic("CPI"@, ops, pc, labels, dry) == Ok::<Seq<u8>, Seq<char>>(seq![0xEDu8, 0xA1u8]),
        spec_mnemonic("CPIR"@, ops, pc, labels, dry) == Ok::<Seq<u8>, Seq<char>>(seq![0xEDu8, 0xB1u8]),
        spec_mnemonic("CPD"@, ops, pc, labels, dry) == Ok::<Seq<u8>, Seq<char>>(seq![0xEDu8, 0xA9u8]),
        spec_mnemonic("CPDR"@, ops, pc, labels, dry) == Ok::<Seq<u8>, Seq<char>>(seq![0xEDu8, 0xB9u8]),
        spec_mnemonic("INI"@, ops, pc, labels, dry) == Ok::<Seq<u8>, Seq<char>>(seq![0xEDu8, 0xA2u8]),
        spec_mnemonic("INIR"@, ops, pc, labels, dry) == Ok::<Seq<u8>, Seq<char>>(seq![0xEDu8, 0xB2u8]),
        spec_mnemonic("IND"@, ops, pc, labels, dry) == Ok::<Seq<u8>, Seq<char>>(seq![0xEDu8, 0xAAu8]),
        spec_mnemonic("INDR"@, ops, pc, labels, dry) == Ok::<Seq<u8>, Seq<char>>(seq![0xEDu8, 0xBAu8]),
        spec_mnemonic("OUTI"@, ops, pc, labels, dry) == Ok::<Seq<u8>, Seq<char>>(seq![0xEDu8, 0xA3u8]),
        spec_mnemonic("OTIR"@, ops, pc, labels, dry) == Ok::<Seq<u8>, Seq<char>>(seq![0xEDu8, 0xB3u8]),
        spec_mnemonic("OUTD"@, ops, pc, labels, dry) == Ok::<Seq<u8>, Seq<char>>(seq![0xEDu8, 0xABu8]),
        spec_mnemonic("OTDR"@, ops, pc, labels, dry) == Ok::<Seq<u8>, Seq<char>>(seq![0xEDu8, 0xBBu8]),
{
    reveal_strlit("LD");
    reveal_strlit("INC");
    reveal_strlit("DEC");
    reveal_strlit("ADD");
    reveal_strlit("SBC");
    reveal_strlit("ADC");
    reveal_strlit("SUB");
    reveal_strlit("AND");
    reveal_strlit("XOR");
    reveal_strlit("OR");
    reveal_strlit("CP");
    reveal_strlit("HALT");
    reveal_strlit("NOP");
    reveal_strlit("DI");
    reveal_strlit("EI");
    reveal_strlit("RETI");
    reveal_strlit("RETN");
    reveal_strlit("EXX");
    reveal_strlit("DAA");
    reveal_strlit("CPL");
    reveal_strlit("CCF");
    reveal_strlit("SCF");
    reveal_strlit("RLA");
    reveal_strlit("RRA");
    reveal_strlit("RLCA");
    reveal_strlit("RRCA");
    reveal_strlit("LDI");
    reveal_strlit("LDIR");
    reveal_strlit("LDD");
    reveal_strlit("LDDR");
    reveal_strlit("CPI");
    reveal_strlit("CPIR");
    reveal_strlit("CPD");
    reveal_strlit("CPDR");
    reveal_strlit("INI");
    reveal_strlit("INIR");
    reveal_strlit("IND");
    reveal_strlit("INDR");
    reveal_strlit("OUTI");
    reveal_strlit("OTIR");
    reveal_strlit("OUTD");
    reveal_strlit("OTDR");
    assert(("LD"@)[0] == 'L' && ("LD"@)[1] == 'D' && ("LD"@).len() == 2);
    assert(("INC"@)[0] == 'I' && ("INC"@)[1] == 'N' && ("INC"@)[2] == 'C' && ("INC"@).len() == 3);
    assert(("DEC"@)[0] == 'D' && ("DEC"@)[1] == 'E' && ("DEC"@)[2] == 'C' && ("DEC"@).len() == 3);
    assert(("ADD"@)[0] == 'A' && ("ADD"@)[1] == 'D' && ("ADD"@)[2] == 'D' && ("ADD"@).len() == 3);
    assert(("SBC"@)[0] == 'S' && ("SBC"@)[1] == 'B' && ("SBC"@)[2] == 'C' && ("SBC"@).len() == 3);
    assert(("ADC"@)[0] == 'A' && ("ADC"@)[1] == 'D' && ("ADC"@)[2] == 'C' && ("ADC"@).len() == 3);
    assert(("SUB"@)[0] == 'S' && ("SUB"@)[1] == 'U' && ("SUB"@)[2] == 'B' && ("SUB"@).len() == 3);
    assert(("AND"@)[0] == 'A' && ("AND"@)[1] == 'N' && ("AND"@)[2] == 'D' && ("AND"@).len() == 3);
    assert(("XOR"@)[0] == 'X' && ("XOR"@)[1] == 'O' && ("XOR"@)[2] == 'R' && ("XOR"@).len() == 3);
    assert(("OR"@)[0] == 'O' && ("OR"@)[1] == 'R' && ("OR"@).len() == 2);
    assert(("CP"@)[0] == 'C' && ("CP"@)[1] == 'P' && ("CP"@).len() == 2);
    assert(("HALT"@)[0] == 'H' && ("HALT"@)[1] == 'A' && ("HALT"@)[2] == 'L' && ("HALT"@)[3] == 'T' && ("HALT"@).len() == 4);
    assert(("NOP"@)[0] == 'N' && ("NOP"@)[1] == 'O' && ("NOP"@)[2] == 'P' && ("NOP"@).len() == 3);
    assert(("DI"@)[0] == 'D' && ("DI"@)[1] == 'I' && ("DI"@).len() == 2);
    assert(("EI"@)[0] == 'E' && ("EI"@)[1] == 'I' && ("EI"@).len() == 2);
    assert(("RETI"@)[0] == 'R' && ("RETI"@)[1] == 'E' && ("RETI"@)[2] == 'T' && ("RETI"@)[3] == 'I' && ("RETI"@).len() == 4);
    assert(("RETN"@)[0] == 'R' && ("RETN"@)[1] == 'E' && ("RETN"@)[2] == 'T' && ("RETN"@)[3] == 'N' && ("RETN"@).len() == 4);
    assert(("EXX"@)[0] == 'E' && ("EXX"@)[1] == 'X' && ("EXX"@)[2] == 'X' && ("EXX"@).len() == 3);
    assert(("DAA"@)[0] == 'D' && ("DAA"@)[1] == 'A' && ("DAA"@)[2] == 'A' && ("DAA"@).len() == 3);
    assert(("CPL"@)[0] == 'C' && ("CPL"@)[1] == 'P' && ("CPL"@)[2] == 'L' && ("CPL"@).len() == 3);
    assert(("CCF"@)[0] == 'C' && ("CCF"@)[1] == 'C' && ("CCF"@)[2] == 'F' && ("CCF"@).len() == 3);
    assert(("SCF"@)[0] == 'S' && ("SCF"@)[1] == 'C' && ("SCF"@)[2] == 'F' && ("SCF"@).len() == 3);
    assert(("RLA"@)[0] == 'R' && ("RLA"@)[1] == 'L' && ("RLA"@)[2] == 'A' && ("RLA"@).len() == 3);
    assert(("RRA"@)[0] == 'R' && ("RRA"@)[1] == 'R' && ("RRA"@)[2] == 'A' && ("RRA"@).len() == 3);
    assert(("RLCA"@)[0] == 'R' && ("RLCA"@)[1] == 'L' && ("RLCA"@)[2] == 'C' && ("RLCA"@)[3] == 'A' && ("RLCA"@).len() == 4);
    assert(("RRCA"@)[0] == 'R' && ("RRCA"@)[1] == 'R' && ("RRCA"@)[2] == 'C' && ("RRCA"@)[3] == 'A' && ("RRCA"@).len() == 4);
    assert(("LDI"@)[0] == 'L' && ("LDI"@)[1] == 'D' && ("LDI"@)[2] == 'I' && ("LDI"@).len() == 3);
    assert(("LDIR"@)[0] == 'L' && ("LDIR"@)[1] == 'D' && ("LDIR"@)[2] == 'I' && ("LDIR"@)[3] == 'R' && ("LDIR"@).len() == 4);
    assert(("LDD"@)[0] == 'L' && ("LDD"@)[1] == 'D' && ("LDD"@)[2] == 'D' && ("LDD"@).len() == 3);
    assert(("LDDR"@)[0] == 'L' && ("LDDR"@)[1] == 'D' && ("LDDR"@)[2] == 'D' && ("LDDR"@)[3] == 'R' && ("LDDR"@).len() == 4);
    assert(("CPI"@)[0] == 'C' && ("CPI"@)[1] == 'P' && ("CPI"@)[2] == 'I' && ("CPI"@).len() == 3);
    assert(("CPIR"@)[0] == 'C' && ("CPIR"@)[1] == 'P' && ("CPIR"@)[2] == 'I' && ("CPIR"@)[3] == 'R' && ("CPIR"@).len() == 4);
    assert(("CPD"@)[0] == 'C' && ("CPD"@)[1] == 'P' && ("CPD"@)[2] == 'D' && ("CPD"@).len() == 3);
    assert(("CPDR"@)[0] == 'C' && ("CPDR"@)[1] == 'P' && ("CPDR"@)[2] == 'D' && ("CPDR"@)[3] == 'R' && ("CPDR"@).len() == 4);
    assert(("INI"@)[0] == 'I' && ("INI"@)[1] == 'N' && ("INI"@)[2] == 'I' && ("INI"@).len() == 3);
    assert(("INIR"@)[0] == 'I' && ("INIR"@)[1] == 'N' && ("INIR"@)[2] == 'I' && ("INIR"@)[3] == 'R' && ("INIR"@).len() == 4);
    assert(("IND"@)[0] == 'I' && ("IND"@)[1] == 'N' && ("IND"@)[2] == 'D' && ("IND"@).len() == 3);
    assert(("INDR"@)[0] == 'I' && ("INDR"@)[1] == 'N' && ("INDR"@)[2] == 'D' && ("INDR"@)[3] == 'R' && ("INDR"@).len() == 4);
    assert(("OUTI"@)[0] == 'O' && ("OUTI"@)[1] == 'U' && ("OUTI"@)[2] == 'T' && ("OUTI"@)[3] == 'I' && ("OUTI"@).len() == 4);
    assert(("OTIR"@)[0] == 'O' && ("OTIR"@)[1] == 'T' && ("OTIR"@)[2] == 'I' && ("OTIR"@)[3] == 'R' && ("OTIR"@).len() == 4);
    assert(("OUTD"@)[0] == 'O' && ("OUTD"@)[1] == 'U' && ("OUTD"@)[2] == 'T' && ("OUTD"@)[3] == 'D' && ("OUTD"@).len() == 4);
    assert(("OTDR"@)[0] == 'O' && ("OTDR"@)[1] == 'T' && ("OTDR"@)[2] == 'D' && ("OTDR"@)[3] == 'R' && ("OTDR"@).len() == 4);
}

/// The 8-bit register that a name in assembly text denotes.
pub open spec fn register_named(n: Seq<char>) -> Option<GPR> {
    if n == "B"@ {
        Some(GPR::B)
    } else if n == "C"@ {
        Some(GPR::C)
    } else if n == "D"@ {
        Some(GPR::D)
    } else if n == "E"@ {
        Some(GPR::E)
    } else if n == "H"@ {
        Some(GPR::H)
    } else if n == "L"@ {
        Some(GPR::L)
    } else if n == "A"@ {
        Some(GPR::A)
    } else {
        None
    }
}

/// The branch condition that a name in assembly text denotes.
pub open spec fn condition_named(n: Seq<char>) -> Option<Condition> {
    if n == "NZ"@ {
        Some(Condition::NZ)
    } else if n == "Z"@ {
        Some(Condition::Z)
    } else if n == "NC"@ {
        Some(Condition::NC)
    } else if n == "C"@ {
        Some(Condition::C)
    } else if n == "PO"@ {
        Some(Condition::PO)
    } else if n == "PE"@ {
        Some(Condition::PE)
    } else if n == "P"@ {
        Some(Condition::P)
    } else if n == "M"@ {
        Some(Condition::M)
    } else {
        None
    }
}

/// `LD d, s` between two of the registers B, C, D, E, H, L and A assembles
/// to a single load opcode that the CPU decodes as a load into the register
/// named `d` from the register named `s`.
pub proof fn lemma_ld_registers_decode(d: Seq<char>, s: Seq<char>, labels: Seq<(Seq<char>, Symbol)>, dry: bool)
    requires
        register_named(d) is Some,
        register_named(s) is Some,
    ensures
        spec_ld(seq![OperandV::Register(d), OperandV::Register(s)], labels, dry) is Ok,
        ({
            let b = spec_ld(seq![OperandV::Register(d), OperandV::Register(s)], labels, dry)->Ok_0;
            &&& b.len() == 1
            &&& op_x(b[0]) == 1
            &&& op_y(b[0]) != 6 && r_reg(op_y(b[0])) == register_named(d)->0
            &&& op_z(b[0]) != 6 && r_reg(op_z(b[0])) == register_named(s)->0
        }),
{
    reveal_strlit("B");
    reveal_strlit("C");
    reveal_strlit("D");
    reveal_strlit("E");
    reveal_strlit("H");
    reveal_strlit("L");
    reveal_strlit("A");
    let cd = spec_r_code(d)->0;
    let cs = spec_r_code(s)->0;
    assert(spec_r_code(d) is Some && spec_r_code(s) is Some);
    assert(cd < 8 && cd != 6 && cs < 8 && cs != 6);
    assert(r_reg(cd) == register_named(d)->0);
    assert(r_reg(cs) == register_named(s)->0);
    let op = 0x40u8 | (cd << 3u8) | cs;
    assert(op_x(op) == 1 && op_y(op) == cd && op_z(op) == cs) by {
        assert(cd < 8 && cs < 8 ==> ((0x40u8 | (cd << 3u8) | cs) / 64 == 1 && ((0x40u8 | (cd << 3u8) | cs) / 8) % 8 == cd
            && (0x40u8 | (cd << 3u8) | cs) % 8 == cs)) by (bit_vector);
    }
}

/// A condition name in assembly text gets the code whose condition the CPU
/// tests when it runs a conditional jump, call or return with that code.
pub proof fn lemma_condition_codes_decode(n: Seq<char>)
    requires
        condition_named(n) is Some,
    ensures
        spec_condition_code(n) is Some,
        spec_condition_code(n)->0 < 8,
        cc_of(spec_condition_code(n)->0) == condition_named(n)->0,
{
    reveal_strlit("NZ");
    reveal_strlit("Z");
    reveal_strlit("NC");
    reveal_strlit("C");
    reveal_strlit("PO");
    reveal_strlit("PE");
    reveal_strlit("P");
    reveal_strlit("M");
}

/// The register pair that a name in assembly text denotes.
pub open spec fn pair_named(n: Seq<char>) -> Option<RegisterPair> {
    if n == "BC"@ {
        Some(RegisterPair::BC)
    } else if n == "DE"@ {
        Some(RegisterPair::DE)
    } else if n == "HL"@ {
        Some(RegisterPair::HL)
    } else if n == "SP"@ {
        Some(RegisterPair::SP)
    } else if n == "AF"@ {
        Some(RegisterPair::AF)
    } else {
        None
    }
}

/// A register pair name gets the code by which the CPU finds that pair:
/// BC, DE, HL and SP in the table of loads and 16-bit arithmetic, BC, DE,
/// HL and AF in the table of `PUSH` and `POP`.
pub proof fn lemma_pair_codes_decode(n: Seq<char>)
    requires
        pair_named(n) is Some,
    ensures
        n != "AF"@ ==> spec_rp_code(n) is Some && spec_rp_code(n)->0 < 4 && rp_of(
            spec_rp_code(n)->0,
            PrefixAddressing::HL,
        ) == pair_named(n)->0,
        n != "SP"@ ==> spec_rp2_code(n) is Some && spec_rp2_code(n)->0 < 4 && rp2_of(
            spec_rp2_code(n)->0,
            PrefixAddressing::HL,
        ) == pair_named(n)->0,
{
    reveal_strlit("BC");
    reveal_strlit("DE");
    reveal_strlit("HL");
    reveal_strlit("SP");
    reveal_strlit("AF");
}

} // verus!
