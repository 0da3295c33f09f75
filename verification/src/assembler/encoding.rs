use vstd::prelude::*;

use super::{
    bytes1, bytes2, bytes3, bytes4, bytes_res, disp, disp_byte, err_msg, get_condition_code, get_r_code, get_rp_code, hi, high,
    index_prefix, text_is, lo, low, num_res, prefix_of, resolve_immediate, resolve_indirect,
    spec_condition_code, spec_r_code, spec_resolve_immediate, spec_resolve_indirect, spec_rp_code,
    table_view, Operand, OperandV, Symbol,
};
use crate::cpu::alu::{alu_code, rot_code, spec_alu_code, spec_rot_code, ALUOperation, RotOperation};

verus! {

/// `INC`/`DEC` (`base` 0x04 or 0x05) of a register, a register pair, IX/IY or memory.
pub open spec fn spec_alu_uni(base: u8, ops: Seq<OperandV>) -> Result<Seq<u8>, Seq<char>> {
    if ops.len() != 1 {
        Err("Needs 1 Op"@)
    } else {
        match ops[0] {
            OperandV::Register(r) => {
                if spec_r_code(r) is Some {
                    Ok(seq![base | (spec_r_code(r)->0 << 3u8)])
                } else if spec_rp_code(r) is Some {
                    let val: u8 = if base == 0x04 {
                        0x03
                    } else {
                        0x0B
                    };
                    Ok(seq![val | (spec_rp_code(r)->0 << 4u8)])
                } else if r == "IX"@ {
                    Ok(seq![0xDDu8, if base == 0x04 { 0x23u8 } else { 0x2Bu8 }])
                } else if r == "IY"@ {
                    Ok(seq![0xFDu8, if base == 0x04 { 0x23u8 } else { 0x2Bu8 }])
                } else {
                    Err("Invalid register for INC/DEC"@)
                }
            },
            OperandV::IndirectRegister(r) => if r == "HL"@ {
                Ok(seq![base | (6u8 << 3u8)])
            } else {
                Err("Invalid INC/DEC"@)
            },
            OperandV::IndirectIndex(idx, d) => Ok(seq![index_prefix(idx), base | (6u8 << 3u8), disp_byte(d)]),
            _ => Err("Invalid INC/DEC"@),
        }
    }
}

/// Encodes `INC`/`DEC`.
pub fn encode_alu_uni(base: u8, ops: &Vec<Operand>) -> (r: Result<Vec<u8>, String>)
    ensures
        bytes_res(r) == spec_alu_uni(base, super::operands_view(ops@)),
{
    if ops.len() != 1 {
        return Err(err_msg("Needs 1 Op"));
    }
    match &ops[0] {
        Operand::Register(r) => {
            if let Some(rc) = get_r_code(r) {
                return Ok(bytes1(base | (rc << 3u8)));
            }
            if let Some(rpc) = get_rp_code(r) {
                let val: u8 = if base == 0x04 {
                    0x03
                } else {
                    0x0B
                };
                return Ok(bytes1(val | (rpc << 4u8)));
            }
            if text_is(r, "IX") {
                let val: u8 = if base == 0x04 {
                    0x23
                } else {
                    0x2B
                };
                return Ok(bytes2(0xDD, val));
            }
            if text_is(r, "IY") {
                let val: u8 = if base == 0x04 {
                    0x23
                } else {
                    0x2B
                };
                return Ok(bytes2(0xFD, val));
            }
            Err(err_msg("Invalid register for INC/DEC"))
        },
        Operand::IndirectRegister(r) => {
            if text_is(r, "HL") {
                Ok(bytes1(base | (6u8 << 3u8)))
            } else {
                Err(err_msg("Invalid INC/DEC"))
            }
        },
        Operand::IndirectIndex(idx, d) => Ok(bytes3(prefix_of(idx), base | (6u8 << 3u8), disp(*d))),
        _ => Err(err_msg("Invalid INC/DEC")),
    }
}

/// An operand of an accumulator operation.
pub open spec fn spec_alu_single(
    base_r: u8,
    base_n: u8,
    op: OperandV,
    labels: Seq<(Seq<char>, Symbol)>,
    dry: bool,
) -> Result<Seq<u8>, Seq<char>> {
    match op {
        OperandV::Register(r) => if spec_r_code(r) is Some {
            Ok(seq![base_r | spec_r_code(r)->0])
        } else if r == "IXH"@ {
            Ok(seq![0xDDu8, base_r | 4u8])
        } else if r == "IXL"@ {
            Ok(seq![0xDDu8, base_r | 5u8])
        } else {
            Err("Invalid ALU register"@)
        },
        OperandV::Immediate(_) | OperandV::Label(_) => match spec_resolve_immediate(op, labels, dry) {
            Ok(n) => Ok(seq![base_n, lo(n)]),
            Err(e) => Err(e),
        },
        OperandV::IndirectRegister(r) => if r == "HL"@ {
            Ok(seq![base_r | 6u8])
        } else {
            Err("Invalid ALU operand"@)
        },
        OperandV::IndirectIndex(idx, d) => Ok(seq![index_prefix(idx), base_r | 6u8, disp_byte(d)]),
        _ => Err("Invalid ALU operand"@),
    }
}

/// An accumulator operation with one operand, or with `A` and an operand.
pub open spec fn spec_alu_bin(
    base_r: u8,
    base_n: u8,
    ops: Seq<OperandV>,
    labels: Seq<(Seq<char>, Symbol)>,
    dry: bool,
) -> Result<Seq<u8>, Seq<char>> {
    if ops.len() != 1 {
        if ops.len() == 2 && ops[0] == OperandV::Register("A"@) {
            spec_alu_single(base_r, base_n, ops[1], labels, dry)
        } else {
            Err("ALU ops count error"@)
        }
    } else {
        spec_alu_single(base_r, base_n, ops[0], labels, dry)
    }
}

/// The accumulator operation `op`.
pub open spec fn spec_alu_op(
    op: ALUOperation,
    ops: Seq<OperandV>,
    labels: Seq<(Seq<char>, Symbol)>,
    dry: bool,
) -> Result<Seq<u8>, Seq<char>> {
    let c = spec_alu_code(op);
    spec_alu_bin(0x80u8 | (c << 3u8), 0xC6u8 | (c << 3u8), ops, labels, dry)
}

/// `ADD`: 16-bit forms into HL, IX or IY, else the accumulator form.
pub open spec fn spec_add(ops: Seq<OperandV>, labels: Seq<(Seq<char>, Symbol)>, dry: bool) -> Result<
    Seq<u8>,
    Seq<char>,
> {
    if ops.len() == 2 && ops[0] is Register {
        let dest = ops[0]->Register_0;
        if dest == "HL"@ && ops[1] is Register && spec_rp_code(ops[1]->Register_0) is Some {
            Ok(seq![0x09u8 | (spec_rp_code(ops[1]->Register_0)->0 << 4u8)])
        } else if (dest == "IX"@ || dest == "IY"@) && ops[1] is Register {
            let prefix: u8 = if dest == "IX"@ {
                0xDD
            } else {
                0xFD
            };
            let src = ops[1]->Register_0;
            if src == "BC"@ {
                Ok(seq![prefix, 0x09u8])
            } else if src == "DE"@ {
                Ok(seq![prefix, 0x19u8])
            } else if src == "IX"@ || src == "IY"@ {
                Ok(seq![prefix, 0x29u8])
            } else if src == "SP"@ {
                Ok(seq![prefix, 0x39u8])
            } else {
                Err("Invalid operand for ADD index"@)
            }
        } else {
            spec_alu_op(ALUOperation::ADD, ops, labels, dry)
        }
    } else {
        spec_alu_op(ALUOperation::ADD, ops, labels, dry)
    }
}

fn encode_alu_single(
    base_r: u8,
    base_n: u8,
    op: &Operand,
    labels: &Vec<(String, Symbol)>,
    dry: bool,
) -> (r: Result<Vec<u8>, String>)
    ensures
        bytes_res(r) == spec_alu_single(base_r, base_n, op@, table_view(labels@), dry),
{
    match op {
        Operand::Register(r) => {
            if let Some(rc) = get_r_code(r) {
                Ok(bytes1(base_r | rc))
            } else if text_is(r, "IXH") {
                Ok(bytes2(0xDD, base_r | 4u8))
            } else if text_is(r, "IXL") {
                Ok(bytes2(0xDD, base_r | 5u8))
            } else {
                Err(err_msg("Invalid ALU register"))
            }
        },
        Operand::Immediate(_) | Operand::Label(_) => match resolve_immediate(op, labels, dry) {
            Ok(n) => Ok(bytes2(base_n, low(n))),
            Err(e) => Err(e),
        },
        Operand::IndirectRegister(r) => {
            if text_is(r, "HL") {
                Ok(bytes1(base_r | 6u8))
            } else {
                Err(err_msg("Invalid ALU operand"))
            }
        },
        Operand::IndirectIndex(idx, d) => Ok(bytes3(prefix_of(idx), base_r | 6u8, disp(*d))),
        _ => Err(err_msg("Invalid ALU operand")),
    }
}

/// Encodes an accumulator operation given its two base opcodes.
pub fn encode_alu_bin(
    base_r: u8,
    base_n: u8,
    ops: &Vec<Operand>,
    labels: &Vec<(String, Symbol)>,
    dry: bool,
) -> (r: Result<Vec<u8>, String>)
    ensures
        bytes_res(r) == spec_alu_bin(base_r, base_n, super::operands_view(ops@), table_view(labels@), dry),
{
    if ops.len() != 1 {
        if ops.len() == 2 {
            if let Operand::Register(r) = &ops[0] {
                if text_is(r, "A") {
                    return encode_alu_single(base_r, base_n, &ops[1], labels, dry);
                }
            }
        }
        return Err(err_msg("ALU ops count error"));
    }
    encode_alu_single(base_r, base_n, &ops[0], labels, dry)
}

/// Encodes the accumulator operation `op`.
pub fn encode_alu_op(op: ALUOperation, ops: &Vec<Operand>, labels: &Vec<(String, Symbol)>, dry: bool) -> (r:
    Result<Vec<u8>, String>)
    ensures
        bytes_res(r) == spec_alu_op(op, super::operands_view(ops@), table_view(labels@), dry),
{
    let op_code = alu_code(op);
    let base_r = 0x80u8 | (op_code << 3u8);
    let base_n = 0xC6u8 | (op_code << 3u8);
    encode_alu_bin(base_r, base_n, ops, labels, dry)
}

/// Encodes `ADD`.
pub fn encode_add(ops: &Vec<Operand>, labels: &Vec<(String, Symbol)>, dry: bool) -> (r: Result<
    Vec<u8>,
    String,
>)
    ensures
        bytes_res(r) == spec_add(super::operands_view(ops@), table_view(labels@), dry),
{
    if ops.len() == 2 {
        if let Operand::Register(dest) = &ops[0] {
            if text_is(dest, "HL") {
                if let Operand::Register(src) = &ops[1] {
                    if let Some(rpc) = get_rp_code(src) {
                        return Ok(bytes1(0x09u8 | (rpc << 4u8)));
                    }
                }
            }
            if text_is(dest, "IX") || text_is(dest, "IY") {
                let prefix: u8 = if text_is(dest, "IX") {
                    0xDD
                } else {
                    0xFD
                };
                if let Operand::Register(src) = &ops[1] {
                    let pp: u8 = if text_is(src, "BC") {
                        0
                    } else if text_is(src, "DE") {
                        1
                    } else if text_is(src, "IX") || text_is(src, "IY") {
                        2
                    } else if text_is(src, "SP") {
                        3
                    } else {
                        return Err(err_msg("Invalid operand for ADD index"));
                    };
                    assert(0x09u8 | (0u8 << 4u8) == 0x09u8) by (bit_vector);
                    assert(0x09u8 | (1u8 << 4u8) == 0x19u8) by (bit_vector);
                    assert(0x09u8 | (2u8 << 4u8) == 0x29u8) by (bit_vector);
                    assert(0x09u8 | (3u8 << 4u8) == 0x39u8) by (bit_vector);
                    return Ok(bytes2(prefix, 0x09u8 | (pp << 4u8)));
                }
            }
        }
    }
    encode_alu_op(ALUOperation::ADD, ops, labels, dry)
}

/// A rotate or shift with opcode base `base` on a register, (HL), or an
/// indexed byte (optionally copied to a register).
pub open spec fn spec_rot_shift(base: u8, ops: Seq<OperandV>) -> Result<Seq<u8>, Seq<char>> {
    if ops.len() == 1 {
        match ops[0] {
            OperandV::Register(r) => if spec_r_code(r) is Some {
                Ok(seq![0xCBu8, base | spec_r_code(r)->0])
            } else {
                Err("Invalid register for Rotate/Shift"@)
            },
            OperandV::IndirectRegister(r) => if r == "HL"@ {
                Ok(seq![0xCBu8, base | 6u8])
            } else {
                Err("Invalid operand for Rotate/Shift"@)
            },
            OperandV::IndirectIndex(idx, d) => Ok(seq![index_prefix(idx), 0xCBu8, disp_byte(d), base | 6u8]),
            _ => Err("Invalid operand for Rotate/Shift"@),
        }
    } else if ops.len() == 2 {
        match (ops[0], ops[1]) {
            (OperandV::IndirectIndex(idx, d), OperandV::Register(r)) => if spec_r_code(r) is Some {
                Ok(seq![index_prefix(idx), 0xCBu8, disp_byte(d), base | spec_r_code(r)->0])
            } else {
                Err("Invalid register2 for Rotate/Shift"@)
            },
            _ => Err("Invalid operands for Rotate/Shift (2 ops)"@),
        }
    } else {
        Err("Rotate/Shift expects 1 or 2 operands"@)
    }
}

/// The rotate or shift `op`.
pub open spec fn spec_rot_op(op: RotOperation, ops: Seq<OperandV>) -> Result<Seq<u8>, Seq<char>> {
    spec_rot_shift(spec_rot_code(op) << 3u8, ops)
}

/// Encodes a rotate or shift given its opcode base.
pub fn encode_rot_shift(base: u8, ops: &Vec<Operand>) -> (r: Result<Vec<u8>, String>)
    ensures
        bytes_res(r) == spec_rot_shift(base, super::operands_view(ops@)),
{
    if ops.len() == 1 {
        match &ops[0] {
            Operand::Register(r) => {
                if let Some(rc) = get_r_code(r) {
                    Ok(bytes2(0xCB, base | rc))
                } else {
                    Err(err_msg("Invalid register for Rotate/Shift"))
                }
            },
            Operand::IndirectRegister(r) => {
                if text_is(r, "HL") {
                    Ok(bytes2(0xCB, base | 6u8))
                } else {
                    Err(err_msg("Invalid operand for Rotate/Shift"))
                }
            },
            Operand::IndirectIndex(idx, d) => Ok(bytes4(prefix_of(idx), 0xCB, disp(*d), base | 6u8)),
            _ => Err(err_msg("Invalid operand for Rotate/Shift")),
        }
    } else if ops.len() == 2 {
        match (&ops[0], &ops[1]) {
            (Operand::IndirectIndex(idx, d), Operand::Register(r)) => {
                if let Some(rc) = get_r_code(r) {
                    Ok(bytes4(prefix_of(idx), 0xCB, disp(*d), base | rc))
                } else {
                    Err(err_msg("Invalid register2 for Rotate/Shift"))
                }
            },
            _ => Err(err_msg("Invalid operands for Rotate/Shift (2 ops)")),
        }
    } else {
        Err(err_msg("Rotate/Shift expects 1 or 2 operands"))
    }
}

/// Encodes the rotate or shift `op`.
pub fn encode_rot_op(op: RotOperation, ops: &Vec<Operand>) -> (r: Result<Vec<u8>, String>)
    ensures
        bytes_res(r) == spec_rot_op(op, super::operands_view(ops@)),
{
    let base = rot_code(op) << 3u8;
    encode_rot_shift(base, ops)
}

/// `EX DE, HL`, `EX AF, AF'` and `EX (SP), HL/IX/IY`.
pub open spec fn spec_ex(ops: Seq<OperandV>) -> Result<Seq<u8>, Seq<char>> {
    if ops.len() != 2 {
        Err("EX 2 ops"@)
    } else {
        match (ops[0], ops[1]) {
            (OperandV::Register(r1), OperandV::Register(r2)) => if r1 == "DE"@ && r2 == "HL"@ {
                Ok(seq![0xEBu8])
            } else if r1 == "AF"@ && (r2 == "AF'"@ || r2 == "AF"@) {
                Ok(seq![0x08u8])
            } else {
                Err("Invalid EX"@)
            },
            (OperandV::IndirectRegister(r1), OperandV::Register(r2)) => if r1 == "SP"@ {
                if r2 == "HL"@ {
                    Ok(seq![0xE3u8])
                } else if r2 == "IX"@ {
                    Ok(seq![0xDDu8, 0xE3u8])
                } else if r2 == "IY"@ {
                    Ok(seq![0xFDu8, 0xE3u8])
                } else {
                    Err("Invalid EX (SP)"@)
                }
            } else {
                Err("Invalid EX combo"@)
            },
            _ => Err("Invalid EX combo"@),
        }
    }
}

/// Encodes `EX`.
pub fn encode_ex(ops: &Vec<Operand>) -> (r: Result<Vec<u8>, String>)
    ensures
        bytes_res(r) == spec_ex(super::operands_view(ops@)),
{
    if ops.len() != 2 {
        return Err(err_msg("EX 2 ops"));
    }
    match (&ops[0], &ops[1]) {
        (Operand::Register(r1), Operand::Register(r2)) => {
            if text_is(r1, "DE") && text_is(r2, "HL") {
                return Ok(bytes1(0xEB));
            }
            if text_is(r1, "AF") && (text_is(r2, "AF'") || text_is(r2, "AF")) {
                return Ok(bytes1(0x08));
            }
            Err(err_msg("Invalid EX"))
        },
        (Operand::IndirectRegister(r1), Operand::Register(r2)) => {
            if text_is(r1, "SP") {
                if text_is(r2, "HL") {
                    return Ok(bytes1(0xE3));
                }
                if text_is(r2, "IX") {
                    return Ok(bytes2(0xDD, 0xE3));
                }
                if text_is(r2, "IY") {
                    return Ok(bytes2(0xFD, 0xE3));
                }
                Err(err_msg("Invalid EX (SP)"))
            } else {
                Err(err_msg("Invalid EX combo"))
            }
        },
        _ => Err(err_msg("Invalid EX combo")),
    }
}

/// `BIT`/`RES`/`SET` (`base` 0x40, 0x80 or 0xC0) of a bit of a register,
/// (HL), or an indexed byte (optionally copied to a register).
pub open spec fn spec_bit_op(base: u8, ops: Seq<OperandV>) -> Result<Seq<u8>, Seq<char>> {
    if ops.len() < 2 || ops.len() > 3 {
        Err("Bit op expects 2 or 3 operands"@)
    } else if ops[0] matches OperandV::Immediate(b) && b <= 7 {
        let ob = (base + ops[0]->Immediate_0 * 8) as u8;
        match ops[1] {
            OperandV::Register(r) => if ops.len() != 2 {
                Err("Too many operands for Register target"@)
            } else if spec_r_code(r) is Some {
                Ok(seq![0xCBu8, ob | spec_r_code(r)->0])
            } else {
                Err("Invalid register"@)
            },
            OperandV::IndirectRegister(r) => if r != "HL"@ {
                Err("Invalid target operand"@)
            } else if ops.len() != 2 {
                Err("Too many operands for (HL)"@)
            } else {
                Ok(seq![0xCBu8, ob | 6u8])
            },
            OperandV::IndirectIndex(idx, d) => if ops.len() == 2 {
                Ok(seq![index_prefix(idx), 0xCBu8, disp_byte(d), ob | 6u8])
            } else if base == 0x40 {
                Err("BIT does not support 3 operands"@)
            } else {
                match ops[2] {
                    OperandV::Register(r) => if spec_r_code(r) is Some {
                        Ok(seq![index_prefix(idx), 0xCBu8, disp_byte(d), ob | spec_r_code(r)->0])
                    } else {
                        Err("Invalid register 2"@)
                    },
                    _ => Err("Third operand must be register"@),
                }
            },
            _ => Err("Invalid target operand"@),
        }
    } else if ops[0] is Immediate {
        Err("Bit index must be 0-7"@)
    } else {
        Err("Bit index must be a number"@)
    }
}

/// Encodes `BIT`, `RES` or `SET`.
pub fn encode_bit_op(base: u8, ops: &Vec<Operand>) -> (r: Result<Vec<u8>, String>)
    requires
        base <= 0xC0,
    ensures
        bytes_res(r) == spec_bit_op(base, super::operands_view(ops@)),
{
    if ops.len() < 2 || ops.len() > 3 {
        return Err(err_msg("Bit op expects 2 or 3 operands"));
    }
    let b: u16 = match &ops[0] {
        Operand::Immediate(n) => *n,
        _ => {
            return Err(err_msg("Bit index must be a number"));
        },
    };
    if b > 7 {
        return Err(err_msg("Bit index must be 0-7"));
    }
    let opcode_base: u8 = base + (b as u8) * 8;
    match &ops[1] {
        Operand::Register(r) => {
            if ops.len() != 2 {
                return Err(err_msg("Too many operands for Register target"));
            }
            if let Some(rc) = get_r_code(r) {
                Ok(bytes2(0xCB, opcode_base | rc))
            } else {
                Err(err_msg("Invalid register"))
            }
        },
        Operand::IndirectRegister(reg) => {
            if !text_is(reg, "HL") {
                return Err(err_msg("Invalid target operand"));
            }
            if ops.len() != 2 {
                return Err(err_msg("Too many operands for (HL)"));
            }
            Ok(bytes2(0xCB, opcode_base | 6u8))
        },
        Operand::IndirectIndex(idx, d) => {
            let prefix = prefix_of(idx);
            if ops.len() == 2 {
                Ok(bytes4(prefix, 0xCB, disp(*d), opcode_base | 6u8))
            } else {
                if base == 0x40 {
                    return Err(err_msg("BIT does not support 3 operands"));
                }
                if let Operand::Register(r) = &ops[2] {
                    if let Some(rc) = get_r_code(r) {
                        Ok(bytes4(prefix, 0xCB, disp(*d), opcode_base | rc))
                    } else {
                        Err(err_msg("Invalid register 2"))
                    }
                } else {
                    Err(err_msg("Third operand must be register"))
                }
            }
        },
        _ => Err(err_msg("Invalid target operand")),
    }
}

/// Whether an operand names a fixed address: a number or label, bare or in parentheses.
pub open spec fn is_address_operand(op: OperandV) -> bool {
    op is Immediate || op is Label || op is IndirectImmediate || op is IndirectLabel
}

/// The address of a jump or call target: parenthesised forms resolve as
/// indirect operands, all others as immediates.
pub open spec fn spec_target(op: OperandV, labels: Seq<(Seq<char>, Symbol)>, dry: bool) -> Result<
    u16,
    Seq<char>,
> {
    if op is IndirectImmediate || op is IndirectLabel {
        spec_resolve_indirect(op, labels, dry)
    } else {
        spec_resolve_immediate(op, labels, dry)
    }
}

/// Resolves a jump or call target (see [`spec_target`]).
pub fn resolve_target(op: &Operand, labels: &Vec<(String, Symbol)>, dry: bool) -> (r: Result<u16, String>)
    ensures
        num_res(r) == spec_target(op@, table_view(labels@), dry),
{
    match op {
        Operand::IndirectImmediate(_) | Operand::IndirectLabel(_) => resolve_indirect(op, labels, dry),
        _ => resolve_immediate(op, labels, dry),
    }
}

/// The condition code of the first operand of a conditional jump or call:
/// a condition, or the register name `C` (which doubles as the carry condition).
pub open spec fn spec_branch_cond(op: OperandV) -> Option<Option<u8>> {
    match op {
        OperandV::Condition(c) => Some(spec_condition_code(c)),
        OperandV::Register(r) => if r == "C"@ {
            Some(Some(3u8))
        } else {
            None
        },
        _ => None,
    }
}

/// The condition of a conditional jump or call (see [`spec_branch_cond`]).
pub fn branch_cond(op: &Operand) -> (r: Option<Option<u8>>)
    ensures
        r == spec_branch_cond(op@),
        r matches Some(Some(c)) ==> c < 8,
{
    match op {
        Operand::Condition(c) => Some(get_condition_code(c)),
        Operand::Register(r) => {
            if text_is(r, "C") {
                Some(Some(3))
            } else {
                None
            }
        },
        _ => None,
    }
}

/// `JP nn`, `JP (HL)`/`(IX)`/`(IY)` and `JP cc, nn`.
pub open spec fn spec_jp(ops: Seq<OperandV>, labels: Seq<(Seq<char>, Symbol)>, dry: bool) -> Result<
    Seq<u8>,
    Seq<char>,
> {
    if ops.len() == 1 {
        let op = ops[0];
        if is_address_operand(op) {
            match spec_target(op, labels, dry) {
                Ok(nn) => Ok(seq![0xC3u8, lo(nn), hi(nn)]),
                Err(e) => Err(e),
            }
        } else if (op is IndirectRegister || op is Register) {
            let r = if op is IndirectRegister {
                op->IndirectRegister_0
            } else {
                op->Register_0
            };
            if r == "HL"@ {
                Ok(seq![0xE9u8])
            } else if r == "IX"@ {
                Ok(seq![0xDDu8, 0xE9u8])
            } else if r == "IY"@ {
                Ok(seq![0xFDu8, 0xE9u8])
            } else {
                Err("Invalid JP target"@)
            }
        } else {
            Err("Invalid JP target"@)
        }
    } else if ops.len() == 2 {
        match spec_branch_cond(ops[0]) {
            Some(Some(cc)) => match spec_target(ops[1], labels, dry) {
                Ok(nn) => Ok(seq![0xC2u8 | (cc << 3u8), lo(nn), hi(nn)]),
                Err(e) => Err(e),
            },
            _ => Err("Invalid JP condition/target"@),
        }
    } else {
        Err("Invalid JP args"@)
    }
}

/// Encodes `JP`.
pub fn encode_jp(ops: &Vec<Operand>, labels: &Vec<(String, Symbol)>, dry: bool) -> (r: Result<
    Vec<u8>,
    String,
>)
    ensures
        bytes_res(r) == spec_jp(super::operands_view(ops@), table_view(labels@), dry),
{
    if ops.len() == 1 {
        match &ops[0] {
            Operand::Immediate(_) | Operand::Label(_) | Operand::IndirectImmediate(_)
            | Operand::IndirectLabel(_) => match resolve_target(&ops[0], labels, dry) {
                Ok(nn) => Ok(bytes3(0xC3, low(nn), high(nn))),
                Err(e) => Err(e),
            },
            Operand::IndirectRegister(r) | Operand::Register(r) => {
                if text_is(r, "HL") {
                    Ok(bytes1(0xE9))
                } else if text_is(r, "IX") {
                    Ok(bytes2(0xDD, 0xE9))
                } else if text_is(r, "IY") {
                    Ok(bytes2(0xFD, 0xE9))
                } else {
                    Err(err_msg("Invalid JP target"))
                }
            },
            _ => Err(err_msg("Invalid JP target")),
        }
    } else if ops.len() == 2 {
        match branch_cond(&ops[0]) {
            Some(Some(cc)) => match resolve_target(&ops[1], labels, dry) {
                Ok(nn) => Ok(bytes3(0xC2u8 | (cc << 3u8), low(nn), high(nn))),
                Err(e) => Err(e),
            },
            _ => Err(err_msg("Invalid JP condition/target")),
        }
    } else {
        Err(err_msg("Invalid JP args"))
    }
}

/// The displacement byte of a relative jump from `pc` to `target`: the
/// distance from the end of the two-byte instruction, modulo 256.
pub open spec fn jr_offset(target: u16, pc: u16) -> int {
    target - (pc + 2)
}

/// Whether a relative jump from `pc` reaches `target`.
pub open spec fn jr_in_range(target: u16, pc: u16) -> bool {
    -128 <= jr_offset(target, pc) <= 127
}

/// The byte of a relative jump from `pc` to `target`.
pub open spec fn jr_byte(target: u16, pc: u16) -> u8 {
    (jr_offset(target, pc) % 256) as u8
}

/// An in-range relative jump assembled at `pc` lands on its target when the
/// CPU adds the displacement byte, read as a signed number, to the address
/// after the two-byte instruction.
pub proof fn lemma_relative_jump_lands(target: u16, pc: u16)
    requires
        jr_in_range(target, pc),
    ensures
        crate::cpu::index_addr(((pc + 2) % 0x10000) as u16, jr_byte(target, pc) as i8) == target,
{
    let off = jr_offset(target, pc);
    let d: i8 = off as i8;
    assert(d as int == off);
    assert(d < 0 ==> (d as u8) as int == d as int + 256) by (bit_vector);
    assert(d >= 0 ==> (d as u8) as int == d as int) by (bit_vector);
    assert(((d as u8) as i8) == d) by (bit_vector);
    assert(jr_byte(target, pc) == d as u8);
}

/// A relative jump with opcode `opcode` to the target operand `op`;
/// out-of-range targets are an error once labels are known.
pub open spec fn spec_rel_jump(
    opcode: u8,
    op: OperandV,
    pc: u16,
    labels: Seq<(Seq<char>, Symbol)>,
    dry: bool,
    range_err: Seq<char>,
) -> Result<Seq<u8>, Seq<char>> {
    match spec_resolve_immediate(op, labels, dry) {
        Ok(t) => if !dry && !jr_in_range(t, pc) {
            Err(range_err)
        } else {
            Ok(seq![opcode, jr_byte(t, pc)])
        },
        Err(e) => Err(e),
    }
}

/// `JR d` and `JR cc, d` (cc one of NZ, Z, NC, C).
pub open spec fn spec_jr(ops: Seq<OperandV>, pc: u16, labels: Seq<(Seq<char>, Symbol)>, dry: bool) -> Result<
    Seq<u8>,
    Seq<char>,
> {
    if ops.len() == 1 {
        spec_rel_jump(0x18u8, ops[0], pc, labels, dry, "JR offset out of range"@)
    } else if ops.len() == 2 {
        match spec_branch_cond(ops[0]) {
            Some(Some(cc)) => if cc > 3 {
                Err("Invalid JR condition"@)
            } else {
                spec_rel_jump(0x20u8 | (cc << 3u8), ops[1], pc, labels, dry, "JR offset out of range"@)
            },
            _ => Err("Invalid JR args"@),
        }
    } else {
        Err("Invalid JR args"@)
    }
}

/// Encodes a relative jump with opcode `opcode` at `pc` to the operand `op`.
pub fn encode_rel_jump(
    opcode: u8,
    op: &Operand,
    pc: u16,
    labels: &Vec<(String, Symbol)>,
    dry: bool,
    range_err: &str,
) -> (r: Result<Vec<u8>, String>)
    ensures
        bytes_res(r) == spec_rel_jump(opcode, op@, pc, table_view(labels@), dry, range_err@),
{
    match resolve_immediate(op, labels, dry) {
        Ok(target) => {
            let offset: i32 = target as i32 - (pc as i32 + 2);
            if !dry && (offset < -128 || offset > 127) {
                return Err(err_msg(range_err));
            }
            let b: u8 = ((offset + 0x10100) % 256) as u8;
            assert(b == jr_byte(target, pc));
            Ok(bytes2(opcode, b))
        },
        Err(e) => Err(e),
    }
}

/// Encodes `JR` at address `pc`.
pub fn encode_jr(ops: &Vec<Operand>, pc: u16, labels: &Vec<(String, Symbol)>, dry: bool) -> (r: Result<
    Vec<u8>,
    String,
>)
    ensures
        bytes_res(r) == spec_jr(super::operands_view(ops@), pc, table_view(labels@), dry),
{
    if ops.len() == 1 {
        encode_rel_jump(0x18, &ops[0], pc, labels, dry, "JR offset out of range")
    } else if ops.len() == 2 {
        match branch_cond(&ops[0]) {
            Some(Some(cc)) => {
                if cc > 3 {
                    Err(err_msg("Invalid JR condition"))
                } else {
                    encode_rel_jump(0x20u8 | (cc << 3u8), &ops[1], pc, labels, dry, "JR offset out of range")
                }
            },
            _ => Err(err_msg("Invalid JR args")),
        }
    } else {
        Err(err_msg("Invalid JR args"))
    }
}

/// `CALL nn` and `CALL cc, nn`.
pub open spec fn spec_call(ops: Seq<OperandV>, labels: Seq<(Seq<char>, Symbol)>, dry: bool) -> Result<
    Seq<u8>,
    Seq<char>,
> {
    if ops.len() == 1 {
        if is_address_operand(ops[0]) {
            match spec_target(ops[0], labels, dry) {
                Ok(nn) => Ok(seq![0xCDu8, lo(nn), hi(nn)]),
                Err(e) => Err(e),
            }
        } else {
            Err("CALL needs address"@)
        }
    } else if ops.len() == 2 {
        match spec_branch_cond(ops[0]) {
            Some(Some(cc)) => if is_address_operand(ops[1]) {
                match spec_target(ops[1], labels, dry) {
                    Ok(nn) => Ok(seq![0xC4u8 | (cc << 3u8), lo(nn), hi(nn)]),
                    Err(e) => Err(e),
                }
            } else {
                Err("CALL needs address"@)
            },
            Some(None) => Err("Bad cond"@),
            None => Err("Call format error"@),
        }
    } else {
        Err("CALL args"@)
    }
}

fn is_address(op: &Operand) -> (b: bool)
    ensures
        b == is_address_operand(op@),
{
    match op {
        Operand::Immediate(_) | Operand::Label(_) | Operand::IndirectImmediate(_)
        | Operand::IndirectLabel(_) => true,
        _ => false,
    }
}

/// Encodes `CALL`.
pub fn encode_call(ops: &Vec<Operand>, labels: &Vec<(String, Symbol)>, dry: bool) -> (r: Result<
    Vec<u8>,
    String,
>)
    ensures
        bytes_res(r) == spec_call(super::operands_view(ops@), table_view(labels@), dry),
{
    if ops.len() == 1 {
        if !is_address(&ops[0]) {
            return Err(err_msg("CALL needs address"));
        }
        match resolve_target(&ops[0], labels, dry) {
            Ok(nn) => Ok(bytes3(0xCD, low(nn), high(nn))),
            Err(e) => Err(e),
        }
    } else if ops.len() == 2 {
        match branch_cond(&ops[0]) {
            Some(Some(cc)) => {
                if !is_address(&ops[1]) {
                    return Err(err_msg("CALL needs address"));
                }
                match resolve_target(&ops[1], labels, dry) {
                    Ok(nn) => Ok(bytes3(0xC4u8 | (cc << 3u8), low(nn), high(nn))),
                    Err(e) => Err(e),
                }
            },
            Some(None) => Err(err_msg("Bad cond")),
            None => Err(err_msg("Call format error")),
        }
    } else {
        Err(err_msg("CALL args"))
    }
}

/// `JP` in each operand form: an address, bare or in parentheses (a number
/// or a label resolving to one), gives C3 and the address low byte first;
/// HL, IX or IY, bare or in parentheses, gives E9 with its prefix; a
/// condition (or the register C) and an address give C2 + 8 * condition
/// and the address; a target that does not resolve gives its error; every
/// other operand count or form is an error.
pub proof fn lemma_jp_forms(ops: Seq<OperandV>, labels: Seq<(Seq<char>, Symbol)>, dry: bool)
    ensures
        ops.len() == 1 && is_address_operand(ops[0]) ==> spec_jp(ops, labels, dry) == match spec_target(
            ops[0],
            labels,
            dry,
        ) {
            Ok(nn) => Ok(seq![0xC3u8, lo(nn), hi(nn)]),
            Err(e) => Err(e),
        },
        ops.len() == 1 && (ops[0] == OperandV::Register("HL"@) || ops[0] == OperandV::IndirectRegister(
            "HL"@,
        )) ==> spec_jp(ops, labels, dry) == Ok::<Seq<u8>, Seq<char>>(seq![0xE9u8]),
        ops.len() == 1 && (ops[0] == OperandV::Register("IX"@) || ops[0] == OperandV::IndirectRegister(
            "IX"@,
        )) ==> spec_jp(ops, labels, dry) == Ok::<Seq<u8>, Seq<char>>(seq![0xDDu8, 0xE9u8]),
        ops.len() == 1 && (ops[0] == OperandV::Register("IY"@) || ops[0] == OperandV::IndirectRegister(
            "IY"@,
        )) ==> spec_jp(ops, labels, dry) == Ok::<Seq<u8>, Seq<char>>(seq![0xFDu8, 0xE9u8]),
        forall|cc: u8|
            ops.len() == 2 && spec_branch_cond(ops[0]) == Some(Some(cc)) ==> #[trigger] spec_jp(
                ops,
                labels,
                dry,
            ) == match spec_target(ops[1], labels, dry) {
                Ok(nn) => Ok(seq![0xC2u8 | (cc << 3u8), lo(nn), hi(nn)]),
                Err(e) => Err(e),
            },
        ops.len() == 2 && !(spec_branch_cond(ops[0]) is Some && spec_branch_cond(ops[0])->0 is Some)
            ==> spec_jp(ops, labels, dry) is Err,
        ops.len() == 1 && !is_address_operand(ops[0]) && !(ops[0] is Register || ops[0] is IndirectRegister)
            ==> spec_jp(ops, labels, dry) is Err,
        ops.len() != 1 && ops.len() != 2 ==> spec_jp(ops, labels, dry) is Err,
        forall|n: u16| #![auto] spec_target(OperandV::Immediate(n), labels, dry) == Ok::<u16, Seq<char>>(n)
            && spec_target(OperandV::IndirectImmediate(n), labels, dry) == Ok::<u16, Seq<char>>(n),
{
    reveal_strlit("HL");
    reveal_strlit("IX");
    reveal_strlit("IY");
    assert(("HL"@)[0] == 'H' && ("IX"@)[0] == 'I' && ("IX"@)[1] == 'X' && ("IY"@)[1] == 'Y');
}

} // verus!
