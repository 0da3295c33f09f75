use vstd::prelude::*;

use super::{err_msg, operands_view, text_is, tokens_view, Operand, OperandV, Token, TokenV};

verus! {

/// Whether a name is a branch condition. `C` is not among them: it is read
/// as the register, which jumps and calls also accept as the carry condition.
pub open spec fn spec_is_condition(s: Seq<char>) -> bool {
    s == "NZ"@ || s == "Z"@ || s == "NC"@ || s == "PO"@ || s == "PE"@ || s == "P"@ || s == "M"@
}

/// Whether a name is a register or register pair.
pub open spec fn spec_is_register(s: Seq<char>) -> bool {
    s == "A"@ || s == "B"@ || s == "C"@ || s == "D"@ || s == "E"@ || s == "H"@ || s == "L"@ || s
        == "I"@ || s == "R"@ || s == "AF"@ || s == "AF'"@ || s == "BC"@ || s == "DE"@ || s == "HL"@
        || s == "SP"@ || s == "IX"@ || s == "IY"@ || s == "IXH"@ || s == "IXL"@ || s == "IYH"@ || s
        == "IYL"@
}

/// Whether `s` names a branch condition.
pub fn is_condition(s: &String) -> (b: bool)
    ensures
        b == spec_is_condition(s@),
{
    text_is(s, "NZ") || text_is(s, "Z") || text_is(s, "NC") || text_is(s, "PO") || text_is(s, "PE")
        || text_is(s, "P") || text_is(s, "M")
}

/// Whether `s` names a register.
pub fn is_register(s: &String) -> (b: bool)
    ensures
        b == spec_is_register(s@),
{
    text_is(s, "A") || text_is(s, "B") || text_is(s, "C") || text_is(s, "D") || text_is(s, "E")
        || text_is(s, "H") || text_is(s, "L") || text_is(s, "I") || text_is(s, "R") || text_is(s, "AF")
        || text_is(s, "AF'") || text_is(s, "BC") || text_is(s, "DE") || text_is(s, "HL") || text_is(
        s,
        "SP",
    ) || text_is(s, "IX") || text_is(s, "IY") || text_is(s, "IXH") || text_is(s, "IXL") || text_is(
        s,
        "IYH",
    ) || text_is(s, "IYL")
}

/// A negated number, modulo 2^16.
pub open spec fn neg16(n: u16) -> u16 {
    if n == 0 {
        0
    } else {
        (65536 - n) as u16
    }
}

/// An index displacement: the offset, negated if `neg`, as a signed byte
/// (its value modulo 256 in two's complement).
pub open spec fn index_disp(offset: u16, neg: bool) -> i8 {
    let m = offset % 256;
    let v = if neg {
        (256 - m) % 256
    } else {
        m as int
    };
    if v >= 128 {
        (v - 256) as i8
    } else {
        v as i8
    }
}

/// The contents of a parenthesised operand starting at `i` (just after the
/// opening parenthesis), and the position after it.
pub open spec fn indirect_at(t: Seq<TokenV>, i: int) -> Result<(OperandV, int), Seq<char>> {
    match t[i] {
        TokenV::Number(n) => Ok((OperandV::IndirectImmediate(n), i + 1)),
        TokenV::Identifier(r) => if spec_is_register(r) {
            let j = i + 1;
            if j < t.len() && (t[j] is Plus || t[j] is Minus) {
                if j + 1 >= t.len() {
                    Err("Expected offset"@)
                } else {
                    match t[j + 1] {
                        TokenV::Number(off) => Ok(
                            (OperandV::IndirectIndex(r, index_disp(off, t[j] is Minus)), j + 2),
                        ),
                        _ => Err("Expected number offset"@),
                    }
                }
            } else {
                Ok((OperandV::IndirectRegister(r), j))
            }
        } else {
            Ok((OperandV::IndirectLabel(r), i + 1))
        },
        _ => Err("Invalid start of indirect operand"@),
    }
}

/// The operand starting at position `i`, and the position after it.
pub open spec fn operand_at(t: Seq<TokenV>, i: int) -> Result<(OperandV, int), Seq<char>> {
    match t[i] {
        TokenV::Minus => if i + 1 >= t.len() {
            Err("Expected number after minus"@)
        } else {
            match t[i + 1] {
                TokenV::Number(n) => Ok((OperandV::Immediate(neg16(n)), i + 2)),
                _ => Err("Expected number after minus"@),
            }
        },
        TokenV::Identifier(r) => Ok(
            (
                if spec_is_condition(r) {
                    OperandV::Condition(r)
                } else if spec_is_register(r) {
                    OperandV::Register(r)
                } else {
                    OperandV::Label(r)
                },
                i + 1,
            ),
        ),
        TokenV::Str(s) => Ok((OperandV::StringLiteral(s), i + 1)),
        TokenV::Number(n) => Ok((OperandV::Immediate(n), i + 1)),
        TokenV::OpenParen => if i + 1 >= t.len() {
            Err("Unexpected end in parens"@)
        } else {
            match indirect_at(t, i + 1) {
                Ok((op, k)) => if k >= t.len() || !(t[k] is CloseParen) {
                    Err("Expected )"@)
                } else {
                    Ok((op, k + 1))
                },
                Err(e) => Err(e),
            }
        },
        _ => Err("Invalid operand"@),
    }
}

proof fn lemma_operand_at_advances(t: Seq<TokenV>, i: int)
    requires
        0 <= i < t.len(),
    ensures
        operand_at(t, i) matches Ok((_, j)) ==> i < j <= t.len(),
{
}

/// `Ok(p + rest)` for a successful `r`; the error of `r` otherwise.
pub open spec fn prepend_ops(p: Seq<OperandV>, r: Result<Seq<OperandV>, Seq<char>>) -> Result<
    Seq<OperandV>,
    Seq<char>,
> {
    match r {
        Ok(rest) => Ok(p + rest),
        Err(e) => Err(e),
    }
}

/// The operands that follow an operand ending at position `i`: each after a
/// comma; a trailing comma ends the list.
pub open spec fn ops_after(t: Seq<TokenV>, i: int) -> Result<Seq<OperandV>, Seq<char>>
    decreases t.len() - i,
{
    if i < 0 || i >= t.len() {
        Ok(Seq::empty())
    } else if !(t[i] is Comma) {
        Err("Expected comma"@)
    } else if i + 1 >= t.len() {
        Ok(Seq::empty())
    } else {
        match operand_at(t, i + 1) {
            Ok((op, j)) => if j <= i + 1 {
                Ok(Seq::empty())
            } else {
                prepend_ops(seq![op], ops_after(t, j))
            },
            Err(e) => Err(e),
        }
    }
}

/// The operands of an instruction: a comma-separated list.
pub open spec fn spec_parse_operands(t: Seq<TokenV>) -> Result<Seq<OperandV>, Seq<char>> {
    if t.len() == 0 {
        Ok(Seq::empty())
    } else {
        match operand_at(t, 0) {
            Ok((op, j)) => prepend_ops(seq![op], ops_after(t, j)),
            Err(e) => Err(e),
        }
    }
}

/// The negation of a number, modulo 2^16.
pub fn negate(n: u16) -> (r: u16)
    ensures
        r == neg16(n),
{
    if n == 0 {
        0
    } else {
        (65536u32 - n as u32) as u16
    }
}

/// The displacement of `(IX+offset)` or `(IX-offset)` (see [`index_disp`]).
pub fn make_disp(offset: u16, neg: bool) -> (d: i8)
    ensures
        d == index_disp(offset, neg),
{
    let m: u32 = (offset % 256) as u32;
    let v: u32 = if neg {
        (256 - m) % 256
    } else {
        m
    };
    if v >= 128 {
        (v as i32 - 256) as i8
    } else {
        v as i8
    }
}

fn indirect_operand(t: &Vec<Token>, i: usize) -> (r: Result<(Operand, usize), String>)
    requires
        i < t.len(),
    ensures
        match (r, indirect_at(tokens_view(t@), i as int)) {
            (Ok((op, j)), Ok((sop, sj))) => op@ == sop && j == sj,
            (Err(e), Err(se)) => e@ == se,
            _ => false,
        },
{
    let ghost tv = tokens_view(t@);
    assert(tv[i as int] == t@[i as int]@);
    match &t[i] {
        Token::Number(n) => Ok((Operand::IndirectImmediate(*n), i + 1)),
        Token::Identifier(r) => {
            if is_register(r) {
                let j = i + 1;
                if j < t.len() && (matches!(t[j], Token::Plus) || matches!(t[j], Token::Minus)) {
                    assert(tv[j as int] == t@[j as int]@);
                    let neg = matches!(t[j], Token::Minus);
                    if j + 1 >= t.len() {
                        return Err(err_msg("Expected offset"));
                    }
                    assert(tv[j + 1] == t@[j + 1]@);
                    match &t[j + 1] {
                        Token::Number(off) => Ok(
                            (Operand::IndirectIndex(r.clone(), make_disp(*off, neg)), j + 2),
                        ),
                        _ => Err(err_msg("Expected number offset")),
                    }
                } else {
                    proof {
                        if j < t@.len() {
                            assert(tv[j as int] == t@[j as int]@);
                        }
                    }
                    Ok((Operand::IndirectRegister(r.clone()), j))
                }
            } else {
                Ok((Operand::IndirectLabel(r.clone()), i + 1))
            }
        },
        _ => Err(err_msg("Invalid start of indirect operand")),
    }
}

/// The operand starting at position `i` (see [`operand_at`]).
pub fn parse_operand(t: &Vec<Token>, i: usize) -> (r: Result<(Operand, usize), String>)
    requires
        i < t.len(),
    ensures
        match (r, operand_at(tokens_view(t@), i as int)) {
            (Ok((op, j)), Ok((sop, sj))) => op@ == sop && j == sj,
            (Err(e), Err(se)) => e@ == se,
            _ => false,
        },
{
    let ghost tv = tokens_view(t@);
    assert(tv[i as int] == t@[i as int]@);
    match &t[i] {
        Token::Minus => {
            if i + 1 >= t.len() {
                return Err(err_msg("Expected number after minus"));
            }
            assert(tv[i + 1] == t@[i + 1]@);
            match &t[i + 1] {
                Token::Number(n) => Ok((Operand::Immediate(negate(*n)), i + 2)),
                _ => Err(err_msg("Expected number after minus")),
            }
        },
        Token::Identifier(r) => {
            let op = if is_condition(r) {
                Operand::Condition(r.clone())
            } else if is_register(r) {
                Operand::Register(r.clone())
            } else {
                Operand::Label(r.clone())
            };
            Ok((op, i + 1))
        },
        Token::String(s) => Ok((Operand::StringLiteral(s.clone()), i + 1)),
        Token::Number(n) => Ok((Operand::Immediate(*n), i + 1)),
        Token::OpenParen => {
            if i + 1 >= t.len() {
                return Err(err_msg("Unexpected end in parens"));
            }
            match indirect_operand(t, i + 1) {
                Ok((op, k)) => {
                    if k >= t.len() {
                        return Err(err_msg("Expected )"));
                    }
                    assert(tv[k as int] == t@[k as int]@);
                    if !matches!(t[k], Token::CloseParen) {
                        return Err(err_msg("Expected )"));
                    }
                    Ok((op, k + 1))
                },
                Err(e) => Err(e),
            }
        },
        _ => Err(err_msg("Invalid operand")),
    }
}

/// Parses the operands of an instruction (see [`spec_parse_operands`]).
pub fn parse_operands(t: &Vec<Token>) -> (r: Result<Vec<Operand>, String>)
    ensures
        match (r, spec_parse_operands(tokens_view(t@))) {
            (Ok(v), Ok(sv)) => operands_view(v@) == sv,
            (Err(e), Err(se)) => e@ == se,
            _ => false,
        },
{
    let ghost tv = tokens_view(t@);
    let mut operands: Vec<Operand> = Vec::new();
    if t.len() == 0 {
        assert(operands_view(operands@) =~= Seq::<OperandV>::empty());
        return Ok(operands);
    }
    let mut i: usize = match parse_operand(t, 0) {
        Ok((op, j)) => {
            operands.push(op);
            j
        },
        Err(e) => {
            return Err(e);
        },
    };
    proof {
        lemma_operand_at_advances(tv, 0);
        assert(operands_view(operands@) =~= seq![operand_at(tv, 0)->Ok_0.0]);
    }
    while i < t.len()
        invariant
            tv == tokens_view(t@),
            0 < i <= t@.len(),
            spec_parse_operands(tv) == prepend_ops(operands_view(operands@), ops_after(tv, i as int)),
        decreases t@.len() - i,
    {
        assert(tv[i as int] == t@[i as int]@);
        if !matches!(t[i], Token::Comma) {
            return Err(err_msg("Expected comma"));
        }
        if i + 1 >= t.len() {
            assert(operands_view(operands@) + Seq::<OperandV>::empty() =~= operands_view(operands@));
            return Ok(operands);
        }
        proof {
            lemma_operand_at_advances(tv, i + 1);
        }
        match parse_operand(t, i + 1) {
            Ok((op, j)) => {
                let ghost before = operands_view(operands@);
                operands.push(op);
                proof {
                    assert(operands_view(operands@) =~= before + seq![op@]);
                    match ops_after(tv, j as int) {
                        Ok(rest) => {
                            assert(before + (seq![op@] + rest) =~= (before + seq![op@]) + rest);
                        },
                        Err(_) => {},
                    }
                }
                i = j;
            },
            Err(e) => {
                return Err(e);
            },
        }
    }
    assert(operands_view(operands@) + Seq::<OperandV>::empty() =~= operands_view(operands@));
    Ok(operands)
}

} // verus!
