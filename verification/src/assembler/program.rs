use vstd::prelude::*;

use super::instruction::{copy_token, parse_instruction, tokens_from};
use super::parser::parse_operands;
use std::collections::HashMap;
use super::instruction::spec_instruction;
use super::lexer::{char_classes, spec_tokenize};
use super::parser::spec_parse_operands;
use super::{
    err_msg, get_symbol, insert_symbol, lemma_table_insert, names_unique, operands_view, resolve_immediate, spec_resolve_immediate,
    table_get, table_insert, table_view, text_is, tokens_view, Operand, OperandV, Symbol, SymbolType, Token,
    TokenV,
};
use crate::formatting::{decimal, decimal_string, string_of};
use crate::text::{chars_of, is_whitespace, spec_is_whitespace};
use super::lexer::{classify, tokenize_classified};

verus! {

// ----- source lines -----

/// The pieces of `s` between line feeds (at least one, possibly empty).
pub open spec fn split_lines(s: Seq<char>) -> Seq<Seq<char>>
    decreases s.len(),
{
    if s.len() == 0 {
        seq![Seq::empty()]
    } else if s.last() == '\n' {
        split_lines(s.drop_last()).push(Seq::empty())
    } else {
        let p = split_lines(s.drop_last());
        p.update(p.len() - 1, p.last().push(s.last()))
    }
}

/// The lines of a source text: the pieces between line feeds, without an
/// empty piece after a final line feed (a carriage return before a line
/// feed stays in its line, where trimming removes it).
pub open spec fn source_lines(s: Seq<char>) -> Seq<Seq<char>> {
    let p = split_lines(s);
    if p.last().len() == 0 {
        p.drop_last()
    } else {
        p
    }
}

proof fn lemma_split_lines_nonempty(s: Seq<char>)
    ensures
        split_lines(s).len() >= 1,
    decreases s.len(),
{
    if s.len() > 0 {
        lemma_split_lines_nonempty(s.drop_last());
    }
}

/// Splits a source text into its lines (see [`source_lines`]).
pub fn split_source(code: &Vec<char>) -> (lines: Vec<Vec<char>>)
    ensures
        lines@.map_values(|l: Vec<char>| l@) == source_lines(code@),
{
    let mut done: Vec<Vec<char>> = Vec::new();
    let mut cur: Vec<char> = Vec::new();
    let mut i: usize = 0;
    assert(code@.take(0) =~= Seq::<char>::empty());
    while i < code.len()
        invariant
            i <= code@.len(),
            done@.map_values(|l: Vec<char>| l@).push(cur@) == split_lines(code@.take(i as int)),
        decreases code@.len() - i,
    {
        let c = code[i];
        let ghost before = code@.take(i as int);
        assert(code@.take(i + 1).drop_last() =~= before);
        assert(code@.take(i + 1).last() == c);
        proof {
            lemma_split_lines_nonempty(before);
        }
        if c == '\n' {
            let ghost old_done = done@.map_values(|l: Vec<char>| l@);
            let line = cur;
            done.push(line);
            cur = Vec::new();
            assert(done@.map_values(|l: Vec<char>| l@) =~= old_done.push(line@));
            assert(done@.map_values(|l: Vec<char>| l@).push(cur@) =~= split_lines(code@.take(i + 1)));
        } else {
            let ghost old_cur = cur@;
            cur.push(c);
            let ghost p = split_lines(before);
            assert(done@.map_values(|l: Vec<char>| l@).push(cur@) =~= p.update(
                p.len() - 1,
                p.last().push(c),
            ));
        }
        i = i + 1;
    }
    assert(code@.take(i as int) =~= code@);
    if cur.len() > 0 {
        let ghost old_done = done@.map_values(|l: Vec<char>| l@);
        done.push(cur);
        assert(done@.map_values(|l: Vec<char>| l@) =~= old_done.push(cur@));
    } else {
        assert(done@.map_values(|l: Vec<char>| l@) =~= done@.map_values(|l: Vec<char>| l@).push(
            cur@,
        ).drop_last());
    }
    done
}

/// The position of the first `;` at or after `i`, or the end of `s`.
pub open spec fn comment_start(s: Seq<char>, i: int) -> int
    decreases s.len() - i,
{
    if 0 <= i < s.len() && s[i] != ';' {
        comment_start(s, i + 1)
    } else {
        i
    }
}

/// The position of the first character at or after `i` that is not white space.
pub open spec fn trim_front(s: Seq<char>, i: int) -> int
    decreases s.len() - i,
{
    if 0 <= i < s.len() && spec_is_whitespace(s[i]) {
        trim_front(s, i + 1)
    } else {
        i
    }
}

/// The end of `s` up to `j` once trailing white space is dropped.
pub open spec fn trim_back(s: Seq<char>, j: int) -> int
    decreases j,
{
    if 0 < j <= s.len() && spec_is_whitespace(s[j - 1]) {
        trim_back(s, j - 1)
    } else {
        j
    }
}

/// The text of a line before any comment, without surrounding white space.
pub open spec fn clean_line(line: Seq<char>) -> Seq<char> {
    let part = line.subrange(0, comment_start(line, 0));
    let a = trim_front(part, 0);
    let b = trim_back(part, part.len() as int);
    if a < b {
        part.subrange(a, b)
    } else {
        Seq::empty()
    }
}

/// The cleaned text of a line (see [`clean_line`]).
pub fn clean(line: &Vec<char>) -> (r: Vec<char>)
    ensures
        r@ == clean_line(line@),
{
    let n = line.len();
    let mut e: usize = 0;
    while e < n && line[e] != ';'
        invariant
            e <= n == line@.len(),
            comment_start(line@, 0) == comment_start(line@, e as int),
        decreases n - e,
    {
        e = e + 1;
    }
    let ghost part = line@.subrange(0, e as int);
    let mut a: usize = 0;
    while a < e && is_whitespace(line[a])
        invariant
            a <= e <= n == line@.len(),
            part == line@.subrange(0, e as int),
            trim_front(part, 0) == trim_front(part, a as int),
        decreases e - a,
    {
        a = a + 1;
    }
    let mut b: usize = e;
    while b > 0 && is_whitespace(line[b - 1])
        invariant
            b <= e <= n == line@.len(),
            part == line@.subrange(0, e as int),
            trim_back(part, e as int) == trim_back(part, b as int),
        decreases b,
    {
        b = b - 1;
    }
    let mut r: Vec<char> = Vec::new();
    if a < b {
        let mut k = a;
        while k < b
            invariant
                a <= k <= b <= e <= n == line@.len(),
                r@ == line@.subrange(a as int, k as int),
            decreases b - k,
        {
            r.push(line[k]);
            k = k + 1;
            assert(r@ =~= line@.subrange(a as int, k as int));
        }
        assert(part.subrange(a as int, b as int) =~= line@.subrange(a as int, b as int));
    }
    r
}

// ----- messages -----

/// The message of an error on line `n`.
pub open spec fn line_err(n: nat, e: Seq<char>) -> Seq<char> {
    "Line "@ + decimal(n) + ": "@ + e
}

/// Prefixes an error message with its line number.
pub fn line_error(n: usize, e: &str) -> (r: String)
    ensures
        r@ == line_err(n as nat, e@),
{
    let mut r = err_msg("Line ");
    let d = decimal_string(n as u64);
    r.append(d.as_str());
    r.append(": ");
    r.append(e);
    assert(r@ =~= line_err(n as nat, e@));
    r
}

// ----- labels -----

/// Whether a name is local to the last global label: it starts with a dot.
pub open spec fn is_local_name(name: Seq<char>) -> bool {
    name.len() > 0 && name[0] == '.'
}

/// The full name of a label: a local name `.x` after the global label `g`
/// is `g.x`; other names stand as they are.
pub open spec fn spec_qualify(name: Seq<char>, latest: Option<Seq<char>>) -> Result<Seq<char>, Seq<char>> {
    if is_local_name(name) {
        let local = name.drop_first();
        if local.len() == 0 {
            Err("Local label cannot be empty"@)
        } else {
            match latest {
                Some(g) => Ok(g + "."@ + local),
                None => Err("Local label '"@ + name + "' has no global label"@),
            }
        }
    } else {
        Ok(name)
    }
}

/// The full name of a label (see [`spec_qualify`]).
pub fn qualify_label(name: &String, latest: &Option<String>) -> (r: Result<String, String>)
    ensures
        match (r, spec_qualify(name@, match latest {
            Some(g) => Some(g@),
            None => None,
        })) {
            (Ok(v), Ok(sv)) => v@ == sv,
            (Err(e), Err(se)) => e@ == se,
            _ => false,
        },
{
    let n = name.unicode_len();
    if n > 0 && name.get_char(0) == '.' {
        if n == 1 {
            return Err(err_msg("Local label cannot be empty"));
        }
        let local = name.as_str().substring_char(1, n);
        assert(local@ =~= name@.drop_first());
        match latest {
            Some(g) => {
                let mut r = g.clone();
                r.append(".");
                r.append(local);
                assert(r@ =~= g@ + "."@ + local@);
                Ok(r)
            },
            None => {
                let mut e = err_msg("Local label '");
                e.append(name.as_str());
                e.append("' has no global label");
                assert(e@ =~= "Local label '"@ + name@ + "' has no global label"@);
                Err(e)
            },
        }
    } else {
        Ok(name.clone())
    }
}

/// The tokens with each local identifier qualified (see [`spec_qualify`]);
/// the first failure gives the error.
pub open spec fn qualify_tokens(t: Seq<TokenV>, latest: Option<Seq<char>>) -> Result<Seq<TokenV>, Seq<char>>
    decreases t.len(),
{
    if t.len() == 0 {
        Ok(Seq::empty())
    } else {
        match qualify_tokens(t.drop_last(), latest) {
            Ok(pre) => match t.last() {
                TokenV::Identifier(name) => if is_local_name(name) {
                    match spec_qualify(name, latest) {
                        Ok(q) => Ok(pre.push(TokenV::Identifier(q))),
                        Err(e) => Err(e),
                    }
                } else {
                    Ok(pre.push(t.last()))
                },
                _ => Ok(pre.push(t.last())),
            },
            Err(e) => Err(e),
        }
    }
}

proof fn lemma_qualify_tokens_err(t: Seq<TokenV>, k: int, latest: Option<Seq<char>>)
    requires
        0 <= k <= t.len(),
        qualify_tokens(t.take(k), latest) is Err,
    ensures
        qualify_tokens(t, latest) == qualify_tokens(t.take(k), latest),
    decreases t.len() - k,
{
    if k < t.len() {
        assert(t.take(k + 1).drop_last() =~= t.take(k));
        lemma_qualify_tokens_err(t, k + 1, latest);
    } else {
        assert(t.take(k) =~= t);
    }
}

/// Qualifies the local identifiers among `tokens` (see [`qualify_tokens`]).
pub fn qualify_local_tokens(tokens: &Vec<Token>, latest: &Option<String>) -> (r: Result<Vec<Token>, String>)
    ensures
        match (r, qualify_tokens(tokens_view(tokens@), match latest {
            Some(g) => Some(g@),
            None => None,
        })) {
            (Ok(v), Ok(sv)) => tokens_view(v@) == sv,
            (Err(e), Err(se)) => e@ == se,
            _ => false,
        },
{
    let ghost lt = match latest {
        Some(g) => Some(g@),
        None => None,
    };
    let ghost tv = tokens_view(tokens@);
    let mut out: Vec<Token> = Vec::new();
    let mut k: usize = 0;
    assert(tv.take(0) =~= Seq::<TokenV>::empty());
    assert(tokens_view(out@) =~= Seq::<TokenV>::empty());
    while k < tokens.len()
        invariant
            tv == tokens_view(tokens@),
            lt == (match latest {
                Some(g) => Some(g@),
                None => None,
            }),
            k <= tokens@.len(),
            qualify_tokens(tv.take(k as int), lt) == Ok::<Seq<TokenV>, Seq<char>>(tokens_view(out@)),
        decreases tokens@.len() - k,
    {
        assert(tv.take(k + 1).drop_last() =~= tv.take(k as int));
        assert(tv.take(k + 1).last() == tokens@[k as int]@);
        let ghost before = tokens_view(out@);
        let next = match &tokens[k] {
            Token::Identifier(name) => {
                let n = name.unicode_len();
                if n > 0 && name.get_char(0) == '.' {
                    match qualify_label(name, latest) {
                        Ok(q) => Token::Identifier(q),
                        Err(e) => {
                            proof {
                                lemma_qualify_tokens_err(tv, k + 1, lt);
                            }
                            return Err(e);
                        },
                    }
                } else {
                    copy_token(&tokens[k])
                }
            },
            _ => copy_token(&tokens[k]),
        };
        let ghost nv = next@;
        out.push(next);
        assert(tokens_view(out@) =~= before.push(nv));
        k = k + 1;
    }
    assert(tv.take(k as int) =~= tv);
    Ok(out)
}

// ----- first pass: sizes and symbols -----

/// What the first pass knows after some lines: the symbol table, the
/// address of the next instruction, the instructions (line index, address,
/// tokens) to encode once all symbols are known, each line's start address,
/// the last global label, and the label a run of `DB` lines belongs to.
pub struct PassState {
    pub labels: Seq<(Seq<char>, Symbol)>,
    pub pc: u16,
    pub instructions: Seq<(usize, u16, Seq<TokenV>)>,
    pub line_addresses: Map<usize, u16>,
    pub latest: Option<Seq<char>>,
    pub active: Option<Seq<char>>,
}

/// The text of an optional string.
pub open spec fn opt_view(o: Option<String>) -> Option<Seq<char>> {
    match o {
        Some(s) => Some(s@),
        None => None,
    }
}

/// The state before the first line.
pub open spec fn pass_start() -> PassState {
    PassState {
        labels: Seq::empty(),
        pc: 0,
        instructions: Seq::empty(),
        line_addresses: Map::empty(),
        latest: None,
        active: None,
    }
}

/// Whether an identifier token is the text `s`.
pub open spec fn is_word(t: TokenV, s: Seq<char>) -> bool {
    t == TokenV::Identifier(s)
}

/// The kind of a label from the directive that follows it on its line.
pub open spec fn label_kind(toks: Seq<TokenV>) -> SymbolType {
    if toks.len() > 2 && (is_word(toks[2], "DB"@) || is_word(toks[2], "DEFB"@)) {
        SymbolType::Byte
    } else if toks.len() > 2 && (is_word(toks[2], "DW"@) || is_word(toks[2], "DEFW"@)) {
        SymbolType::Word
    } else if toks.len() > 2 && (is_word(toks[2], "DS"@) || is_word(toks[2], "DEFS"@)) {
        SymbolType::Array(0)
    } else {
        SymbolType::Label
    }
}

/// Whether a line is a `DB` line.
pub open spec fn is_db_line(q: Seq<TokenV>) -> bool {
    q.len() > 0 && (is_word(q[0], "DB"@) || is_word(q[0], "DEFB"@))
}

/// Whether a line is a `DS` line.
pub open spec fn is_ds_line(q: Seq<TokenV>) -> bool {
    q.len() > 0 && (is_word(q[0], "DS"@) || is_word(q[0], "DEFS"@))
}

/// Whether some operand is a string.
pub open spec fn any_string(ops: Seq<OperandV>) -> bool {
    exists|k: int| 0 <= k < ops.len() && #[trigger] is_string_operand(ops[k])
}

/// Whether an operand is a string.
pub open spec fn is_string_operand(op: OperandV) -> bool {
    op is StringLiteral
}

/// Whether the operands of a data line include a string.
pub open spec fn has_string(q: Seq<TokenV>) -> bool {
    match spec_parse_operands(q.drop_first()) {
        Ok(ops) => any_string(ops),
        Err(_) => false,
    }
}

/// The kind of `len` bytes of data: a string, a single byte or an array.
pub open spec fn data_kind(string: bool, len: nat) -> SymbolType {
    if string {
        SymbolType::String(len as usize)
    } else if len == 1 {
        SymbolType::Byte
    } else {
        SymbolType::Array(len as usize)
    }
}

/// The number of data bytes a symbol of this kind already covers.
pub open spec fn covered_len(kind: SymbolType) -> nat {
    match kind {
        SymbolType::String(l) => l as nat,
        SymbolType::Array(l) => l as nat,
        SymbolType::Byte => 1,
        _ => 0,
    }
}

/// The name of the symbol for a further `DB` row of `label`, on line `n`.
pub open spec fn row_name(label: Seq<char>, n: nat) -> Seq<char> {
    label + "["@ + decimal(n) + "]"@
}

/// The symbol table after a data line of `len` bytes at `pc` on line index
/// `idx`: a `DB` line sizes the label it belongs to (or, continuing an
/// array, gets a row symbol of its own); a `DS` line sizes its label.
pub open spec fn update_data(
    labels: Seq<(Seq<char>, Symbol)>,
    data_label: Option<Seq<char>>,
    q: Seq<TokenV>,
    len: nat,
    has_current: bool,
    continuation: bool,
    idx: usize,
    pc: u16,
) -> Seq<(Seq<char>, Symbol)> {
    match data_label {
        None => labels,
        Some(label) => match table_get(labels, label) {
            None => labels,
            Some(sym) => if is_db_line(q) {
                let string = has_string(q);
                let prev = if has_current || (continuation && sym.kind == SymbolType::Label) {
                    0
                } else {
                    covered_len(sym.kind)
                };
                if continuation && sym.kind != SymbolType::Label {
                    table_insert(
                        labels,
                        row_name(label, idx as nat + 1),
                        Symbol { address: pc, kind: data_kind(string, len), source_order: idx },
                    )
                } else {
                    table_insert(labels, label, Symbol { kind: data_kind(string, prev + len), ..sym })
                }
            } else if is_ds_line(q) {
                table_insert(labels, label, Symbol { kind: SymbolType::Array(len as usize), ..sym })
            } else {
                labels
            },
        },
    }
}

/// The first pass over the instruction part `q` of line index `idx`, whose
/// label (if any) is `current`: size the instruction with unknown labels
/// counting as zero, record it, and size its data symbol.
pub open spec fn pass_body(st: PassState, idx: usize, q: Seq<TokenV>, current: Option<Seq<char>>) -> Result<
    PassState,
    Seq<char>,
> {
    if q.len() == 0 {
        Ok(PassState { active: current, ..st })
    } else {
        let is_db = is_db_line(q);
        let data_label = if current is Some {
            current
        } else {
            st.active
        };
        let continuation = current is None && is_db && st.active is Some;
        let active = if is_db {
            data_label
        } else {
            None
        };
        match spec_instruction(q, st.pc, st.labels, true) {
            Ok(bytes) => if bytes.len() > 65535 - st.pc {
                Err(line_err(idx as nat + 1, "address space exceeds 64K"@))
            } else {
                Ok(
                    PassState {
                        labels: update_data(
                            st.labels,
                            data_label,
                            q,
                            bytes.len(),
                            current is Some,
                            continuation,
                            idx,
                            st.pc,
                        ),
                        pc: (st.pc + bytes.len()) as u16,
                        instructions: st.instructions.push((idx, st.pc, q)),
                        active,
                        ..st
                    },
                )
            },
            Err(e) => Err(line_err(idx as nat + 1, e)),
        }
    }
}

/// The first pass over the tokens of line index `idx`: an `EQU` definition,
/// or an optional `label:` followed by an instruction.
pub open spec fn pass_tokens(st: PassState, idx: usize, toks: Seq<TokenV>) -> Result<PassState, Seq<char>> {
    let n = idx as nat + 1;
    if toks.len() == 3 && toks[0] is Identifier && is_word(toks[1], "EQU"@) {
        match spec_qualify(toks[0]->Identifier_0, st.latest) {
            Ok(cname) => if table_get(st.labels, cname) is Some {
                Err(line_err(n, "Duplicate symbol '"@ + cname + "'"@))
            } else {
                match spec_parse_operands(toks.subrange(2, 3)) {
                    Ok(ops) => if ops.len() != 1 {
                        Err(line_err(n, "EQU expects one value"@))
                    } else {
                        match spec_resolve_immediate(ops[0], st.labels, false) {
                            Ok(v) => Ok(
                                PassState {
                                    labels: table_insert(
                                        st.labels,
                                        cname,
                                        Symbol {
                                            address: v,
                                            kind: SymbolType::Constant,
                                            source_order: idx,
                                        },
                                    ),
                                    ..st
                                },
                            ),
                            Err(e) => Err(line_err(n, e)),
                        }
                    },
                    Err(e) => Err(line_err(n, e)),
                }
            },
            Err(e) => Err(line_err(n, e)),
        }
    } else if toks.len() >= 2 && toks[0] is Identifier && toks[1] is Colon {
        let name = toks[0]->Identifier_0;
        match spec_qualify(name, st.latest) {
            Ok(lname) => if table_get(st.labels, lname) is Some {
                Err(line_err(n, "Duplicate label '"@ + lname + "'"@))
            } else {
                let latest = if !is_local_name(name) {
                    Some(lname)
                } else {
                    st.latest
                };
                let labels = table_insert(
                    st.labels,
                    lname,
                    Symbol { address: st.pc, kind: label_kind(toks), source_order: idx },
                );
                match qualify_tokens(toks.subrange(2, toks.len() as int), latest) {
                    Ok(q) => pass_body(PassState { labels, latest, ..st }, idx, q, Some(lname)),
                    Err(e) => Err(line_err(n, e)),
                }
            },
            Err(e) => Err(line_err(n, e)),
        }
    } else {
        match qualify_tokens(toks, st.latest) {
            Ok(q) => pass_body(st, idx, q, None),
            Err(e) => Err(line_err(n, e)),
        }
    }
}

/// The first pass over line index `idx`: record where the line starts, then
/// read its tokens, if it has any.
pub open spec fn pass_line(st: PassState, idx: usize, line: Seq<char>) -> Result<PassState, Seq<char>> {
    let st0 = PassState { line_addresses: st.line_addresses.insert((idx + 1) as usize, st.pc), ..st };
    let c = clean_line(line);
    if c.len() == 0 {
        Ok(st0)
    } else {
        match spec_tokenize(c, char_classes(c)) {
            Ok(toks) => if toks.len() == 0 {
                Ok(st0)
            } else {
                pass_tokens(st0, idx, toks)
            },
            Err(e) => Err(line_err(idx as nat + 1, e)),
        }
    }
}

/// The first pass over the first `k` lines.
pub open spec fn first_pass(lines: Seq<Seq<char>>, k: nat) -> Result<PassState, Seq<char>>
    decreases k,
{
    if k == 0 {
        Ok(pass_start())
    } else {
        match first_pass(lines, (k - 1) as nat) {
            Ok(st) => pass_line(st, (k - 1) as usize, lines[k - 1]),
            Err(e) => Err(e),
        }
    }
}

/// The state of the first pass.
pub struct FirstPass {
    pub labels: Vec<(String, Symbol)>,
    pub pc: u16,
    pub instructions: Vec<(usize, u16, Vec<Token>)>,
    pub line_addresses: HashMap<usize, u16>,
    pub latest: Option<String>,
    pub active: Option<String>,
}

/// The views of recorded instructions.
pub open spec fn instructions_view(v: Seq<(usize, u16, Vec<Token>)>) -> Seq<(usize, u16, Seq<TokenV>)> {
    v.map_values(|e: (usize, u16, Vec<Token>)| (e.0, e.1, tokens_view(e.2@)))
}

impl FirstPass {
    /// What the state holds.
    pub open spec fn state(&self) -> PassState {
        PassState {
            labels: table_view(self.labels@),
            pc: self.pc,
            instructions: instructions_view(self.instructions@),
            line_addresses: self.line_addresses@,
            latest: opt_view(self.latest),
            active: opt_view(self.active),
        }
    }
}

fn opt_copy(o: &Option<String>) -> (r: Option<String>)
    ensures
        opt_view(r) == opt_view(*o),
{
    match o {
        Some(s) => Some(s.clone()),
        None => None,
    }
}

fn is_word_token(t: &Token, s: &str) -> (b: bool)
    ensures
        b == is_word(t@, s@),
{
    match t {
        Token::Identifier(n) => text_is(n, s),
        _ => false,
    }
}

fn label_kind_of(toks: &Vec<Token>) -> (k: SymbolType)
    ensures
        k == label_kind(tokens_view(toks@)),
{
    if toks.len() > 2 {
        assert(tokens_view(toks@)[2] == toks@[2]@);
        if is_word_token(&toks[2], "DB") || is_word_token(&toks[2], "DEFB") {
            return SymbolType::Byte;
        } else if is_word_token(&toks[2], "DW") || is_word_token(&toks[2], "DEFW") {
            return SymbolType::Word;
        } else if is_word_token(&toks[2], "DS") || is_word_token(&toks[2], "DEFS") {
            return SymbolType::Array(0);
        }
    }
    SymbolType::Label
}

fn line_kind(q: &Vec<Token>, a: &str, b: &str) -> (r: bool)
    ensures
        r == (q@.len() > 0 && (is_word(tokens_view(q@)[0], a@) || is_word(tokens_view(q@)[0], b@))),
{
    if q.len() == 0 {
        return false;
    }
    assert(tokens_view(q@)[0] == q@[0]@);
    is_word_token(&q[0], a) || is_word_token(&q[0], b)
}

fn has_string_operand(q: &Vec<Token>) -> (r: bool)
    requires
        q@.len() > 0,
    ensures
        r == has_string(tokens_view(q@)),
{
    let rest = tokens_from(q, 1);
    assert(tokens_view(rest@) =~= tokens_view(q@).drop_first());
    match parse_operands(&rest) {
        Ok(ops) => {
            let ghost ov = operands_view(ops@);
            assert(spec_parse_operands(tokens_view(q@).drop_first()) == Ok::<
                Seq<OperandV>,
                Seq<char>,
            >(ov));
            let mut k: usize = 0;
            while k < ops.len()
                invariant
                    ov == operands_view(ops@),
                    spec_parse_operands(tokens_view(q@).drop_first()) == Ok::<
                        Seq<OperandV>,
                        Seq<char>,
                    >(ov),
                    k <= ops@.len(),
                    forall|m: int| 0 <= m < k ==> !#[trigger] is_string_operand(ov[m]),
                decreases ops@.len() - k,
            {
                assert(ov[k as int] == ops@[k as int]@);
                if let Operand::StringLiteral(_) = &ops[k] {
                    assert(is_string_operand(ov[k as int]));
                    return true;
                }
                k = k + 1;
            }
            false
        },
        Err(_) => false,
    }
}

fn data_kind_of(string: bool, len: usize) -> (k: SymbolType)
    ensures
        k == data_kind(string, len as nat),
{
    if string {
        SymbolType::String(len)
    } else if len == 1 {
        SymbolType::Byte
    } else {
        SymbolType::Array(len)
    }
}

/// Records the size of the data symbol of a line (see [`update_data`]).
fn update_data_symbols(
    labels: &mut Vec<(String, Symbol)>,
    data_label: &Option<String>,
    q: &Vec<Token>,
    len: usize,
    has_current: bool,
    continuation: bool,
    idx: usize,
    pc: u16,
)
    requires
        len <= 65535,
        idx < usize::MAX,
        data_label is Some && !has_current && is_db_line(tokens_view(q@)) ==> continuation,
    ensures
        table_view(final(labels)@) == update_data(
            table_view(old(labels)@),
            opt_view(*data_label),
            tokens_view(q@),
            len as nat,
            has_current,
            continuation,
            idx,
            pc,
        ),
{
    let label = match data_label {
        Some(l) => l,
        None => {
            return ;
        },
    };
    let sym = match get_symbol(labels, label) {
        Some(s) => s,
        None => {
            return ;
        },
    };
    if line_kind(q, "DB", "DEFB") {
        let string = has_string_operand(q);
        let is_label = sym.kind == SymbolType::Label;
        let prev: usize = if has_current || (continuation && is_label) {
            0
        } else {
            match sym.kind {
                SymbolType::String(l) => l,
                SymbolType::Array(l) => l,
                SymbolType::Byte => 1,
                _ => 0,
            }
        };
        if continuation && !is_label {
            let mut row = label.clone();
            row.append("[");
            let d = decimal_string((idx + 1) as u64);
            row.append(d.as_str());
            row.append("]");
            assert(row@ =~= row_name(label@, idx as nat + 1));
            insert_symbol(
                labels,
                row,
                Symbol { address: pc, kind: data_kind_of(string, len), source_order: idx },
            );
        } else {
            assert(prev == 0);
            insert_symbol(
                labels,
                label.clone(),
                Symbol { kind: data_kind_of(string, prev + len), ..sym },
            );
        }
    } else if line_kind(q, "DS", "DEFS") {
        insert_symbol(labels, label.clone(), Symbol { kind: SymbolType::Array(len), ..sym });
    }
}

/// The first pass over an instruction part (see [`pass_body`]).
fn pass_body_exec(st: &mut FirstPass, idx: usize, q: Vec<Token>, current: Option<String>) -> (r: Result<
    (),
    String,
>)
    requires
        idx < usize::MAX,
    ensures
        match (r, pass_body(old(st).state(), idx, tokens_view(q@), opt_view(current))) {
            (Ok(_), Ok(s)) => final(st).state() == s,
            (Err(e), Err(se)) => e@ == se,
            _ => false,
        },
{
    if q.len() == 0 {
        st.active = current;
        return Ok(());
    }
    let is_db = line_kind(&q, "DB", "DEFB");
    let data_label = if current.is_some() {
        opt_copy(&current)
    } else {
        opt_copy(&st.active)
    };
    let continuation = current.is_none() && is_db && st.active.is_some();
    let active = if is_db {
        opt_copy(&data_label)
    } else {
        None
    };
    let bytes = match parse_instruction(&q, st.pc, &st.labels, true) {
        Ok(b) => b,
        Err(e) => {
            return Err(line_error(idx + 1, e.as_str()));
        },
    };
    if bytes.len() > (65535 - st.pc) as usize {
        return Err(line_error(idx + 1, "address space exceeds 64K"));
    }
    let ghost qv = tokens_view(q@);
    update_data_symbols(
        &mut st.labels,
        &data_label,
        &q,
        bytes.len(),
        current.is_some(),
        continuation,
        idx,
        st.pc,
    );
    let pc = st.pc;
    let ghost old_instr = instructions_view(st.instructions@);
    st.instructions.push((idx, pc, q));
    assert(instructions_view(st.instructions@) =~= old_instr.push((idx, pc, qv)));
    st.pc = pc + bytes.len() as u16;
    st.active = active;
    Ok(())
}

/// The first pass over the tokens of a line (see [`pass_tokens`]).
#[verifier::rlimit(40)]
fn pass_tokens_exec(st: &mut FirstPass, idx: usize, toks: Vec<Token>) -> (r: Result<(), String>)
    requires
        idx < usize::MAX,
    ensures
        match (r, pass_tokens(old(st).state(), idx, tokens_view(toks@))) {
            (Ok(_), Ok(s)) => final(st).state() == s,
            (Err(e), Err(se)) => e@ == se,
            _ => false,
        },
{
    let ghost tv = tokens_view(toks@);
    let n = idx + 1;
    if toks.len() == 3 && is_word_token(&toks[1], "EQU") {
        assert(tv[0] == toks@[0]@);
        assert(tv[1] == toks@[1]@);
        if let Token::Identifier(name) = &toks[0] {
            let cname = match qualify_label(name, &st.latest) {
                Ok(c) => c,
                Err(e) => {
                    return Err(line_error(n, e.as_str()));
                },
            };
            if get_symbol(&st.labels, &cname).is_some() {
                let mut m = err_msg("Duplicate symbol '");
                m.append(cname.as_str());
                m.append("'");
                assert(m@ =~= "Duplicate symbol '"@ + cname@ + "'"@);
                return Err(line_error(n, m.as_str()));
            }
            let rest = tokens_from(&toks, 2);
            let ops = match parse_operands(&rest) {
                Ok(o) => o,
                Err(e) => {
                    return Err(line_error(n, e.as_str()));
                },
            };
            if ops.len() != 1 {
                return Err(line_error(n, "EQU expects one value"));
            }
            assert(operands_view(ops@)[0] == ops@[0]@);
            let v = match resolve_immediate(&ops[0], &st.labels, false) {
                Ok(v) => v,
                Err(e) => {
                    return Err(line_error(n, e.as_str()));
                },
            };
            insert_symbol(
                &mut st.labels,
                cname,
                Symbol { address: v, kind: SymbolType::Constant, source_order: idx },
            );
            return Ok(());
        }
    }
    if toks.len() >= 2 && matches!(toks[1], Token::Colon) {
        assert(tv[0] == toks@[0]@);
        assert(tv[1] == toks@[1]@);
        if let Token::Identifier(name) = &toks[0] {
            let lname = match qualify_label(name, &st.latest) {
                Ok(c) => c,
                Err(e) => {
                    return Err(line_error(n, e.as_str()));
                },
            };
            if get_symbol(&st.labels, &lname).is_some() {
                let mut m = err_msg("Duplicate label '");
                m.append(lname.as_str());
                m.append("'");
                assert(m@ =~= "Duplicate label '"@ + lname@ + "'"@);
                return Err(line_error(n, m.as_str()));
            }
            let local = name.unicode_len() > 0 && name.get_char(0) == '.';
            if !local {
                st.latest = Some(lname.clone());
            }
            let kind = label_kind_of(&toks);
            insert_symbol(
                &mut st.labels,
                lname.clone(),
                Symbol { address: st.pc, kind, source_order: idx },
            );
            let rest = tokens_from(&toks, 2);
            let q = match qualify_local_tokens(&rest, &st.latest) {
                Ok(q) => q,
                Err(e) => {
                    return Err(line_error(n, e.as_str()));
                },
            };
            return pass_body_exec(st, idx, q, Some(lname));
        }
    }
    let q = match qualify_local_tokens(&toks, &st.latest) {
        Ok(q) => q,
        Err(e) => {
            return Err(line_error(n, e.as_str()));
        },
    };
    pass_body_exec(st, idx, q, None)
}

/// Every recorded instruction has at least one token, and a line index
/// below the largest.
pub open spec fn instrs_ok(s: Seq<(usize, u16, Seq<TokenV>)>) -> bool {
    forall|i: int| 0 <= i < s.len() ==> (#[trigger] s[i]).2.len() > 0 && s[i].0 < usize::MAX
}

proof fn lemma_pass_body_nonempty(st: PassState, idx: usize, q: Seq<TokenV>, current: Option<Seq<char>>)
    requires
        instrs_ok(st.instructions),
        idx < usize::MAX,
    ensures
        pass_body(st, idx, q, current) matches Ok(s) ==> instrs_ok(s.instructions),
{
    if q.len() > 0 {
        if let Ok(s) = pass_body(st, idx, q, current) {
            assert forall|i: int| 0 <= i < s.instructions.len() implies (
            #[trigger] s.instructions[i]).2.len() > 0 && s.instructions[i].0 < usize::MAX by {
                if i < st.instructions.len() {
                    assert(s.instructions[i] == st.instructions[i]);
                }
            }
        }
    }
}

/// The first pass over a line (see [`pass_line`]).
fn pass_line_exec(st: &mut FirstPass, idx: usize, line: &Vec<char>) -> (r: Result<(), String>)
    requires
        idx < usize::MAX,
        instrs_ok(old(st).state().instructions),
    ensures
        match (r, pass_line(old(st).state(), idx, line@)) {
            (Ok(_), Ok(s)) => final(st).state() == s && instrs_ok(s.instructions),
            (Err(e), Err(se)) => e@ == se,
            _ => false,
        },
{
    broadcast use vstd::std_specs::hash::group_hash_axioms;

    st.line_addresses.insert(idx + 1, st.pc);
    let ghost st0 = st.state();
    assert(st0 == PassState {
        line_addresses: old(st).state().line_addresses.insert((idx + 1) as usize, old(st).pc),
        ..old(st).state()
    });
    let c = clean(line);
    if c.len() == 0 {
        return Ok(());
    }
    let cls = classify(&c);
    let toks = match tokenize_classified(&c, &cls) {
        Ok(t) => t,
        Err(e) => {
            return Err(line_error(idx + 1, e.as_str()));
        },
    };
    if toks.len() == 0 {
        return Ok(());
    }
    let ghost tv = tokens_view(toks@);
    proof {
        let name = tv[0]->Identifier_0;
        if tv.len() == 3 && tv[0] is Identifier && is_word(tv[1], "EQU"@) {
        } else if tv.len() >= 2 && tv[0] is Identifier && tv[1] is Colon {
            if let Ok(lname) = spec_qualify(name, st0.latest) {
                let latest = if !is_local_name(name) {
                    Some(lname)
                } else {
                    st0.latest
                };
                let labels = table_insert(
                    st0.labels,
                    lname,
                    Symbol { address: st0.pc, kind: label_kind(tv), source_order: idx },
                );
                if let Ok(q) = qualify_tokens(tv.subrange(2, tv.len() as int), latest) {
                    lemma_pass_body_nonempty(
                        PassState { labels, latest, ..st0 },
                        idx,
                        q,
                        Some(lname),
                    );
                }
            }
        } else {
            if let Ok(q) = qualify_tokens(tv, st0.latest) {
                lemma_pass_body_nonempty(st0, idx, q, None);
            }
        }
    }
    pass_tokens_exec(st, idx, toks)
}

/// Runs the first pass over all lines (see [`first_pass`]).
pub fn run_first_pass(lines: &Vec<Vec<char>>) -> (r: Result<FirstPass, String>)
    ensures
        match (r, first_pass(lines@.map_values(|l: Vec<char>| l@), lines@.len())) {
            (Ok(st), Ok(s)) => st.state() == s && instrs_ok(s.instructions),
            (Err(e), Err(se)) => e@ == se,
            _ => false,
        },
{
    let ghost lv = lines@.map_values(|l: Vec<char>| l@);
    let mut st = FirstPass {
        labels: Vec::new(),
        pc: 0,
        instructions: Vec::new(),
        line_addresses: HashMap::new(),
        latest: None,
        active: None,
    };
    assert(table_view(st.labels@) =~= Seq::<(Seq<char>, Symbol)>::empty());
    assert(instructions_view(st.instructions@) =~= Seq::<(usize, u16, Seq<TokenV>)>::empty());
    assert(st.line_addresses@ =~= Map::<usize, u16>::empty());
    let mut k: usize = 0;
    while k < lines.len()
        invariant
            lv == lines@.map_values(|l: Vec<char>| l@),
            k <= lines@.len(),
            first_pass(lv, k as nat) == Ok::<PassState, Seq<char>>(st.state()),
            instrs_ok(st.state().instructions),
        decreases lines@.len() - k,
    {
        assert(lv[k as int] == lines@[k as int]@);
        match pass_line_exec(&mut st, k, &lines[k]) {
            Ok(_) => {},
            Err(e) => {
                proof {
                    lemma_first_pass_err(lv, (k + 1) as nat);
                }
                return Err(e);
            },
        }
        k = k + 1;
    }
    Ok(st)
}

proof fn lemma_first_pass_err(lines: Seq<Seq<char>>, k: nat)
    requires
        k <= lines.len(),
        first_pass(lines, k) is Err,
    ensures
        first_pass(lines, lines.len()) == first_pass(lines, k),
    decreases lines.len() - k,
{
    if k < lines.len() {
        lemma_first_pass_err(lines, k + 1);
    }
}

proof fn lemma_update_data_unique(
    labels: Seq<(Seq<char>, Symbol)>,
    data_label: Option<Seq<char>>,
    q: Seq<TokenV>,
    len: nat,
    has_current: bool,
    continuation: bool,
    idx: usize,
    pc: u16,
)
    requires
        names_unique(labels),
    ensures
        names_unique(update_data(labels, data_label, q, len, has_current, continuation, idx, pc)),
{
    if let Some(label) = data_label {
        if let Some(sym) = table_get(labels, label) {
            let string = has_string(q);
            let prev = if has_current || (continuation && sym.kind == SymbolType::Label) {
                0
            } else {
                covered_len(sym.kind)
            };
            lemma_table_insert(
                labels,
                row_name(label, idx as nat + 1),
                Symbol { address: pc, kind: data_kind(string, len), source_order: idx },
                label,
            );
            lemma_table_insert(labels, label, Symbol { kind: data_kind(string, prev + len), ..sym }, label);
            lemma_table_insert(labels, label, Symbol { kind: SymbolType::Array(len as usize), ..sym }, label);
        }
    }
}

proof fn lemma_pass_body_unique(st: PassState, idx: usize, q: Seq<TokenV>, current: Option<Seq<char>>)
    requires
        names_unique(st.labels),
    ensures
        pass_body(st, idx, q, current) matches Ok(s) ==> names_unique(s.labels),
{
    if q.len() > 0 {
        let is_db = is_db_line(q);
        let data_label = if current is Some {
            current
        } else {
            st.active
        };
        let continuation = current is None && is_db && st.active is Some;
        if let Ok(bytes) = spec_instruction(q, st.pc, st.labels, true) {
            lemma_update_data_unique(
                st.labels,
                data_label,
                q,
                bytes.len(),
                current is Some,
                continuation,
                idx,
                st.pc,
            );
        }
    }
}

proof fn lemma_pass_line_unique(st: PassState, idx: usize, line: Seq<char>)
    requires
        names_unique(st.labels),
    ensures
        pass_line(st, idx, line) matches Ok(s) ==> names_unique(s.labels),
{
    let st0 = PassState { line_addresses: st.line_addresses.insert((idx + 1) as usize, st.pc), ..st };
    let c = clean_line(line);
    if c.len() > 0 {
        if let Ok(toks) = spec_tokenize(c, char_classes(c)) {
            if toks.len() > 0 {
                if toks.len() == 3 && toks[0] is Identifier && is_word(toks[1], "EQU"@) {
                    if let Ok(cname) = spec_qualify(toks[0]->Identifier_0, st0.latest) {
                        if let Ok(ops) = spec_parse_operands(toks.subrange(2, 3)) {
                            if ops.len() == 1 {
                                if let Ok(v) = spec_resolve_immediate(ops[0], st0.labels, false) {
                                    lemma_table_insert(
                                        st0.labels,
                                        cname,
                                        Symbol {
                                            address: v,
                                            kind: SymbolType::Constant,
                                            source_order: idx,
                                        },
                                        cname,
                                    );
                                }
                            }
                        }
                    }
                } else if toks.len() >= 2 && toks[0] is Identifier && toks[1] is Colon {
                    let name = toks[0]->Identifier_0;
                    if let Ok(lname) = spec_qualify(name, st0.latest) {
                        let latest = if !is_local_name(name) {
                            Some(lname)
                        } else {
                            st0.latest
                        };
                        let sym = Symbol { address: st0.pc, kind: label_kind(toks), source_order: idx };
                        let labels = table_insert(st0.labels, lname, sym);
                        lemma_table_insert(st0.labels, lname, sym, lname);
                        if let Ok(q) = qualify_tokens(toks.subrange(2, toks.len() as int), latest) {
                            lemma_pass_body_unique(PassState { labels, latest, ..st0 }, idx, q, Some(lname));
                        }
                    }
                } else {
                    if let Ok(q) = qualify_tokens(toks, st0.latest) {
                        lemma_pass_body_unique(st0, idx, q, None);
                    }
                }
            }
        }
    }
}

proof fn lemma_first_pass_unique(lines: Seq<Seq<char>>, k: nat)
    requires
        k <= lines.len(),
    ensures
        first_pass(lines, k) matches Ok(s) ==> names_unique(s.labels),
    decreases k,
{
    if k > 0 {
        lemma_first_pass_unique(lines, (k - 1) as nat);
        if let Ok(st) = first_pass(lines, (k - 1) as nat) {
            lemma_pass_line_unique(st, (k - 1) as usize, lines[k - 1]);
        }
    }
}

/// An assembled program defines each symbol name once.
pub proof fn lemma_assembled_symbols_unique(code: Seq<char>)
    ensures
        spec_assemble(code) matches Ok(a) ==> names_unique(a.symbols),
{
    lemma_first_pass_unique(source_lines(code), source_lines(code).len());
}

// ----- second pass: encoding -----

/// What the second pass has produced: all bytes in order, the line of each
/// instruction address, the bytes placed at addresses (all but `ORG`
/// padding), and each line's address and bytes.
pub struct EmitState {
    pub output: Seq<u8>,
    pub address_to_line: Map<u16, usize>,
    pub image: Seq<(u16, u8)>,
    pub lines: Map<usize, (u16, Seq<u8>)>,
}

/// The addresses and bytes of `bytes` placed from `pc`, if none lies past
/// the end of the address space (offsets taken modulo 2^16).
pub open spec fn image_of(pc: u16, bytes: Seq<u8>) -> Option<Seq<(u16, u8)>> {
    if forall|k: int| 0 <= k < bytes.len() ==> pc + #[trigger] (k as u16) <= 65535 {
        Some(Seq::new(bytes.len(), |k: int| ((pc + (k as u16)) as u16, bytes[k])))
    } else {
        None
    }
}

/// Whether a line is an `ORG` line.
pub open spec fn is_org_line(q: Seq<TokenV>) -> bool {
    q.len() > 0 && is_word(q[0], "ORG"@)
}

/// The second pass over one recorded instruction, with all symbols known.
pub open spec fn emit_step(
    es: EmitState,
    ins: (usize, u16, Seq<TokenV>),
    labels: Seq<(Seq<char>, Symbol)>,
) -> Result<EmitState, Seq<char>> {
    let idx = ins.0;
    let pc = ins.1;
    let n = idx as nat + 1;
    match spec_instruction(ins.2, pc, labels, false) {
        Ok(bytes) => {
            let lines = es.lines.insert((idx + 1) as usize, (pc, bytes));
            let output = es.output + bytes;
            let address_to_line = es.address_to_line.insert(pc, (idx + 1) as usize);
            if is_org_line(ins.2) {
                Ok(EmitState { output, lines, address_to_line, ..es })
            } else {
                match image_of(pc, bytes) {
                    Some(im) => Ok(EmitState { output, lines, address_to_line, image: es.image + im }),
                    None => Err(line_err(n, "address space exceeds 64K"@)),
                }
            }
        },
        Err(e) => Err(line_err(n, e)),
    }
}

/// Nothing produced yet.
pub open spec fn emit_start() -> EmitState {
    EmitState {
        output: Seq::empty(),
        address_to_line: Map::empty(),
        image: Seq::empty(),
        lines: Map::empty(),
    }
}

/// The second pass over the first `k` recorded instructions.
pub open spec fn second_pass(
    instrs: Seq<(usize, u16, Seq<TokenV>)>,
    labels: Seq<(Seq<char>, Symbol)>,
    k: nat,
) -> Result<EmitState, Seq<char>>
    decreases k,
{
    if k == 0 {
        Ok(emit_start())
    } else {
        match second_pass(instrs, labels, (k - 1) as nat) {
            Ok(es) => emit_step(es, instrs[k - 1], labels),
            Err(e) => Err(e),
        }
    }
}

proof fn lemma_second_pass_err(instrs: Seq<(usize, u16, Seq<TokenV>)>, labels: Seq<(Seq<char>, Symbol)>, k: nat)
    requires
        k <= instrs.len(),
        second_pass(instrs, labels, k) is Err,
    ensures
        second_pass(instrs, labels, instrs.len()) == second_pass(instrs, labels, k),
    decreases instrs.len() - k,
{
    if k < instrs.len() {
        lemma_second_pass_err(instrs, labels, k + 1);
    }
}

/// The address and bytes of an assembled line.
#[derive(Debug)]
pub struct AssemblyLine {
    pub address: u16,
    pub bytes: Vec<u8>,
}

/// An assembled program: its bytes in order, its symbols, the line of each
/// instruction address, the address of each line, the bytes placed at
/// addresses, and each line's address and bytes.
pub struct AssemblyResult {
    pub bytes: Vec<u8>,
    pub symbols: Vec<(String, Symbol)>,
    pub address_to_line: HashMap<u16, usize>,
    pub line_to_address: HashMap<usize, u16>,
    pub image: Vec<(u16, u8)>,
    pub lines: HashMap<usize, AssemblyLine>,
}

/// What an assembled program holds.
pub struct AsmSpec {
    pub bytes: Seq<u8>,
    pub symbols: Seq<(Seq<char>, Symbol)>,
    pub address_to_line: Map<u16, usize>,
    pub line_to_address: Map<usize, u16>,
    pub image: Seq<(u16, u8)>,
    pub lines: Map<usize, (u16, Seq<u8>)>,
}

/// The address and bytes of each line.
pub open spec fn lines_view(m: Map<usize, AssemblyLine>) -> Map<usize, (u16, Seq<u8>)> {
    m.map_values(|l: AssemblyLine| (l.address, l.bytes@))
}

impl AssemblyResult {
    /// What the result holds.
    pub open spec fn spec(&self) -> AsmSpec {
        AsmSpec {
            bytes: self.bytes@,
            symbols: table_view(self.symbols@),
            address_to_line: self.address_to_line@,
            line_to_address: self.line_to_address@,
            image: self.image@,
            lines: lines_view(self.lines@),
        }
    }

    /// The symbol named `name`, if the program defines it.
    pub fn symbol(&self, name: &str) -> (r: Option<Symbol>)
        ensures
            r == table_get(table_view(self.symbols@), name@),
    {
        let n = String::from_str(name);
        get_symbol(&self.symbols, &n)
    }
}

/// Assembling a source text: two passes over its lines. The first sizes
/// each instruction and collects the symbols; the second encodes each
/// instruction with all symbols known.
pub open spec fn spec_assemble(code: Seq<char>) -> Result<AsmSpec, Seq<char>> {
    let ls = source_lines(code);
    match first_pass(ls, ls.len()) {
        Ok(st) => match second_pass(st.instructions, st.labels, st.instructions.len()) {
            Ok(es) => Ok(
                AsmSpec {
                    bytes: es.output,
                    symbols: st.labels,
                    address_to_line: es.address_to_line,
                    line_to_address: st.line_addresses,
                    image: es.image,
                    lines: es.lines,
                },
            ),
            Err(e) => Err(e),
        },
        Err(e) => Err(e),
    }
}

fn copy_bytes(v: &Vec<u8>) -> (r: Vec<u8>)
    ensures
        r@ == v@,
{
    let mut r: Vec<u8> = Vec::new();
    let mut i: usize = 0;
    while i < v.len()
        invariant
            i <= v@.len(),
            r@ == v@.take(i as int),
        decreases v@.len() - i,
    {
        r.push(v[i]);
        i = i + 1;
        assert(r@ =~= v@.take(i as int));
    }
    assert(v@.take(i as int) =~= v@);
    r
}

/// Places `bytes` at the addresses from `pc` (see [`image_of`]).
fn place_bytes(image: &mut Vec<(u16, u8)>, pc: u16, bytes: &Vec<u8>) -> (ok: bool)
    ensures
        match image_of(pc, bytes@) {
            Some(im) => ok && final(image)@ == old(image)@ + im,
            None => !ok,
        },
{
    let mut k: usize = 0;
    while k < bytes.len()
        invariant
            k <= bytes@.len(),
            forall|j: int| 0 <= j < k ==> pc + #[trigger] (j as u16) <= 65535,
            image@ == old(image)@ + Seq::new(k as nat, |j: int| ((pc + (j as u16)) as u16, bytes@[j])),
        decreases bytes@.len() - k,
    {
        let off = k as u16;
        match pc.checked_add(off) {
            Some(a) => {
                let ghost before = image@;
                image.push((a, bytes[k]));
                k = k + 1;
                assert(image@ =~= old(image)@ + Seq::new(
                    k as nat,
                    |j: int| ((pc + (j as u16)) as u16, bytes@[j]),
                ));
            },
            None => {
                assert(!(pc + ((k as int) as u16) <= 65535));
                return false;
            },
        }
    }
    true
}

/// Runs the second pass (see [`second_pass`]).
fn run_second_pass(first: FirstPass) -> (r: Result<AssemblyResult, String>)
    requires
        instrs_ok(first.state().instructions),
    ensures
        match (r, second_pass(first.state().instructions, first.state().labels, first.instructions@.len())) {
            (Ok(res), Ok(es)) => res.spec() == (AsmSpec {
                bytes: es.output,
                symbols: first.state().labels,
                address_to_line: es.address_to_line,
                line_to_address: first.state().line_addresses,
                image: es.image,
                lines: es.lines,
            }),
            (Err(e), Err(se)) => e@ == se,
            _ => false,
        },
{
    broadcast use vstd::std_specs::hash::group_hash_axioms;

    let ghost iv = first.state().instructions;
    let ghost lab = first.state().labels;
    let mut output: Vec<u8> = Vec::new();
    let mut address_to_line: HashMap<u16, usize> = HashMap::new();
    let mut image: Vec<(u16, u8)> = Vec::new();
    let mut lines: HashMap<usize, AssemblyLine> = HashMap::new();
    assert(lines_view(lines@) =~= Map::<usize, (u16, Seq<u8>)>::empty());
    assert(address_to_line@ =~= Map::<u16, usize>::empty());
    let mut k: usize = 0;
    while k < first.instructions.len()
        invariant
            iv == first.state().instructions,
            lab == first.state().labels,
            instrs_ok(iv),
            k <= first.instructions@.len(),
            second_pass(iv, lab, k as nat) == Ok::<EmitState, Seq<char>>(
                EmitState {
                    output: output@,
                    address_to_line: address_to_line@,
                    image: image@,
                    lines: lines_view(lines@),
                },
            ),
        decreases first.instructions@.len() - k,
    {
        let idx = first.instructions[k].0;
        let pc = first.instructions[k].1;
        let toks = &first.instructions[k].2;
        assert(iv[k as int] == (idx, pc, tokens_view(toks@)));
        assert(iv[k as int].2.len() > 0 && iv[k as int].0 < usize::MAX);
        let bytes = match parse_instruction(toks, pc, &first.labels, false) {
            Ok(b) => b,
            Err(e) => {
                let m = line_error(idx + 1, e.as_str());
                proof {
                    lemma_second_pass_err(iv, lab, (k + 1) as nat);
                }
                return Err(m);
            },
        };
        let ghost old_lines = lines_view(lines@);
        let line = AssemblyLine { address: pc, bytes: copy_bytes(&bytes) };
        lines.insert(idx + 1, line);
        assert(lines_view(lines@) =~= old_lines.insert((idx + 1) as usize, (pc, bytes@)));
        let ghost old_out = output@;
        let mut i: usize = 0;
        while i < bytes.len()
            invariant
                i <= bytes@.len(),
                output@ == old_out + bytes@.take(i as int),
            decreases bytes@.len() - i,
        {
            output.push(bytes[i]);
            i = i + 1;
            assert(output@ =~= old_out + bytes@.take(i as int));
        }
        assert(bytes@.take(i as int) =~= bytes@);
        let is_org = is_word_token(&toks[0], "ORG");
        assert(tokens_view(toks@)[0] == toks@[0]@);
        if !is_org {
            if !place_bytes(&mut image, pc, &bytes) {
                let m = line_error(idx + 1, "address space exceeds 64K");
                proof {
                    lemma_second_pass_err(iv, lab, (k + 1) as nat);
                }
                return Err(m);
            }
        }
        address_to_line.insert(pc, idx + 1);
        k = k + 1;
    }
    Ok(
        AssemblyResult {
            bytes: output,
            symbols: first.labels,
            address_to_line,
            line_to_address: first.line_addresses,
            image,
            lines,
        },
    )
}

/// Assembles a source text into bytes, symbols and line information (see
/// [`spec_assemble`]).
pub fn assemble_with_metadata(code: &str) -> (r: Result<AssemblyResult, String>)
    ensures
        match (r, spec_assemble(code@)) {
            (Ok(res), Ok(s)) => res.spec() == s,
            (Err(e), Err(se)) => e@ == se,
            _ => false,
        },
{
    let chars = chars_of(code);
    let lines = split_source(&chars);
    match run_first_pass(&lines) {
        Ok(first) => run_second_pass(first),
        Err(e) => Err(e),
    }
}

// ----- flat binary -----

/// The lowest address of a non-empty image.
pub open spec fn image_min(im: Seq<(u16, u8)>) -> u16
    decreases im.len(),
{
    if im.len() <= 1 {
        im[0].0
    } else if im.last().0 < image_min(im.drop_last()) {
        im.last().0
    } else {
        image_min(im.drop_last())
    }
}

/// The highest address of a non-empty image.
pub open spec fn image_max(im: Seq<(u16, u8)>) -> u16
    decreases im.len(),
{
    if im.len() <= 1 {
        im[0].0
    } else if im.last().0 > image_max(im.drop_last()) {
        im.last().0
    } else {
        image_max(im.drop_last())
    }
}

/// The byte an image leaves at address `a`: the last one placed there, or zero.
pub open spec fn image_byte(im: Seq<(u16, u8)>, a: int) -> u8
    decreases im.len(),
{
    if im.len() == 0 {
        0
    } else if im.last().0 == a {
        im.last().1
    } else {
        image_byte(im.drop_last(), a)
    }
}

/// The flat binary of an image: every address from the lowest to the
/// highest one placed, with the byte left there.
pub open spec fn flat_binary(im: Seq<(u16, u8)>) -> Seq<u8> {
    if im.len() == 0 {
        Seq::empty()
    } else {
        Seq::new(
            (image_max(im) - image_min(im) + 1) as nat,
            |k: int| image_byte(im, image_min(im) + k),
        )
    }
}

proof fn lemma_image_bounds(im: Seq<(u16, u8)>)
    requires
        im.len() > 0,
    ensures
        forall|i: int| 0 <= i < im.len() ==> image_min(im) <= #[trigger] im[i].0 <= image_max(im),
        image_min(im) <= image_max(im),
    decreases im.len(),
{
    if im.len() > 1 {
        lemma_image_bounds(im.drop_last());
        assert forall|i: int| 0 <= i < im.len() implies image_min(im) <= #[trigger] im[i].0
            <= image_max(im) by {
            if i < im.len() - 1 {
                assert(im[i] == im.drop_last()[i]);
            }
        }
    }
}

proof fn lemma_image_byte_last(im: Seq<(u16, u8)>, i: int)
    requires
        0 <= i < im.len(),
        forall|j: int| i < j < im.len() ==> #[trigger] im[j].0 != im[i].0,
    ensures
        image_byte(im, im[i].0 as int) == im[i].1,
    decreases im.len(),
{
    if i < im.len() - 1 {
        assert(im.drop_last()[i] == im[i]);
        assert forall|j: int| i < j < im.drop_last().len() implies #[trigger] im.drop_last()[j].0 != im.drop_last()[i].0 by {
            assert(im.drop_last()[j] == im[j]);
        }
        lemma_image_byte_last(im.drop_last(), i);
    }
}

proof fn lemma_image_byte_none(im: Seq<(u16, u8)>, a: int)
    requires
        forall|i: int| 0 <= i < im.len() ==> #[trigger] im[i].0 != a,
    ensures
        image_byte(im, a) == 0,
    decreases im.len(),
{
    if im.len() > 0 {
        assert forall|i: int| 0 <= i < im.drop_last().len() implies #[trigger] im.drop_last()[i].0 != a by {
            assert(im.drop_last()[i] == im[i]);
        }
        lemma_image_byte_none(im.drop_last(), a);
    }
}

/// The flat binary of a non-empty image spans its lowest to its highest
/// address; each address holds the byte placed there last, so every entry
/// that no later entry overwrites stands at its offset (all of them where
/// the addresses are distinct), and every address without an entry holds
/// zero.
pub proof fn lemma_flat_binary_places(im: Seq<(u16, u8)>)
    requires
        im.len() > 0,
    ensures
        flat_binary(im).len() == image_max(im) - image_min(im) + 1,
        forall|i: int| 0 <= i < im.len() ==> image_min(im) <= #[trigger] im[i].0 <= image_max(im),
        forall|i: int|
            0 <= i < im.len() && (forall|j: int| i < j < im.len() ==> #[trigger] im[j].0 != im[i].0)
                ==> flat_binary(im)[#[trigger] im[i].0 - image_min(im)] == im[i].1,
        (forall|i: int, j: int| 0 <= i < j < im.len() ==> #[trigger] im[i].0 != #[trigger] im[j].0) ==> forall|i: int|
            0 <= i < im.len() ==> flat_binary(im)[#[trigger] im[i].0 - image_min(im)] == im[i].1,
        forall|k: int|
            0 <= k < flat_binary(im).len() && (forall|i: int| 0 <= i < im.len() ==> #[trigger] im[i].0
                != image_min(im) + k) ==> #[trigger] flat_binary(im)[k] == 0,
{
    lemma_image_bounds(im);
    assert forall|i: int|
        0 <= i < im.len() && (forall|j: int| i < j < im.len() ==> #[trigger] im[j].0 != im[i].0)
            implies flat_binary(im)[#[trigger] im[i].0 - image_min(im)] == im[i].1 by {
        lemma_image_byte_last(im, i);
    }
    assert forall|k: int|
        0 <= k < flat_binary(im).len() && (forall|i: int| 0 <= i < im.len() ==> #[trigger] im[i].0
            != image_min(im) + k) implies #[trigger] flat_binary(im)[k] == 0 by {
        lemma_image_byte_none(im, image_min(im) + k);
    }
    if forall|i: int, j: int| 0 <= i < j < im.len() ==> #[trigger] im[i].0 != #[trigger] im[j].0 {
        assert forall|i: int| 0 <= i < im.len() implies flat_binary(im)[#[trigger] im[i].0 - image_min(im)]
            == im[i].1 by {
            assert forall|j: int| i < j < im.len() implies #[trigger] im[j].0 != im[i].0 by {
                assert(im[i].0 != im[j].0);
            }
            lemma_image_byte_last(im, i);
        }
    }
}

/// Assembles a source text into a flat binary (see [`flat_binary`]).
pub fn assemble_binary(code: &str) -> (r: Result<Vec<u8>, String>)
    ensures
        match (r, spec_assemble(code@)) {
            (Ok(v), Ok(s)) => v@ == flat_binary(s.image),
            (Err(e), Err(se)) => e@ == se,
            _ => false,
        },
{
    let res = match assemble_with_metadata(code) {
        Ok(r) => r,
        Err(e) => {
            return Err(e);
        },
    };
    let image = res.image;
    let n = image.len();
    if n == 0 {
        return Ok(Vec::new());
    }
    let mut lo: u16 = image[0].0;
    let mut hi: u16 = image[0].0;
    let mut i: usize = 1;
    while i < n
        invariant
            n == image@.len(),
            1 <= i <= n,
            lo == image_min(image@.take(i as int)),
            hi == image_max(image@.take(i as int)),
        decreases n - i,
    {
        assert(image@.take(i + 1).drop_last() =~= image@.take(i as int));
        let a = image[i].0;
        if a < lo {
            lo = a;
        }
        if a > hi {
            hi = a;
        }
        i = i + 1;
    }
    assert(image@.take(n as int) =~= image@);
    proof {
        lemma_image_bounds(image@);
    }
    let size: usize = (hi - lo) as usize + 1;
    let mut bytes: Vec<u8> = Vec::new();
    let mut j: usize = 0;
    while j < size
        invariant
            j <= size,
            bytes@ == Seq::new(j as nat, |k: int| 0u8),
        decreases size - j,
    {
        bytes.push(0);
        j = j + 1;
        assert(bytes@ =~= Seq::new(j as nat, |k: int| 0u8));
    }
    let mut k: usize = 0;
    while k < n
        invariant
            n == image@.len(),
            k <= n,
            lo == image_min(image@),
            hi == image_max(image@),
            size == hi - lo + 1,
            forall|m: int| 0 <= m < n ==> lo <= #[trigger] image@[m].0 <= hi,
            bytes@.len() == size,
            forall|m: int| 0 <= m < size ==> #[trigger] bytes@[m] == image_byte(image@.take(k as int), lo + m),
        decreases n - k,
    {
        let (a, b) = image[k];
        assert(lo <= image@[k as int].0 <= hi);
        let ghost before = bytes@;
        bytes.set((a - lo) as usize, b);
        assert(image@.take(k + 1).drop_last() =~= image@.take(k as int));
        assert(image@.take(k + 1).last() == image@[k as int]);
        k = k + 1;
        assert forall|m: int| 0 <= m < size implies #[trigger] bytes@[m] == image_byte(
            image@.take(k as int),
            lo + m,
        ) by {
            if m != a - lo {
                assert(bytes@[m] == before[m]);
            }
        }
    }
    assert(image@.take(n as int) =~= image@);
    assert(bytes@ =~= flat_binary(image@));
    Ok(bytes)
}

} // verus!
