use vstd::prelude::*;

pub mod encoding;
pub mod instruction;
pub mod lexer;
pub mod parser;
pub mod program;

pub use program::{assemble_binary, assemble_with_metadata, AssemblyLine, AssemblyResult};



verus! {

/// A lexical token of assembly source.
#[derive(Debug, PartialEq, Clone)]
pub enum Token {
    Identifier(String),
    Number(u16),
    String(String),
    Comma,
    OpenParen,
    CloseParen,
    Plus,
    Minus,
    Colon,
}

/// What a token holds.
pub enum TokenV {
    Identifier(Seq<char>),
    Number(u16),
    Str(Seq<char>),
    Comma,
    OpenParen,
    CloseParen,
    Plus,
    Minus,
    Colon,
}

impl View for Token {
    type V = TokenV;

    open spec fn view(&self) -> TokenV {
        match self {
            Token::Identifier(s) => TokenV::Identifier(s@),
            Token::Number(n) => TokenV::Number(*n),
            Token::String(s) => TokenV::Str(s@),
            Token::Comma => TokenV::Comma,
            Token::OpenParen => TokenV::OpenParen,
            Token::CloseParen => TokenV::CloseParen,
            Token::Plus => TokenV::Plus,
            Token::Minus => TokenV::Minus,
            Token::Colon => TokenV::Colon,
        }
    }
}

/// An instruction operand.
#[derive(Debug, Clone)]
pub enum Operand {
    Register(String),
    Immediate(u16),
    IndirectImmediate(u16),
    IndirectRegister(String),
    IndirectIndex(String, i8),
    Condition(String),
    Label(String),
    IndirectLabel(String),
    StringLiteral(String),
}

/// What an operand holds.
pub enum OperandV {
    Register(Seq<char>),
    Immediate(u16),
    IndirectImmediate(u16),
    IndirectRegister(Seq<char>),
    IndirectIndex(Seq<char>, i8),
    Condition(Seq<char>),
    Label(Seq<char>),
    IndirectLabel(Seq<char>),
    StringLiteral(Seq<char>),
}

impl View for Operand {
    type V = OperandV;

    open spec fn view(&self) -> OperandV {
        match self {
            Operand::Register(s) => OperandV::Register(s@),
            Operand::Immediate(n) => OperandV::Immediate(*n),
            Operand::IndirectImmediate(n) => OperandV::IndirectImmediate(*n),
            Operand::IndirectRegister(s) => OperandV::IndirectRegister(s@),
            Operand::IndirectIndex(s, d) => OperandV::IndirectIndex(s@, *d),
            Operand::Condition(s) => OperandV::Condition(s@),
            Operand::Label(s) => OperandV::Label(s@),
            Operand::IndirectLabel(s) => OperandV::IndirectLabel(s@),
            Operand::StringLiteral(s) => OperandV::StringLiteral(s@),
        }
    }
}

/// What a symbol names.
#[derive(Debug, Clone, Copy, PartialEq, Structural)]
pub enum SymbolType {
    Label,
    Constant,
    Byte,
    Word,
    String(usize),
    Array(usize),
}

/// A symbol of the program: its value, what it names, and the line that defined it.
#[derive(Debug, Clone, Copy, PartialEq, Structural)]
pub struct Symbol {
    pub address: u16,
    pub kind: SymbolType,
    pub source_order: usize,
}

/// The views of a list of tokens.
pub open spec fn tokens_view(t: Seq<Token>) -> Seq<TokenV> {
    t.map_values(|x: Token| x@)
}

/// The views of a list of operands.
pub open spec fn operands_view(o: Seq<Operand>) -> Seq<OperandV> {
    o.map_values(|x: Operand| x@)
}

/// A symbol table: names with their symbols, each name at most once.
pub open spec fn table_view(t: Seq<(String, Symbol)>) -> Seq<(Seq<char>, Symbol)> {
    t.map_values(|e: (String, Symbol)| (e.0@, e.1))
}

/// The index of the entry for `name`, searching from the end.
pub open spec fn table_find(t: Seq<(Seq<char>, Symbol)>, name: Seq<char>) -> Option<int>
    decreases t.len(),
{
    if t.len() == 0 {
        None
    } else if t.last().0 == name {
        Some(t.len() - 1)
    } else {
        table_find(t.drop_last(), name)
    }
}

/// The symbol of `name`.
pub open spec fn table_get(t: Seq<(Seq<char>, Symbol)>, name: Seq<char>) -> Option<Symbol> {
    match table_find(t, name) {
        Some(i) => Some(t[i].1),
        None => None,
    }
}

/// The table after giving `name` the symbol `sym`.
pub open spec fn table_insert(t: Seq<(Seq<char>, Symbol)>, name: Seq<char>, sym: Symbol) -> Seq<
    (Seq<char>, Symbol),
> {
    match table_find(t, name) {
        Some(i) => t.update(i, (name, sym)),
        None => t.push((name, sym)),
    }
}

/// An exact result of the assembler's functions: bytes, or an error message.
pub open spec fn bytes_res(r: Result<Vec<u8>, String>) -> Result<Seq<u8>, Seq<char>> {
    match r {
        Ok(v) => Ok(v@),
        Err(e) => Err(e@),
    }
}

/// A number result, or an error message.
pub open spec fn num_res(r: Result<u16, String>) -> Result<u16, Seq<char>> {
    match r {
        Ok(v) => Ok(v),
        Err(e) => Err(e@),
    }
}

/// The bytes `a`.
pub fn bytes1(a: u8) -> (v: Vec<u8>)
    ensures
        v@ == seq![a],
{
    let mut v: Vec<u8> = Vec::new();
    v.push(a);
    assert(v@ =~= seq![a]);
    v
}

/// The bytes `a`, `b`.
pub fn bytes2(a: u8, b: u8) -> (v: Vec<u8>)
    ensures
        v@ == seq![a, b],
{
    let mut v: Vec<u8> = Vec::new();
    v.push(a);
    v.push(b);
    assert(v@ =~= seq![a, b]);
    v
}

/// The bytes `a`, `b`, `c`.
pub fn bytes3(a: u8, b: u8, c: u8) -> (v: Vec<u8>)
    ensures
        v@ == seq![a, b, c],
{
    let mut v: Vec<u8> = Vec::new();
    v.push(a);
    v.push(b);
    v.push(c);
    assert(v@ =~= seq![a, b, c]);
    v
}

/// The bytes `a`, `b`, `c`, `d`.
pub fn bytes4(a: u8, b: u8, c: u8, d: u8) -> (v: Vec<u8>)
    ensures
        v@ == seq![a, b, c, d],
{
    let mut v: Vec<u8> = Vec::new();
    v.push(a);
    v.push(b);
    v.push(c);
    v.push(d);
    assert(v@ =~= seq![a, b, c, d]);
    v
}

/// An error message with the given text.
pub fn err_msg(s: &str) -> (e: String)
    ensures
        e@ == s@,
{
    String::from_str(s)
}

/// Whether `s` holds exactly the text `lit`.
pub fn text_is(s: &String, lit: &str) -> (b: bool)
    ensures
        b == (s@ == lit@),
{
    *s == String::from_str(lit)
}

proof fn lemma_table_find(t: Seq<(Seq<char>, Symbol)>, name: Seq<char>)
    ensures
        match table_find(t, name) {
            Some(i) => 0 <= i < t.len() && t[i].0 == name,
            None => forall|j: int| 0 <= j < t.len() ==> t[j].0 != name,
        },
    decreases t.len(),
{
    if t.len() > 0 {
        lemma_table_find(t.drop_last(), name);
        if t.last().0 != name {
            match table_find(t.drop_last(), name) {
                Some(i) => {},
                None => {
                    assert forall|j: int| 0 <= j < t.len() implies t[j].0 != name by {
                        if j < t.len() - 1 {
                            assert(t[j] == t.drop_last()[j]);
                        }
                    }
                },
            }
        }
    }
}

/// No name occurs twice in a symbol table.
pub open spec fn names_unique(t: Seq<(Seq<char>, Symbol)>) -> bool {
    forall|i: int, j: int| 0 <= i < j < t.len() ==> #[trigger] t[i].0 != #[trigger] t[j].0
}

/// After giving `name` a symbol, looking `name` up gives that symbol, every
/// other name keeps its symbol, and no name occurs twice if none did before.
pub proof fn lemma_table_insert(t: Seq<(Seq<char>, Symbol)>, name: Seq<char>, sym: Symbol, other: Seq<char>)
    requires
        names_unique(t),
    ensures
        table_get(table_insert(t, name, sym), name) == Some(sym),
        other != name ==> table_get(table_insert(t, name, sym), other) == table_get(t, other),
        names_unique(table_insert(t, name, sym)),
{
    let t2 = table_insert(t, name, sym);
    lemma_table_find(t, name);
    lemma_table_find(t, other);
    lemma_table_find(t2, name);
    lemma_table_find(t2, other);
    match table_find(t, name) {
        Some(i) => {
            assert(forall|j: int| 0 <= j < t.len() ==> #[trigger] t2[j].0 == t[j].0);
            lemma_find_unique(t2, name, i);
            if other != name {
                match table_find(t, other) {
                    Some(k) => {
                        lemma_find_unique(t, other, k);
                        lemma_find_unique(t2, other, k);
                    },
                    None => {},
                }
            }
        },
        None => {
            assert(t2[t.len() as int].0 == name);
            lemma_find_unique(t2, name, t.len() as int);
            if other != name {
                match table_find(t, other) {
                    Some(k) => {
                        lemma_find_unique(t, other, k);
                        assert(t2[k] == t[k]);
                        lemma_find_unique(t2, other, k);
                    },
                    None => {
                        assert forall|j: int| 0 <= j < t2.len() implies t2[j].0 != other by {
                            if j < t.len() {
                                assert(t2[j] == t[j]);
                            }
                        }
                    },
                }
            }
        },
    }
}

proof fn lemma_find_unique(t: Seq<(Seq<char>, Symbol)>, name: Seq<char>, k: int)
    requires
        names_unique(t),
        0 <= k < t.len(),
        t[k].0 == name,
    ensures
        table_find(t, name) == Some(k),
    decreases t.len(),
{
    if k < t.len() - 1 {
        assert(t.last().0 != name) by {
            assert(t[k].0 != t[t.len() - 1].0);
        }
        assert(names_unique(t.drop_last()));
        assert(t.drop_last()[k] == t[k]);
        lemma_find_unique(t.drop_last(), name, k);
    }
}

/// The index of the entry for `name`.
pub fn find_symbol(t: &Vec<(String, Symbol)>, name: &String) -> (r: Option<usize>)
    ensures
        match r {
            Some(i) => table_find(table_view(t@), name@) == Some(i as int),
            None => table_find(table_view(t@), name@) is None,
        },
{
    let n = t.len();
    let mut i: usize = n;
    assert(table_view(t@).subrange(0, n as int) =~= table_view(t@));
    while i > 0
        invariant
            i <= n == t@.len(),
            table_find(table_view(t@), name@) == table_find(table_view(t@).subrange(0, i as int), name@),
        decreases i,
    {
        let ghost sub = table_view(t@).subrange(0, i as int);
        assert(sub.last() == table_view(t@)[i - 1]);
        assert(sub.drop_last() =~= table_view(t@).subrange(0, i - 1));
        if t[i - 1].0 == *name {
            return Some(i - 1);
        }
        i = i - 1;
    }
    None
}

/// The address of `name`, if the table has it.
pub fn lookup_address(t: &Vec<(String, Symbol)>, name: &String) -> (r: Option<u16>)
    ensures
        r == (match table_get(table_view(t@), name@) {
            Some(s) => Some(s.address),
            None => None,
        }),
{
    proof {
        lemma_table_find(table_view(t@), name@);
    }
    match find_symbol(t, name) {
        Some(i) => Some(t[i].1.address),
        None => None,
    }
}

/// Gives `name` the symbol `sym`.
pub fn insert_symbol(t: &mut Vec<(String, Symbol)>, name: String, sym: Symbol)
    ensures
        table_view(final(t)@) == table_insert(table_view(old(t)@), name@, sym),
{
    let ghost nv = name@;
    proof {
        lemma_table_find(table_view(t@), name@);
    }
    match find_symbol(t, &name) {
        Some(i) => {
            t.set(i, (name, sym));
            assert(table_view(t@) =~= table_view(old(t)@).update(i as int, (nv, sym)));
        },
        None => {
            t.push((name, sym));
            assert(table_view(t@) =~= table_view(old(t)@).push((nv, sym)));
        },
    }
}

/// The symbol of `name`, if the table has it.
pub fn get_symbol(t: &Vec<(String, Symbol)>, name: &String) -> (r: Option<Symbol>)
    ensures
        r == table_get(table_view(t@), name@),
{
    proof {
        lemma_table_find(table_view(t@), name@);
    }
    match find_symbol(t, name) {
        Some(i) => Some(t[i].1),
        None => None,
    }
}

/// The value of a label: its address; while sizing (the first pass) an
/// unknown label counts as zero.
pub open spec fn spec_resolve_label(label: Seq<char>, labels: Seq<(Seq<char>, Symbol)>, dry: bool) -> Result<
    u16,
    Seq<char>,
> {
    match table_get(labels, label) {
        Some(s) => Ok(s.address),
        None => if dry {
            Ok(0)
        } else {
            Err("Label not found: "@ + label)
        },
    }
}

/// The value of an immediate operand: a number or a label.
pub open spec fn spec_resolve_immediate(op: OperandV, labels: Seq<(Seq<char>, Symbol)>, dry: bool) -> Result<
    u16,
    Seq<char>,
> {
    match op {
        OperandV::Immediate(n) => Ok(n),
        OperandV::Label(s) => spec_resolve_label(s, labels, dry),
        _ => Err("Not an immediate"@),
    }
}

/// The address of an indirect operand: `(number)` or `(label)`.
pub open spec fn spec_resolve_indirect(op: OperandV, labels: Seq<(Seq<char>, Symbol)>, dry: bool) -> Result<
    u16,
    Seq<char>,
> {
    match op {
        OperandV::IndirectImmediate(n) => Ok(n),
        OperandV::IndirectLabel(s) => spec_resolve_label(s, labels, dry),
        _ => Err("Not an indirect address"@),
    }
}

/// Resolves a label (see [`spec_resolve_label`]).
pub fn resolve_label(label: &String, labels: &Vec<(String, Symbol)>, is_dry_run: bool) -> (r: Result<
    u16,
    String,
>)
    ensures
        num_res(r) == spec_resolve_label(label@, table_view(labels@), is_dry_run),
{
    match lookup_address(labels, label) {
        Some(a) => Ok(a),
        None => if is_dry_run {
            Ok(0)
        } else {
            let mut e = err_msg("Label not found: ");
            e.append(label.as_str());
            Err(e)
        },
    }
}

/// Resolves an immediate operand (see [`spec_resolve_immediate`]).
pub fn resolve_immediate(op: &Operand, labels: &Vec<(String, Symbol)>, is_dry_run: bool) -> (r: Result<
    u16,
    String,
>)
    ensures
        num_res(r) == spec_resolve_immediate(op@, table_view(labels@), is_dry_run),
{
    match op {
        Operand::Immediate(n) => Ok(*n),
        Operand::Label(s) => resolve_label(s, labels, is_dry_run),
        _ => Err(err_msg("Not an immediate")),
    }
}

/// Resolves an indirect operand (see [`spec_resolve_indirect`]).
pub fn resolve_indirect(op: &Operand, labels: &Vec<(String, Symbol)>, is_dry_run: bool) -> (r: Result<
    u16,
    String,
>)
    ensures
        num_res(r) == spec_resolve_indirect(op@, table_view(labels@), is_dry_run),
{
    match op {
        Operand::IndirectImmediate(n) => Ok(*n),
        Operand::IndirectLabel(s) => resolve_label(s, labels, is_dry_run),
        _ => Err(err_msg("Not an indirect address")),
    }
}

// ----- register and condition codes -----

/// The code of an 8-bit register in the `r` table.
pub open spec fn spec_r_code(s: Seq<char>) -> Option<u8> {
    if s == "B"@ {
        Some(0)
    } else if s == "C"@ {
        Some(1)
    } else if s == "D"@ {
        Some(2)
    } else if s == "E"@ {
        Some(3)
    } else if s == "H"@ {
        Some(4)
    } else if s == "L"@ {
        Some(5)
    } else if s == "A"@ {
        Some(7)
    } else {
        None
    }
}

/// The code of a register pair in the `rp` table.
pub open spec fn spec_rp_code(s: Seq<char>) -> Option<u8> {
    if s == "BC"@ {
        Some(0)
    } else if s == "DE"@ {
        Some(1)
    } else if s == "HL"@ {
        Some(2)
    } else if s == "SP"@ {
        Some(3)
    } else {
        None
    }
}

/// The code of a register pair in the `rp2` table.
pub open spec fn spec_rp2_code(s: Seq<char>) -> Option<u8> {
    if s == "BC"@ {
        Some(0)
    } else if s == "DE"@ {
        Some(1)
    } else if s == "HL"@ {
        Some(2)
    } else if s == "AF"@ {
        Some(3)
    } else {
        None
    }
}

/// The code of a branch condition.
pub open spec fn spec_condition_code(s: Seq<char>) -> Option<u8> {
    if s == "NZ"@ {
        Some(0)
    } else if s == "Z"@ {
        Some(1)
    } else if s == "NC"@ {
        Some(2)
    } else if s == "C"@ {
        Some(3)
    } else if s == "PO"@ {
        Some(4)
    } else if s == "PE"@ {
        Some(5)
    } else if s == "P"@ {
        Some(6)
    } else if s == "M"@ {
        Some(7)
    } else {
        None
    }
}

/// The `r` code of a register name.
pub fn get_r_code(reg: &String) -> (c: Option<u8>)
    ensures
        c == spec_r_code(reg@),
        c matches Some(v) ==> v < 8,
{
    if text_is(reg, "B") {
        Some(0)
    } else if text_is(reg, "C") {
        Some(1)
    } else if text_is(reg, "D") {
        Some(2)
    } else if text_is(reg, "E") {
        Some(3)
    } else if text_is(reg, "H") {
        Some(4)
    } else if text_is(reg, "L") {
        Some(5)
    } else if text_is(reg, "A") {
        Some(7)
    } else {
        None
    }
}

/// The `rp` code of a register pair name.
pub fn get_rp_code(reg: &String) -> (c: Option<u8>)
    ensures
        c == spec_rp_code(reg@),
        c matches Some(v) ==> v < 4,
{
    if text_is(reg, "BC") {
        Some(0)
    } else if text_is(reg, "DE") {
        Some(1)
    } else if text_is(reg, "HL") {
        Some(2)
    } else if text_is(reg, "SP") {
        Some(3)
    } else {
        None
    }
}

/// The `rp2` code of a register pair name.
pub fn get_rp2_code(reg: &String) -> (c: Option<u8>)
    ensures
        c == spec_rp2_code(reg@),
        c matches Some(v) ==> v < 4,
{
    if text_is(reg, "BC") {
        Some(0)
    } else if text_is(reg, "DE") {
        Some(1)
    } else if text_is(reg, "HL") {
        Some(2)
    } else if text_is(reg, "AF") {
        Some(3)
    } else {
        None
    }
}

/// The code of a condition name.
pub fn get_condition_code(s: &String) -> (c: Option<u8>)
    ensures
        c == spec_condition_code(s@),
        c matches Some(v) ==> v < 8,
{
    if text_is(s, "NZ") {
        Some(0)
    } else if text_is(s, "Z") {
        Some(1)
    } else if text_is(s, "NC") {
        Some(2)
    } else if text_is(s, "C") {
        Some(3)
    } else if text_is(s, "PO") {
        Some(4)
    } else if text_is(s, "PE") {
        Some(5)
    } else if text_is(s, "P") {
        Some(6)
    } else if text_is(s, "M") {
        Some(7)
    } else {
        None
    }
}

/// The low byte of a word.
pub open spec fn lo(n: u16) -> u8 {
    (n % 256) as u8
}

/// The high byte of a word.
pub open spec fn hi(n: u16) -> u8 {
    (n / 256) as u8
}

/// The low byte of a word.
pub fn low(n: u16) -> (b: u8)
    ensures
        b == lo(n),
{
    (n % 256) as u8
}

/// The high byte of a word.
pub fn high(n: u16) -> (b: u8)
    ensures
        b == hi(n),
{
    (n / 256) as u8
}

/// The byte of a displacement.
pub open spec fn disp_byte(d: i8) -> u8 {
    (if d < 0 {
        d + 256
    } else {
        d as int
    }) as u8
}

/// The byte of a displacement.
pub fn disp(d: i8) -> (b: u8)
    ensures
        b == disp_byte(d),
{
    if d < 0 {
        (d as i16 + 256) as u8
    } else {
        d as u8
    }
}

/// The prefix byte of an index register: DD for IX, FD otherwise.
pub open spec fn index_prefix(idx: Seq<char>) -> u8 {
    if idx == "IX"@ {
        0xDD
    } else {
        0xFD
    }
}

/// The prefix byte of an index register.
pub fn prefix_of(idx: &String) -> (b: u8)
    ensures
        b == index_prefix(idx@),
{
    if text_is(idx, "IX") {
        0xDD
    } else {
        0xFD
    }
}

} // verus!
