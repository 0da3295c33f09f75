use vstd::prelude::*;

use super::{err_msg, tokens_view, Token, TokenV};
use crate::formatting::string_of;
use crate::text::{
    chars_of, is_digit, is_hex_digit, is_whitespace, parse_radix_u16, spec_is_digit,
    spec_is_hex_digit, spec_is_whitespace, spec_parse_radix_u16,
};

verus! {

/// What `char::is_alphabetic` returns for `c` (the Unicode Alphabetic property).
pub uninterp spec fn char_is_alphabetic(c: char) -> bool;

/// What `char::is_alphanumeric` returns for `c` (Alphabetic or Numeric).
pub uninterp spec fn char_is_alphanumeric(c: char) -> bool;

/// `char::is_alphabetic`. Among ASCII characters exactly the letters
/// `a`-`z` and `A`-`Z` are alphabetic (the ASCII fast path of its source).
/// Its documentation defines `is_alphanumeric` as `is_alphabetic` or
/// `is_numeric`, so a letter is also alphanumeric. The Unicode tables for
/// other characters are not stated.
#[verifier::external_body]
fn is_alphabetic(c: char) -> (b: bool)
    ensures
        b == char_is_alphabetic(c),
        b ==> char_is_alphanumeric(c),
        c <= '\x7f' ==> (b <==> (('a' <= c && c <= 'z') || ('A' <= c && c <= 'Z'))),
{
    c.is_alphabetic()
}

/// `char::is_alphanumeric`. Among ASCII characters exactly the letters and
/// the digits `0`-`9` are alphanumeric (the ASCII fast paths of
/// `is_alphabetic` and `is_numeric` in its source). The Unicode tables for
/// other characters are not stated.
#[verifier::external_body]
fn is_alphanumeric(c: char) -> (b: bool)
    ensures
        b == char_is_alphanumeric(c),
        c <= '\x7f' ==> (b <==> (('a' <= c && c <= 'z') || ('A' <= c && c <= 'Z') || ('0' <= c
            && c <= '9'))),
{
    c.is_alphanumeric()
}

/// The Unicode classes of a character that the lexer reads.
#[derive(Clone, Copy, Debug)]
pub struct CharClass {
    pub alphabetic: bool,
    pub alphanumeric: bool,
}

/// Classes in which every letter is also alphanumeric, one per character.
pub open spec fn classes_ok(s: Seq<char>, cls: Seq<CharClass>) -> bool {
    &&& cls.len() == s.len()
    &&& forall|k: int| 0 <= k < cls.len() && #[trigger] cls[k].alphabetic ==> cls[k].alphanumeric
}

/// An ASCII letter.
pub open spec fn ascii_letter(c: char) -> bool {
    ('a' <= c && c <= 'z') || ('A' <= c && c <= 'Z')
}

/// What `char` says of an ASCII character: letters are alphabetic, letters
/// and digits are alphanumeric, and nothing else is either.
pub open spec fn ascii_classes(c: char) -> bool {
    c <= '\x7f' ==> (char_is_alphabetic(c) <==> ascii_letter(c)) && (char_is_alphanumeric(c) <==> (
    ascii_letter(c) || ('0' <= c && c <= '9')))
}

/// The classes that `char` gives the characters of `s`.
pub open spec fn char_classes(s: Seq<char>) -> Seq<CharClass> {
    Seq::new(
        s.len(),
        |k: int|
            CharClass {
                alphabetic: char_is_alphabetic(s[k]),
                alphanumeric: char_is_alphanumeric(s[k]),
            },
    )
}

/// Classifies each character of `chars`.
pub fn classify(chars: &Vec<char>) -> (cls: Vec<CharClass>)
    ensures
        cls@ == char_classes(chars@),
        classes_ok(chars@, cls@),
        forall|k: int| 0 <= k < cls@.len() ==> #[trigger] ascii_classes(chars@[k]),
{
    let mut cls: Vec<CharClass> = Vec::new();
    let mut i: usize = 0;
    while i < chars.len()
        invariant
            i <= chars@.len(),
            cls@ == char_classes(chars@).take(i as int),
            classes_ok(chars@.take(i as int), cls@),
            forall|k: int| 0 <= k < i ==> #[trigger] ascii_classes(chars@[k]),
        decreases chars@.len() - i,
    {
        let c = chars[i];
        let a = is_alphabetic(c);
        let n = is_alphanumeric(c);
        cls.push(CharClass { alphabetic: a, alphanumeric: n });
        i = i + 1;
        assert(cls@ =~= char_classes(chars@).take(i as int));
        assert(chars@.take(i as int).len() == cls@.len());
    }
    assert(chars@.take(i as int) =~= chars@);
    assert(char_classes(chars@).take(i as int) =~= char_classes(chars@));
    cls
}

/// The ASCII upper case of a character (others are unchanged).
pub open spec fn ascii_upper(c: char) -> char {
    if 'a' <= c && c <= 'z' {
        ((c as int) - 32) as char
    } else {
        c
    }
}

/// The ASCII upper case of a word.
pub open spec fn upper(w: Seq<char>) -> Seq<char> {
    w.map_values(|c: char| ascii_upper(c))
}

/// A character that may continue an identifier.
pub open spec fn is_ident_char(c: char, k: CharClass) -> bool {
    k.alphanumeric || c == '_' || c == '\'' || c == '.'
}

/// The end of the run of identifier characters from `i`.
pub open spec fn ident_end(s: Seq<char>, cls: Seq<CharClass>, i: int) -> int
    decreases s.len() - i,
{
    if 0 <= i < s.len() && is_ident_char(s[i], cls[i]) {
        ident_end(s, cls, i + 1)
    } else {
        i
    }
}

/// The end of the run of ASCII hexadecimal digits from `i`.
pub open spec fn hex_end(s: Seq<char>, i: int) -> int
    decreases s.len() - i,
{
    if 0 <= i < s.len() && spec_is_hex_digit(s[i]) {
        hex_end(s, i + 1)
    } else {
        i
    }
}

/// The position of the first `"` at or after `i`, or the end of `s`.
pub open spec fn quote_end(s: Seq<char>, i: int) -> int
    decreases s.len() - i,
{
    if 0 <= i < s.len() && s[i] != '"' {
        quote_end(s, i + 1)
    } else {
        i
    }
}

/// The token of an upper-cased word: a number if it is hexadecimal digits
/// followed by `H` and fits in 16 bits, else an identifier.
pub open spec fn word_token(w: Seq<char>) -> TokenV {
    if w.len() > 1 && w.last() == 'H' && (forall|k: int|
        0 <= k < w.len() - 1 ==> #[trigger] spec_is_hex_digit(w[k])) && spec_parse_radix_u16(
        w.drop_last(),
        16,
    ) is Some {
        TokenV::Number(spec_parse_radix_u16(w.drop_last(), 16)->0)
    } else {
        TokenV::Identifier(w)
    }
}

/// A number starting with the decimal digit at `i`: decimal, `0x` hex, or
/// hex digits with an `H` suffix; and the position after it.
pub open spec fn number_at(s: Seq<char>, i: int) -> Result<(TokenV, int), Seq<char>> {
    let x = s[i] == '0' && i + 1 < s.len() && (s[i + 1] == 'x' || s[i + 1] == 'X');
    let start = if x {
        i + 2
    } else {
        i
    };
    let j = hex_end(s, start);
    let num = s.subrange(start, j);
    let h = !x && num.len() > 0 && j < s.len() && (s[j] == 'H' || s[j] == 'h');
    let end = if h {
        j + 1
    } else {
        j
    };
    if x || h {
        match spec_parse_radix_u16(num, 16) {
            Some(n) => Ok((TokenV::Number(n), end)),
            None => Err("Invalid hex number"@),
        }
    } else {
        match spec_parse_radix_u16(num, 10) {
            Some(n) => Ok((TokenV::Number(n), end)),
            None => Err("Invalid number"@),
        }
    }
}

/// The token at position `i` (none for white space) and the position after it.
pub open spec fn lex_step(s: Seq<char>, cls: Seq<CharClass>, i: int) -> Result<
    (Option<TokenV>, int),
    Seq<char>,
> {
    let c = s[i];
    if c == ':' {
        Ok((Some(TokenV::Colon), i + 1))
    } else if c == '"' {
        let j = quote_end(s, i + 1);
        if j >= s.len() {
            Err("Unterminated string literal"@)
        } else {
            Ok((Some(TokenV::Str(s.subrange(i + 1, j))), j + 1))
        }
    } else if c == ',' {
        Ok((Some(TokenV::Comma), i + 1))
    } else if c == '(' {
        Ok((Some(TokenV::OpenParen), i + 1))
    } else if c == ')' {
        Ok((Some(TokenV::CloseParen), i + 1))
    } else if c == '+' {
        Ok((Some(TokenV::Plus), i + 1))
    } else if c == '-' {
        Ok((Some(TokenV::Minus), i + 1))
    } else if spec_is_whitespace(c) {
        Ok((None, i + 1))
    } else if cls[i].alphabetic || c == '_' || c == '.' {
        let j = ident_end(s, cls, i);
        Ok((Some(word_token(upper(s.subrange(i, j)))), j))
    } else if spec_is_digit(c) {
        match number_at(s, i) {
            Ok((t, j)) => Ok((Some(t), j)),
            Err(e) => Err(e),
        }
    } else if c == '$' {
        let j = hex_end(s, i + 1);
        match spec_parse_radix_u16(s.subrange(i + 1, j), 16) {
            Some(n) => Ok((Some(TokenV::Number(n)), j)),
            None => Err("Invalid hex number"@),
        }
    } else {
        Err("Unexpected character: "@ + seq![c])
    }
}

/// `Ok(p + rest)` for a successful `r`; the error of `r` otherwise.
pub open spec fn prepend_tokens(p: Seq<TokenV>, r: Result<Seq<TokenV>, Seq<char>>) -> Result<
    Seq<TokenV>,
    Seq<char>,
> {
    match r {
        Ok(rest) => Ok(p + rest),
        Err(e) => Err(e),
    }
}

/// The tokens of `s` from position `i` on; the first error stops the lexer.
pub open spec fn lex_from(s: Seq<char>, cls: Seq<CharClass>, i: int) -> Result<Seq<TokenV>, Seq<char>>
    decreases s.len() - i,
{
    if i < 0 || i >= s.len() {
        Ok(Seq::empty())
    } else {
        match lex_step(s, cls, i) {
            Ok((t, j)) => if j <= i || j > s.len() {
                Ok(Seq::empty())
            } else {
                prepend_tokens(
                    match t {
                        Some(x) => seq![x],
                        None => Seq::empty(),
                    },
                    lex_from(s, cls, j),
                )
            },
            Err(e) => Err(e),
        }
    }
}

/// The tokens of a line of source text, given its characters' classes.
pub open spec fn spec_tokenize(s: Seq<char>, cls: Seq<CharClass>) -> Result<Seq<TokenV>, Seq<char>> {
    lex_from(s, cls, 0)
}

proof fn lemma_ident_end(s: Seq<char>, cls: Seq<CharClass>, i: int)
    requires
        0 <= i <= s.len(),
    ensures
        i <= ident_end(s, cls, i) <= s.len(),
    decreases s.len() - i,
{
    if i < s.len() && is_ident_char(s[i], cls[i]) {
        lemma_ident_end(s, cls, i + 1);
    }
}

fn scan_ident(s: &Vec<char>, cls: &Vec<CharClass>, i: usize) -> (j: usize)
    requires
        i <= s@.len(),
        cls@.len() == s@.len(),
    ensures
        j == ident_end(s@, cls@, i as int),
        i <= j <= s@.len(),
{
    let mut j = i;
    proof {
        lemma_ident_end(s@, cls@, i as int);
    }
    while j < s.len() && (cls[j].alphanumeric || s[j] == '_' || s[j] == '\'' || s[j] == '.')
        invariant
            i <= j <= s@.len(),
            cls@.len() == s@.len(),
            ident_end(s@, cls@, i as int) == ident_end(s@, cls@, j as int),
        decreases s@.len() - j,
    {
        j = j + 1;
    }
    j
}

fn scan_hex(s: &Vec<char>, i: usize) -> (j: usize)
    requires
        i <= s@.len(),
    ensures
        j == hex_end(s@, i as int),
        i <= j <= s@.len(),
{
    let mut j = i;
    while j < s.len() && is_hex_digit(s[j])
        invariant
            i <= j <= s@.len(),
            hex_end(s@, i as int) == hex_end(s@, j as int),
        decreases s@.len() - j,
    {
        j = j + 1;
    }
    j
}

fn scan_quote(s: &Vec<char>, i: usize) -> (j: usize)
    requires
        i <= s@.len(),
    ensures
        j == quote_end(s@, i as int),
        i <= j <= s@.len(),
{
    let mut j = i;
    while j < s.len() && s[j] != '"'
        invariant
            i <= j <= s@.len(),
            quote_end(s@, i as int) == quote_end(s@, j as int),
        decreases s@.len() - j,
    {
        j = j + 1;
    }
    j
}

/// The characters of `s` from `i` up to `j`.
fn slice_chars(s: &Vec<char>, i: usize, j: usize) -> (v: Vec<char>)
    requires
        i <= j <= s@.len(),
    ensures
        v@ == s@.subrange(i as int, j as int),
{
    let mut v: Vec<char> = Vec::new();
    let mut k = i;
    while k < j
        invariant
            i <= k <= j <= s@.len(),
            v@ == s@.subrange(i as int, k as int),
        decreases j - k,
    {
        v.push(s[k]);
        k = k + 1;
        assert(v@ =~= s@.subrange(i as int, k as int));
    }
    v
}

fn upper_char(c: char) -> (u: char)
    ensures
        u == ascii_upper(c),
{
    if 'a' <= c && c <= 'z' {
        let b: u8 = c as u8;
        assert(b == c as int);
        (b - 32) as char
    } else {
        c
    }
}

/// The ASCII upper case of the characters of `s` from `i` up to `j`.
fn upper_chars(s: &Vec<char>, i: usize, j: usize) -> (v: Vec<char>)
    requires
        i <= j <= s@.len(),
    ensures
        v@ == upper(s@.subrange(i as int, j as int)),
{
    let mut v: Vec<char> = Vec::new();
    let mut k = i;
    while k < j
        invariant
            i <= k <= j <= s@.len(),
            v@ == upper(s@.subrange(i as int, k as int)),
        decreases j - k,
    {
        v.push(upper_char(s[k]));
        k = k + 1;
        assert(v@ =~= upper(s@.subrange(i as int, k as int)));
    }
    v
}

fn word(w: Vec<char>) -> (t: Token)
    ensures
        t@ == word_token(w@),
{
    let n = w.len();
    if n > 1 && w[n - 1] == 'H' {
        let mut all_hex = true;
        let mut k: usize = 0;
        while k < n - 1
            invariant
                n == w@.len(),
                n > 1,
                k <= n - 1,
                all_hex == (forall|m: int| 0 <= m < k ==> #[trigger] spec_is_hex_digit(w@[m])),
            decreases n - 1 - k,
        {
            if !is_hex_digit(w[k]) {
                all_hex = false;
            }
            k = k + 1;
        }
        if all_hex {
            let body = slice_chars(&w, 0, n - 1);
            assert(body@ =~= w@.drop_last());
            if let Some(v) = parse_radix_u16(&body, 16) {
                return Token::Number(v);
            }
        }
    }
    Token::Identifier(string_of(&w))
}

fn lex_number(s: &Vec<char>, i: usize) -> (r: Result<(Token, usize), String>)
    requires
        i < s.len(),
        spec_is_digit(s@[i as int]),
    ensures
        match (r, number_at(s@, i as int)) {
            (Ok((t, j)), Ok((st, sj))) => t@ == st && j == sj,
            (Err(e), Err(se)) => e@ == se,
            _ => false,
        },
        r matches Ok((_, j)) ==> i < j <= s@.len(),
{
    let x = s[i] == '0' && i + 1 < s.len() && (s[i + 1] == 'x' || s[i + 1] == 'X');
    let start = if x {
        i + 2
    } else {
        i
    };
    let j = scan_hex(s, start);
    let num = slice_chars(s, start, j);
    let h = !x && num.len() > 0 && j < s.len() && (s[j] == 'H' || s[j] == 'h');
    let end = if h {
        j + 1
    } else {
        j
    };
    assert(spec_is_hex_digit(s@[i as int]));
    if x || h {
        match parse_radix_u16(&num, 16) {
            Some(n) => Ok((Token::Number(n), end)),
            None => Err(err_msg("Invalid hex number")),
        }
    } else {
        match parse_radix_u16(&num, 10) {
            Some(n) => Ok((Token::Number(n), end)),
            None => Err(err_msg("Invalid number")),
        }
    }
}

fn punct(t: Token, i: usize) -> (r: Result<(Option<Token>, usize), String>)
    requires
        i < usize::MAX,
    ensures
        r matches Ok((Some(u), j)) && u@ == t@ && j == i + 1,
{
    Ok((Some(t), i + 1))
}

/// The token at position `i` (see [`lex_step`]).
#[verifier::rlimit(30)]
pub fn lex_token(s: &Vec<char>, cls: &Vec<CharClass>, i: usize) -> (r: Result<(Option<Token>, usize), String>)
    requires
        i < s.len(),
        classes_ok(s@, cls@),
    ensures
        match (r, lex_step(s@, cls@, i as int)) {
            (Ok((t, j)), Ok((st, sj))) => j == sj && match (t, st) {
                (Some(a), Some(b)) => a@ == b,
                (None, None) => true,
                _ => false,
            },
            (Err(e), Err(se)) => e@ == se,
            _ => false,
        },
        r matches Ok((_, j)) ==> i < j <= s@.len(),
{
    let c = s[i];
    if c == ':' {
        punct(Token::Colon, i)
    } else if c == '"' {
        let j = scan_quote(s, i + 1);
        if j >= s.len() {
            Err(err_msg("Unterminated string literal"))
        } else {
            let body = slice_chars(s, i + 1, j);
            Ok((Some(Token::String(string_of(&body))), j + 1))
        }
    } else if c == ',' {
        punct(Token::Comma, i)
    } else if c == '(' {
        punct(Token::OpenParen, i)
    } else if c == ')' {
        punct(Token::CloseParen, i)
    } else if c == '+' {
        punct(Token::Plus, i)
    } else if c == '-' {
        punct(Token::Minus, i)
    } else if is_whitespace(c) {
        Ok((None, i + 1))
    } else if cls[i].alphabetic || c == '_' || c == '.' {
        assert(is_ident_char(s@[i as int], cls@[i as int]));
        proof {
            lemma_ident_end(s@, cls@, i as int + 1);
        }
        let j = scan_ident(s, cls, i);
        let w = upper_chars(s, i, j);
        Ok((Some(word(w)), j))
    } else if is_digit(c) {
        match lex_number(s, i) {
            Ok((t, j)) => Ok((Some(t), j)),
            Err(e) => Err(e),
        }
    } else if c == '$' {
        let j = scan_hex(s, i + 1);
        let num = slice_chars(s, i + 1, j);
        match parse_radix_u16(&num, 16) {
            Some(n) => {
                if j == i + 1 {
                    assert(num@.len() == 0);
                    assert(false);
                }
                Ok((Some(Token::Number(n)), j))
            },
            None => Err(err_msg("Invalid hex number")),
        }
    } else {
        let mut e = err_msg("Unexpected character: ");
        let mut one: Vec<char> = Vec::new();
        one.push(c);
        let cs = string_of(&one);
        e.append(cs.as_str());
        assert(one@ =~= seq![c]);
        Err(e)
    }
}

/// The tokens of `s`, given its characters' classes (see [`spec_tokenize`]).
pub fn tokenize_classified(s: &Vec<char>, cls: &Vec<CharClass>) -> (r: Result<Vec<Token>, String>)
    requires
        classes_ok(s@, cls@),
    ensures
        match (r, spec_tokenize(s@, cls@)) {
            (Ok(v), Ok(sv)) => tokens_view(v@) == sv,
            (Err(e), Err(se)) => e@ == se,
            _ => false,
        },
{
    let mut tokens: Vec<Token> = Vec::new();
    let mut i: usize = 0;
    assert(tokens_view(tokens@) + Seq::<TokenV>::empty() =~= Seq::<TokenV>::empty());
    while i < s.len()
        invariant
            i <= s@.len(),
            classes_ok(s@, cls@),
            spec_tokenize(s@, cls@) == prepend_tokens(tokens_view(tokens@), lex_from(s@, cls@, i as int)),
        decreases s@.len() - i,
    {
        match lex_token(s, cls, i) {
            Ok((t, j)) => {
                let ghost before = tokens_view(tokens@);
                match t {
                    Some(tok) => {
                        let ghost tv = tok@;
                        tokens.push(tok);
                        proof {
                            assert(tokens_view(tokens@) =~= before + seq![tv]);
                            match lex_from(s@, cls@, j as int) {
                                Ok(rest) => {
                                    assert(before + (seq![tv] + rest) =~= (before + seq![tv]) + rest);
                                },
                                Err(_) => {},
                            }
                        }
                    },
                    None => {
                        proof {
                            match lex_from(s@, cls@, j as int) {
                                Ok(rest) => {
                                    assert(Seq::<TokenV>::empty() + rest =~= rest);
                                },
                                Err(_) => {},
                            }
                        }
                    },
                }
                i = j;
            },
            Err(e) => {
                return Err(e);
            },
        }
    }
    assert(tokens_view(tokens@) + Seq::<TokenV>::empty() =~= tokens_view(tokens@));
    Ok(tokens)
}

/// The tokens of a line of source text.
pub fn tokenize(text: &str) -> (r: Result<Vec<Token>, String>)
    ensures
        match (r, spec_tokenize(text@, char_classes(text@))) {
            (Ok(v), Ok(sv)) => tokens_view(v@) == sv,
            (Err(e), Err(se)) => e@ == se,
            _ => false,
        },
        forall|k: int| 0 <= k < text@.len() ==> #[trigger] ascii_classes(text@[k]),
{
    let chars = chars_of(text);
    let cls = classify(&chars);
    tokenize_classified(&chars, &cls)
}

} // verus!
