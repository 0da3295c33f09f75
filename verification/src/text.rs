use vstd::prelude::*;

verus! {

/// Unicode White_Space, the property that `char::is_whitespace` tests.
pub open spec fn spec_is_whitespace(c: char) -> bool {
    ||| ('\u{9}' <= c && c <= '\u{d}')
    ||| c == ' '
    ||| c == '\u{85}'
    ||| c == '\u{a0}'
    ||| c == '\u{1680}'
    ||| ('\u{2000}' <= c && c <= '\u{200a}')
    ||| c == '\u{2028}'
    ||| c == '\u{2029}'
    ||| c == '\u{202f}'
    ||| c == '\u{205f}'
    ||| c == '\u{3000}'
}

/// Whether `c` is white space in the sense of Unicode.
pub fn is_whitespace(c: char) -> (b: bool)
    ensures
        b == spec_is_whitespace(c),
{
    ('\u{9}' <= c && c <= '\u{d}') || c == ' ' || c == '\u{85}' || c == '\u{a0}' || c == '\u{1680}'
        || ('\u{2000}' <= c && c <= '\u{200a}') || c == '\u{2028}' || c == '\u{2029}' || c
        == '\u{202f}' || c == '\u{205f}' || c == '\u{3000}'
}

/// An ASCII decimal digit.
pub open spec fn spec_is_digit(c: char) -> bool {
    '0' <= c && c <= '9'
}

/// An ASCII hexadecimal digit, in either case.
pub open spec fn spec_is_hex_digit(c: char) -> bool {
    ||| ('0' <= c && c <= '9')
    ||| ('a' <= c && c <= 'f')
    ||| ('A' <= c && c <= 'F')
}

/// The value of a digit in base 16 (or any smaller base), or 16 for a
/// character that is no such digit.
pub open spec fn spec_digit_value(c: char) -> nat {
    if '0' <= c && c <= '9' {
        (c as nat - '0' as nat) as nat
    } else if 'a' <= c && c <= 'f' {
        (c as nat - 'a' as nat + 10) as nat
    } else if 'A' <= c && c <= 'F' {
        (c as nat - 'A' as nat + 10) as nat
    } else {
        16
    }
}

/// Whether `c` is an ASCII hexadecimal digit.
pub fn is_hex_digit(c: char) -> (b: bool)
    ensures
        b == spec_is_hex_digit(c),
{
    ('0' <= c && c <= '9') || ('a' <= c && c <= 'f') || ('A' <= c && c <= 'F')
}

/// Whether `c` is an ASCII decimal digit.
pub fn is_digit(c: char) -> (b: bool)
    ensures
        b == spec_is_digit(c),
{
    '0' <= c && c <= '9'
}

/// The value of a digit, as [`spec_digit_value`].
pub fn digit_value(c: char) -> (v: u32)
    ensures
        v == spec_digit_value(c),
        v <= 16,
{
    if '0' <= c && c <= '9' {
        (c as u32) - ('0' as u32)
    } else if 'a' <= c && c <= 'f' {
        (c as u32) - ('a' as u32) + 10
    } else if 'A' <= c && c <= 'F' {
        (c as u32) - ('A' as u32) + 10
    } else {
        16
    }
}

/// Every character of `s` is a digit in base `radix`.
pub open spec fn all_digits(s: Seq<char>, radix: nat) -> bool {
    forall|i: int| 0 <= i < s.len() ==> #[trigger] spec_digit_value(s[i]) < radix
}

/// The number that the digits of `s` denote in base `radix`.
pub open spec fn digits_value(s: Seq<char>, radix: nat) -> nat
    decreases s.len(),
{
    if s.len() == 0 {
        0
    } else {
        digits_value(s.drop_last(), radix) * radix + spec_digit_value(s.last())
    }
}

/// `u16::from_str_radix`: an optional `+`, then at least one digit of the
/// radix, and a value that fits in 16 bits.
pub open spec fn spec_parse_radix_u16(s: Seq<char>, radix: nat) -> Option<u16> {
    let digits = if s.len() > 0 && s[0] == '+' {
        s.drop_first()
    } else {
        s
    };
    if digits.len() == 0 || !all_digits(digits, radix) || digits_value(digits, radix) > 0xFFFF {
        None
    } else {
        Some(digits_value(digits, radix) as u16)
    }
}

/// `u8::from_str_radix` in base 16.
pub open spec fn spec_parse_hex_u8(s: Seq<char>) -> Option<u8> {
    match spec_parse_radix_u16(s, 16) {
        Some(v) => if v <= 255 {
            Some(v as u8)
        } else {
            None
        },
        None => None,
    }
}

proof fn lemma_digits_value_monotone(s: Seq<char>, radix: nat, k: int)
    requires
        0 <= k <= s.len(),
        radix >= 1,
    ensures
        digits_value(s.subrange(0, k), radix) <= digits_value(s, radix),
    decreases s.len() - k,
{
    if k < s.len() {
        lemma_digits_value_monotone(s, radix, k + 1);
        let t = s.subrange(0, k + 1);
        assert(t.drop_last() =~= s.subrange(0, k));
        assert(digits_value(t, radix) == digits_value(s.subrange(0, k), radix) * radix
            + spec_digit_value(t.last()));
        assert(digits_value(s.subrange(0, k), radix) * radix >= digits_value(s.subrange(0, k), radix))
            by (nonlinear_arith)
            requires
                radix >= 1,
        ;
    } else {
        assert(s.subrange(0, k) =~= s);
    }
}

/// Parses a number the way `u16::from_str_radix` does (radix 2 to 16).
pub fn parse_radix_u16(s: &Vec<char>, radix: u32) -> (r: Option<u16>)
    requires
        2 <= radix <= 16,
    ensures
        r == spec_parse_radix_u16(s@, radix as nat),
{
    let start: usize = if s.len() > 0 && s[0] == '+' {
        1
    } else {
        0
    };
    let ghost digits = if s@.len() > 0 && s@[0] == '+' {
        s@.drop_first()
    } else {
        s@
    };
    assert(digits =~= s@.subrange(start as int, s@.len() as int));
    if start >= s.len() {
        return None;
    }
    let mut value: u32 = 0;
    let mut i: usize = start;
    while i < s.len()
        invariant
            start <= i <= s@.len(),
            start < s@.len(),
            digits =~= s@.subrange(start as int, s@.len() as int),
            digits == (if s@.len() > 0 && s@[0] == '+' {
                s@.drop_first()
            } else {
                s@
            }),
            2 <= radix <= 16,
            all_digits(s@.subrange(start as int, i as int), radix as nat),
            value == digits_value(s@.subrange(start as int, i as int), radix as nat),
            value <= 0xFFFF,
        decreases s@.len() - i,
    {
        let d = digit_value(s[i]);
        let ghost prefix = s@.subrange(start as int, i as int);
        let ghost next = s@.subrange(start as int, i + 1);
        assert(next.drop_last() =~= prefix);
        if d >= radix {
            assert(next.last() == s@[i as int]);
            assert(digits[i - start] == s@[i as int]);
            assert(spec_digit_value(digits[i - start]) >= radix);
            assert(!all_digits(digits, radix as nat));
            return None;
        }
        assert(value * radix <= 0xFFFF * 16) by (nonlinear_arith)
            requires
                value <= 0xFFFF,
                radix <= 16,
        ;
        let nv: u32 = value * radix + d;
        if nv > 0xFFFF {
            proof {
                assert(next.last() == s@[i as int]);
                assert(digits_value(next, radix as nat) == nv);
                assert(next =~= digits.subrange(0, i + 1 - start));
                lemma_digits_value_monotone(digits, radix as nat, i + 1 - start);
                if all_digits(digits, radix as nat) {
                }
            }
            return None;
        }
        value = nv;
        i = i + 1;
        proof {
            assert forall|j: int| 0 <= j < next.len() implies #[trigger] spec_digit_value(next[j])
                < radix as nat by {
                if j < prefix.len() {
                    assert(next[j] == prefix[j]);
                }
            }
        }
    }
    assert(s@.subrange(start as int, i as int) =~= digits);
    Some(value as u16)
}

/// Parses a byte in hexadecimal the way `u8::from_str_radix(s, 16)` does.
pub fn parse_hex_u8(s: &Vec<char>) -> (r: Option<u8>)
    ensures
        r == spec_parse_hex_u8(s@),
{
    match parse_radix_u16(s, 16) {
        Some(v) => if v <= 255 {
            Some(v as u8)
        } else {
            None
        },
        None => None,
    }
}

} // verus!

verus! {

/// The characters of a string.
pub fn chars_of(s: &str) -> (v: Vec<char>)
    ensures
        v@ == s@,
{
    let mut v: Vec<char> = Vec::new();
    for c in it: s.chars()
        invariant
            v@ == it.seq().take(it.index() as int),
    {
        v.push(c);
    }
    v
}

} // verus!
