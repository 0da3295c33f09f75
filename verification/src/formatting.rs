use vstd::prelude::*;

verus! {

/// `String::push`: afterwards the string holds the characters it held
/// before, followed by `c`.
#[verifier::external_body]
fn push_char(s: &mut String, c: char)
    ensures
        final(s)@ == old(s)@.push(c),
{
    s.push(c);
}

/// A string with the given characters.
pub fn string_of(chars: &Vec<char>) -> (s: String)
    ensures
        s@ == chars@,
{
    let mut s = String::new();
    let mut i: usize = 0;
    while i < chars.len()
        invariant
            i <= chars@.len(),
            s@ == chars@.take(i as int),
        decreases chars@.len() - i,
    {
        push_char(&mut s, chars[i]);
        i = i + 1;
        assert(s@ =~= chars@.take(i as int));
    }
    assert(chars@.take(i as int) =~= chars@);
    s
}

/// The upper-case hexadecimal digit of a value below 16.
pub open spec fn hex_digit(v: int) -> char {
    if v < 10 {
        (v + 48) as char
    } else {
        (v + 55) as char
    }
}

/// Two hexadecimal digits of a byte.
pub open spec fn hex2(b: u8) -> Seq<char> {
    seq![hex_digit((b / 16) as int), hex_digit((b % 16) as int)]
}

/// Four hexadecimal digits of a word.
pub open spec fn hex4(w: u16) -> Seq<char> {
    seq![
        hex_digit((w / 4096) as int),
        hex_digit(((w / 256) % 16) as int),
        hex_digit(((w / 16) % 16) as int),
        hex_digit((w % 16) as int),
    ]
}

/// The bytes in hexadecimal, separated by single spaces.
pub open spec fn hex_join(s: Seq<u8>) -> Seq<char>
    decreases s.len(),
{
    if s.len() == 0 {
        Seq::empty()
    } else if s.len() == 1 {
        hex2(s[0])
    } else {
        hex_join(s.drop_last()) + seq![' '] + hex2(s.last())
    }
}

/// `s` padded with spaces on the right to at least `w` characters.
pub open spec fn pad_right(s: Seq<char>, w: nat) -> Seq<char> {
    if s.len() >= w {
        s
    } else {
        s + Seq::new((w - s.len()) as nat, |_i: int| ' ')
    }
}

/// The character shown for a byte in the text column: printable ASCII and
/// the space stand for themselves, anything else is a dot.
pub open spec fn dump_char(b: u8) -> char {
    if 32 <= b <= 126 {
        b as char
    } else {
        '.'
    }
}

/// The line of a hex dump for the 16-byte row that starts at `start`:
/// address, colon, the bytes in hexadecimal padded to 47 columns, then the text.
pub open spec fn dump_line(row: Seq<u8>, start: int) -> Seq<char> {
    hex4((start % 0x10000) as u16) + seq![':', ' '] + pad_right(hex_join(row), 47) + seq![' ']
        + row.map_values(|b: u8| dump_char(b))
}

/// Row `k` of the bytes.
pub open spec fn dump_row(bytes: Seq<u8>, k: int) -> Seq<u8> {
    bytes.subrange(16 * k, if 16 * k + 16 <= bytes.len() {
        16 * k + 16
    } else {
        bytes.len() as int
    })
}

/// The first `k` lines of the dump, separated by newlines.
pub open spec fn dump_lines(bytes: Seq<u8>, k: int) -> Seq<char>
    decreases k,
{
    if k <= 0 {
        Seq::empty()
    } else if k == 1 {
        dump_line(dump_row(bytes, 0), 0)
    } else {
        dump_lines(bytes, k - 1) + seq!['\n'] + dump_line(dump_row(bytes, k - 1), 16 * (k - 1))
    }
}

/// The hex dump of `bytes`: one line per 16 bytes; empty for no bytes.
pub open spec fn hexdump(bytes: Seq<u8>) -> Seq<char> {
    dump_lines(bytes, ((bytes.len() + 15) / 16) as int)
}

fn hex_digit_char(v: u8) -> (c: char)
    requires
        v < 16,
    ensures
        c == hex_digit(v as int),
{
    if v < 10 {
        (v + 48) as char
    } else {
        (v + 55) as char
    }
}

fn push_hex2(out: &mut Vec<char>, b: u8)
    ensures
        final(out)@ == old(out)@ + hex2(b),
{
    out.push(hex_digit_char(b / 16));
    out.push(hex_digit_char(b % 16));
    assert(final(out)@ =~= old(out)@ + hex2(b));
}

fn push_hex4(out: &mut Vec<char>, w: u16)
    ensures
        final(out)@ == old(out)@ + hex4(w),
{
    out.push(hex_digit_char((w / 4096) as u8));
    out.push(hex_digit_char(((w / 256) % 16) as u8));
    out.push(hex_digit_char(((w / 16) % 16) as u8));
    out.push(hex_digit_char((w % 16) as u8));
    assert(final(out)@ =~= old(out)@ + hex4(w));
}

fn push_line(out: &mut Vec<char>, bytes: &[u8], from: usize, to: usize)
    requires
        from <= to <= bytes@.len(),
        to - from <= 16,
    ensures
        final(out)@ == old(out)@ + dump_line(bytes@.subrange(from as int, to as int), from as int),
{
    let ghost row = bytes@.subrange(from as int, to as int);
    push_hex4(out, (from % 0x10000) as u16);
    out.push(':');
    out.push(' ');
    let ghost head = out@;
    let mut i: usize = from;
    while i < to
        invariant
            from <= i <= to <= bytes@.len(),
            row == bytes@.subrange(from as int, to as int),
            out@ == head + hex_join(row.take(i - from)),
        decreases to - i,
    {
        let ghost before = out@;
        if i > from {
            out.push(' ');
        }
        push_hex2(out, bytes[i]);
        let ghost t = row.take(i + 1 - from);
        assert(t.drop_last() =~= row.take(i - from));
        assert(t.last() == bytes@[i as int]);
        if i == from {
            assert(t.len() == 1);
            assert(hex_join(t) == hex2(t[0]));
            assert(row.take(0) =~= Seq::<u8>::empty());
        }
        assert(out@ =~= head + hex_join(t));
        i = i + 1;
    }
    assert(row.take(to - from) =~= row);
    let ghost joined = hex_join(row);
    assert(joined.len() == if row.len() == 0 { 0 } else { 3 * row.len() - 1 }) by {
        lemma_hex_join_len(row);
    }
    let used = if to > from {
        3 * (to - from) - 1
    } else {
        0
    };
    let mut k: usize = used;
    while k < 47
        invariant
            used <= k,
            used == joined.len(),
            k <= 47 || k == used,
            out@ == head + joined + Seq::new((k - used) as nat, |_i: int| ' '),
        decreases 47 - k,
    {
        out.push(' ');
        k = k + 1;
        assert(out@ =~= head + joined + Seq::new((k - used) as nat, |_i: int| ' '));
    }
    assert(head + joined + Seq::new((k - used) as nat, |_i: int| ' ') =~= head + pad_right(joined, 47));
    out.push(' ');
    let ghost head2 = out@;
    let mut j: usize = from;
    while j < to
        invariant
            from <= j <= to <= bytes@.len(),
            row == bytes@.subrange(from as int, to as int),
            out@ == head2 + row.take(j - from).map_values(|b: u8| dump_char(b)),
        decreases to - j,
    {
        let b = bytes[j];
        let c = if 32 <= b && b <= 126 {
            b as char
        } else {
            '.'
        };
        out.push(c);
        j = j + 1;
        assert(row.take(j - from).map_values(|b: u8| dump_char(b)) =~= row.take(j - 1 - from).map_values(
            |b: u8| dump_char(b),
        ).push(dump_char(b)));
    }
    assert(row.take(to - from) =~= row);
    assert(out@ =~= old(out)@ + dump_line(row, from as int));
}

proof fn lemma_hex_join_len(s: Seq<u8>)
    ensures
        hex_join(s).len() == if s.len() == 0 { 0 } else { 3 * s.len() - 1 },
    decreases s.len(),
{
    if s.len() > 1 {
        lemma_hex_join_len(s.drop_last());
    }
}

/// A hex dump of `bytes` (see [`hexdump`]).
pub fn binary_hexdump(bytes: &[u8]) -> (s: String)
    ensures
        s@ == hexdump(bytes@),
{
    let mut out: Vec<char> = Vec::new();
    let n = bytes.len();
    let mut k: usize = 0;
    let mut start: usize = 0;
    while start < n
        invariant
            start <= n == bytes@.len(),
            start < n ==> start == 16 * k,
            start < n ==> k < (n + 15) / 16,
            start == n ==> k == (n + 15) / 16,
            out@ == dump_lines(bytes@, k as int),
        decreases n - start,
    {
        let end = if n - start >= 16 {
            start + 16
        } else {
            n
        };
        if k > 0 {
            out.push('\n');
        }
        push_line(&mut out, bytes, start, end);
        assert(bytes@.subrange(start as int, end as int) == dump_row(bytes@, k as int));
        k = k + 1;
        start = end;
    }
    string_of(&out)
}

/// The decimal digits of `n`, most significant first, without leading zeros.
pub open spec fn decimal(n: nat) -> Seq<char>
    decreases n,
{
    if n < 10 {
        seq![hex_digit(n as int)]
    } else {
        decimal(n / 10).push(hex_digit((n % 10) as int))
    }
}

fn push_decimal(out: &mut Vec<char>, n: u64)
    ensures
        final(out)@ == old(out)@ + decimal(n as nat),
    decreases n,
{
    if n >= 10 {
        push_decimal(out, n / 10);
    }
    out.push(hex_digit_char((n % 10) as u8));
    proof {
        if n >= 10 {
            assert(final(out)@ =~= old(out)@ + decimal(n as nat));
        } else {
            assert(final(out)@ =~= old(out)@ + decimal(n as nat));
        }
    }
}

/// `n` in decimal.
pub fn decimal_string(n: u64) -> (s: String)
    ensures
        s@ == decimal(n as nat),
{
    let mut out: Vec<char> = Vec::new();
    push_decimal(&mut out, n);
    assert(out@ =~= decimal(n as nat));
    string_of(&out)
}

/// `head` followed by `tail`.
pub fn concat(head: String, tail: &str) -> (s: String)
    ensures
        s@ == head@ + tail@,
{
    let mut s = head;
    s.append(tail);
    s
}

/// The upper-case hexadecimal digits of `n`, most significant first,
/// without leading zeros.
pub open spec fn hex_digits(n: nat) -> Seq<char>
    decreases n,
{
    if n < 16 {
        seq![hex_digit(n as int)]
    } else {
        hex_digits(n / 16).push(hex_digit((n % 16) as int))
    }
}

/// `n` in upper-case hexadecimal with at least two digits.
pub open spec fn hex_min2(n: nat) -> Seq<char> {
    if n < 16 {
        seq!['0', hex_digit(n as int)]
    } else {
        hex_digits(n)
    }
}

fn push_hex_digits(out: &mut Vec<char>, n: u16)
    ensures
        final(out)@ == old(out)@ + hex_digits(n as nat),
    decreases n,
{
    if n >= 16 {
        push_hex_digits(out, n / 16);
    }
    out.push(hex_digit_char((n % 16) as u8));
    assert(final(out)@ =~= old(out)@ + hex_digits(n as nat));
}

/// `n` in upper-case hexadecimal with at least two digits (see [`hex_min2`]).
pub fn hex_min2_string(n: u16) -> (s: String)
    ensures
        s@ == hex_min2(n as nat),
{
    let mut out: Vec<char> = Vec::new();
    if n < 16 {
        out.push('0');
        out.push(hex_digit_char(n as u8));
    } else {
        push_hex_digits(&mut out, n);
    }
    assert(out@ =~= hex_min2(n as nat));
    string_of(&out)
}

/// `head`, then `n` in hexadecimal with at least two digits, then `tail`.
pub fn with_hex(head: &str, n: u16, tail: &str) -> (s: String)
    ensures
        s@ == head@ + hex_min2(n as nat) + tail@,
{
    let mut s = String::from_str(head);
    let h = hex_min2_string(n);
    s.append(h.as_str());
    s.append(tail);
    assert(s@ =~= head@ + hex_min2(n as nat) + tail@);
    s
}

} // verus!
