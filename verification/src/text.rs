//! Rendering of bytes and numbers as text, and parsing of small numbers.

use vstd::prelude::*;

verus! {

/// The sixteen lower-case hexadecimal digits.
pub open spec fn hex_digits() -> Seq<char> {
    seq!['0', '1', '2', '3', '4', '5', '6', '7', '8', '9', 'a', 'b', 'c', 'd', 'e', 'f']
}

/// A byte as two lower-case hexadecimal digits.
pub open spec fn hex_byte(b: u8) -> Seq<char> {
    seq![hex_digits()[(b / 16) as int], hex_digits()[(b % 16) as int]]
}

/// Bytes as two-digit lower-case hexadecimal numbers separated by single spaces.
pub open spec fn hex_joined(bs: Seq<u8>) -> Seq<char>
    decreases bs.len(),
{
    if bs.len() == 0 {
        seq![]
    } else if bs.len() == 1 {
        hex_byte(bs[0])
    } else {
        hex_joined(bs.drop_last()) + seq![' '] + hex_byte(bs.last())
    }
}

proof fn lemma_hex_digit_code(d: int)
    requires
        0 <= d < 16,
    ensures
        hex_digits()[d] as int == if d < 10 {
            48 + d
        } else {
            87 + d
        },
{
    let h = hex_digits();
    if d == 0 {
        assert(h[0] == '0');
    } else if d == 1 {
        assert(h[1] == '1');
    } else if d == 2 {
        assert(h[2] == '2');
    } else if d == 3 {
        assert(h[3] == '3');
    } else if d == 4 {
        assert(h[4] == '4');
    } else if d == 5 {
        assert(h[5] == '5');
    } else if d == 6 {
        assert(h[6] == '6');
    } else if d == 7 {
        assert(h[7] == '7');
    } else if d == 8 {
        assert(h[8] == '8');
    } else if d == 9 {
        assert(h[9] == '9');
    } else if d == 10 {
        assert(h[10] == 'a');
    } else if d == 11 {
        assert(h[11] == 'b');
    } else if d == 12 {
        assert(h[12] == 'c');
    } else if d == 13 {
        assert(h[13] == 'd');
    } else if d == 14 {
        assert(h[14] == 'e');
    } else {
        assert(h[15] == 'f');
    }
}

/// Two bytes with the same two hexadecimal digits are the same byte.
pub proof fn lemma_hex_byte_injective(x: u8, y: u8)
    requires
        hex_byte(x) == hex_byte(y),
    ensures
        x == y,
{
    assert(hex_byte(x)[0] == hex_byte(y)[0]);
    assert(hex_byte(x)[1] == hex_byte(y)[1]);
    lemma_hex_digit_code((x / 16) as int);
    lemma_hex_digit_code((y / 16) as int);
    lemma_hex_digit_code((x % 16) as int);
    lemma_hex_digit_code((y % 16) as int);
}

/// `n` bytes give `3n - 1` characters (none for no bytes).
pub proof fn lemma_hex_joined_len(bs: Seq<u8>)
    ensures
        hex_joined(bs).len() == if bs.len() == 0 {
            0
        } else {
            3 * bs.len() - 1
        },
    decreases bs.len(),
{
    if bs.len() > 1 {
        lemma_hex_joined_len(bs.drop_last());
    }
}

/// The hexadecimal text of bytes determines the bytes: different byte
/// sequences never give the same text.
pub proof fn lemma_hex_injective(a: Seq<u8>, b: Seq<u8>)
    requires
        hex_joined(a) == hex_joined(b),
    ensures
        a == b,
    decreases a.len(),
{
    lemma_hex_joined_len(a);
    lemma_hex_joined_len(b);
    assert(a.len() == b.len());
    if a.len() == 1 {
        lemma_hex_byte_injective(a[0], b[0]);
        assert(a == b);
    } else if a.len() > 1 {
        let h = hex_joined(a);
        let n = h.len() as int;
        let ha = hex_joined(a.drop_last());
        let hb = hex_joined(b.drop_last());
        lemma_hex_joined_len(a.drop_last());
        lemma_hex_joined_len(b.drop_last());
        assert(h == ha + seq![' '] + hex_byte(a.last()));
        assert(h == hb + seq![' '] + hex_byte(b.last()));
        assert(h.subrange(n - 2, n) == hex_byte(a.last()));
        assert(h.subrange(n - 2, n) == hex_byte(b.last()));
        assert(h.take(n - 3) == ha);
        assert(h.take(n - 3) == hb);
        lemma_hex_byte_injective(a.last(), b.last());
        lemma_hex_injective(a.drop_last(), b.drop_last());
        assert(a == a.drop_last().push(a.last()));
        assert(b == b.drop_last().push(b.last()));
    }
}

/// The value of a hexadecimal digit (`0`-`9`, `a`-`f`).
pub open spec fn hex_value(c: char) -> int {
    if '0' <= c <= '9' {
        c as int - 48
    } else {
        c as int - 87
    }
}

/// The first digit of token `i` of a hexadecimal text.
pub open spec fn token_high(h: Seq<char>, i: int) -> char {
    h[3 * i]
}

/// The second digit of token `i` of a hexadecimal text.
pub open spec fn token_low(h: Seq<char>, i: int) -> char {
    h[3 * i + 1]
}

/// The character after token `i` of a hexadecimal text.
pub open spec fn token_separator(h: Seq<char>, i: int) -> char {
    h[3 * i + 2]
}

/// Reads back a hexadecimal text: token `i` is the two characters at `3i`
/// and `3i + 1`, read as a two-digit hexadecimal number.
pub open spec fn hex_decoded(h: Seq<char>) -> Seq<int> {
    Seq::new(
        ((h.len() + 1) / 3) as nat,
        |i: int| 16 * hex_value(token_high(h, i)) + hex_value(token_low(h, i)),
    )
}

proof fn lemma_hex_positions(b: Seq<u8>)
    ensures
        forall|i: int|
            0 <= i < b.len() ==> #[trigger] token_high(hex_joined(b), i) == hex_digits()[(b[i]
                / 16) as int] && token_low(hex_joined(b), i) == hex_digits()[(b[i] % 16) as int],
        forall|i: int| 0 <= i < b.len() - 1 ==> #[trigger] token_separator(hex_joined(b), i) == ' ',
    decreases b.len(),
{
    lemma_hex_joined_len(b);
    if b.len() > 1 {
        let p = b.drop_last();
        lemma_hex_positions(p);
        lemma_hex_joined_len(p);
        let hp = hex_joined(p);
        let h = hex_joined(b);
        assert(h == hp + seq![' '] + hex_byte(b.last()));
        assert forall|i: int| 0 <= i < b.len() implies #[trigger] token_high(hex_joined(b), i)
            == hex_digits()[(b[i] / 16) as int] && token_low(hex_joined(b), i) == hex_digits()[(b[i]
            % 16) as int] by {
            if i < b.len() - 1 {
                assert(b[i] == p[i]);
                assert(token_high(hp, i) == hex_digits()[(p[i] / 16) as int]);
                assert(h[3 * i] == hp[3 * i]);
                assert(h[3 * i + 1] == hp[3 * i + 1]);
            } else {
                assert(h[3 * i] == hex_byte(b.last())[0]);
                assert(h[3 * i + 1] == hex_byte(b.last())[1]);
            }
        }
        assert forall|i: int| 0 <= i < b.len() - 1 implies #[trigger] token_separator(
            hex_joined(b),
            i,
        ) == ' ' by {
            if i < b.len() - 2 {
                assert(token_separator(hp, i) == ' ');
                assert(h[3 * i + 2] == hp[3 * i + 2]);
            } else {
                assert(h[3 * i + 2] == seq![' '][0]);
            }
        }
    }
}

/// The hexadecimal text of bytes reads back to the bytes: it is made of
/// one token of two hexadecimal digits per byte, separated by single
/// spaces, and reading each token as a hexadecimal number gives back its
/// byte.
pub proof fn lemma_hex_reads_back(b: Seq<u8>)
    ensures
        hex_joined(b).len() + 1 == 3 * b.len() || b.len() == 0 && hex_joined(b).len() == 0,
        hex_decoded(hex_joined(b)) == b.map_values(|x: u8| x as int),
        forall|i: int|
            0 <= i < b.len() ==> hex_digits().contains(#[trigger] token_high(hex_joined(b), i))
                && hex_digits().contains(token_low(hex_joined(b), i)),
        forall|i: int| 0 <= i < b.len() - 1 ==> #[trigger] token_separator(hex_joined(b), i) == ' ',
{
    lemma_hex_positions(b);
    lemma_hex_joined_len(b);
    let h = hex_joined(b);
    assert forall|i: int| 0 <= i < b.len() implies hex_digits().contains(
        #[trigger] token_high(hex_joined(b), i),
    ) && hex_digits().contains(token_low(hex_joined(b), i)) && 16 * hex_value(token_high(h, i))
        + hex_value(token_low(h, i)) == b[i] as int by {
        let hi = (b[i] / 16) as int;
        let lo = (b[i] % 16) as int;
        lemma_hex_digit_code(hi);
        lemma_hex_digit_code(lo);
        assert(hex_digits()[hi] == token_high(h, i));
        assert(hex_digits()[lo] == token_low(h, i));
    }
    assert(hex_decoded(h) =~= b.map_values(|x: u8| x as int));
}

/// A natural number in decimal notation, without leading zeros.
pub open spec fn decimal(n: nat) -> Seq<char>
    decreases n,
{
    if n < 10 {
        seq![hex_digits()[n as int]]
    } else {
        decimal(n / 10) + seq![hex_digits()[(n % 10) as int]]
    }
}

/// The text of one digit `d < 16`.
fn digit_str(d: u8) -> (s: &'static str)
    requires
        d < 16,
    ensures
        s@ == seq![hex_digits()[d as int]],
{
    match d {
        0 => {
            proof {
                reveal_strlit("0");
            }
            "0"
        },
        1 => {
            proof {
                reveal_strlit("1");
            }
            "1"
        },
        2 => {
            proof {
                reveal_strlit("2");
            }
            "2"
        },
        3 => {
            proof {
                reveal_strlit("3");
            }
            "3"
        },
        4 => {
            proof {
                reveal_strlit("4");
            }
            "4"
        },
        5 => {
            proof {
                reveal_strlit("5");
            }
            "5"
        },
        6 => {
            proof {
                reveal_strlit("6");
            }
            "6"
        },
        7 => {
            proof {
                reveal_strlit("7");
            }
            "7"
        },
        8 => {
            proof {
                reveal_strlit("8");
            }
            "8"
        },
        9 => {
            proof {
                reveal_strlit("9");
            }
            "9"
        },
        10 => {
            proof {
                reveal_strlit("a");
            }
            "a"
        },
        11 => {
            proof {
                reveal_strlit("b");
            }
            "b"
        },
        12 => {
            proof {
                reveal_strlit("c");
            }
            "c"
        },
        13 => {
            proof {
                reveal_strlit("d");
            }
            "d"
        },
        14 => {
            proof {
                reveal_strlit("e");
            }
            "e"
        },
        _ => {
            proof {
                reveal_strlit("f");
            }
            "f"
        },
    }
}

/// Appends a byte as two lower-case hexadecimal digits.
pub fn push_hex_byte(s: &mut String, b: u8)
    ensures
        final(s)@ == old(s)@ + hex_byte(b),
{
    s.append(digit_str(b / 16));
    s.append(digit_str(b % 16));
}

/// Bytes as two-digit lower-case hexadecimal numbers separated by spaces,
/// e.g. `[0x10, 0xff]` gives `"10 ff"`.
pub fn hex(b: &[u8]) -> (res: String)
    ensures
        res@ == hex_joined(b@),
{
    let mut res = String::new();
    let n = b.len();
    for i in 0..n
        invariant
            n == b@.len(),
            res@ == hex_joined(b@.take(i as int)),
    {
        assert(b@.take(i + 1).drop_last() == b@.take(i as int));
        if i > 0 {
            proof {
                reveal_strlit(" ");
            }
            res.append(" ");
        }
        push_hex_byte(&mut res, b[i]);
    }
    assert(b@.take(n as int) == b@);
    res
}

/// Appends a number in decimal notation.
pub fn push_decimal(s: &mut String, n: u32)
    ensures
        final(s)@ == old(s)@ + decimal(n as nat),
    decreases n,
{
    if n >= 10 {
        push_decimal(s, n / 10);
    }
    s.append(digit_str((n % 10) as u8));
    proof {
        if n >= 10 {
            assert(old(s)@ + decimal(n as nat) == old(s)@ + decimal((n / 10) as nat) + seq![
                hex_digits()[(n % 10) as int],
            ]);
        }
    }
}

pub open spec fn is_digit_char(c: char) -> bool {
    '0' <= c <= '9'
}

/// The value of a sequence of decimal digits.
pub open spec fn digits_value(s: Seq<char>) -> nat
    decreases s.len(),
{
    if s.len() == 0 {
        0
    } else {
        digits_value(s.drop_last()) * 10 + (s.last() as int - 48) as nat
    }
}

/// The digits of an unsigned number: what follows an optional leading `+`.
pub open spec fn unsigned_digits(s: Seq<char>) -> Seq<char> {
    if s.len() > 0 && s[0] == '+' {
        s.drop_first()
    } else {
        s
    }
}

/// What `str::parse::<u8>` gives for a text: an optional `+`, then at
/// least one decimal digit, the value at most 255.
pub open spec fn parsed_u8(s: Seq<char>) -> Option<u8> {
    let d = unsigned_digits(s);
    if d.len() > 0 && (forall|i: int| 0 <= i < d.len() ==> is_digit_char(#[trigger] d[i]))
        && digits_value(d) <= 255 {
        Some(digits_value(d) as u8)
    } else {
        None
    }
}

proof fn lemma_digits_value_grows(d: Seq<char>, j: int)
    requires
        0 <= j <= d.len(),
        forall|i: int| 0 <= i < d.len() ==> is_digit_char(#[trigger] d[i]),
    ensures
        digits_value(d) >= digits_value(d.take(j)),
    decreases d.len(),
{
    if j < d.len() {
        assert(d.drop_last().take(j) == d.take(j));
        lemma_digits_value_grows(d.drop_last(), j);
    } else {
        assert(d.take(j) == d);
    }
}

/// A text that parses as a `u8` is all ASCII.
proof fn lemma_parsed_is_ascii(s: Seq<char>)
    requires
        parsed_u8(s) is Some,
    ensures
        vstd::utf8::is_ascii_chars(s),
{
    let d = unsigned_digits(s);
    assert forall|i: int| 0 <= i < s.len() implies '\0' <= #[trigger] s[i] <= '\u{7f}' by {
        if s.len() > 0 && s[0] == '+' {
            if i > 0 {
                assert(s[i] == d[i - 1]);
            }
        } else {
            assert(s[i] == d[i]);
        }
    }
}

/// Parses a `u8` the way `str::parse::<u8>` does.
pub fn parse_u8(s: &str) -> (r: Option<u8>)
    ensures
        r == parsed_u8(s@),
{
    if !s.is_ascii() {
        proof {
            if parsed_u8(s@) is Some {
                lemma_parsed_is_ascii(s@);
            }
        }
        return None;
    }
    let bytes = s.as_bytes();
    proof {
        vstd::utf8::is_ascii_chars_encode_utf8(s@);
    }
    let len = bytes.len();
    let ghost chars = s@;
    assert(len == chars.len());
    let mut start: usize = 0;
    if len > 0 && bytes[0] == 43 {
        assert(chars[0] as u8 == 43);
        start = 1;
    }
    let ghost d = unsigned_digits(chars);
    assert(d == chars.subrange(start as int, len as int));
    if start >= len {
        return None;
    }
    let mut acc: u32 = 0;
    let mut i: usize = start;
    while i < len
        invariant
            start <= i <= len,
            len == chars.len(),
            len == bytes@.len(),
            chars == s@,
            forall|k: int| 0 <= k < chars.len() ==> #[trigger] chars[k] as u8 == bytes@[k],
            vstd::utf8::is_ascii_chars(chars),
            d == unsigned_digits(chars),
            d == chars.subrange(start as int, len as int),
            acc as nat == digits_value(d.take(i - start)),
            acc <= 255,
            forall|k: int| 0 <= k < i - start ==> is_digit_char(#[trigger] d[k]),
        decreases len - i,
    {
        let c = bytes[i];
        let ghost k: int = i - start;
        assert(d[k] == chars[i as int]);
        assert(c == chars[i as int] as u8);
        assert('\0' <= chars[i as int] <= '\u{7f}');
        if c < 48 || c > 57 {
            assert(!is_digit_char(d[k]));
            return None;
        }
        assert(d[k] as int == c as int);
        assert(d.take(k + 1).drop_last() == d.take(k));
        assert(d.take(k + 1).last() == d[k]);
        assert(digits_value(d.take(k + 1)) == digits_value(d.take(k)) * 10 + (c - 48) as nat);
        acc = acc * 10 + (c - 48) as u32;
        i = i + 1;
        if acc > 255 {
            proof {
                if forall|m: int| 0 <= m < d.len() ==> is_digit_char(#[trigger] d[m]) {
                    lemma_digits_value_grows(d, k + 1);
                }
            }
            return None;
        }
    }
    assert(d.take(len - start) == d);
    Some(acc as u8)
}


proof fn lemma_decimal_digits(n: nat)
    ensures
        decimal(n).len() > 0,
        forall|i: int| 0 <= i < decimal(n).len() ==> is_digit_char(#[trigger] decimal(n)[i]),
        digits_value(decimal(n)) == n,
    decreases n,
{
    lemma_hex_digit_code((n % 10) as int);
    if n < 10 {
        let d = decimal(n);
        assert(d.drop_last() == Seq::<char>::empty());
        assert(d.last() == hex_digits()[n as int]);
        assert(digits_value(Seq::<char>::empty()) == 0);
        assert(digits_value(d) == digits_value(d.drop_last()) * 10 + (d.last() as int - 48) as nat);
    } else {
        lemma_decimal_digits(n / 10);
        let p = decimal(n / 10);
        let c = hex_digits()[(n % 10) as int];
        let d = decimal(n);
        assert(d == p + seq![c]);
        assert(d.drop_last() == p);
        assert(d.last() == c);
        assert(c as int - 48 == n % 10);
        assert(digits_value(d) == digits_value(p) * 10 + (c as int - 48) as nat);
        assert((n / 10) * 10 + n % 10 == n);
        assert forall|i: int| 0 <= i < d.len() implies is_digit_char(#[trigger] d[i]) by {
            if i < p.len() {
                assert(d[i] == p[i]);
            }
        }
    }
}

/// Decimal text reads back: every number up to 255 written in decimal
/// parses back to itself, with or without a leading `+`; larger numbers do
/// not parse as a `u8`.
pub proof fn lemma_decimal_parses_back(n: nat)
    ensures
        n <= 255 ==> parsed_u8(decimal(n)) == Some(n as u8),
        n <= 255 ==> parsed_u8(seq!['+'] + decimal(n)) == Some(n as u8),
        n > 255 ==> parsed_u8(decimal(n)) is None,
{
    lemma_decimal_digits(n);
    let d = decimal(n);
    assert(d[0] != '+') by {
        assert(is_digit_char(d[0]));
    }
    assert(unsigned_digits(d) == d);
    let plus = seq!['+'] + d;
    assert(plus[0] == '+');
    assert(plus.drop_first() == d);
    assert(unsigned_digits(plus) == d);
}

} // verus!
