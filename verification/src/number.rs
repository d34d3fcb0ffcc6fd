//! Numbers as text: decimal and hexadecimal digits, written and read as the
//! standard library writes and reads them.

use vstd::prelude::*;

verus! {

/// The character of the digit `d` in upper-case hexadecimal.
pub open spec fn upper_digit(d: int) -> char {
    if d == 0 {
        '0'
    } else if d == 1 {
        '1'
    } else if d == 2 {
        '2'
    } else if d == 3 {
        '3'
    } else if d == 4 {
        '4'
    } else if d == 5 {
        '5'
    } else if d == 6 {
        '6'
    } else if d == 7 {
        '7'
    } else if d == 8 {
        '8'
    } else if d == 9 {
        '9'
    } else if d == 10 {
        'A'
    } else if d == 11 {
        'B'
    } else if d == 12 {
        'C'
    } else if d == 13 {
        'D'
    } else if d == 14 {
        'E'
    } else {
        'F'
    }
}

/// The character of the digit `d` in lower-case hexadecimal.
pub open spec fn lower_digit(d: int) -> char {
    if d < 10 {
        upper_digit(d)
    } else if d == 10 {
        'a'
    } else if d == 11 {
        'b'
    } else if d == 12 {
        'c'
    } else if d == 13 {
        'd'
    } else if d == 14 {
        'e'
    } else {
        'f'
    }
}

/// The value of `c` as a digit of the given radix, if it is one.
pub open spec fn digit_value(c: char, radix: int) -> Option<int> {
    let n = c as u32 as int;
    let v = if 48 <= n <= 57 {
        n - 48
    } else if 97 <= n <= 102 {
        n - 87
    } else if 65 <= n <= 70 {
        n - 55
    } else {
        radix
    };
    if v < radix {
        Some(v)
    } else {
        None
    }
}

/// Every character of `s` is a digit of the radix.
pub open spec fn all_digits(s: Seq<char>, radix: int) -> bool {
    forall|i: int| 0 <= i < s.len() ==> (#[trigger] digit_value(s[i], radix)) is Some
}

/// The number that the digits `s` write in the radix.
pub open spec fn digits_value(s: Seq<char>, radix: int) -> int
    decreases s.len(),
{
    if s.len() == 0 {
        0
    } else {
        digits_value(s.drop_last(), radix) * radix + digit_value(s.last(), radix).unwrap()
    }
}

/// What `from_str_radix` reads from `s`, before any check of the range: an
/// optional `+`, for a signed type an optional `-`, then at least one digit
/// and nothing else.
pub open spec fn parsed(s: Seq<char>, radix: int, signed: bool) -> Option<int> {
    let minus = signed && s.len() > 0 && s[0] == '-';
    let plus = s.len() > 0 && s[0] == '+';
    let body = if minus || plus {
        s.subrange(1, s.len() as int)
    } else {
        s
    };
    if body.len() == 0 || !all_digits(body, radix) {
        None
    } else if minus {
        Some(-digits_value(body, radix))
    } else {
        Some(digits_value(body, radix))
    }
}

/// What `from_str_radix` returns for a type that holds `lo..=hi`: the
/// number read, if it is in that range.
pub open spec fn parsed_within(s: Seq<char>, radix: int, signed: bool, lo: int, hi: int) -> Option<
    int,
> {
    match parsed(s, radix, signed) {
        Some(v) => if lo <= v <= hi {
            Some(v)
        } else {
            None
        },
        None => None,
    }
}

/// The decimal digits of `n`, without leading zeros.
pub open spec fn decimal_digits(n: nat) -> Seq<char>
    decreases n,
{
    if n < 10 {
        seq![upper_digit(n as int)]
    } else {
        decimal_digits(n / 10).push(upper_digit((n % 10) as int))
    }
}

/// The decimal text of `v`, with `-` in front of a negative number.
pub open spec fn signed_decimal(v: int) -> Seq<char> {
    if v < 0 {
        seq!['-'] + decimal_digits((-v) as nat)
    } else {
        decimal_digits(v as nat)
    }
}

/// Two upper-case hexadecimal digits for a byte.
pub open spec fn upper_hex_byte(b: u8) -> Seq<char> {
    seq![upper_digit(b as int / 16), upper_digit(b as int % 16)]
}

/// Two lower-case hexadecimal digits for a byte.
pub open spec fn lower_hex_byte(b: u8) -> Seq<char> {
    seq![lower_digit(b as int / 16), lower_digit(b as int % 16)]
}

/// The lower-case hexadecimal text of `bytes`, two digits for each.
pub open spec fn lower_hex(bytes: Seq<u8>) -> Seq<char>
    decreases bytes.len(),
{
    if bytes.len() == 0 {
        Seq::<char>::empty()
    } else {
        lower_hex(bytes.drop_last()) + lower_hex_byte(bytes.last())
    }
}

/// The upper-case character of a hexadecimal digit.
pub fn upper_digit_char(d: u8) -> (c: char)
    requires
        d < 16,
    ensures
        c == upper_digit(d as int),
{
    match d {
        0 => '0',
        1 => '1',
        2 => '2',
        3 => '3',
        4 => '4',
        5 => '5',
        6 => '6',
        7 => '7',
        8 => '8',
        9 => '9',
        10 => 'A',
        11 => 'B',
        12 => 'C',
        13 => 'D',
        14 => 'E',
        _ => 'F',
    }
}

/// The lower-case character of a hexadecimal digit.
pub fn lower_digit_char(d: u8) -> (c: char)
    requires
        d < 16,
    ensures
        c == lower_digit(d as int),
{
    match d {
        10 => 'a',
        11 => 'b',
        12 => 'c',
        13 => 'd',
        14 => 'e',
        15 => 'f',
        _ => upper_digit_char(d),
    }
}

/// The value of `c` as a digit of the radix, if it is one.
pub fn digit_of(c: char, radix: u8) -> (r: Option<u8>)
    requires
        radix <= 16,
    ensures
        match r {
            Some(v) => digit_value(c, radix as int) == Some(v as int) && v < radix,
            None => digit_value(c, radix as int) is None,
        },
{
    let n: u32 = c as u32;
    let v: u32 = if 48 <= n && n <= 57 {
        n - 48
    } else if 97 <= n && n <= 102 {
        n - 87
    } else if 65 <= n && n <= 70 {
        n - 55
    } else {
        radix as u32
    };
    if v < radix as u32 {
        Some(v as u8)
    } else {
        None
    }
}

/// The decimal text of `n`.
pub fn decimal_text(n: u64) -> (r: Vec<char>)
    ensures
        r@ == decimal_digits(n as nat),
    decreases n,
{
    if n < 10 {
        let mut r: Vec<char> = Vec::new();
        r.push(upper_digit_char(n as u8));
        r
    } else {
        let mut r = decimal_text(n / 10);
        r.push(upper_digit_char((n % 10) as u8));
        r
    }
}

/// The decimal text of `v`, with its sign.
pub fn signed_decimal_text(v: i64) -> (r: Vec<char>)
    ensures
        r@ == signed_decimal(v as int),
{
    if v < 0 {
        let magnitude: u64 = ((-(v + 1)) as u64) + 1;
        let mut r: Vec<char> = Vec::new();
        r.push('-');
        let digits = decimal_text(magnitude);
        crate::text::append(&mut r, &digits);
        r
    } else {
        decimal_text(v as u64)
    }
}

/// Two upper-case hexadecimal digits for `b`, appended to `out`.
pub fn push_upper_hex_byte(out: &mut Vec<char>, b: u8)
    ensures
        final(out)@ == old(out)@ + upper_hex_byte(b),
{
    out.push(upper_digit_char(b / 16));
    out.push(upper_digit_char(b % 16));
}

/// The lower-case hexadecimal text of `bytes`.
pub fn lower_hex_text(bytes: &Vec<u8>) -> (r: Vec<char>)
    ensures
        r@ == lower_hex(bytes@),
{
    let mut r: Vec<char> = Vec::new();
    let mut i: usize = 0;
    while i < bytes.len()
        invariant
            i <= bytes.len(),
            r@ == lower_hex(bytes@.subrange(0, i as int)),
        decreases bytes.len() - i,
    {
        let b = bytes[i];
        proof {
            let next = bytes@.subrange(0, i + 1);
            assert(next.drop_last() == bytes@.subrange(0, i as int));
            assert(next.last() == b);
        }
        let ghost before = r@;
        r.push(lower_digit_char(b / 16));
        r.push(lower_digit_char(b % 16));
        proof {
            assert(r@ == before + lower_hex_byte(b));
        }
        i += 1;
    }
    proof {
        assert(bytes@.subrange(0, bytes.len() as int) == bytes@);
    }
    r
}

/// A number written in digits is not negative.
pub proof fn lemma_digits_value_nonnegative(s: Seq<char>, radix: int)
    requires
        1 <= radix <= 16,
        all_digits(s, radix),
    ensures
        0 <= digits_value(s, radix),
    decreases s.len(),
{
    if s.len() > 0 {
        let t = s.drop_last();
        assert forall|i: int| 0 <= i < t.len() implies (#[trigger] digit_value(t[i], radix)) is Some by {
            assert(t[i] == s[i]);
        }
        lemma_digits_value_nonnegative(t, radix);
        assert(digit_value(s.last(), radix) is Some);
        assert(digits_value(t, radix) * radix >= 0) by (nonlinear_arith)
            requires
                digits_value(t, radix) >= 0,
                radix >= 1,
        ;
    }
}

/// The number that `s[start..]` writes in digits of the radix, if it has
/// nothing but digits, at least one, and the number is at most `max`.
pub fn read_digits(s: &Vec<char>, start: usize, radix: u8, max: u64) -> (r: Option<u64>)
    requires
        start <= s.len(),
        radix == 10 || radix == 16,
    ensures
        ({
            let body = s@.subrange(start as int, s.len() as int);
            match r {
                Some(v) => body.len() > 0 && all_digits(body, radix as int) && digits_value(
                    body,
                    radix as int,
                ) == v && v <= max,
                None => body.len() == 0 || !all_digits(body, radix as int) || digits_value(
                    body,
                    radix as int,
                ) > max,
            }
        }),
{
    let ghost body = s@.subrange(start as int, s.len() as int);
    if start == s.len() {
        return None;
    }
    let mut acc: u64 = 0;
    let mut over: bool = false;
    let mut i: usize = start;
    while i < s.len()
        invariant
            start <= i <= s.len(),
            radix == 10 || radix == 16,
            body == s@.subrange(start as int, s.len() as int),
            all_digits(body.subrange(0, i - start), radix as int),
            !over ==> acc == digits_value(body.subrange(0, i - start), radix as int),
            !over ==> acc <= max,
            over ==> digits_value(body.subrange(0, i - start), radix as int) > max,
        decreases s.len() - i,
    {
        let ghost head = body.subrange(0, i - start);
        let ghost next = body.subrange(0, i - start + 1);
        proof {
            assert(next.drop_last() == head);
            assert(next.last() == s@[i as int]);
        }
        match digit_of(s[i], radix) {
            None => {
                proof {
                    assert(body[i - start] == s@[i as int]);
                }
                return None;
            },
            Some(d) => {
                proof {
                    assert forall|k: int| 0 <= k < next.len() implies (#[trigger] digit_value(
                        next[k],
                        radix as int,
                    )) is Some by {
                        if k < head.len() {
                            assert(next[k] == head[k]);
                        }
                    }
                    lemma_digits_value_nonnegative(head, radix as int);
                }
                if !over {
                    assert(acc as int * radix as int <= 0xffff_ffff_ffff_ffff * 16)
                        by (nonlinear_arith)
                        requires
                            0 <= acc as int <= 0xffff_ffff_ffff_ffff,
                            0 <= radix as int <= 16,
                    ;
                    let wide: u128 = acc as u128 * radix as u128 + d as u128;
                    if wide > max as u128 {
                        over = true;
                    } else {
                        acc = wide as u64;
                    }
                } else {
                    proof {
                        let v = digits_value(head, radix as int);
                        assert(v * radix as int >= v) by (nonlinear_arith)
                            requires
                                v >= 0,
                                radix >= 1,
                        ;
                    }
                }
            },
        }
        i += 1;
    }
    proof {
        assert(body.subrange(0, s.len() - start) == body);
    }
    if over {
        None
    } else {
        Some(acc)
    }
}

/// What `from_str_radix` returns for `s` and a type that holds
/// `-below..=above`.
pub fn read_number(s: &Vec<char>, radix: u8, signed: bool, below: u64, above: u64) -> (r: Option<
    (bool, u64),
>)
    requires
        radix == 10 || radix == 16,
    ensures
        match r {
            Some((negative, magnitude)) => parsed_within(
                s@,
                radix as int,
                signed,
                -(below as int),
                above as int,
            ) == Some(
                if negative {
                    -(magnitude as int)
                } else {
                    magnitude as int
                },
            ) && (negative ==> signed),
            None => parsed_within(s@, radix as int, signed, -(below as int), above as int) is None,
        },
{
    let minus = signed && s.len() > 0 && s[0] == '-';
    let plus = s.len() > 0 && s[0] == '+';
    let start: usize = if minus || plus {
        1
    } else {
        0
    };
    let ghost body = s@.subrange(start as int, s.len() as int);
    proof {
        if start == 0 {
            assert(body == s@);
        }
        if all_digits(body, radix as int) {
            lemma_digits_value_nonnegative(body, radix as int);
        }
    }
    if minus {
        match read_digits(s, start, radix, below) {
            Some(v) => Some((true, v)),
            None => None,
        }
    } else {
        match read_digits(s, start, radix, above) {
            Some(v) => Some((false, v)),
            None => None,
        }
    }
}

} // verus!
