//! Parsing and printing of the plain values that configuration entries and
//! statement text are made of: decimal integers, hexadecimal integers, and
//! the boolean literals `true` / `false`.
//!
//! Parsing follows the standard library's integer grammar: an optional sign,
//! then one or more decimal digits, nothing else; any other text, and any
//! value out of range, falls through as `None`.

use vstd::prelude::*;

verus! {

/// Is `c` a decimal digit?
pub open spec fn is_dec_digit(c: char) -> bool {
    '0' <= c && c <= '9'
}

/// Numeric value of a decimal digit.
pub open spec fn dec_digit_val(c: char) -> nat {
    (c as nat - '0' as nat) as nat
}

/// Does `s` consist of decimal digits only?
pub open spec fn all_dec_digits(s: Seq<char>) -> bool {
    forall|i: int| 0 <= i < s.len() ==> is_dec_digit(#[trigger] s[i])
}

/// Value of a digit string, most significant digit first.
pub open spec fn dec_val(s: Seq<char>) -> nat
    decreases s.len(),
{
    if s.len() == 0 {
        0
    } else {
        dec_val(s.drop_last()) * 10 + dec_digit_val(s.last())
    }
}

/// `s` with one leading `+` removed, if it carries one.
pub open spec fn sign_stripped(s: Seq<char>) -> Seq<char> {
    if s.len() > 0 && s[0] == '+' {
        s.drop_first()
    } else {
        s
    }
}

/// The unsigned-integer grammar: an optional leading `+`, then one or more
/// decimal digits.  Yields the digits' value.
pub open spec fn parse_unsigned_spec(s: Seq<char>) -> Option<nat> {
    let t = sign_stripped(s);
    if t.len() > 0 && all_dec_digits(t) {
        Some(dec_val(t))
    } else {
        None
    }
}

/// What `str::parse::<u64>` accepts and returns.
pub open spec fn parse_u64_spec(s: Seq<char>) -> Option<u64> {
    match parse_unsigned_spec(s) {
        Some(v) => if v <= u64::MAX {
            Some(v as u64)
        } else {
            None
        },
        None => None,
    }
}

/// What `str::parse::<i32>` accepts and returns: an optional `+` or `-`,
/// then one or more decimal digits, value within `i32`'s range.
pub open spec fn parse_i32_spec(s: Seq<char>) -> Option<i32> {
    if s.len() > 0 && s[0] == '-' {
        let t = s.drop_first();
        if t.len() > 0 && all_dec_digits(t) && dec_val(t) <= 0x8000_0000 {
            Some((-(dec_val(t) as int)) as i32)
        } else {
            None
        }
    } else {
        match parse_unsigned_spec(s) {
            Some(v) => if v <= i32::MAX {
                Some(v as i32)
            } else {
                None
            },
            None => None,
        }
    }
}

/// What `str::parse::<bool>` accepts and returns: exactly `true` or `false`.
pub open spec fn parse_bool_spec(s: Seq<char>) -> Option<bool> {
    if s =~= seq!['t', 'r', 'u', 'e'] {
        Some(true)
    } else if s =~= seq!['f', 'a', 'l', 's', 'e'] {
        Some(false)
    } else {
        None
    }
}

/// A longer digit string never has a smaller value: the value of a prefix
/// bounds the value of the whole.
proof fn lemma_dec_val_prefix_le(s: Seq<char>, j: int)
    requires
        0 <= j <= s.len(),
    ensures
        dec_val(s.take(j)) <= dec_val(s),
    decreases s.len() - j,
{
    if j < s.len() {
        assert(s.take(j + 1).drop_last() =~= s.take(j));
        assert(dec_val(s.take(j)) <= dec_val(s.take(j + 1)));
        lemma_dec_val_prefix_le(s, j + 1);
    } else {
        assert(s.take(j) =~= s);
    }
}

/// Parses an unsigned decimal integer as `str::parse::<u64>` does.
pub fn parse_u64(s: &str) -> (r: Option<u64>)
    ensures
        r == parse_u64_spec(s@),
{
    let n = s.unicode_len();
    let offset: usize = if n > 0 && s.get_char(0) == '+' {
        1
    } else {
        0
    };
    let ghost t = sign_stripped(s@);
    proof {
        if offset == 0 {
            assert(t =~= s@.subrange(0, n as int));
        }
        assert(t =~= s@.subrange(offset as int, n as int));
    }
    if offset == n {
        return None;
    }
    let mut acc: u64 = 0;
    let mut i: usize = offset;
    while i < n
        invariant
            offset <= i <= n,
            n == s@.len(),
            t == sign_stripped(s@),
            t =~= s@.subrange(offset as int, n as int),
            all_dec_digits(t.take(i - offset)),
            acc == dec_val(t.take(i - offset)),
        decreases n - i,
    {
        let c = s.get_char(i);
        if c < '0' || c > '9' {
            proof {
                assert(t[i - offset] == s@[i as int]);
                assert(!is_dec_digit(t[i - offset]));
                assert(!all_dec_digits(t));
            }
            return None;
        }
        let d: u64 = (c as u32 - 48) as u64;
        assert(d == dec_digit_val(c)) by {
            assert('0' as u32 == 48);
        }
        if acc > (u64::MAX - d) / 10 {
            proof {
                let p = t.take(i - offset + 1);
                assert(p.drop_last() =~= t.take(i - offset));
                assert(dec_val(p) == acc * 10 + d);
                assert(acc >= (u64::MAX - d) / 10 + 1);
                assert(acc * 10 >= ((u64::MAX - d) / 10 + 1) * 10) by (nonlinear_arith)
                    requires
                        acc >= (u64::MAX - d) / 10 + 1,
                ;
                assert(((u64::MAX - d) / 10 + 1) * 10 == (u64::MAX - d) / 10 * 10 + 10);
                assert((u64::MAX - d) / 10 * 10 + 10 > u64::MAX - d);
                assert(dec_val(p) > u64::MAX);
                lemma_dec_val_prefix_le(t, i - offset + 1);
                assert(dec_val(t) > u64::MAX);
            }
            return None;
        }
        proof {
            let p = t.take(i - offset + 1);
            assert(p.drop_last() =~= t.take(i - offset));
            assert(acc <= (u64::MAX - d) / 10);
            assert(acc * 10 <= (u64::MAX - d) / 10 * 10) by (nonlinear_arith)
                requires
                    acc <= (u64::MAX - d) / 10,
            ;
            assert((u64::MAX - d) / 10 * 10 <= u64::MAX - d);
        }
        acc = acc * 10 + d;
        i = i + 1;
    }
    assert(t.take(n - offset) =~= t);
    Some(acc)
}

/// Parses a signed decimal integer as `str::parse::<i32>` does.
pub fn parse_i32(s: &str) -> (r: Option<i32>)
    ensures
        r == parse_i32_spec(s@),
{
    let n = s.unicode_len();
    if n > 0 && s.get_char(0) == '-' {
        let rest = s.substring_char(1, n);
        assert(rest@ =~= s@.drop_first());
        if n > 1 && s.get_char(1) == '+' {
            // A sign may not follow the sign.
            assert(!is_dec_digit(s@.drop_first()[0]));
            return None;
        }
        match parse_u64(rest) {
            Some(v) => {
                if v <= 0x8000_0000 {
                    proof {
                        assert(parse_unsigned_spec(rest@) == Some(dec_val(rest@)));
                    }
                    if v == 0x8000_0000 {
                        Some(i32::MIN)
                    } else {
                        Some(-(v as i32))
                    }
                } else {
                    None
                }
            },
            None => {
                proof {
                    let t = s@.drop_first();
                    if t.len() > 0 && all_dec_digits(t) && dec_val(t) <= 0x8000_0000 {
                        assert(parse_unsigned_spec(t) == Some(dec_val(t)));
                        assert(parse_u64_spec(t).is_some());
                    }
                }
                None
            },
        }
    } else {
        match parse_u64(s) {
            Some(v) => {
                if v <= i32::MAX as u64 {
                    Some(v as i32)
                } else {
                    None
                }
            },
            None => None,
        }
    }
}

/// Parses a boolean literal as `str::parse::<bool>` does.
pub fn parse_bool(s: &str) -> (r: Option<bool>)
    ensures
        r == parse_bool_spec(s@),
{
    let n = s.unicode_len();
    if n == 4 && s.get_char(0) == 't' && s.get_char(1) == 'r' && s.get_char(2) == 'u'
        && s.get_char(3) == 'e' {
        assert(s@ =~= seq!['t', 'r', 'u', 'e']);
        Some(true)
    } else if n == 5 && s.get_char(0) == 'f' && s.get_char(1) == 'a' && s.get_char(2) == 'l'
        && s.get_char(3) == 's' && s.get_char(4) == 'e' {
        assert(s@ =~= seq!['f', 'a', 'l', 's', 'e']);
        Some(false)
    } else {
        proof {
            if s@ =~= seq!['t', 'r', 'u', 'e'] || s@ =~= seq!['f', 'a', 'l', 's', 'e'] {
                assert(false);
            }
        }
        None
    }
}

/// Decimal digit character of a value below ten.
pub open spec fn dec_digit_char(d: nat) -> char {
    if d == 0 {
        '0'
    } else if d == 1 {
        '1'
    } else if d == 2 {
        '2'
    } else if d == 3 {
        '3'
    } else if d == 4 {
        '4'
    } else if d == 5 {
        '5'
    } else if d == 6 {
        '6'
    } else if d == 7 {
        '7'
    } else if d == 8 {
        '8'
    } else {
        '9'
    }
}

/// Decimal digit string of `n`, most significant digit first, no leading
/// zeros except for `0` itself.
pub open spec fn dec_str_of(n: nat) -> Seq<char>
    decreases n,
{
    if n < 10 {
        seq![dec_digit_char(n)]
    } else {
        dec_str_of(n / 10).push(dec_digit_char(n % 10))
    }
}

/// Decimal digit string of a signed value: a leading `-` for negatives.
pub open spec fn dec_str_of_i64(n: int) -> Seq<char> {
    if n >= 0 {
        dec_str_of(n as nat)
    } else {
        seq!['-'] + dec_str_of((-n) as nat)
    }
}

/// One-character string slice for a digit value.
fn dec_digit_str(d: u64) -> (r: &'static str)
    requires
        d < 10,
    ensures
        r@ =~= seq![dec_digit_char(d as nat)],
{
    proof {
        reveal_strlit("0");
        reveal_strlit("1");
        reveal_strlit("2");
        reveal_strlit("3");
        reveal_strlit("4");
        reveal_strlit("5");
        reveal_strlit("6");
        reveal_strlit("7");
        reveal_strlit("8");
        reveal_strlit("9");
    }
    match d {
        0 => "0",
        1 => "1",
        2 => "2",
        3 => "3",
        4 => "4",
        5 => "5",
        6 => "6",
        7 => "7",
        8 => "8",
        _ => "9",
    }
}

/// Prints `n` in decimal, as `u64`'s `Display` does.
pub fn u64_to_string(n: u64) -> (r: String)
    ensures
        r@ == dec_str_of(n as nat),
    decreases n,
{
    if n < 10 {
        String::from_str(dec_digit_str(n))
    } else {
        let prefix = u64_to_string(n / 10);
        let r = prefix.concat(dec_digit_str(n % 10));
        proof {
            assert(r@ =~= dec_str_of((n / 10) as nat).push(dec_digit_char((n % 10) as nat)));
        }
        r
    }
}

/// Prints `n` in decimal, as `i64`'s `Display` does.
pub fn i64_to_string(n: i64) -> (r: String)
    ensures
        r@ == dec_str_of_i64(n as int),
{
    if n >= 0 {
        u64_to_string(n as u64)
    } else {
        // Two's-complement magnitude, safe at `i64::MIN`.
        let magnitude: u64 = ((-(n + 1)) as u64) + 1;
        assert(magnitude == -(n as int));
        let digits = u64_to_string(magnitude);
        let r = String::from_str("-").concat(digits.as_str());
        proof {
            reveal_strlit("-");
            assert(r@ =~= seq!['-'] + dec_str_of((-(n as int)) as nat));
        }
        r
    }
}

/// Hexadecimal digit character of a value below sixteen, lower case.
pub open spec fn hex_digit_char(d: nat) -> char {
    if d < 10 {
        dec_digit_char(d)
    } else if d == 10 {
        'a'
    } else if d == 11 {
        'b'
    } else if d == 12 {
        'c'
    } else if d == 13 {
        'd'
    } else if d == 14 {
        'e'
    } else {
        'f'
    }
}

/// Lower-case hexadecimal digit string of `n`, most significant first.
pub open spec fn hex_str_of(n: nat) -> Seq<char>
    decreases n,
{
    if n < 16 {
        seq![hex_digit_char(n)]
    } else {
        hex_str_of(n / 16).push(hex_digit_char(n % 16))
    }
}

/// One-character string slice for a hexadecimal digit value.
fn hex_digit_str(d: u64) -> (r: &'static str)
    requires
        d < 16,
    ensures
        r@ =~= seq![hex_digit_char(d as nat)],
{
    if d < 10 {
        dec_digit_str(d)
    } else {
        proof {
            reveal_strlit("a");
            reveal_strlit("b");
            reveal_strlit("c");
            reveal_strlit("d");
            reveal_strlit("e");
            reveal_strlit("f");
        }
        match d {
            10 => "a",
            11 => "b",
            12 => "c",
            13 => "d",
            14 => "e",
            _ => "f",
        }
    }
}

/// Prints `n` in lower-case hexadecimal, as the `x` format of `u64` does.
pub fn u64_to_hex_string(n: u64) -> (r: String)
    ensures
        r@ == hex_str_of(n as nat),
    decreases n,
{
    if n < 16 {
        String::from_str(hex_digit_str(n))
    } else {
        let prefix = u64_to_hex_string(n / 16);
        let r = prefix.concat(hex_digit_str(n % 16));
        proof {
            assert(r@ =~= hex_str_of((n / 16) as nat).push(hex_digit_char((n % 16) as nat)));
        }
        r
    }
}

} // verus!
