//! Verified decimal parsing and rendering. Parsing follows the standard
//! integer grammar: an optional sign, then one or more ASCII digits, and
//! rejects anything else or any value out of range.

use vstd::prelude::*;

verus! {

/// `c` is an ASCII decimal digit.
pub open spec fn is_digit(c: char) -> bool {
    48 <= c as u32 <= 57
}

/// The numeric value of a digit character.
pub open spec fn digit_val(c: char) -> int {
    c as u32 - 48
}

/// Every character of `s` is an ASCII decimal digit.
pub open spec fn all_digits(s: Seq<char>) -> bool {
    forall|i: int| 0 <= i < s.len() ==> is_digit(s[i])
}

/// The value of a digit sequence read as a base-ten numeral.
pub open spec fn digits_val(s: Seq<char>) -> int
    decreases s.len(),
{
    if s.len() == 0 {
        0
    } else {
        digits_val(s.drop_last()) * 10 + digit_val(s.last())
    }
}

/// A digit sequence never denotes a negative value.
pub proof fn lemma_digits_val_nonneg(s: Seq<char>)
    requires
        all_digits(s),
    ensures
        digits_val(s) >= 0,
    decreases s.len(),
{
    if s.len() > 0 {
        assert(all_digits(s.drop_last()));
        lemma_digits_val_nonneg(s.drop_last());
    }
}

/// Extending a numeral with more digits can only increase its value.
pub proof fn lemma_digits_val_prefix_le(s: Seq<char>, k: int)
    requires
        all_digits(s),
        0 <= k <= s.len(),
    ensures
        digits_val(s.subrange(0, k)) <= digits_val(s),
    decreases s.len(),
{
    if k == s.len() {
        assert(s.subrange(0, k) =~= s);
    } else {
        assert(all_digits(s.drop_last()));
        assert(s.drop_last().subrange(0, k) =~= s.subrange(0, k));
        lemma_digits_val_prefix_le(s.drop_last(), k);
        lemma_digits_val_nonneg(s.drop_last());
    }
}

/// The digits of `s` after the optional leading sign.
pub open spec fn numeral_body(s: Seq<char>, minus_allowed: bool) -> Seq<char> {
    if s.len() > 0 && (s[0] == '+' || (minus_allowed && s[0] == '-')) {
        s.drop_first()
    } else {
        s
    }
}

/// Whether `s` starts with a minus sign.
pub open spec fn has_minus(s: Seq<char>) -> bool {
    s.len() > 0 && s[0] == '-'
}

/// What `str::parse::<u64>` returns on `s`: the numeral's value when the
/// body is one or more digits and the value fits in a `u64`.
pub open spec fn parse_u64_spec(s: Seq<char>) -> Option<u64> {
    let b = numeral_body(s, false);
    if b.len() > 0 && all_digits(b) && digits_val(b) <= u64::MAX {
        Some(digits_val(b) as u64)
    } else {
        None
    }
}

/// What `str::parse::<i32>` returns on `s`: the signed value when the
/// body is one or more digits and the value fits in an `i32`.
pub open spec fn parse_i32_spec(s: Seq<char>) -> Option<i32> {
    let b = numeral_body(s, true);
    let v = if has_minus(s) {
        -digits_val(b)
    } else {
        digits_val(b)
    };
    if b.len() > 0 && all_digits(b) && i32::MIN <= v <= i32::MAX {
        Some(v as i32)
    } else {
        None
    }
}

/// Parses an unsigned decimal numeral exactly as `str::parse::<u64>` does.
pub fn parse_u64(s: &str) -> (r: Option<u64>)
    ensures
        r == parse_u64_spec(s@),
{
    let n = s.unicode_len();
    let ghost b = numeral_body(s@, false);
    let start: usize = if n > 0 && s.get_char(0) == '+' {
        1
    } else {
        0
    };
    proof {
        assert(b.len() == n - start);
        assert(forall|j: int| 0 <= j < b.len() ==> b[j] == s@[j + start]);
    }
    if start == n {
        return None;
    }
    let mut acc: u64 = 0;
    let mut i: usize = start;
    while i < n
        invariant
            n == s@.len(),
            start <= i <= n,
            start <= 1,
            b == numeral_body(s@, false),
            b.len() == n - start,
            forall|j: int| 0 <= j < b.len() ==> b[j] == s@[j + start],
            forall|j: int| 0 <= j < i - start ==> is_digit(b[j]),
            acc == digits_val(b.subrange(0, i - start)),
        decreases n - i,
    {
        let c = s.get_char(i);
        let cp = c as u32;
        if cp < 48 || cp > 57 {
            proof {
                assert(b[i - start] == s@[i as int]);
                assert(!is_digit(b[i - start]));
            }
            return None;
        }
        let d = (cp - 48) as u64;
        proof {
            assert(b.subrange(0, i + 1 - start).drop_last() =~= b.subrange(0, i - start));
            assert(b.subrange(0, i + 1 - start).last() == s@[i as int]);
        }
        if acc > (u64::MAX - d) / 10 {
            proof {
                if all_digits(b) {
                    lemma_digits_val_prefix_le(b, i + 1 - start);
                }
            }
            return None;
        }
        acc = acc * 10 + d;
        i = i + 1;
    }
    proof {
        assert(b.subrange(0, n - start) =~= b);
    }
    Some(acc)
}

/// Parses a signed decimal numeral exactly as `str::parse::<i32>` does.
pub fn parse_i32(s: &str) -> (r: Option<i32>)
    ensures
        r == parse_i32_spec(s@),
{
    let n = s.unicode_len();
    let ghost b = numeral_body(s@, true);
    let mut neg = false;
    let mut start: usize = 0;
    if n > 0 {
        let c0 = s.get_char(0);
        if c0 == '+' {
            start = 1;
        } else if c0 == '-' {
            start = 1;
            neg = true;
        }
    }
    proof {
        assert(neg == has_minus(s@));
        assert(b.len() == n - start);
        assert(forall|j: int| 0 <= j < b.len() ==> b[j] == s@[j + start]);
    }
    if start == n {
        return None;
    }
    let limit: u32 = if neg {
        2147483648
    } else {
        2147483647
    };
    let mut acc: u32 = 0;
    let mut i: usize = start;
    while i < n
        invariant
            n == s@.len(),
            start <= i <= n,
            start <= 1,
            b == numeral_body(s@, true),
            neg == has_minus(s@),
            limit == if neg { 2147483648u32 } else { 2147483647u32 },
            b.len() == n - start,
            forall|j: int| 0 <= j < b.len() ==> b[j] == s@[j + start],
            forall|j: int| 0 <= j < i - start ==> is_digit(b[j]),
            acc == digits_val(b.subrange(0, i - start)),
            acc <= limit,
        decreases n - i,
    {
        let c = s.get_char(i);
        let cp = c as u32;
        if cp < 48 || cp > 57 {
            proof {
                assert(b[i - start] == s@[i as int]);
                assert(!is_digit(b[i - start]));
            }
            return None;
        }
        let d: u32 = cp - 48;
        proof {
            assert(b.subrange(0, i + 1 - start).drop_last() =~= b.subrange(0, i - start));
            assert(b.subrange(0, i + 1 - start).last() == s@[i as int]);
        }
        if acc > (limit - d) / 10 {
            proof {
                if all_digits(b) {
                    lemma_digits_val_prefix_le(b, i + 1 - start);
                }
            }
            return None;
        }
        acc = acc * 10 + d;
        i = i + 1;
    }
    proof {
        assert(b.subrange(0, n - start) =~= b);
    }
    if neg {
        if acc == 2147483648 {
            Some(i32::MIN)
        } else {
            Some(-(acc as i32))
        }
    } else {
        Some(acc as i32)
    }
}

/// What `str::parse::<i64>` returns on `s`: the signed value when the
/// body is one or more digits and the value fits in an `i64`.
pub open spec fn parse_i64_spec(s: Seq<char>) -> Option<i64> {
    let b = numeral_body(s, true);
    let v = if has_minus(s) {
        -digits_val(b)
    } else {
        digits_val(b)
    };
    if b.len() > 0 && all_digits(b) && i64::MIN <= v <= i64::MAX {
        Some(v as i64)
    } else {
        None
    }
}

/// Parses a signed decimal numeral exactly as `str::parse::<i64>` does.
pub fn parse_i64(s: &str) -> (r: Option<i64>)
    ensures
        r == parse_i64_spec(s@),
{
    let n = s.unicode_len();
    let ghost b = numeral_body(s@, true);
    let mut neg = false;
    let mut start: usize = 0;
    if n > 0 {
        let c0 = s.get_char(0);
        if c0 == '+' {
            start = 1;
        } else if c0 == '-' {
            start = 1;
            neg = true;
        }
    }
    proof {
        assert(neg == has_minus(s@));
        assert(b.len() == n - start);
        assert(forall|j: int| 0 <= j < b.len() ==> b[j] == s@[j + start]);
    }
    if start == n {
        return None;
    }
    let limit: u64 = if neg {
        9223372036854775808
    } else {
        9223372036854775807
    };
    let mut acc: u64 = 0;
    let mut i: usize = start;
    while i < n
        invariant
            n == s@.len(),
            start <= i <= n,
            start <= 1,
            b == numeral_body(s@, true),
            neg == has_minus(s@),
            limit == if neg { 9223372036854775808u64 } else { 9223372036854775807u64 },
            b.len() == n - start,
            forall|j: int| 0 <= j < b.len() ==> b[j] == s@[j + start],
            forall|j: int| 0 <= j < i - start ==> is_digit(b[j]),
            acc == digits_val(b.subrange(0, i - start)),
            acc <= limit,
        decreases n - i,
    {
        let c = s.get_char(i);
        let cp = c as u32;
        if cp < 48 || cp > 57 {
            proof {
                assert(b[i - start] == s@[i as int]);
                assert(!is_digit(b[i - start]));
            }
            return None;
        }
        let d: u64 = (cp - 48) as u64;
        proof {
            assert(b.subrange(0, i + 1 - start).drop_last() =~= b.subrange(0, i - start));
            assert(b.subrange(0, i + 1 - start).last() == s@[i as int]);
        }
        if acc > (limit - d) / 10 {
            proof {
                if all_digits(b) {
                    lemma_digits_val_prefix_le(b, i + 1 - start);
                }
            }
            return None;
        }
        acc = acc * 10 + d;
        i = i + 1;
    }
    proof {
        assert(b.subrange(0, n - start) =~= b);
    }
    if neg {
        if acc == 9223372036854775808 {
            Some(i64::MIN)
        } else {
            Some(-(acc as i64))
        }
    } else {
        Some(acc as i64)
    }
}

/// What `str::parse::<u16>` returns on `s`: the numeral's value when it
/// fits in a `u16`.
pub open spec fn parse_u16_spec(s: Seq<char>) -> Option<u16> {
    match parse_u64_spec(s) {
        Some(v) => if v <= u16::MAX {
            Some(v as u16)
        } else {
            None
        },
        None => None,
    }
}

/// Parses an unsigned decimal numeral exactly as `str::parse::<u16>` does.
pub fn parse_u16(s: &str) -> (r: Option<u16>)
    ensures
        r == parse_u16_spec(s@),
{
    match parse_u64(s) {
        Some(v) => if v <= 65535 {
            Some(v as u16)
        } else {
            None
        },
        None => None,
    }
}

/// The decimal numeral of a non-negative value.
pub open spec fn spec_udec(n: int) -> Seq<char>
    decreases n,
{
    if n < 10 {
        seq![(48 + if n >= 0 { n } else { 0 }) as char]
    } else {
        spec_udec(n / 10).push((48 + n % 10) as char)
    }
}

/// The decimal numeral of `n`, with a leading minus sign when negative.
pub open spec fn spec_dec_i64(n: int) -> Seq<char> {
    if n < 0 {
        seq!['-'] + spec_udec(-n)
    } else {
        spec_udec(n)
    }
}

/// A one-character string holding the digit `d`.
fn digit_str(d: u64) -> (r: &'static str)
    requires
        d < 10,
    ensures
        r@ =~= seq![(48 + d) as char],
{
    proof {
        reveal_strlit("0");
        reveal_strlit("1");
        reveal_strlit("2");
        reveal_strlit("3");
        reveal_strlit("4");
        reveal_strlit("5");
        reveal_strlit("6");
        reveal_strlit("7");
        reveal_strlit("8");
        reveal_strlit("9");
    }
    match d {
        0 => "0",
        1 => "1",
        2 => "2",
        3 => "3",
        4 => "4",
        5 => "5",
        6 => "6",
        7 => "7",
        8 => "8",
        _ => "9",
    }
}

/// Renders a non-negative value as a decimal numeral.
fn u64_to_dec(n: u64) -> (r: String)
    ensures
        r@ == spec_udec(n as int),
    decreases n,
{
    if n < 10 {
        let r = digit_str(n).to_owned();
        proof {
            assert(r@ =~= spec_udec(n as int));
        }
        r
    } else {
        let mut r = u64_to_dec(n / 10);
        r.append(digit_str(n % 10));
        proof {
            assert(r@ =~= spec_udec(n as int));
        }
        r
    }
}

/// Renders `n` as a decimal numeral, with a minus sign when negative.
pub fn i64_to_dec(n: i64) -> (r: String)
    ensures
        r@ == spec_dec_i64(n as int),
{
    if n >= 0 {
        u64_to_dec(n as u64)
    } else {
        let mut r = String::new();
        r.append("-");
        let m: u64 = if n == i64::MIN {
            9223372036854775808
        } else {
            (-n) as u64
        };
        r.append(u64_to_dec(m).as_str());
        proof {
            reveal_strlit("-");
            assert(r@ =~= spec_dec_i64(n as int));
        }
        r
    }
}

} // verus!
