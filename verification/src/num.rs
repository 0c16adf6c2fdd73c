//! Decimal text for integers: reading (`str::parse` for the integer types) and writing.
use vstd::prelude::*;

verus! {

/// An ASCII decimal digit.
pub open spec fn is_digit(c: char) -> bool {
    '0' <= c <= '9'
}

/// Every character of `s` is a decimal digit.
pub open spec fn all_digits(s: Seq<char>) -> bool {
    forall|i: int| 0 <= i < s.len() ==> is_digit(#[trigger] s[i])
}

/// The value of a run of decimal digits (0 for the empty run).
pub open spec fn digits_value(s: Seq<char>) -> int
    decreases s.len(),
{
    if s.len() == 0 {
        0
    } else {
        digits_value(s.drop_last()) * 10 + ((s.last() as u32) - 48)
    }
}

/// What `str::parse` gives for an integer type with range `lo..=hi`: an optional
/// `+` (or `-` when the type is signed) followed by at least one digit, and a value in range.
pub open spec fn parse_int(s: Seq<char>, signed: bool, lo: int, hi: int) -> Option<int> {
    if s.len() == 0 {
        None
    } else {
        let neg = signed && s[0] == '-';
        let has_sign = neg || s[0] == '+';
        let body = if has_sign {
            s.drop_first()
        } else {
            s
        };
        if body.len() == 0 || !all_digits(body) {
            None
        } else {
            let v = if neg {
                -digits_value(body)
            } else {
                digits_value(body)
            };
            if lo <= v <= hi {
                Some(v)
            } else {
                None
            }
        }
    }
}

/// `str::parse::<i32>`.
pub open spec fn parse_i32(s: Seq<char>) -> Option<int> {
    parse_int(s, true, i32::MIN as int, i32::MAX as int)
}

/// `str::parse::<u32>`.
pub open spec fn parse_u32(s: Seq<char>) -> Option<int> {
    parse_int(s, false, 0, u32::MAX as int)
}

/// `str::parse::<i64>`.
pub open spec fn parse_i64(s: Seq<char>) -> Option<int> {
    parse_int(s, true, i64::MIN as int, i64::MAX as int)
}

/// `str::parse::<u64>`.
pub open spec fn parse_u64(s: Seq<char>) -> Option<int> {
    parse_int(s, false, 0, u64::MAX as int)
}

/// The digit character for `d` (0..=9).
pub open spec fn digit_char(d: int) -> char {
    ((48 + d) as u32) as char
}

/// Decimal digits of `n`, most significant first, without leading zeros.
pub open spec fn dec(n: nat) -> Seq<char>
    decreases n,
{
    if n < 10 {
        seq![digit_char(n as int)]
    } else {
        dec(n / 10).push(digit_char((n % 10) as int))
    }
}

/// Decimal text of a signed integer, with `-` in front of negative values.
pub open spec fn dec_int(v: int) -> Seq<char> {
    if v < 0 {
        seq!['-'] + dec((-v) as nat)
    } else {
        dec(v as nat)
    }
}

proof fn lemma_digits_value_prefix(s: Seq<char>, k: int)
    requires
        0 <= k <= s.len(),
        all_digits(s),
    ensures
        0 <= digits_value(s.take(k)) <= digits_value(s),
    decreases s.len() - k,
{
    if k < s.len() {
        lemma_digits_value_prefix(s, k + 1);
        let t = s.take(k + 1);
        assert(t.drop_last() == s.take(k));
        assert(is_digit(s[k]));
        lemma_digits_value_nonneg(s.take(k));
    } else {
        assert(s.take(k) == s);
        lemma_digits_value_nonneg(s);
    }
}

pub(crate) proof fn lemma_digits_value_nonneg(s: Seq<char>)
    requires
        all_digits(s),
    ensures
        digits_value(s) >= 0,
    decreases s.len(),
{
    if s.len() > 0 {
        assert(is_digit(s[s.len() - 1]));
        assert forall|i: int| 0 <= i < s.drop_last().len() implies is_digit(
            #[trigger] s.drop_last()[i],
        ) by {
            assert(s.drop_last()[i] == s[i]);
        }
        lemma_digits_value_nonneg(s.drop_last());
    }
}

/// Reads an integer the way `str::parse` does for a type whose range is `lo..=hi`.
pub fn parse_int_chars(s: &[char], signed: bool, lo: i128, hi: i128) -> (r: Option<i128>)
    requires
        -0x8000_0000_0000_0000 <= lo <= hi <= 0xFFFF_FFFF_FFFF_FFFF,
    ensures
        r is Some <==> parse_int(s@, signed, lo as int, hi as int) is Some,
        r matches Some(v) ==> parse_int(s@, signed, lo as int, hi as int) == Some(v as int),
{
    if s.len() == 0 {
        return None;
    }
    let neg = signed && s[0] == '-';
    let has_sign = neg || s[0] == '+';
    let start: usize = if has_sign {
        1
    } else {
        0
    };
    let ghost body = if has_sign {
        s@.drop_first()
    } else {
        s@
    };
    assert(body == s@.subrange(start as int, s@.len() as int));
    if start >= s.len() {
        return None;
    }
    let mut acc: i128 = 0;
    let mut k: usize = start;
    let limit: i128 = 0x1_0000_0000_0000_0000;
    while k < s.len()
        invariant
            start <= k <= s@.len(),
            s@.len() > 0,
            neg == (signed && s@[0] == '-'),
            has_sign == (neg || s@[0] == '+'),
            body == (if has_sign {
                s@.drop_first()
            } else {
                s@
            }),
            body.len() > 0,
            -0x8000_0000_0000_0000 <= lo <= hi <= 0xFFFF_FFFF_FFFF_FFFF,
            body == s@.subrange(start as int, s@.len() as int),
            all_digits(body.take(k - start)),
            acc == digits_value(body.take(k - start)),
            0 <= acc <= limit,
            limit == 0x1_0000_0000_0000_0000,
        decreases s@.len() - k,
    {
        let c = s[k];
        if !('0' <= c && c <= '9') {
            assert(body[k - start] == c);
            assert(!is_digit(body[k - start]));
            return None;
        }
        let d = (c as u32 - 48) as i128;
        let ghost prev = body.take(k - start);
        let ghost next = body.take(k - start + 1);
        assert(next.drop_last() == prev);
        assert(next.last() == c);
        assert forall|i: int| 0 <= i < next.len() implies is_digit(#[trigger] next[i]) by {
            if i < prev.len() {
                assert(next[i] == prev[i]);
            }
        }
        if acc > (limit - d) / 10 {
            // The value already exceeds every bound that a caller may pass.
            proof {
                assert(digits_value(next) == acc * 10 + d);
                assert(digits_value(next) > limit) by (nonlinear_arith)
                    requires
                        acc > (limit - d) / 10,
                        0 <= d <= 9,
                        limit > 0,
                        digits_value(next) == acc * 10 + d,
                ;
            }
            let r = scan_rest_after_overflow(s, k + 1, start, Ghost(body), Ghost(next));
            assert(parse_int(s@, signed, lo as int, hi as int) is None);
            return r;
        }
        acc = acc * 10 + d;
        k = k + 1;
    }
    assert(body.take(k - start) == body);
    let v: i128 = if neg {
        -acc
    } else {
        acc
    };
    if lo <= v && v <= hi {
        Some(v)
    } else {
        None
    }
}

/// Finishes a parse whose digits so far already exceed every integer range:
/// the result is `None` whatever follows.
fn scan_rest_after_overflow(
    s: &[char],
    from: usize,
    start: usize,
    Ghost(body): Ghost<Seq<char>>,
    Ghost(prefix): Ghost<Seq<char>>,
) -> (r: Option<i128>)
    requires
        start <= from <= s@.len(),
        body == s@.subrange(start as int, s@.len() as int),
        prefix == body.take(from - start),
        all_digits(prefix),
        digits_value(prefix) > 0x1_0000_0000_0000_0000,
    ensures
        r is None,
        !all_digits(body) || digits_value(body) > 0x1_0000_0000_0000_0000,
{
    let mut k = from;
    while k < s.len()
        invariant
            start <= from <= k <= s@.len(),
            body == s@.subrange(start as int, s@.len() as int),
            prefix == body.take(from - start),
            all_digits(body.take(k - start)),
        decreases s@.len() - k,
    {
        let c = s[k];
        if !('0' <= c && c <= '9') {
            assert(body[k - start] == c);
            assert(!is_digit(body[k - start]));
            return None;
        }
        let ghost prev = body.take(k - start);
        let ghost next = body.take(k - start + 1);
        assert forall|i: int| 0 <= i < next.len() implies is_digit(#[trigger] next[i]) by {
            if i < prev.len() {
                assert(next[i] == prev[i]);
            }
        }
        k = k + 1;
    }
    proof {
        assert(body.take(k - start) == body);
        lemma_digits_value_prefix(body, from - start);
    }
    None
}

/// The character for digit `d`.
fn digit_of(d: u64) -> (c: char)
    requires
        d < 10,
    ensures
        c == digit_char(d as int),
{
    let b: u8 = (48 + d) as u8;
    let c = b as char;
    assert(c == digit_char(d as int)) by {
        assert(c as u32 == 48 + d);
    }
    c
}

/// Decimal digits of `n`.
pub fn fmt_u64(n: u64) -> (r: Vec<char>)
    ensures
        r@ == dec(n as nat),
    decreases n,
{
    if n < 10 {
        let mut v: Vec<char> = Vec::new();
        v.push(digit_of(n));
        assert(v@ == seq![digit_char(n as int)]);
        v
    } else {
        let mut v = fmt_u64(n / 10);
        v.push(digit_of(n % 10));
        v
    }
}

/// Decimal text of `v`, with `-` in front when negative.
pub fn fmt_i64(v: i64) -> (r: Vec<char>)
    ensures
        r@ == dec_int(v as int),
{
    if v < 0 {
        let m: u64 = (-(v as i128)) as u64;
        let digits = fmt_u64(m);
        let mut out: Vec<char> = Vec::new();
        out.push('-');
        let r = crate::text::concat(&out, &digits);
        assert(out@ == seq!['-']);
        r
    } else {
        fmt_u64(v as u64)
    }
}

} // verus!
