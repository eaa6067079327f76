use vstd::prelude::*;

verus! {

pub open spec fn is_digit(c: char) -> bool {
    '0' <= c && c <= '9'
}

pub open spec fn all_digits(s: Seq<char>) -> bool {
    forall|i: int| 0 <= i < s.len() ==> is_digit(#[trigger] s[i])
}

/// The value of a run of decimal digits.
pub open spec fn digits_value(s: Seq<char>) -> int
    decreases s.len(),
{
    if s.len() == 0 {
        0
    } else {
        digits_value(s.drop_last()) * 10 + (s.last() as u32 - '0' as u32)
    }
}

/// What follows an optional leading `+`.
pub open spec fn unsigned_body(s: Seq<char>) -> Seq<char> {
    if s.len() > 0 && s[0] == '+' {
        s.drop_first()
    } else {
        s
    }
}

/// A decimal byte as `u8::from_str` reads it: an optional `+`, then at least
/// one digit, worth at most 255.
pub open spec fn parse_u8(s: Seq<char>) -> Option<u8> {
    let body = unsigned_body(s);
    if body.len() > 0 && all_digits(body) && digits_value(body) <= 255 {
        Some(digits_value(body) as u8)
    } else {
        None
    }
}

pub open spec fn is_negative(s: Seq<char>) -> bool {
    s.len() > 0 && s[0] == '-'
}

/// What follows an optional leading sign.
pub open spec fn signed_body(s: Seq<char>) -> Seq<char> {
    if s.len() > 0 && (s[0] == '+' || s[0] == '-') {
        s.drop_first()
    } else {
        s
    }
}

/// A decimal `i32` as `i32::from_str` reads it: an optional sign, then at
/// least one digit, within the type's range.
pub open spec fn parse_i32(s: Seq<char>) -> Option<i32> {
    let body = signed_body(s);
    let v = if is_negative(s) {
        -digits_value(body)
    } else {
        digits_value(body)
    };
    if body.len() > 0 && all_digits(body) && i32::MIN <= v <= i32::MAX {
        Some(v as i32)
    } else {
        None
    }
}

/// Past this, a value is too large for any type read here.
pub const DIGITS_CAP: u64 = 4294967296;

pub fn chars_of(s: &str) -> (r: Vec<char>)
    ensures
        r@ == s@,
{
    let n = s.unicode_len();
    let mut r: Vec<char> = Vec::new();
    let mut i: usize = 0;
    while i < n
        invariant
            i <= n,
            n == s@.len(),
            r@ == s@.subrange(0, i as int),
        decreases n - i,
    {
        r.push(s.get_char(i));
        i = i + 1;
        assert(r@ =~= s@.subrange(0, i as int));
    }
    assert(s@.subrange(0, n as int) =~= s@);
    r
}

/// The value of the digits of `w` from `start` on, capped at `DIGITS_CAP`;
/// `None` where one of them is no digit.
fn read_digits(w: &Vec<char>, start: usize) -> (r: Option<u64>)
    requires
        start <= w@.len(),
    ensures
        r is Some <==> all_digits(w@.subrange(start as int, w@.len() as int)),
        r is Some ==> r->0 as int == if digits_value(w@.subrange(start as int, w@.len() as int))
            <= DIGITS_CAP {
            digits_value(w@.subrange(start as int, w@.len() as int))
        } else {
            DIGITS_CAP as int
        },
{
    let n = w.len();
    let mut value: u64 = 0;
    let mut i: usize = start;
    while i < n
        invariant
            start <= i <= n,
            n == w@.len(),
            forall|k: int| start <= k < i ==> is_digit(#[trigger] w@[k]),
            value as int == if digits_value(w@.subrange(start as int, i as int)) <= DIGITS_CAP {
                digits_value(w@.subrange(start as int, i as int))
            } else {
                DIGITS_CAP as int
            },
        decreases n - i,
    {
        let c = w[i];
        if !('0' <= c && c <= '9') {
            assert(w@.subrange(start as int, n as int)[i - start] == c);
            return None;
        }
        let d = (c as u32) - ('0' as u32);
        let ghost pre = w@.subrange(start as int, i as int);
        let ghost next = w@.subrange(start as int, i + 1);
        assert(next.drop_last() =~= pre);
        assert(next.last() == c);
        assert(digits_value(next) == digits_value(pre) * 10 + d);
        proof {
            if digits_value(pre) > DIGITS_CAP {
                assert(digits_value(pre) * 10 + d > DIGITS_CAP) by (nonlinear_arith)
                    requires
                        digits_value(pre) > DIGITS_CAP,
                        d >= 0,
                ;
            }
        }
        value = if value * 10 + (d as u64) > DIGITS_CAP {
            DIGITS_CAP
        } else {
            value * 10 + (d as u64)
        };
        i = i + 1;
    }
    assert(all_digits(w@.subrange(start as int, n as int))) by {
        assert forall|k: int| 0 <= k < n - start implies is_digit(
            #[trigger] w@.subrange(start as int, n as int)[k],
        ) by {
            assert(w@.subrange(start as int, n as int)[k] == w@[start + k]);
        }
    }
    Some(value)
}

/// Reads a decimal byte as `u8::from_str` does.
pub fn read_u8(w: &Vec<char>) -> (r: Option<u8>)
    ensures
        r == parse_u8(w@),
{
    let n = w.len();
    let start: usize = if n > 0 && w[0] == '+' {
        1
    } else {
        0
    };
    assert(unsigned_body(w@) =~= w@.subrange(start as int, n as int));
    if start >= n {
        return None;
    }
    match read_digits(w, start) {
        Some(v) => {
            if v > 255 {
                None
            } else {
                Some(v as u8)
            }
        },
        None => None,
    }
}

/// Reads a decimal `i32` as `i32::from_str` does.
pub fn read_i32(s: &str) -> (r: Option<i32>)
    ensures
        r == parse_i32(s@),
{
    let w = chars_of(s);
    let n = w.len();
    let negative = n > 0 && w[0] == '-';
    let start: usize = if n > 0 && (w[0] == '+' || w[0] == '-') {
        1
    } else {
        0
    };
    assert(signed_body(w@) =~= w@.subrange(start as int, n as int));
    if start >= n {
        return None;
    }
    match read_digits(&w, start) {
        Some(v) => {
            if negative {
                if v > 2147483648 {
                    None
                } else {
                    Some((0 - (v as i64)) as i32)
                }
            } else {
                if v > 2147483647 {
                    None
                } else {
                    Some(v as i32)
                }
            }
        },
        None => None,
    }
}

/// An unsigned decimal as `from_str` reads it for a type whose largest value
/// is `max`.
pub open spec fn parse_unsigned(s: Seq<char>, max: int) -> Option<int> {
    let body = unsigned_body(s);
    if body.len() > 0 && all_digits(body) && digits_value(body) <= max {
        Some(digits_value(body))
    } else {
        None
    }
}

/// A signed decimal as `from_str` reads it for a type whose values run from
/// `min` to `max`.
pub open spec fn parse_signed(s: Seq<char>, min: int, max: int) -> Option<int> {
    let body = signed_body(s);
    let v = if is_negative(s) {
        -digits_value(body)
    } else {
        digits_value(body)
    };
    if body.len() > 0 && all_digits(body) && min <= v <= max {
        Some(v)
    } else {
        None
    }
}

/// Reads an unsigned decimal no larger than `max`.
pub fn read_unsigned(s: &str, max: u64) -> (r: Option<u64>)
    requires
        max < DIGITS_CAP,
    ensures
        match r {
            Some(v) => parse_unsigned(s@, max as int) == Some(v as int),
            None => parse_unsigned(s@, max as int) is None,
        },
{
    let w = chars_of(s);
    let n = w.len();
    let start: usize = if n > 0 && w[0] == '+' {
        1
    } else {
        0
    };
    assert(unsigned_body(w@) =~= w@.subrange(start as int, n as int));
    if start >= n {
        return None;
    }
    match read_digits(&w, start) {
        Some(v) => {
            if v > max {
                None
            } else {
                Some(v)
            }
        },
        None => None,
    }
}

/// Reads a signed decimal from `min` to `max`.
pub fn read_signed(s: &str, min: i64, max: i64) -> (r: Option<i64>)
    requires
        -DIGITS_CAP < min <= 0 <= max < DIGITS_CAP,
    ensures
        match r {
            Some(v) => parse_signed(s@, min as int, max as int) == Some(v as int),
            None => parse_signed(s@, min as int, max as int) is None,
        },
{
    let w = chars_of(s);
    let n = w.len();
    let negative = n > 0 && w[0] == '-';
    let start: usize = if n > 0 && (w[0] == '+' || w[0] == '-') {
        1
    } else {
        0
    };
    assert(signed_body(w@) =~= w@.subrange(start as int, n as int));
    if start >= n {
        return None;
    }
    match read_digits(&w, start) {
        Some(v) => {
            let value: i64 = if negative {
                0 - (v as i64)
            } else {
                v as i64
            };
            if value < min || value > max {
                None
            } else {
                Some(value)
            }
        },
        None => None,
    }
}

} // verus!
