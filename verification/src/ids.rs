//! Identifier and scalar parsing: decimal integers for numeric keys and
//! paging parameters, and UUID canonicalization for UUID keys.

use vstd::prelude::*;
use vstd::string::*;

use crate::strutil::str_chars;

verus! {

pub open spec fn is_digit(c: char) -> bool {
    48 <= c as u32 <= 57
}

pub open spec fn digit_val(c: char) -> int {
    (c as u32) as int - 48
}

/// The value of a digit string, most significant first.
pub open spec fn digits_value(s: Seq<char>) -> int
    decreases s.len(),
{
    if s.len() == 0 {
        0
    } else {
        digits_value(s.drop_last()) * 10 + digit_val(s.last())
    }
}

pub open spec fn all_digits(s: Seq<char>) -> bool {
    forall|i: int| 0 <= i < s.len() ==> is_digit(#[trigger] s[i])
}

/// The signed 64-bit integer a string denotes: an optional sign, at least
/// one digit, and a value in range.
pub open spec fn spec_parse_i64(s: Seq<char>) -> Option<i64> {
    let negative = s.len() > 0 && s[0] == '-';
    let digits = if s.len() > 0 && (s[0] == '-' || s[0] == '+') {
        s.skip(1)
    } else {
        s
    };
    if digits.len() == 0 || !all_digits(digits) {
        None
    } else {
        let mag = digits_value(digits);
        let v = if negative {
            -mag
        } else {
            mag
        };
        if i64::MIN <= v <= i64::MAX {
            Some(v as i64)
        } else {
            None
        }
    }
}

/// The unsigned 32-bit integer a string denotes: an optional plus sign, at
/// least one digit, and a value in range.
pub open spec fn spec_parse_u32(s: Seq<char>) -> Option<u32> {
    let digits = if s.len() > 0 && s[0] == '+' {
        s.skip(1)
    } else {
        s
    };
    if digits.len() == 0 || !all_digits(digits) {
        None
    } else {
        let mag = digits_value(digits);
        if mag <= u32::MAX {
            Some(mag as u32)
        } else {
            None
        }
    }
}

proof fn lemma_digits_nonneg(s: Seq<char>)
    requires
        all_digits(s),
    ensures
        digits_value(s) >= 0,
    decreases s.len(),
{
    if s.len() > 0 {
        assert(all_digits(s.drop_last())) by {
            assert(forall|i: int|
                0 <= i < s.drop_last().len() ==> #[trigger] s.drop_last()[i] == s[i]);
        }
        lemma_digits_nonneg(s.drop_last());
    }
}

proof fn lemma_digits_grow(s: Seq<char>, j: int)
    requires
        all_digits(s),
        0 <= j <= s.len(),
    ensures
        digits_value(s) >= digits_value(s.take(j)),
    decreases s.len() - j,
{
    if j < s.len() {
        lemma_digits_grow(s, j + 1);
        assert(s.take(j + 1).drop_last() =~= s.take(j));
        assert(s.take(j + 1).last() == s[j]);
        assert(all_digits(s.take(j))) by {
            assert(forall|i: int| 0 <= i < j ==> #[trigger] s.take(j)[i] == s[i]);
        }
        lemma_digits_nonneg(s.take(j));
        assert(digits_value(s.take(j + 1)) == digits_value(s.take(j)) * 10 + digit_val(s[j]));
        assert(digits_value(s.take(j)) * 10 >= digits_value(s.take(j))) by (nonlinear_arith)
            requires
                digits_value(s.take(j)) >= 0,
        ;
    } else {
        assert(s.take(j) =~= s);
    }
}

/// Parse the digit part of a decimal number, bounded by `limit`.
/// Returns the magnitude when every character is a digit and the value is
/// at most `limit`.
#[verifier::loop_isolation(false)]
fn parse_magnitude(cs: &Vec<char>, start: usize, limit: u64) -> (r: Option<u64>)
    requires
        start <= cs@.len(),
        limit >= 9,
    ensures
        r is Some <==> (cs@.skip(start as int).len() > 0 && all_digits(cs@.skip(start as int))
            && digits_value(cs@.skip(start as int)) <= limit),
        r is Some ==> r->0 == digits_value(cs@.skip(start as int)),
{
    let ghost digits = cs@.skip(start as int);
    let n = cs.len();
    if start == n {
        return None;
    }
    let mut acc: u64 = 0;
    let mut i: usize = start;
    while i < n
        invariant
            start <= i <= n,
            n == cs@.len(),
            digits == cs@.skip(start as int),
            all_digits(digits.take(i - start)),
            acc == digits_value(digits.take(i - start)),
            acc <= limit,
        decreases n - i,
    {
        let c = cs[i];
        let u = c as u32;
        if u < 48 || u > 57 {
            proof {
                assert(digits[i - start] == cs@[i as int]);
                assert(!is_digit(digits[i - start]));
            }
            return None;
        }
        let d: u64 = (u - 48) as u64;
        proof {
            assert(digits[i - start] == cs@[i as int]);
            assert(digits.take(i - start + 1).drop_last() =~= digits.take(i - start));
            assert(digits.take(i - start + 1).last() == digits[i - start]);
            assert(digit_val(digits[i - start]) == d as int);
            assert(is_digit(digits[i - start]));
            assert(forall|m: int|
                0 <= m < i - start + 1 ==> is_digit(#[trigger] digits.take(i - start + 1)[m]));
        }
        if acc > (limit - d) / 10 {
            proof {
                assert(acc * 10 + d > limit) by (nonlinear_arith)
                    requires
                        acc > (limit - d as u64) / 10,
                        d <= 9,
                        limit >= d,
                ;
                assert(digits_value(digits.take(i - start + 1)) > limit);
                assert(all_digits(digits) ==> digits_value(digits) > limit) by {
                    if all_digits(digits) {
                        lemma_digits_grow(digits, i - start + 1);
                    }
                }
            }
            return None;
        }
        proof {
            assert(acc * 10 + d <= limit) by (nonlinear_arith)
                requires
                    acc <= (limit - d as u64) / 10,
                    d <= 9,
                    limit >= d,
            ;
        }
        acc = acc * 10 + d;
        i += 1;
    }
    proof {
        assert(digits.take(n - start) =~= digits);
    }
    Some(acc)
}

/// Parse a decimal 64-bit integer: an optional sign and digits, rejecting
/// anything else or a value out of range.
#[verifier::loop_isolation(false)]
pub fn parse_i64(s: &str) -> (r: Option<i64>)
    ensures
        r == spec_parse_i64(s@),
{
    let cs = str_chars(s);
    if cs.len() == 0 {
        return None;
    }
    let first = cs[0];
    let negative = first == '-';
    let signed = first == '-' || first == '+';
    let start: usize = if signed {
        1
    } else {
        0
    };
    let limit: u64 = if negative {
        9223372036854775808
    } else {
        9223372036854775807
    };
    proof {
        if !signed {
            assert(cs@.skip(0) =~= cs@);
        }
    }
    match parse_magnitude(&cs, start, limit) {
        Some(mag) => {
            if negative {
                if mag == 9223372036854775808 {
                    Some(i64::MIN)
                } else {
                    Some(-(mag as i64))
                }
            } else {
                Some(mag as i64)
            }
        },
        None => None,
    }
}

/// Parse a decimal 32-bit unsigned integer: an optional plus sign and
/// digits, rejecting anything else or a value out of range.
#[verifier::loop_isolation(false)]
pub fn parse_u32(s: &str) -> (r: Option<u32>)
    ensures
        r == spec_parse_u32(s@),
{
    let cs = str_chars(s);
    if cs.len() == 0 {
        return None;
    }
    let first = cs[0];
    let start: usize = if first == '+' {
        1
    } else {
        0
    };
    proof {
        if first != '+' {
            assert(cs@.skip(0) =~= cs@);
        }
    }
    match parse_magnitude(&cs, start, 4294967295) {
        Some(mag) => Some(mag as u32),
        None => None,
    }
}

/// The canonical hyphenated form of a UUID string, when the string parses
/// as a UUID; both depend on the characters alone.
pub uninterp spec fn uuid_canon_of(s: Seq<char>) -> Option<Seq<char>>;

/// Relies on `uuid::Uuid::parse_str` and the hyphenated `Display`
/// rendering of `uuid::Uuid`: whether a string parses, and the canonical
/// form it parses to, are functions of the characters alone.
#[verifier::external_body]
pub fn uuid_canonical(s: &str) -> (r: Option<String>)
    ensures
        r is Some <==> uuid_canon_of(s@) is Some,
        r is Some ==> r->0@ == uuid_canon_of(s@)->0,
{
    match uuid::Uuid::parse_str(s) {
        Ok(u) => Some(u.to_string()),
        Err(_) => None,
    }
}

} // verus!
