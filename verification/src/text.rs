//! Verified text helpers: decimal parsing of user identifiers and the
//! extraction of bearer tokens from authorization headers.

use vstd::prelude::*;

use vstd::string::StrSliceExecFns;
use vstd::string::StringExecFns;

use crate::errors::Error;

verus! {

pub open spec fn is_digit_char(c: char) -> bool {
    '0' <= c && c <= '9'
}

pub open spec fn digit_value(c: char) -> int {
    c as int - '0' as int
}

pub open spec fn all_digits(s: Seq<char>) -> bool {
    forall|i: int| 0 <= i < s.len() ==> is_digit_char(s[i])
}

/// The number a string of decimal digits denotes.
pub open spec fn digits_value(s: Seq<char>) -> int
    decreases s.len(),
{
    if s.len() == 0 {
        0
    } else {
        digits_value(s.drop_last()) * 10 + digit_value(s.last())
    }
}

/// The digits of an optionally signed decimal string.
pub open spec fn int_string_body(s: Seq<char>) -> Seq<char> {
    if s.len() > 0 && (s[0] == '-' || s[0] == '+') {
        s.skip(1)
    } else {
        s
    }
}

pub open spec fn int_string_negative(s: Seq<char>) -> bool {
    s.len() > 0 && s[0] == '-'
}

/// An optionally signed, non-empty run of decimal digits.
pub open spec fn is_int_string(s: Seq<char>) -> bool {
    int_string_body(s).len() > 0 && all_digits(int_string_body(s))
}

/// The integer an optionally signed decimal string denotes.
pub open spec fn int_string_value(s: Seq<char>) -> int {
    if int_string_negative(s) {
        -digits_value(int_string_body(s))
    } else {
        digits_value(int_string_body(s))
    }
}

/// A decimal string whose value fits an `i32`.
pub open spec fn is_i32_string(s: Seq<char>) -> bool {
    is_int_string(s) && i32::MIN <= int_string_value(s) <= i32::MAX
}

proof fn lemma_digits_value_nonneg(s: Seq<char>)
    requires
        all_digits(s),
    ensures
        digits_value(s) >= 0,
    decreases s.len(),
{
    if s.len() > 0 {
        lemma_digits_value_nonneg(s.drop_last());
    }
}

/// A run of digits denotes at least as much as any of its prefixes.
proof fn lemma_digits_value_mono(s: Seq<char>, i: int)
    requires
        all_digits(s),
        0 <= i <= s.len(),
    ensures
        digits_value(s.subrange(0, i)) <= digits_value(s),
    decreases s.len() - i,
{
    if i == s.len() {
        assert(s.subrange(0, i) =~= s);
    } else {
        assert(s.subrange(0, i + 1).drop_last() =~= s.subrange(0, i));
        assert(s.subrange(0, i + 1).last() == s[i]);
        lemma_digits_value_nonneg(s.subrange(0, i));
        lemma_digits_value_mono(s, i + 1);
    }
}

/// Parses an optionally signed decimal string as an `i32`, exactly when the
/// string is such a number and its value fits.
pub fn parse_i32(s: &String) -> (r: Result<i32, Error>)
    ensures
        (r matches Ok(v)) <==> is_i32_string(s@),
        r matches Ok(v) ==> v == int_string_value(s@),
        r matches Err(e) ==> e == Error::InvalidInput,
{
    let st = s.as_str();
    let n = st.unicode_len();
    if n == 0 {
        return Err(Error::InvalidInput);
    }
    let c0 = st.get_char(0);
    let negative = c0 == '-';
    let start: usize = if c0 == '-' || c0 == '+' {
        1
    } else {
        0
    };
    if start == n {
        return Err(Error::InvalidInput);
    }
    proof {
        assert(int_string_body(s@) =~= s@.subrange(start as int, n as int));
    }
    let mut acc: i64 = 0;
    let mut i: usize = start;
    while i < n
        invariant
            st@ == s@,
            start <= i <= n,
            n == s@.len(),
            start == (if s@[0] == '-' || s@[0] == '+' {
                1int
            } else {
                0int
            }),
            all_digits(s@.subrange(start as int, i as int)),
            acc == digits_value(s@.subrange(start as int, i as int)),
            0 <= acc <= 2147483648i64,
        decreases n - i,
    {
        let c = st.get_char(i);
        if !(c >= '0' && c <= '9') {
            proof {
                let body = int_string_body(s@);
                assert(body =~= s@.subrange(start as int, n as int));
                assert(body[i - start] == s@[i as int]);
                assert(!is_digit_char(body[i - start]));
            }
            return Err(Error::InvalidInput);
        }
        let d: i64 = (c as u32 - 48) as i64;
        acc = acc * 10 + d;
        proof {
            assert(s@.subrange(start as int, (i + 1) as int).drop_last() =~= s@.subrange(
                start as int,
                i as int,
            ));
            assert(s@.subrange(start as int, (i + 1) as int).last() == s@[i as int]);
            assert forall|k: int| 0 <= k < i + 1 - start implies #[trigger] is_digit_char(
                s@.subrange(start as int, (i + 1) as int)[k],
            ) by {
                if k < i - start {
                    assert(s@.subrange(start as int, (i + 1) as int)[k] == s@.subrange(
                        start as int,
                        i as int,
                    )[k]);
                }
            }
            assert(all_digits(s@.subrange(start as int, (i + 1) as int)));
        }
        if acc > 2147483648i64 {
            proof {
                let body = int_string_body(s@);
                assert(body =~= s@.subrange(start as int, n as int));
                if is_i32_string(s@) {
                    assert(s@.subrange(start as int, (i + 1) as int) =~= body.subrange(
                        0,
                        (i + 1 - start) as int,
                    ));
                    lemma_digits_value_mono(body, (i + 1 - start) as int);
                    lemma_digits_value_nonneg(body);
                    assert(false);
                }
            }
            return Err(Error::InvalidInput);
        }
        i = i + 1;
    }
    proof {
        assert(s@.subrange(start as int, n as int) =~= int_string_body(s@));
    }
    if negative {
        Ok((-acc) as i32)
    } else {
        if acc > 2147483647i64 {
            return Err(Error::InvalidInput);
        }
        Ok(acc as i32)
    }
}

/// Whether the string starts with the bearer marker `"Bearer "`.
pub open spec fn is_bearer_prefixed(s: Seq<char>) -> bool {
    s.len() >= 7 && s[0] == 'B' && s[1] == 'e' && s[2] == 'a' && s[3] == 'r' && s[4] == 'e' && s[5]
        == 'r' && s[6] == ' '
}

/// The string with every leading bearer marker removed.
pub open spec fn strip_bearer(s: Seq<char>) -> Seq<char>
    decreases s.len(),
{
    if is_bearer_prefixed(s) {
        strip_bearer(s.skip(7))
    } else {
        s
    }
}

} // verus!
