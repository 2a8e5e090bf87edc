//! Integer literals of the configuration file: an optional sign and decimal
//! digits, within the range of `i32`.

use crate::text::chars_of;
use vstd::prelude::*;

verus! {

/// Why a text is no integer literal.
#[derive(Clone, Copy, Debug, PartialEq, Eq)]
pub enum NumberFault {
    /// The text is empty.
    Empty,
    /// A character is no decimal digit, or a sign stands alone.
    InvalidDigit,
    /// The digits read so far already exceed `i32::MAX`.
    TooLarge,
    /// The digits read so far, negated, already fall below `i32::MIN`.
    TooSmall,
}

/// The decimal digits `0` to `9`.
pub open spec fn is_digit(c: char) -> bool {
    48 <= c as u32 <= 57
}

/// The number that a decimal digit denotes.
pub open spec fn digit_value(c: char) -> int {
    c as u32 - 48
}

/// The number that a run of decimal digits denotes.
pub open spec fn digits_value(s: Seq<char>) -> int
    decreases s.len(),
{
    if s.len() == 0 {
        0
    } else {
        10 * digits_value(s.drop_last()) + digit_value(s.last())
    }
}

/// The length of the longest prefix of `s` made of decimal digits.
pub open spec fn digit_run(s: Seq<char>) -> nat
    decreases s.len(),
{
    if s.len() > 0 && is_digit(s.first()) {
        1 + digit_run(s.drop_first())
    } else {
        0
    }
}

/// What a text denotes as an `i32` literal. The text is read from the left:
/// the first thing that goes wrong decides the fault, so digits that leave
/// the range come before a later character that is no digit.
pub open spec fn number(s: Seq<char>) -> Result<int, NumberFault> {
    if s.len() == 0 {
        Err(NumberFault::Empty)
    } else {
        let negative = s.first() == '-';
        let signed = negative || s.first() == '+';
        let body = if signed {
            s.drop_first()
        } else {
            s
        };
        if signed && body.len() == 0 {
            Err(NumberFault::InvalidDigit)
        } else {
            let run = body.take(digit_run(body) as int);
            let value = if negative {
                -digits_value(run)
            } else {
                digits_value(run)
            };
            if value > i32::MAX {
                Err(NumberFault::TooLarge)
            } else if value < i32::MIN {
                Err(NumberFault::TooSmall)
            } else if run.len() < body.len() {
                Err(NumberFault::InvalidDigit)
            } else {
                Ok(value)
            }
        }
    }
}

/// The digit run ends at `k` where everything before `k` is a digit and `k`
/// is the end or holds something else.
proof fn lemma_digit_run_is(s: Seq<char>, k: int)
    requires
        0 <= k <= s.len(),
        forall|j: int| 0 <= j < k ==> is_digit(s[j]),
        k < s.len() ==> !is_digit(s[k]),
    ensures
        digit_run(s) == k,
    decreases s.len(),
{
    if k > 0 {
        let rest = s.drop_first();
        assert forall|j: int| 0 <= j < k - 1 implies is_digit(rest[j]) by {
            assert(rest[j] == s[j + 1]);
        }
        lemma_digit_run_is(rest, k - 1);
    }
}

/// The digit run is at least `k` where everything before `k` is a digit.
proof fn lemma_digit_run_covers(s: Seq<char>, k: int)
    requires
        0 <= k <= s.len(),
        forall|j: int| 0 <= j < k ==> is_digit(s[j]),
    ensures
        k <= digit_run(s) <= s.len(),
        forall|j: int| 0 <= j < digit_run(s) ==> is_digit(s[j]),
    decreases s.len(),
{
    if s.len() > 0 && is_digit(s.first()) {
        let rest = s.drop_first();
        let shorter = if k > 0 {
            k - 1
        } else {
            0
        };
        assert forall|j: int| 0 <= j < shorter implies is_digit(rest[j]) by {
            assert(rest[j] == s[j + 1]);
        }
        lemma_digit_run_covers(rest, shorter);
        assert forall|j: int| 0 <= j < digit_run(s) implies is_digit(s[j]) by {
            if j > 0 {
                assert(s[j] == rest[j - 1]);
            }
        }
    }
}

/// Among digits, a longer prefix denotes no smaller number.
proof fn lemma_digits_value_grows(s: Seq<char>, a: int, b: int)
    requires
        0 <= a <= b <= s.len(),
        forall|j: int| 0 <= j < b ==> is_digit(s[j]),
    ensures
        0 <= digits_value(s.take(a)) <= digits_value(s.take(b)),
    decreases b,
{
    if b > 0 {
        let shorter = if a == b {
            a - 1
        } else {
            a
        };
        lemma_digits_value_grows(s, shorter, b - 1);
        assert(s.take(b).drop_last() =~= s.take(b - 1));
    }
}

/// Reads an `i32` literal: an optional `+` or `-`, then decimal digits only.
pub fn parse_number(raw: &str) -> (r: Result<i32, NumberFault>)
    ensures
        match r {
            Ok(v) => number(raw@) == Ok::<int, NumberFault>(v as int),
            Err(fault) => number(raw@) == Err::<int, NumberFault>(fault),
        },
{
    let chars = chars_of(raw);
    let n: usize = chars.len();
    if n == 0 {
        return Err(NumberFault::Empty);
    }
    let negative = chars[0] == '-';
    let signed = negative || chars[0] == '+';
    let start: usize = if signed {
        1
    } else {
        0
    };
    if signed && n == 1 {
        return Err(NumberFault::InvalidDigit);
    }
    let ghost body = chars@.skip(start as int);
    assert(body =~= if signed {
        chars@.drop_first()
    } else {
        chars@
    });
    let limit: i64 = if negative {
        2147483648
    } else {
        2147483647
    };
    let mut acc: i64 = 0;
    let mut i: usize = start;
    while i < n
        invariant
            start <= i <= n == chars.len(),
            chars@ == raw@,
            n > 0,
            negative == (chars@.first() == '-'),
            signed == (negative || chars@.first() == '+'),
            body == if signed {
                chars@.drop_first()
            } else {
                chars@
            },
            body.len() == n - start,
            body.len() > 0,
            forall|j: int| 0 <= j < body.len() ==> body[j] == chars@[j + start],
            forall|j: int| 0 <= j < i - start ==> is_digit(body[j]),
            acc == digits_value(body.take(i - start)),
            0 <= acc <= limit,
            limit == if negative {
                2147483648i64
            } else {
                2147483647i64
            },
        decreases n - i,
    {
        let code: u32 = chars[i] as u32;
        if code < 48 || code > 57 {
            proof {
                lemma_digit_run_is(body, i - start);
            }
            return Err(NumberFault::InvalidDigit);
        }
        let next: i64 = acc * 10 + (code - 48) as i64;
        proof {
            assert(body.take(i - start + 1).drop_last() =~= body.take(i - start));
        }
        if next > limit {
            proof {
                lemma_digit_run_covers(body, i - start + 1);
                lemma_digits_value_grows(body, i - start + 1, digit_run(body) as int);
            }
            return Err(
                if negative {
                    NumberFault::TooSmall
                } else {
                    NumberFault::TooLarge
                },
            );
        }
        acc = next;
        i += 1;
    }
    proof {
        lemma_digit_run_is(body, n - start);
    }
    if negative {
        Ok((-acc) as i32)
    } else {
        Ok(acc as i32)
    }
}

} // verus!
