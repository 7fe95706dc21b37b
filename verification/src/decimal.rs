//! String-encoded numeric fields.
//!
//! The provider transmits every numeric field as a JSON string.  Prices are
//! decimal numbers; this module models one as a sign, an integer mantissa and
//! a decimal scale, so that `"123.45"` becomes mantissa `12345` at scale `2`.
//! The accepted grammar is plain decimal notation: an optional sign, at least
//! one integer digit, and an optional fraction with at least one digit.
//! Exponent notation (`"1e5"`), bare fractions (`".5"`, `"3."`) and
//! non-finite forms are deliberately rejected as malformed numbers: the
//! provider transmits plain decimal strings, and the exact-decimal model has
//! no value for an infinity or a NaN.  Volumes are whole numbers and parse
//! into `i64` exactly as wide as that type allows.

use vstd::prelude::*;
use crate::json::is_digit;
use crate::json::skip_digits;
use crate::json::lemma_skip_digits_bounds;

verus! {

/// A decimal number: `(-1 if negative) * mantissa / 10^scale`.
#[derive(Clone, Copy, Debug, PartialEq, Eq, Structural)]
pub struct Decimal {
    pub negative: bool,
    pub mantissa: u64,
    pub scale: u32,
}

impl Decimal {
    /// The decimal number zero.
    pub fn zero() -> (r: Decimal)
        ensures
            r == (Decimal { negative: false, mantissa: 0, scale: 0 }),
    {
        Decimal { negative: false, mantissa: 0, scale: 0 }
    }
}

/// Folds the digits of `s` onto the value `acc`, most significant first:
/// `fold_digits(7, "45") == 745`.
pub open spec fn fold_digits(acc: nat, s: Seq<u8>) -> nat
    decreases s.len(),
{
    if s.len() == 0 {
        acc
    } else {
        fold_digits(acc * 10 + (s.first() - 0x30) as nat, s.drop_first())
    }
}

/// Folding digits never shrinks the accumulator.
pub proof fn lemma_fold_digits_lower(acc: nat, s: Seq<u8>)
    ensures
        fold_digits(acc, s) >= acc,
    decreases s.len(),
{
    if s.len() > 0 {
        lemma_fold_digits_lower(acc * 10 + (s.first() - 0x30) as nat, s.drop_first());
        assert(acc * 10 >= acc * 1) by (nonlinear_arith);
    }
}

/// The sign, mantissa and scale denoted by a decimal string, if it is one.
/// The mantissa folds the integer digits, then the fraction digits; the
/// scale counts the fraction digits.
pub open spec fn spec_decimal(s: Seq<u8>) -> Option<(bool, nat, nat)> {
    let neg = s.len() > 0 && s[0] == 0x2d;
    let p0: int = if s.len() > 0 && (s[0] == 0x2d || s[0] == 0x2b) {
        1
    } else {
        0
    };
    let p1 = skip_digits(s, p0);
    if p1 == p0 {
        None
    } else if p1 == s.len() {
        Some((neg, fold_digits(0, s.subrange(p0, p1)), 0 as nat))
    } else if s[p1] == 0x2e {
        let p2 = skip_digits(s, p1 + 1);
        if p2 == p1 + 1 || p2 != s.len() {
            None
        } else {
            Some(
                (
                    neg,
                    fold_digits(fold_digits(0, s.subrange(p0, p1)), s.subrange(p1 + 1, p2)),
                    (p2 - p1 - 1) as nat,
                ),
            )
        }
    } else {
        None
    }
}

/// The sign and magnitude denoted by an integer string, if it is one.
pub open spec fn spec_integer(s: Seq<u8>) -> Option<(bool, nat)> {
    let neg = s.len() > 0 && s[0] == 0x2d;
    let p0: int = if s.len() > 0 && (s[0] == 0x2d || s[0] == 0x2b) {
        1
    } else {
        0
    };
    let p1 = skip_digits(s, p0);
    if p1 == p0 || p1 != s.len() {
        None
    } else {
        Some((neg, fold_digits(0, s.subrange(p0, p1))))
    }
}

/// Positions `from..to` of `s` hold digits when `skip_digits` passed them.
pub proof fn lemma_skip_digits_all_digits(s: Seq<u8>, from: int, to: int)
    requires
        0 <= from <= to,
        skip_digits(s, from) >= to,
        to <= s.len(),
    ensures
        forall|i: int| from <= i < to ==> is_digit(s[i]),
    decreases to - from,
{
    if from < to {
        lemma_skip_digits_bounds(s, from);
        if is_digit(s[from]) {
            lemma_skip_digits_all_digits(s, from + 1, to);
        }
    }
}

/// Accumulates the digits `s[from..to]` onto `acc`, reporting overflow of
/// `u64` exactly.
pub(crate) fn accumulate_digits(s: &[u8], from: usize, to: usize, acc: u64) -> (r: Option<u64>)
    requires
        from <= to <= s@.len(),
        forall|i: int| from <= i < to ==> is_digit(s@[i]),
    ensures
        ({
            let v = fold_digits(acc as nat, s@.subrange(from as int, to as int));
            match r {
                Some(m) => m as nat == v,
                None => v > u64::MAX,
            }
        }),
{
    let mut cur = from;
    let mut m = acc;
    while cur < to
        invariant
            from <= cur <= to <= s@.len(),
            forall|i: int| from <= i < to ==> is_digit(s@[i]),
            fold_digits(acc as nat, s@.subrange(from as int, to as int)) == fold_digits(
                m as nat,
                s@.subrange(cur as int, to as int),
            ),
        decreases to - cur,
    {
        assert(is_digit(s@[cur as int]));
        let d = s[cur] - 0x30;
        proof {
            let rest = s@.subrange(cur as int, to as int);
            assert(rest.drop_first() =~= s@.subrange(cur as int + 1, to as int));
        }
        if m > (u64::MAX - (d as u64)) / 10 {
            proof {
                assert((m as nat) * 10 + (d as nat) > u64::MAX) by (nonlinear_arith)
                    requires
                        m > (u64::MAX - (d as u64)) / 10,
                        d <= 9,
                ;
                lemma_fold_digits_lower(
                    (m as nat) * 10 + (d as nat),
                    s@.subrange(cur as int + 1, to as int),
                );
            }
            return None;
        }
        proof {
            assert((m as nat) * 10 + (d as nat) <= u64::MAX) by (nonlinear_arith)
                requires
                    m <= (u64::MAX - (d as u64)) / 10,
                    d <= 9,
            ;
        }
        m = m * 10 + (d as u64);
        cur = cur + 1;
    }
    proof {
        assert(s@.subrange(to as int, to as int) =~= Seq::<u8>::empty());
    }
    Some(m)
}

/// Parses a decimal string.  Succeeds exactly when the bytes match the
/// decimal grammar, the mantissa fits in `u64`, and the scale fits in `u32`;
/// then the result carries that sign, mantissa and scale.
pub fn parse_decimal(s: &[u8]) -> (r: Option<Decimal>)
    ensures
        match r {
            Some(d) => spec_decimal(s@) == Some((d.negative, d.mantissa as nat, d.scale as nat)),
            None => spec_decimal(s@) matches Some(t) ==> (t.1 > u64::MAX || t.2 > u32::MAX),
        },
{
    let len = s.len();
    let neg = len > 0 && s[0] == 0x2d;
    let p0: usize = if len > 0 && (s[0] == 0x2d || s[0] == 0x2b) {
        1
    } else {
        0
    };
    let p1 = crate::json::skip_digits_exec(s, p0);
    if p1 == p0 {
        return None;
    }
    proof {
        lemma_skip_digits_all_digits(s@, p0 as int, p1 as int);
    }
    if p1 == len {
        match accumulate_digits(s, p0, p1, 0) {
            Some(m) => {
                return Some(Decimal { negative: neg, mantissa: m, scale: 0 });
            },
            None => {
                return None;
            },
        }
    }
    if s[p1] == 0x2e {
        let p2 = crate::json::skip_digits_exec(s, p1 + 1);
        if p2 == p1 + 1 || p2 != len {
            return None;
        }
        proof {
            lemma_skip_digits_all_digits(s@, p1 as int + 1, p2 as int);
        }
        match accumulate_digits(s, p0, p1, 0) {
            Some(m0) => {
                match accumulate_digits(s, p1 + 1, p2, m0) {
                    Some(m) => {
                        if p2 - p1 - 1 > 0xffff_ffff {
                            return None;
                        }
                        Some(Decimal { negative: neg, mantissa: m, scale: (p2 - p1 - 1) as u32 })
                    },
                    None => None,
                }
            },
            None => {
                proof {
                    lemma_fold_digits_lower(
                        fold_digits(0, s@.subrange(p0 as int, p1 as int)),
                        s@.subrange(p1 as int + 1, p2 as int),
                    );
                }
                None
            },
        }
    } else {
        None
    }
}

/// Parses an integer string into `i64`.  Succeeds exactly when the bytes
/// match the integer grammar and the value fits in `i64`; then the result is
/// that value.
pub fn parse_int64(s: &[u8]) -> (r: Option<i64>)
    ensures
        match r {
            Some(v) => ({
                let t = spec_integer(s@);
                &&& t is Some
                &&& v as int == if t.unwrap().0 {
                    -(t.unwrap().1 as int)
                } else {
                    t.unwrap().1 as int
                }
            }),
            None => spec_integer(s@) matches Some(t) ==> (t.1 > if t.0 {
                0x8000_0000_0000_0000 as nat
            } else {
                0x7fff_ffff_ffff_ffff as nat
            }),
        },
{
    let len = s.len();
    let neg = len > 0 && s[0] == 0x2d;
    let p0: usize = if len > 0 && (s[0] == 0x2d || s[0] == 0x2b) {
        1
    } else {
        0
    };
    let p1 = crate::json::skip_digits_exec(s, p0);
    if p1 == p0 || p1 != len {
        return None;
    }
    proof {
        lemma_skip_digits_all_digits(s@, p0 as int, p1 as int);
    }
    match accumulate_digits(s, p0, p1, 0) {
        Some(m) => {
            if neg {
                if m > 0x8000_0000_0000_0000u64 {
                    None
                } else if m == 0x8000_0000_0000_0000u64 {
                    Some(i64::MIN)
                } else {
                    Some(-(m as i64))
                }
            } else {
                if m > 0x7fff_ffff_ffff_ffffu64 {
                    None
                } else {
                    Some(m as i64)
                }
            }
        },
        None => None,
    }
}

} // verus!
