//! Fixed-scale decimal money.
//!
//! A `Money` value is an exact decimal quantity carried at a fixed scale of
//! four fractional digits: the integer `units` counts ten-thousandths of a
//! coin. All arithmetic is exact integer arithmetic on that scale; no
//! floating point is involved anywhere.

use vstd::prelude::*;
use vstd::string::StringSliceAdditionalSpecFns;
use crate::parse::{
    all_digits, any_byte_differs, check_all_digits, digits_to_val, digits_val, find_byte,
    split_dot, trim_range, trim_spec,
};

verus! {

/// Largest magnitude, in units, that a well-formed `Money` value may carry.
pub const MAX_UNITS: i128 = 79_228_162_514_264_337_593_543_950_335;

/// An exact decimal quantity at a fixed scale of four fractional digits.
#[derive(Debug, Clone, Copy, PartialEq, Eq, Structural)]
pub struct Money {
    /// The quantity in ten-thousandths of a coin.
    pub units: i128,
}

impl View for Money {
    type V = int;

    open spec fn view(&self) -> int {
        self.units as int
    }
}

/// `10^n`.
pub open spec fn pow10(n: nat) -> int
    decreases n,
{
    if n == 0 {
        1
    } else {
        10 * pow10((n - 1) as nat)
    }
}

impl Money {
    /// A value is well formed when its magnitude stays within the
    /// representable range of the fixed scale.
    pub open spec fn wf(self) -> bool {
        -MAX_UNITS <= self@ <= MAX_UNITS
    }

    /// The zero quantity.
    pub fn zero() -> (r: Money)
        ensures
            r@ == 0,
            r.wf(),
    {
        Money { units: 0 }
    }

    /// The quantity `mantissa * 10^-scale`, for scales up to the fixed
    /// four fractional digits.
    pub fn new(mantissa: i64, scale: u32) -> (r: Money)
        requires
            scale <= 4,
        ensures
            r@ == mantissa * pow10((4 - scale) as nat),
            r.wf(),
    {
        let f: i128 = if scale == 0 {
            10_000
        } else if scale == 1 {
            1_000
        } else if scale == 2 {
            100
        } else if scale == 3 {
            10
        } else {
            1
        };
        proof {
            assert(pow10(0) == 1);
            assert(pow10(1) == 10);
            assert(pow10(2) == 100);
            assert(pow10(3) == 1_000);
            assert(pow10(4) == 10_000);
            assert(f == pow10((4 - scale) as nat));
            assert((mantissa as i128) * f == mantissa * pow10((4 - scale) as nat)
                && -MAX_UNITS <= (mantissa as i128) * f <= MAX_UNITS) by (nonlinear_arith)
                requires
                    f == pow10((4 - scale) as nat),
                    1 <= f <= 10_000,
                    i64::MIN <= mantissa <= i64::MAX,
            {
            }
        }
        Money { units: (mantissa as i128) * f }
    }

    /// Exact addition.
    pub fn add(self, other: Money) -> (r: Money)
        requires
            self.wf(),
            other.wf(),
            -MAX_UNITS <= self@ + other@ <= MAX_UNITS,
        ensures
            r@ == self@ + other@,
            r.wf(),
    {
        Money { units: self.units + other.units }
    }

    /// Exact subtraction.
    pub fn sub(self, other: Money) -> (r: Money)
        requires
            self.wf(),
            other.wf(),
            -MAX_UNITS <= self@ - other@ <= MAX_UNITS,
        ensures
            r@ == self@ - other@,
            r.wf(),
    {
        Money { units: self.units - other.units }
    }

    /// Exact negation.
    pub fn negate(self) -> (r: Money)
        requires
            self.wf(),
        ensures
            r@ == -self@,
            r.wf(),
    {
        Money { units: -self.units }
    }

    /// Whether this quantity is strictly below zero.
    pub fn is_negative(&self) -> (r: bool)
        ensures
            r == (self@ < 0),
    {
        self.units < 0
    }

    /// Comparison on the exact quantities.
    pub fn lt(&self, other: &Money) -> (r: bool)
        ensures
            r == (self@ < other@),
    {
        self.units < other.units
    }
}

/// Why a decimal literal was rejected.
#[derive(Debug, Clone, Copy, PartialEq, Eq, Structural)]
pub enum MoneyParseError {
    /// The text is not a decimal literal.
    Malformed,
    /// The quantity does not fit the representable range of the fixed scale.
    OutOfRange,
}

/// The digits of a trimmed decimal literal, after its optional sign.
pub open spec fn money_body(t: Seq<u8>) -> Seq<u8> {
    if t.len() > 0 && (t[0] == 43 || t[0] == 45) {
        t.drop_first()
    } else {
        t
    }
}

/// Whether a trimmed decimal literal carries a leading minus sign.
pub open spec fn money_is_negative(t: Seq<u8>) -> bool {
    t.len() > 0 && t[0] == 45
}

/// A decimal literal's digits are well formed when the integer part is a
/// digit run, and the fractional part, if a dot is present, is a non-empty
/// digit run; at least one digit must be present in all.
pub open spec fn money_grammar_ok(ip: Seq<u8>, fp: Option<Seq<u8>>) -> bool {
    all_digits(ip) && match fp {
        None => ip.len() > 0,
        Some(f) => f.len() > 0 && all_digits(f),
    }
}

/// The fractional digits scaled to whole units: the first four fractional
/// digits, padded with zeros on the right when fewer are given.
pub open spec fn frac_units(f: Seq<u8>) -> nat {
    if f.len() >= 4 {
        digits_val(f.take(4))
    } else {
        (digits_val(f) * pow10((4 - f.len()) as nat)) as nat
    }
}

/// Whether rounding half to even at the fixed scale rounds the magnitude up
/// by one unit: the fifth fractional digit decides, with a tie going to the
/// even neighbour.
pub open spec fn rounds_up(f: Seq<u8>, base: nat) -> bool {
    f.len() > 4 && {
        let d = f[4];
        d > 53 || (d == 53 && ((exists|i: int| 5 <= i < f.len() && f[i] != 48) || base % 2 == 1))
    }
}

/// The magnitude, in units, denoted by integer digits `ip` and fractional
/// digits `f`, rounded half to even at the fixed scale.
pub open spec fn money_magnitude(ip: Seq<u8>, f: Seq<u8>) -> nat {
    let base = digits_val(ip) * 10_000 + frac_units(f);
    base + if rounds_up(f, base) {
        1nat
    } else {
        0nat
    }
}

/// The quantity denoted by a decimal literal: optional surrounding ASCII
/// whitespace, an optional sign, integer digits, and an optional dot followed
/// by fractional digits. Fractional digits beyond the fixed scale round half
/// to even; a magnitude beyond the representable range is rejected.
pub open spec fn spec_money_from_text(s: Seq<u8>) -> Result<Money, MoneyParseError> {
    let t = trim_spec(s);
    let b = money_body(t);
    let ip = split_dot(b).0;
    let fp = split_dot(b).1;
    let f = match fp {
        Some(f) => f,
        None => Seq::empty(),
    };
    if !money_grammar_ok(ip, fp) {
        Err(MoneyParseError::Malformed)
    } else {
        let mag = money_magnitude(ip, f);
        if mag > MAX_UNITS {
            Err(MoneyParseError::OutOfRange)
        } else if money_is_negative(t) {
            Ok(Money { units: (-(mag as int)) as i128 })
        } else {
            Ok(Money { units: mag as i128 })
        }
    }
}

/// Whether `s` holds any byte other than the ASCII digit zero.
pub open spec fn has_nonzero_digit(s: Seq<u8>) -> bool {
    exists|i: int| 0 <= i < s.len() && s[i] != 48
}

/// Whether the exact (unrounded) quantity denoted by the literal is strictly
/// negative: a leading minus sign together with at least one nonzero digit.
pub open spec fn spec_money_text_negative(s: Seq<u8>) -> bool {
    let t = trim_spec(s);
    let b = money_body(t);
    let ip = split_dot(b).0;
    let f = match split_dot(b).1 {
        Some(f) => f,
        None => Seq::empty(),
    };
    money_is_negative(t) && (has_nonzero_digit(ip) || has_nonzero_digit(f))
}

/// Decides whether a decimal literal denotes an exactly negative quantity,
/// as `spec_money_text_negative` describes.
pub fn text_is_negative(s: &str) -> (r: bool)
    ensures
        r == spec_money_text_negative(s.spec_bytes()),
{
    let bytes: &[u8] = s.as_bytes();
    let (a0, b0) = trim_range(bytes);
    let t: &[u8] = &bytes[a0..b0];
    let ghost tg = trim_spec(bytes@);
    if !(t.len() > 0 && t[0] == 45) {
        return false;
    }
    let body: &[u8] = &t[1..t.len()];
    proof {
        assert(body@ =~= money_body(tg));
    }
    let (ip, f): (&[u8], &[u8]) = match find_byte(body, 46) {
        Some(k) => {
            proof {
                lemma_split_dot_at(body@, k as int);
            }
            (&body[0..k], &body[k + 1..body.len()])
        },
        None => {
            proof {
                lemma_split_dot_none(body@);
            }
            (body, &body[0..0])
        },
    };
    proof {
        assert(ip@ =~= split_dot(body@).0);
        match split_dot(body@).1 {
            Some(fs) => {
                assert(f@ =~= fs);
            },
            None => {
                assert(f@ =~= Seq::<u8>::empty());
            },
        }
    }
    any_byte_differs(ip, 0, 48) || any_byte_differs(f, 0, 48)
}

proof fn lemma_digits_val_bound(s: Seq<u8>)
    ensures
        digits_val(s) < pow10(s.len()),
    decreases s.len(),
{
    if s.len() > 0 {
        lemma_digits_val_bound(s.drop_last());
    }
}

proof fn lemma_split_dot_none(b: Seq<u8>)
    requires
        forall|i: int| 0 <= i < b.len() ==> b[i] != 46,
    ensures
        split_dot(b).0 == b,
        split_dot(b).1 is None,
    decreases b.len(),
{
    if b.len() == 0 {
        assert(split_dot(b).0 =~= b);
    } else {
        lemma_split_dot_none(b.drop_first());
        assert(seq![b[0]] + b.drop_first() =~= b);
    }
}

proof fn lemma_split_dot_at(b: Seq<u8>, k: int)
    requires
        0 <= k < b.len(),
        b[k] == 46,
        forall|i: int| 0 <= i < k ==> b[i] != 46,
    ensures
        split_dot(b).0 == b.take(k),
        split_dot(b).1 == Some(b.skip(k + 1)),
    decreases k,
{
    if k == 0 {
        assert(split_dot(b).0 =~= b.take(0));
        assert(b.drop_first() =~= b.skip(1));
    } else {
        let t = b.drop_first();
        lemma_split_dot_at(t, k - 1);
        assert(seq![b[0]] + t.take(k - 1) =~= b.take(k));
        assert(t.skip(k) =~= b.skip(k + 1));
    }
}

impl Money {
    /// Reads a decimal literal, exactly as `spec_money_from_text` describes.
    pub fn from_decimal_string(s: &str) -> (r: Result<Money, MoneyParseError>)
        ensures
            r == spec_money_from_text(s.spec_bytes()),
            r matches Ok(m) ==> m.wf(),
    {
        let bytes: &[u8] = s.as_bytes();
        let (a0, b0) = trim_range(bytes);
        let t: &[u8] = &bytes[a0..b0];
        let ghost tg = trim_spec(bytes@);
        let neg: bool = t.len() > 0 && t[0] == 45;
        let body: &[u8] = if t.len() > 0 && (t[0] == 43 || t[0] == 45) {
            &t[1..t.len()]
        } else {
            t
        };
        proof {
            if t@.len() > 0 && (t@[0] == 43 || t@[0] == 45) {
                assert(body@ =~= money_body(tg));
            }
        }
        let dot: Option<usize> = find_byte(body, 46);
        let has_dot: bool = dot.is_some();
        let (ip, f): (&[u8], &[u8]) = match dot {
            Some(k) => {
                proof {
                    lemma_split_dot_at(body@, k as int);
                }
                (&body[0..k], &body[k + 1..body.len()])
            },
            None => {
                proof {
                    lemma_split_dot_none(body@);
                }
                (body, &body[0..0])
            },
        };
        proof {
            assert(ip@ =~= split_dot(body@).0);
            if dot is Some {
                assert(f@ =~= split_dot(body@).1.unwrap());
            }
        }
        let grammar_ok: bool = check_all_digits(ip) && if has_dot {
            f.len() > 0 && check_all_digits(f)
        } else {
            ip.len() > 0
        };
        if !grammar_ok {
            return Err(MoneyParseError::Malformed);
        }
        let ival: u128 = match digits_to_val(ip, MAX_UNITS as u128) {
            Some(v) => v,
            None => {
                return Err(MoneyParseError::OutOfRange);
            },
        };
        let fl: usize = f.len();
        let f4: &[u8] = if fl >= 4 {
            &f[0..4]
        } else {
            f
        };
        proof {
            if fl >= 4 {
                assert(f4@ =~= f@.take(4));
            }
            assert(all_digits(f4@));
            lemma_digits_val_bound(f4@);
            assert(pow10(0) == 1);
            assert(pow10(1) == 10);
            assert(pow10(2) == 100);
            assert(pow10(3) == 1_000);
            assert(pow10(4) == 10_000);
        }
        let fv_raw: u128 = match digits_to_val(f4, 9_999) {
            Some(v) => v,
            None => {
                proof {
                    assert(false);
                }
                0
            },
        };
        let mult: u128 = if fl >= 4 {
            1
        } else if fl == 3 {
            10
        } else if fl == 2 {
            100
        } else if fl == 1 {
            1_000
        } else {
            10_000
        };
        proof {
            assert(fv_raw * mult <= 9_999 * 10_000) by (nonlinear_arith)
                requires
                    fv_raw <= 9_999,
                    mult <= 10_000,
            {
            }
        }
        let fv: u128 = fv_raw * mult;
        proof {
            assert(fv == frac_units(f@));
        }
        let base: u128 = ival * 10_000 + fv;
        let round: bool = if fl > 4 {
            let d: u8 = f[4];
            d > 53 || (d == 53 && (any_byte_differs(f, 5, 48) || base % 2 == 1))
        } else {
            false
        };
        proof {
            assert(base == digits_val(ip@) * 10_000 + frac_units(f@));
            assert(round == rounds_up(f@, base as nat));
        }
        let mag: u128 = if round {
            base + 1
        } else {
            base
        };
        if mag > MAX_UNITS as u128 {
            return Err(MoneyParseError::OutOfRange);
        }
        if neg {
            Ok(Money { units: -(mag as i128) })
        } else {
            Ok(Money { units: mag as i128 })
        }
    }
}

} // verus!
