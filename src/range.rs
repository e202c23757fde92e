use vstd::prelude::*;

use crate::types::SparkError;

verus! {

/// The bit that carries the sign of an IEEE-754 double.
pub const SIGN_BIT: u64 = 0x8000_0000_0000_0000;

/// One unit of the exponent field of an IEEE-754 double.
pub const EXPONENT_UNIT: u64 = 0x10_0000_0000_0000;

/// The exponent field value shared by infinities and NaNs.
pub const EXPONENT_SPECIAL: u64 = 0x7FF;

/// A double-precision sample, held as its IEEE-754 bit pattern.
#[derive(Clone, Copy, Debug, PartialEq, Eq)]
pub struct Sample {
    pub bits: u64,
}

/// The exponent field of a bit pattern.
pub open spec fn exponent_of(bits: u64) -> int {
    (bits / EXPONENT_UNIT) as int % 0x800
}

/// A bit pattern denotes a finite double (neither infinite nor NaN).
pub open spec fn finite_bits(bits: u64) -> bool {
    exponent_of(bits) != EXPONENT_SPECIAL as int
}

/// The position of a double in IEEE-754 total order: non-negative doubles
/// order by their bit patterns, negative ones by reversed magnitude, and
/// `-0.0` comes just before `+0.0`.
pub open spec fn order_key(bits: u64) -> int {
    if bits < SIGN_BIT {
        bits as int
    } else {
        -((bits - SIGN_BIT) as int) - 1
    }
}

/// Both patterns denote a zero (of either sign).
pub open spec fn both_zero(a: u64, b: u64) -> bool {
    (a == 0 || a == SIGN_BIT) && (b == 0 || b == SIGN_BIT)
}

impl Sample {
    pub open spec fn is_finite_spec(self) -> bool {
        finite_bits(self.bits)
    }

    pub open spec fn key(self) -> int {
        order_key(self.bits)
    }

    /// The two samples are equal as numbers (`-0.0` equals `+0.0`).
    pub open spec fn same_value(self, other: Sample) -> bool {
        self.bits == other.bits || both_zero(self.bits, other.bits)
    }

    /// Wraps a bit pattern.
    pub fn from_bits(bits: u64) -> (r: Sample)
        ensures
            r.bits == bits,
    {
        Sample { bits }
    }

    /// The bit pattern.
    pub fn to_bits(&self) -> (r: u64)
        ensures
            r == self.bits,
    {
        self.bits
    }

    /// Whether the sample is neither infinite nor NaN.
    pub fn is_finite(&self) -> (r: bool)
        ensures
            r == self.is_finite_spec(),
    {
        (self.bits / EXPONENT_UNIT) % 0x800 != EXPONENT_SPECIAL
    }

    /// The position of the sample in total order, as an integer.
    pub fn order_key(&self) -> (r: i128)
        ensures
            r as int == self.key(),
    {
        if self.bits < SIGN_BIT {
            self.bits as i128
        } else {
            -((self.bits - SIGN_BIT) as i128) - 1
        }
    }

    /// Whether `self` comes strictly before `other` in total order.
    pub fn precedes(&self, other: &Sample) -> (r: bool)
        ensures
            r == (self.key() < other.key()),
    {
        self.order_key() < other.order_key()
    }

    /// Whether the two samples are equal as numbers.
    pub fn same_value_as(&self, other: &Sample) -> (r: bool)
        ensures
            r == self.same_value(*other),
    {
        self.bits == other.bits || ((self.bits == 0 || self.bits == SIGN_BIT) && (other.bits == 0
            || other.bits == SIGN_BIT))
    }
}

/// Every sample of the sequence is finite.
pub open spec fn all_finite(s: Seq<Sample>) -> bool {
    forall|i: int| 0 <= i < s.len() ==> #[trigger] s[i].is_finite_spec()
}

/// `m` is a least element of the non-empty sequence, in total order.
pub open spec fn is_least(s: Seq<Sample>, m: Sample) -> bool {
    &&& s.contains(m)
    &&& forall|i: int| 0 <= i < s.len() ==> m.key() <= #[trigger] s[i].key()
}

/// `m` is a greatest element of the non-empty sequence, in total order.
pub open spec fn is_greatest(s: Seq<Sample>, m: Sample) -> bool {
    &&& s.contains(m)
    &&& forall|i: int| 0 <= i < s.len() ==> #[trigger] s[i].key() <= m.key()
}

/// The least and the greatest sample, in total order.
fn extremes(numbers: &[Sample]) -> (r: (Sample, Sample))
    requires
        numbers@.len() > 0,
    ensures
        is_least(numbers@, r.0),
        is_greatest(numbers@, r.1),
{
    let mut lo_at: usize = 0;
    let mut hi_at: usize = 0;
    let mut i: usize = 1;
    while i < numbers.len()
        invariant
            1 <= i <= numbers@.len(),
            lo_at < i,
            hi_at < i,
            forall|j: int| 0 <= j < i ==> numbers@[lo_at as int].key() <= #[trigger] numbers@[j].key(),
            forall|j: int| 0 <= j < i ==> #[trigger] numbers@[j].key() <= numbers@[hi_at as int].key(),
        decreases numbers@.len() - i,
    {
        if numbers[i].precedes(&numbers[lo_at]) {
            lo_at = i;
        }
        if numbers[hi_at].precedes(&numbers[i]) {
            hi_at = i;
        }
        i = i + 1;
    }
    let lo = numbers[lo_at];
    let hi = numbers[hi_at];
    assert(numbers@[lo_at as int] == lo);
    assert(numbers@[hi_at as int] == hi);
    (lo, hi)
}

/// Whether every sample is finite.
fn all_samples_finite(numbers: &[Sample]) -> (r: bool)
    ensures
        r == all_finite(numbers@),
{
    let mut i: usize = 0;
    while i < numbers.len()
        invariant
            0 <= i <= numbers@.len(),
            forall|j: int| 0 <= j < i ==> #[trigger] numbers@[j].is_finite_spec(),
        decreases numbers@.len() - i,
    {
        if !numbers[i].is_finite() {
            return false;
        }
        i = i + 1;
    }
    true
}

/// The range `(min, max)` to normalise the samples against: each bound is its
/// override, verbatim, where one is given, else the least (greatest) sample in
/// total order. Every sample must be finite.
pub fn min_max_for_data(numbers: &[Sample], min_opt: Option<Sample>, max_opt: Option<Sample>) -> (r:
    Result<(Sample, Sample), SparkError>)
    ensures
        !all_finite(numbers@) <==> r == Err::<(Sample, Sample), SparkError>(SparkError::NonFinite),
        (all_finite(numbers@) && numbers@.len() == 0 && (min_opt is None || max_opt is None)) <==> r
            == Err::<(Sample, Sample), SparkError>(SparkError::EmptyInput),
        r is Err ==> r == Err::<(Sample, Sample), SparkError>(SparkError::NonFinite) || r == Err::<
            (Sample, Sample),
            SparkError,
        >(SparkError::EmptyInput),
        numbers@.len() > 0 && all_finite(numbers@) && min_opt is None && max_opt is None ==> r is Ok
            && is_least(numbers@, r->Ok_0.0) && is_greatest(numbers@, r->Ok_0.1),
        numbers@.len() > 0 && all_finite(numbers@) && min_opt is Some && max_opt is None ==> r is Ok
            && r->Ok_0.0 == min_opt->Some_0 && is_greatest(numbers@, r->Ok_0.1),
        numbers@.len() > 0 && all_finite(numbers@) && min_opt is None && max_opt is Some ==> r is Ok
            && is_least(numbers@, r->Ok_0.0) && r->Ok_0.1 == max_opt->Some_0,
        r is Ok ==> match min_opt {
            Some(m) => r->Ok_0.0 == m,
            None => is_least(numbers@, r->Ok_0.0),
        },
        r is Ok ==> match max_opt {
            Some(m) => r->Ok_0.1 == m,
            None => is_greatest(numbers@, r->Ok_0.1),
        },
{
    if !all_samples_finite(numbers) {
        return Err(SparkError::NonFinite);
    }
    match (min_opt, max_opt) {
        (Some(lo), Some(hi)) => Ok((lo, hi)),
        _ => {
            if numbers.len() == 0 {
                return Err(SparkError::EmptyInput);
            }
            let (lo, hi) = extremes(numbers);
            let min = match min_opt {
                Some(m) => m,
                None => lo,
            };
            let max = match max_opt {
                Some(m) => m,
                None => hi,
            };
            Ok((min, max))
        },
    }
}

} // verus!
