use vstd::prelude::*;

use crate::project::{ProjectError, ProjectErrorView};
use crate::text::{msg_timescale, timescale_message};

verus! {

/// A point or a span of time: `value / timescale` seconds.
#[derive(Clone, Copy, Debug, PartialEq, Eq, Structural)]
pub struct RationalTime {
    pub value: i64,
    pub timescale: i32,
}

/// The value of a time on the extended real line, as an IEEE division of
/// `value` by `timescale` gives it: a zero timescale yields an infinity,
/// or no value at all when the numerator is zero as well.
pub enum Extended {
    NegInf,
    Finite(int, int),
    PosInf,
    Undefined,
}

pub open spec fn extended(t: RationalTime) -> Extended {
    if t.timescale > 0 {
        Extended::Finite(t.value as int, t.timescale as int)
    } else if t.timescale < 0 {
        Extended::Finite(-(t.value as int), -(t.timescale as int))
    } else if t.value > 0 {
        Extended::PosInf
    } else if t.value < 0 {
        Extended::NegInf
    } else {
        Extended::Undefined
    }
}

/// `a <= b` on the extended values of two times (false when either is undefined).
pub open spec fn extended_le(a: RationalTime, b: RationalTime) -> bool {
    match (extended(a), extended(b)) {
        (Extended::Undefined, _) => false,
        (_, Extended::Undefined) => false,
        (Extended::NegInf, _) => true,
        (_, Extended::PosInf) => true,
        (Extended::PosInf, _) => false,
        (_, Extended::NegInf) => false,
        (Extended::Finite(n1, d1), Extended::Finite(n2, d2)) => n1 * d2 <= n2 * d1,
    }
}

/// The time is strictly after zero on the extended line.
pub open spec fn is_positive(t: RationalTime) -> bool {
    (t.value > 0 && t.timescale >= 0) || (t.value < 0 && t.timescale < 0)
}

/// Strict order of two times whose timescales are positive.
pub open spec fn time_lt(a: RationalTime, b: RationalTime) -> bool {
    (a.value as int) * (b.timescale as int) < (b.value as int) * (a.timescale as int)
}

/// `ticks / 600` seconds, the resolution at which the editor stores computed times.
pub open spec fn at_ticks(ticks: int) -> RationalTime {
    RationalTime { value: ticks as i64, timescale: 600 }
}

pub fn from_ticks(ticks: i64) -> (t: RationalTime)
    ensures
        t == at_ticks(ticks as int),
{
    RationalTime { value: ticks, timescale: 600 }
}

impl RationalTime {
    /// A time is valid when its timescale is positive.
    pub fn validate(self) -> (r: Result<(), ProjectError>)
        ensures
            r is Ok <==> self.timescale > 0,
            r matches Err(e) ==> e@ == ProjectErrorView::Invalid(msg_timescale()),
    {
        if self.timescale <= 0 {
            return Err(ProjectError::Invalid(timescale_message()));
        }
        Ok(())
    }
}

/// Compares two times as IEEE division of value by timescale would,
/// but on the exact rationals.
pub fn seconds_le(a: RationalTime, b: RationalTime) -> (r: bool)
    ensures
        r == extended_le(a, b),
{
    if (a.timescale == 0 && a.value == 0) || (b.timescale == 0 && b.value == 0) {
        return false;
    }
    if a.timescale == 0 && a.value < 0 {
        return true;
    }
    if b.timescale == 0 && b.value > 0 {
        return true;
    }
    if a.timescale == 0 || b.timescale == 0 {
        return false;
    }
    let (n1, d1): (i128, i128) = if a.timescale > 0 {
        (a.value as i128, a.timescale as i128)
    } else {
        (-(a.value as i128), -(a.timescale as i128))
    };
    let (n2, d2): (i128, i128) = if b.timescale > 0 {
        (b.value as i128, b.timescale as i128)
    } else {
        (-(b.value as i128), -(b.timescale as i128))
    };
    assert(-0x8000_0000_0000_0000 <= n1 <= 0x8000_0000_0000_0000);
    assert(0 < d2 <= 0x8000_0000);
    assert(-0x8000_0000_0000_0000 * 0x8000_0000 <= n1 * d2 <= 0x8000_0000_0000_0000 * 0x8000_0000)
        by (nonlinear_arith)
        requires
            -0x8000_0000_0000_0000 <= n1 <= 0x8000_0000_0000_0000,
            0 < d2 <= 0x8000_0000,
    ;
    assert(-0x8000_0000_0000_0000 * 0x8000_0000 <= n2 * d1 <= 0x8000_0000_0000_0000 * 0x8000_0000)
        by (nonlinear_arith)
        requires
            -0x8000_0000_0000_0000 <= n2 <= 0x8000_0000_0000_0000,
            0 < d1 <= 0x8000_0000,
    ;
    n1 * d2 <= n2 * d1
}

/// A time value times a timescale stays far inside the 128-bit range.
pub proof fn lemma_value_times_scale(v: int, t: int)
    requires
        -0x8000_0000_0000_0000 <= v <= 0x8000_0000_0000_0000,
        -0x8000_0000 <= t <= 0x8000_0000,
    ensures
        -0x4000_0000_0000_0000_0000_0000 <= v * t <= 0x4000_0000_0000_0000_0000_0000,
{
    assert(-0x8000_0000_0000_0000 * 0x8000_0000 <= v * t <= 0x8000_0000_0000_0000 * 0x8000_0000)
        by (nonlinear_arith)
        requires
            -0x8000_0000_0000_0000 <= v <= 0x8000_0000_0000_0000,
            -0x8000_0000 <= t <= 0x8000_0000,
    ;
}

/// Strict order of two times with positive timescales, exact.
pub fn seconds_lt(a: RationalTime, b: RationalTime) -> (r: bool)
    requires
        a.timescale > 0,
        b.timescale > 0,
    ensures
        r == time_lt(a, b),
{
    proof {
        lemma_value_times_scale(a.value as int, b.timescale as int);
        lemma_value_times_scale(b.value as int, a.timescale as int);
    }
    let l: i128 = (a.value as i128) * (b.timescale as i128);
    let rr: i128 = (b.value as i128) * (a.timescale as i128);
    l < rr
}

} // verus!
