use vstd::prelude::*;
use vstd::string::*;

use crate::project::{Clip, ClipView, FIXED_ONE};
use crate::time::{lemma_value_times_scale, RationalTime};

verus! {

pub open spec fn msg_split_inside() -> Seq<char> {
    "split point must be inside clip"@
}

pub open spec fn msg_split_range() -> Seq<char> {
    "split point is outside the supported numeric range"@
}

pub open spec fn in_i128(x: int) -> bool {
    i128::MIN <= x <= i128::MAX
}

/// `n / d` rounded to the nearest integer, halves away from zero (`d > 0`).
pub open spec fn round_half_away(n: int, d: int) -> int {
    if n >= 0 {
        (2 * n + d) / (2 * d)
    } else {
        -((-2 * n + d) / (2 * d))
    }
}

/// The split point as a fraction with a positive denominator: a negative
/// timescale stands for the same number of seconds with both signs flipped.
pub open spec fn at_value(at: RationalTime) -> int {
    if at.timescale < 0 {
        -(at.value as int)
    } else {
        at.value as int
    }
}

pub open spec fn at_scale(at: RationalTime) -> int {
    if at.timescale < 0 {
        -(at.timescale as int)
    } else {
        at.timescale as int
    }
}

/// Offset of the split point from the clip's start on the timeline,
/// `offset_num / offset_den` seconds.
pub open spec fn offset_num(c: ClipView, at: RationalTime) -> int {
    at_value(at) * (c.timeline_start.timescale as int) - (c.timeline_start.value as int) * at_scale(at)
}

pub open spec fn offset_den(c: ClipView, at: RationalTime) -> int {
    at_scale(at) * (c.timeline_start.timescale as int)
}

/// Length of the clip's source range, `span_num / span_den` seconds.
pub open spec fn span_num(c: ClipView) -> int {
    (c.source_out.value as int) * (c.source_in.timescale as int) - (c.source_in.value as int) * (c.source_out.timescale as int)
}

pub open spec fn span_den(c: ClipView) -> int {
    (c.source_out.timescale as int) * (c.source_in.timescale as int)
}

/// `(offset + 1/30) * span_den * rate * 30 * offset_den`, scaled, and
/// `duration` brought to the same scale: the split lies inside the clip
/// when the first is below the second (the clip plays its span at
/// `playback_rate / FIXED_ONE` times normal speed).
pub open spec fn margin_lhs(c: ClipView, at: RationalTime) -> int {
    (30 * offset_num(c, at) + offset_den(c, at)) * span_den(c) * (c.playback_rate as int)
}

pub open spec fn margin_rhs(c: ClipView, at: RationalTime) -> int {
    30 * span_num(c) * (FIXED_ONE as int) * offset_den(c, at)
}

/// The split point lies more than a frame at 30 fps after the clip's
/// start and more than one before its end.
pub open spec fn split_inside(c: ClipView, at: RationalTime) -> bool {
    30 * offset_num(c, at) > offset_den(c, at) && margin_lhs(c, at) < margin_rhs(c, at)
}

/// The source time of the split, `split_num / split_den` seconds times 600:
/// the source in-point plus the offset scaled by the playback rate.
pub open spec fn split_num(c: ClipView, at: RationalTime) -> int {
    600 * ((c.source_in.value as int) * offset_den(c, at) * (FIXED_ONE as int)
        + offset_num(c, at) * (c.playback_rate as int) * (c.source_in.timescale as int))
}

pub open spec fn split_den(c: ClipView, at: RationalTime) -> int {
    (c.source_in.timescale as int) * offset_den(c, at) * (FIXED_ONE as int)
}

/// The intermediate products the splitter forms fit in 128 bits.
pub open spec fn margin_fits(c: ClipView, at: RationalTime) -> bool {
    &&& in_i128((30 * offset_num(c, at) + offset_den(c, at)) * span_den(c))
    &&& in_i128(margin_lhs(c, at))
    &&& in_i128(margin_rhs(c, at))
}

pub open spec fn split_fits(c: ClipView, at: RationalTime) -> bool {
    let n = split_num(c, at);
    let d = split_den(c, at);
    &&& in_i128((c.source_in.value as int) * offset_den(c, at) * (FIXED_ONE as int))
    &&& in_i128(offset_num(c, at) * (c.playback_rate as int))
    &&& in_i128(offset_num(c, at) * (c.playback_rate as int) * (c.source_in.timescale as int))
    &&& in_i128(n / 600)
    &&& in_i128(n)
    &&& in_i128(2 * n)
    &&& in_i128(if n >= 0 { 2 * n + d } else { -2 * n + d })
    &&& i64::MIN <= round_half_away(n, d) <= i64::MAX
}

/// Where splitting `c` at timeline time `at` puts the cut in the source,
/// in 1/600 s ticks, or why the split is refused. The split point is read
/// as its value divided by its timescale (a negative timescale flips both
/// signs). The point 0/0 is no number at all: no bound refuses it, and the
/// cut it yields is read as tick 0 (as a float that is not a number is
/// converted to an integer). Any other zero timescale, or a clip with a
/// non-positive timescale or rate, is refused as outside the clip. A split
/// must fall inside the clip, and is refused when the exact arithmetic
/// leaves 128 bits.
pub open spec fn split_plan(c: ClipView, at: RationalTime) -> Result<int, Seq<char>> {
    if at.timescale == 0 && at.value == 0 {
        Ok(0)
    } else if at.timescale == 0 || c.timeline_start.timescale <= 0 || c.source_in.timescale <= 0
        || c.source_out.timescale <= 0 || c.playback_rate <= 0 {
        Err(msg_split_inside())
    } else if !margin_fits(c, at) {
        Err(msg_split_range())
    } else if !split_inside(c, at) {
        Err(msg_split_inside())
    } else if !split_fits(c, at) {
        Err(msg_split_range())
    } else {
        Ok(round_half_away(split_num(c, at), split_den(c, at)))
    }
}

proof fn lemma_bound_mul(a: int, b: int, x: int, y: int)
    requires
        -x <= a <= x,
        -y <= b <= y,
        0 <= x,
        0 <= y,
    ensures
        -(x * y) <= a * b <= x * y,
{
    assert(-(x * y) <= a * b <= x * y) by (nonlinear_arith)
        requires
            -x <= a <= x,
            -y <= b <= y,
            0 <= x,
            0 <= y,
    ;
}

fn times(a: i128, b: i128) -> (r: Option<i128>)
    ensures
        r == (if in_i128(a * b) { Some((a * b) as i128) } else { None::<i128> }),
{
    a.checked_mul(b)
}

fn plus(a: i128, b: i128) -> (r: Option<i128>)
    ensures
        r == (if in_i128(a + b) { Some((a + b) as i128) } else { None::<i128> }),
{
    a.checked_add(b)
}

/// Computes `split_plan` for a clip.
pub fn split_source(c: &Clip, at: RationalTime) -> (r: Result<i64, String>)
    ensures
        match split_plan(c@, at) {
            Ok(t) => r == Ok::<i64, String>(t as i64),
            Err(m) => r matches Err(s) && s@ == m,
        },
{
    let s = c.timeline_start;
    let i = c.source_in;
    let o = c.source_out;
    let rate = c.playback_rate;
    if at.timescale == 0 && at.value == 0 {
        return Ok(0);
    }
    if at.timescale == 0 || s.timescale <= 0 || i.timescale <= 0 || o.timescale <= 0 || rate <= 0 {
        return Err(String::from_str("split point must be inside clip"));
    }
    let ghost cv = c@;
    let (av, ats): (i128, i128) = if at.timescale < 0 {
        (-(at.value as i128), -(at.timescale as i128))
    } else {
        (at.value as i128, at.timescale as i128)
    };
    assert(av == at_value(at) && ats == at_scale(at));
    proof {
        lemma_value_times_scale(av as int, s.timescale as int);
        lemma_value_times_scale(s.value as int, ats as int);
        lemma_value_times_scale(o.value as int, i.timescale as int);
        lemma_value_times_scale(i.value as int, o.timescale as int);
        lemma_bound_mul(ats as int, s.timescale as int, 0x8000_0000, 0x8000_0000);
        lemma_bound_mul(o.timescale as int, i.timescale as int, 0x8000_0000, 0x8000_0000);
    }
    let n1: i128 = av * (s.timescale as i128) - (s.value as i128) * ats;
    let d1: i128 = ats * (s.timescale as i128);
    let n2: i128 = (o.value as i128) * (i.timescale as i128) - (i.value as i128) * (o.timescale as i128);
    let d2: i128 = (o.timescale as i128) * (i.timescale as i128);
    assert(n1 == offset_num(cv, at) && d1 == offset_den(cv, at));
    assert(n2 == span_num(cv) && d2 == span_den(cv));
    assert(0 < d1 <= 0x4000_0000_0000_0000) by (nonlinear_arith)
        requires
            0 < ats <= 0x8000_0000,
            0 < s.timescale <= 0x7fff_ffff,
            d1 == (ats as int) * (s.timescale as int),
    ;
    proof {
        lemma_bound_mul(30, n2 as int, 30, 0x8000_0000_0000_0000_0000_0000);
        lemma_bound_mul(30 * (n2 as int), FIXED_ONE as int, (30 * 0x8000_0000_0000_0000_0000_0000) as int, FIXED_ONE as int);
    }
    let x1: i128 = 30 * n1 + d1;
    let y1: i128 = 30 * n2 * (FIXED_ONE as i128);
    let x2 = times(x1, d2);
    let x3 = match x2 {
        Some(v) => times(v, rate as i128),
        None => None,
    };
    let y2 = times(y1, d1);
    let (lhs, rhs) = match (x2, x3, y2) {
        (Some(_), Some(l), Some(r)) => (l, r),
        _ => {
            return Err(String::from_str("split point is outside the supported numeric range"));
        },
    };
    assert(lhs == margin_lhs(cv, at) && rhs == margin_rhs(cv, at));
    if !(30 * n1 > d1 && lhs < rhs) {
        return Err(String::from_str("split point must be inside clip"));
    }
    proof {
        lemma_value_times_scale(i.value as int, 0x4000_0000);
        lemma_bound_mul(i.value as int, d1 as int, 0x8000_0000_0000_0000, 0x4000_0000_0000_0000);
        lemma_bound_mul(i.timescale as int, d1 as int, 0x8000_0000, 0x4000_0000_0000_0000);
        lemma_bound_mul((i.timescale as int) * (d1 as int), FIXED_ONE as int, (0x8000_0000 * 0x4000_0000_0000_0000) as int, FIXED_ONE as int);
    }
    let z1: i128 = (i.value as i128) * d1;
    let den: i128 = (i.timescale as i128) * d1 * (FIXED_ONE as i128);
    assert(den == split_den(cv, at));
    assert(den > 0) by (nonlinear_arith)
        requires
            i.timescale > 0,
            d1 > 0,
            den == (i.timescale as int) * d1 * (FIXED_ONE as int),
    ;
    let z2 = times(z1, FIXED_ONE as i128);
    let w1 = times(n1, rate as i128);
    let w2 = match w1 {
        Some(v) => times(v, i.timescale as i128),
        None => None,
    };
    let z3 = match (z2, w2) {
        (Some(a), Some(b)) => plus(a, b),
        _ => None,
    };
    let num = match z3 {
        Some(v) => times(600, v),
        None => None,
    };
    let num = match (z2, w1, w2, z3, num) {
        (Some(_), Some(_), Some(_), Some(_), Some(n)) => n,
        _ => {
            return Err(String::from_str("split point is outside the supported numeric range"));
        },
    };
    assert(num == split_num(cv, at));
    let twice = times(2, num);
    let twice = match twice {
        Some(t) => t,
        None => {
            return Err(String::from_str("split point is outside the supported numeric range"));
        },
    };
    let half_up = if num >= 0 {
        plus(twice, den)
    } else {
        plus(-twice, den)
    };
    let half_up = match half_up {
        Some(h) => h,
        None => {
            return Err(String::from_str("split point is outside the supported numeric range"));
        },
    };
    assert(half_up >= 0);
    let q: i128 = half_up / (2 * den);
    let q: i128 = if num >= 0 { q } else { -q };
    assert(q == round_half_away(split_num(cv, at), split_den(cv, at)));
    if q < (i64::MIN as i128) || q > (i64::MAX as i128) {
        return Err(String::from_str("split point is outside the supported numeric range"));
    }
    Ok(q as i64)
}

/// The exact source time of a cut, as the fraction `exact_cut_num /
/// exact_cut_den` seconds, from the raw fields: the clip's source in-point
/// plus the split point's offset from the clip's timeline start, scaled by
/// the playback rate (`playback_rate / FIXED_ONE`).
pub open spec fn exact_cut_num(c: ClipView, at: RationalTime) -> int {
    (c.source_in.value as int) * (at.timescale as int) * (c.timeline_start.timescale as int) * (FIXED_ONE as int)
        + ((at.value as int) * (c.timeline_start.timescale as int) - (c.timeline_start.value as int) * (at.timescale as int))
            * (c.playback_rate as int) * (c.source_in.timescale as int)
}

pub open spec fn exact_cut_den(c: ClipView, at: RationalTime) -> int {
    (c.source_in.timescale as int) * (at.timescale as int) * (c.timeline_start.timescale as int) * (FIXED_ONE as int)
}

proof fn lemma_round_half_away(n: int, d: int)
    requires
        d > 0,
    ensures
        2 * vstd::math::abs(n - round_half_away(n, d) * d) <= d,
{
    if n >= 0 {
        let q = (2 * n + d) / (2 * d);
        vstd::arithmetic::div_mod::lemma_fundamental_div_mod(2 * n + d, 2 * d);
        let r = (2 * n + d) % (2 * d);
        assert(0 <= r < 2 * d);
        let x = q * d;
        assert(2 * n - 2 * x == r - d) by (nonlinear_arith)
            requires
                2 * n + d == (2 * d) * q + r,
                x == q * d,
        ;
        assert(round_half_away(n, d) == q);
    } else {
        let q = (-2 * n + d) / (2 * d);
        vstd::arithmetic::div_mod::lemma_fundamental_div_mod(-2 * n + d, 2 * d);
        let r = (-2 * n + d) % (2 * d);
        assert(0 <= r < 2 * d);
        let x = (-q) * d;
        assert(2 * n - 2 * x == d - r) by (nonlinear_arith)
            requires
                -2 * n + d == (2 * d) * q + r,
                x == (-q) * d,
        ;
        assert(round_half_away(n, d) == -q);
    }
}

/// Where an accepted split cuts: for a split point that is a number (a
/// non-zero timescale), the cut, in 1/600 s ticks, is the exact source time
/// of the split (the source in-point plus the offset from the clip's start,
/// times the playback rate) rounded to the nearest tick: it lies within
/// half a tick of it. So the cut moves with the source in-point, and two
/// clips that differ only there are cut the same distance into their source.
pub proof fn lemma_split_cut(c: ClipView, at: RationalTime)
    ensures
        at.timescale != 0 ==> (split_plan(c, at) matches Ok(t) ==> exact_cut_den(c, at) != 0
            && 2 * vstd::math::abs(600 * exact_cut_num(c, at) - t * exact_cut_den(c, at))
                <= vstd::math::abs(exact_cut_den(c, at))),
{
    if split_plan(c, at) is Ok && at.timescale != 0 {
        let t = split_plan(c, at)->Ok_0;
        let n = split_num(c, at);
        let d = split_den(c, at);
        let big_n = exact_cut_num(c, at);
        let big_d = exact_cut_den(c, at);
        let siv = c.source_in.value as int;
        let sis = c.source_in.timescale as int;
        let av = at.value as int;
        let ats = at.timescale as int;
        let stv = c.timeline_start.value as int;
        let sts = c.timeline_start.timescale as int;
        let r = c.playback_rate as int;
        let f = FIXED_ONE as int;
        assert(t == round_half_away(n, d));
        if ats > 0 {
            assert(n == 600 * big_n) by (nonlinear_arith)
                requires
                    n == 600 * (siv * (ats * sts) * f + (av * sts - stv * ats) * r * sis),
                    big_n == siv * ats * sts * f + (av * sts - stv * ats) * r * sis,
            ;
            assert(d == big_d) by (nonlinear_arith)
                requires
                    d == sis * (ats * sts) * f,
                    big_d == sis * ats * sts * f,
            ;
            assert(d > 0) by (nonlinear_arith)
                requires
                    d == sis * (ats * sts) * f,
                    sis > 0,
                    ats > 0,
                    sts > 0,
                    f > 0,
            ;
            lemma_round_half_away(n, d);
            assert(n - t * d == 600 * big_n - t * big_d);
        } else {
            assert(n == -600 * big_n) by (nonlinear_arith)
                requires
                    n == 600 * (siv * ((-ats) * sts) * f + ((-av) * sts - stv * (-ats)) * r * sis),
                    big_n == siv * ats * sts * f + (av * sts - stv * ats) * r * sis,
            ;
            assert(d == -big_d) by (nonlinear_arith)
                requires
                    d == sis * ((-ats) * sts) * f,
                    big_d == sis * ats * sts * f,
            ;
            assert(d > 0) by (nonlinear_arith)
                requires
                    d == sis * ((-ats) * sts) * f,
                    sis > 0,
                    ats < 0,
                    sts > 0,
                    f > 0,
            ;
            lemma_round_half_away(n, d);
            assert(n - t * d == -(600 * big_n - t * big_d)) by (nonlinear_arith)
                requires
                    n == -600 * big_n,
                    d == -big_d,
            ;
        }
    }
}

} // verus!
