//! Battery estimation: voltage from ADC samples, charge percentage from a
//! LiPo discharge curve, and exponential smoothing of the percentage.

use crate::firmware::board;
use vstd::prelude::*;

verus! {

/// Battery state as shown and reported.
#[derive(Clone, Copy, Debug)]
pub struct BatteryStatus {
    /// Battery voltage in mV.
    pub voltage_mv: u16,
    /// Charge percentage.
    pub percentage: u8,
    /// Whether the battery is charging.
    pub is_charging: bool,
}

impl Default for BatteryStatus {
    fn default() -> (r: Self)
        ensures
            r.voltage_mv == 0,
            r.percentage == 0,
            !r.is_charging,
    {
        BatteryStatus { voltage_mv: 0, percentage: 0, is_charging: false }
    }
}

/// Number of points of the discharge curve.
pub const CURVE_POINTS: usize = 12;

/// Voltage (mV) of point `i` of the discharge curve; strictly decreasing in `i`.
pub open spec fn curve_mv(i: int) -> u16 {
    if i == 0 {
        4100
    } else if i == 1 {
        3980
    } else if i == 2 {
        3900
    } else if i == 3 {
        3850
    } else if i == 4 {
        3800
    } else if i == 5 {
        3770
    } else if i == 6 {
        3740
    } else if i == 7 {
        3700
    } else if i == 8 {
        3660
    } else if i == 9 {
        3630
    } else if i == 10 {
        3480
    } else {
        3300
    }
}

/// Charge percentage of point `i` of the discharge curve; decreasing in `i`.
pub open spec fn curve_pct(i: int) -> u8 {
    if i == 0 {
        100
    } else if i == 1 {
        90
    } else if i == 2 {
        80
    } else if i == 3 {
        70
    } else if i == 4 {
        60
    } else if i == 5 {
        50
    } else if i == 6 {
        40
    } else if i == 7 {
        30
    } else if i == 8 {
        20
    } else if i == 9 {
        10
    } else if i == 10 {
        5
    } else {
        0
    }
}

/// The linear interpolation between curve points `i` and `i + 1` at `v`.
pub open spec fn interpolate(v: u16, i: int) -> int {
    curve_pct(i + 1) + (v - curve_mv(i + 1)) * (curve_pct(i) - curve_pct(i + 1)) / (curve_mv(i)
        - curve_mv(i + 1))
}

/// The first segment from `i` on whose lower end lies at or below `v`.
pub open spec fn segment_from(v: u16, i: int) -> int
    decreases CURVE_POINTS - i,
{
    if i >= CURVE_POINTS - 1 {
        CURVE_POINTS - 1
    } else if v >= curve_mv(i + 1) {
        i
    } else {
        segment_from(v, i + 1)
    }
}

/// The charge percentage for a battery voltage: 100 at or above the top of the
/// curve, 0 at or below its bottom, linear between neighbouring points.
pub open spec fn percentage_for(v: u16) -> u8 {
    if v >= curve_mv(0) {
        curve_pct(0)
    } else if v <= curve_mv(CURVE_POINTS - 1) {
        curve_pct(CURVE_POINTS - 1)
    } else {
        interpolate(v, segment_from(v, 0)) as u8
    }
}

/// Point `i` of the discharge curve.
fn curve_point(i: usize) -> (r: (u16, u8))
    requires
        i < CURVE_POINTS,
    ensures
        r.0 == curve_mv(i as int),
        r.1 == curve_pct(i as int),
{
    match i {
        0 => (4100, 100),
        1 => (3980, 90),
        2 => (3900, 80),
        3 => (3850, 70),
        4 => (3800, 60),
        5 => (3770, 50),
        6 => (3740, 40),
        7 => (3700, 30),
        8 => (3660, 20),
        9 => (3630, 10),
        10 => (3480, 5),
        _ => (3300, 0),
    }
}

/// Within segment `i`, the interpolation lies between the segment's end percentages.
proof fn lemma_interpolate_bounds(v: u16, i: int)
    requires
        0 <= i < CURVE_POINTS - 1,
        curve_mv(i + 1) <= v < curve_mv(i),
    ensures
        curve_pct(i + 1) <= interpolate(v, i) <= curve_pct(i),
{
    let vr = curve_mv(i) - curve_mv(i + 1);
    let pr = curve_pct(i) - curve_pct(i + 1);
    let off = v - curve_mv(i + 1);
    assert(0 <= off < vr);
    assert(0 <= pr);
    assert(0 <= off * pr / vr <= pr) by (nonlinear_arith)
        requires
            0 <= off < vr,
            0 <= pr,
    {
        assert(off * pr <= vr * pr);
        vstd::arithmetic::div_mod::lemma_div_is_ordered(off * pr, vr * pr, vr);
        vstd::arithmetic::div_mod::lemma_div_multiples_vanish(pr, vr);
    }
}

/// The segment found for a voltage inside the curve brackets that voltage.
proof fn lemma_segment_from(v: u16, i: int)
    requires
        0 <= i < CURVE_POINTS - 1,
        curve_mv(CURVE_POINTS - 1) < v < curve_mv(i),
    ensures
        i <= segment_from(v, i) < CURVE_POINTS - 1,
        curve_mv(segment_from(v, i) + 1) <= v < curve_mv(segment_from(v, i)),
    decreases CURVE_POINTS - i,
{
    if v < curve_mv(i + 1) {
        lemma_segment_from(v, i + 1);
    }
}

/// Battery percentage from voltage (lookup table + linear interpolation).
pub fn calc_percentage(voltage_mv: u16) -> (r: u8)
    ensures
        r == percentage_for(voltage_mv),
        r <= 100,
{
    let (top_mv, top_pct) = curve_point(0);
    if voltage_mv >= top_mv {
        return top_pct;
    }
    let last = CURVE_POINTS - 1;
    let (bottom_mv, bottom_pct) = curve_point(last);
    if voltage_mv <= bottom_mv {
        return bottom_pct;
    }
    proof {
        lemma_segment_from(voltage_mv, 0);
    }
    let mut i: usize = 0;
    while i < CURVE_POINTS - 1
        invariant
            i < CURVE_POINTS - 1,
            curve_mv(CURVE_POINTS - 1) < voltage_mv < curve_mv(i as int),
            segment_from(voltage_mv, 0) == segment_from(voltage_mv, i as int),
        decreases CURVE_POINTS - i,
    {
        let (v_high, p_high) = curve_point(i);
        let (v_low, p_low) = curve_point(i + 1);
        if voltage_mv >= v_low {
            proof {
                lemma_interpolate_bounds(voltage_mv, i as int);
            }
            let v_range = (v_high - v_low) as u32;
            let p_range = (p_high - p_low) as u32;
            let v_offset = (voltage_mv - v_low) as u32;
            assert(v_offset * p_range <= 1000 * 100) by (nonlinear_arith)
                requires
                    v_offset <= 1000,
                    p_range <= 100,
            ;
            return (p_low as u32 + v_offset * p_range / v_range) as u8;
        }
        i = i + 1;
    }
    0
}

/// Within the curve, the percentage lies between the ends of the voltage's segment.
proof fn lemma_percentage_in_segment(v: u16)
    requires
        curve_mv(CURVE_POINTS - 1) < v < curve_mv(0),
    ensures
        curve_pct(segment_from(v, 0) + 1) <= percentage_for(v) <= curve_pct(segment_from(v, 0)),
{
    lemma_segment_from(v, 0);
    lemma_interpolate_bounds(v, segment_from(v, 0));
}

/// The curve's percentages decrease along the curve.
proof fn lemma_curve_pct_decreasing(i: int, j: int)
    requires
        0 <= i <= j < CURVE_POINTS,
    ensures
        curve_pct(j) <= curve_pct(i),
{
}

/// The curve's voltages decrease along the curve.
proof fn lemma_curve_mv_decreasing(i: int, j: int)
    requires
        0 <= i <= j < CURVE_POINTS,
    ensures
        curve_mv(j) <= curve_mv(i),
{
}

/// A higher voltage never gives a lower percentage, and every percentage is at most 100.
pub proof fn lemma_percentage_monotonic(v1: u16, v2: u16)
    requires
        v1 <= v2,
    ensures
        percentage_for(v1) <= percentage_for(v2),
        percentage_for(v2) <= 100,
{
    let top = curve_mv(0);
    let bottom = curve_mv(CURVE_POINTS - 1);
    if bottom < v2 < top {
        lemma_percentage_in_segment(v2);
    }
    if bottom < v1 < top {
        lemma_percentage_in_segment(v1);
    }
    if bottom < v1 && v2 < top {
        let s1 = segment_from(v1, 0);
        let s2 = segment_from(v2, 0);
        lemma_segment_from(v1, 0);
        lemma_segment_from(v2, 0);
        lemma_interpolate_bounds(v1, s1);
        lemma_interpolate_bounds(v2, s2);
        assert(percentage_for(v1) == interpolate(v1, s1));
        assert(percentage_for(v2) == interpolate(v2, s2));
        if s1 == s2 {
            let vr = curve_mv(s1) - curve_mv(s1 + 1);
            let pr = curve_pct(s1) - curve_pct(s1 + 1);
            let o1 = v1 - curve_mv(s1 + 1);
            let o2 = v2 - curve_mv(s1 + 1);
            assert(interpolate(v1, s1) == curve_pct(s1 + 1) + o1 * pr / vr);
            assert(interpolate(v2, s1) == curve_pct(s1 + 1) + o2 * pr / vr);
            assert(o1 * pr / vr <= o2 * pr / vr) by (nonlinear_arith)
                requires
                    0 <= o1 <= o2,
                    0 <= pr,
                    0 < vr,
            {
                assert(o1 * pr <= o2 * pr);
                vstd::arithmetic::div_mod::lemma_div_is_ordered(o1 * pr, o2 * pr, vr);
            }
        } else {
            assert(s2 < s1) by {
                if s1 < s2 {
                    lemma_curve_mv_decreasing(s1 + 1, s2);
                }
            }
            lemma_curve_pct_decreasing(s2 + 1, s1);
        }
    }
}

/// Battery voltage in mV from raw ADC samples: each sample (negative ones
/// count as 0) is scaled by `RAW_TO_MV_NUM / RAW_TO_MV_DEN`, and the scaled
/// values are averaged.
pub open spec fn sample_mv(raw: i16) -> int {
    (if raw < 0 {
        0
    } else {
        raw as int
    }) * board::BATTERY_RAW_TO_MV_NUM / board::BATTERY_RAW_TO_MV_DEN as int
}

/// Sum of the scaled samples.
pub open spec fn samples_mv_sum(samples: Seq<i16>) -> int
    decreases samples.len(),
{
    if samples.len() == 0 {
        0
    } else {
        samples_mv_sum(samples.drop_last()) + sample_mv(samples.last())
    }
}

/// Average battery voltage (mV) of `BATTERY_SAMPLE_COUNT` raw ADC samples.
pub fn average_voltage_mv(samples: &[i16]) -> (r: u16)
    requires
        samples@.len() == board::BATTERY_SAMPLE_COUNT,
    ensures
        r == samples_mv_sum(samples@) / board::BATTERY_SAMPLE_COUNT as int,
{
    let mut sum: u32 = 0;
    let mut i: usize = 0;
    while i < 4
        invariant
            samples@.len() == 4,
            i <= 4,
            sum == samples_mv_sum(samples@.subrange(0, i as int)),
            sum <= i * 40607,
        decreases 4 - i,
    {
        let s = samples[i];
        let raw: u32 = if s < 0 {
            0
        } else {
            s as u32
        };
        assert(raw * 1269 <= 32767 * 1269) by (nonlinear_arith)
            requires
                raw <= 32767,
        ;
        assert((raw * 1269) / 1024 <= 40607) by (nonlinear_arith)
            requires
                raw * 1269 <= 32767 * 1269,
        ;
        sum = sum + (raw * board::BATTERY_RAW_TO_MV_NUM) / board::BATTERY_RAW_TO_MV_DEN;
        assert(samples@.subrange(0, i + 1).drop_last() =~= samples@.subrange(0, i as int));
        i = i + 1;
    }
    assert(samples@.subrange(0, 4) =~= samples@);
    (sum / board::BATTERY_SAMPLE_COUNT) as u16
}

/// Exponential smoothing of the battery percentage, kept with one decimal
/// (`x10`) so that integer truncation does not accumulate.
pub struct BatterySmoother {
    smooth_pct_x10: u16,
    initialized: bool,
}

impl BatterySmoother {
    #[verifier::type_invariant]
    spec fn inv(self) -> bool {
        self.smooth_pct_x10 <= 2550
    }

    /// The smoothed percentage, times ten.
    pub closed spec fn spec_smooth_x10(self) -> u16 {
        self.smooth_pct_x10
    }

    /// Whether a first reading was taken.
    pub closed spec fn spec_initialized(self) -> bool {
        self.initialized
    }

    /// A smoother that takes its first reading as it is.
    pub fn new() -> (r: Self)
        ensures
            r.spec_smooth_x10() == 0,
            !r.spec_initialized(),
    {
        BatterySmoother { smooth_pct_x10: 0, initialized: false }
    }

    /// A smoother that already holds the percentage `pct`.
    pub fn starting_at(pct: u8) -> (r: Self)
        ensures
            r.spec_smooth_x10() == pct * 10,
            r.spec_initialized(),
    {
        BatterySmoother { smooth_pct_x10: pct as u16 * 10, initialized: true }
    }

    /// Feed a raw percentage; returns the percentage to show. While charging,
    /// and on the first reading, the raw value is taken as it is; otherwise
    /// `smooth = (raw * 30 + smooth * 7 + 5) / 10` and the shown value is
    /// `smooth / 10`, rounded.
    pub fn update(&mut self, raw_pct: u8, is_charging: bool) -> (r: u8)
        ensures
            (is_charging || !old(self).spec_initialized()) ==> (r == raw_pct
                && final(self).spec_smooth_x10() == raw_pct * 10),
            !(is_charging || !old(self).spec_initialized()) ==> (final(self).spec_smooth_x10() == (
            raw_pct * 30 + old(self).spec_smooth_x10() * 7 + 5) / 10 && r == (
            final(self).spec_smooth_x10() + 5) / 10),
            final(self).spec_initialized(),
    {
        proof {
            use_type_invariant(&*self);
        }
        let r = if is_charging || !self.initialized {
            self.smooth_pct_x10 = raw_pct as u16 * 10;
            raw_pct
        } else {
            let s = (raw_pct as u16 * 10 * 3 + self.smooth_pct_x10 * 7 + 5) / 10;
            self.smooth_pct_x10 = s;
            ((s + 5) / 10) as u8
        };
        self.initialized = true;
        r
    }
}

/// Smoothing keeps a percentage of at most 100 at most 100.
pub proof fn lemma_smoothing_bounded(raw_pct: u8, smooth_x10: u16)
    requires
        raw_pct <= 100,
        smooth_x10 <= 1000,
    ensures
        (raw_pct * 30 + smooth_x10 * 7 + 5) / 10 <= 1000,
        ((raw_pct * 30 + smooth_x10 * 7 + 5) / 10 + 5) / 10 <= 100,
{
}

/// The curve points are those of the LiPo discharge table.
proof fn lemma_curve_is_table(j: int)
    requires
        0 <= j < CURVE_POINTS,
    ensures
        curve_mv(j) == seq![4100int, 3980, 3900, 3850, 3800, 3770, 3740, 3700, 3660, 3630, 3480, 3300][j],
        curve_pct(j) == seq![100int, 90, 80, 70, 60, 50, 40, 30, 20, 10, 5, 0][j],
{
    let mv = seq![4100int, 3980, 3900, 3850, 3800, 3770, 3740, 3700, 3660, 3630, 3480, 3300];
    let pc = seq![100int, 90, 80, 70, 60, 50, 40, 30, 20, 10, 5, 0];
    if j == 0 {
        assert(mv[0] == 4100 && pc[0] == 100);
    } else if j == 1 {
        assert(mv[1] == 3980 && pc[1] == 90);
    } else if j == 2 {
        assert(mv[2] == 3900 && pc[2] == 80);
    } else if j == 3 {
        assert(mv[3] == 3850 && pc[3] == 70);
    } else if j == 4 {
        assert(mv[4] == 3800 && pc[4] == 60);
    } else if j == 5 {
        assert(mv[5] == 3770 && pc[5] == 50);
    } else if j == 6 {
        assert(mv[6] == 3740 && pc[6] == 40);
    } else if j == 7 {
        assert(mv[7] == 3700 && pc[7] == 30);
    } else if j == 8 {
        assert(mv[8] == 3660 && pc[8] == 20);
    } else if j == 9 {
        assert(mv[9] == 3630 && pc[9] == 10);
    } else if j == 10 {
        assert(mv[10] == 3480 && pc[10] == 5);
    } else {
        assert(mv[11] == 3300 && pc[11] == 0);
    }
}

/// The percentage follows the LiPo discharge table (4100 mV 100%, 3980 90%,
/// 3900 80%, 3850 70%, 3800 60%, 3770 50%, 3740 40%, 3700 30%, 3660 20%,
/// 3630 10%, 3480 5%, 3300 0%): 100% at or above its top, 0% at or below its
/// bottom, and between two neighbouring points the linear interpolation,
/// rounded down.
pub proof fn lemma_discharge_curve(v: u16, i: int)
    ensures
        v >= 4100 ==> percentage_for(v) == 100,
        v <= 3300 ==> percentage_for(v) == 0,
        0 <= i < 11 && seq![4100int, 3980, 3900, 3850, 3800, 3770, 3740, 3700, 3660, 3630, 3480, 3300][i + 1] <= v < seq![4100int, 3980, 3900, 3850, 3800, 3770, 3740, 3700, 3660, 3630, 3480, 3300][i] ==> percentage_for(v) == seq![100int, 90, 80, 70, 60, 50, 40, 30, 20, 10, 5, 0][i + 1]
            + (v - seq![4100int, 3980, 3900, 3850, 3800, 3770, 3740, 3700, 3660, 3630, 3480, 3300][i + 1]) * (seq![100int, 90, 80, 70, 60, 50, 40, 30, 20, 10, 5, 0][i] - seq![100int, 90, 80, 70, 60, 50, 40, 30, 20, 10, 5, 0][i + 1]) / (seq![4100int, 3980, 3900, 3850, 3800, 3770, 3740, 3700, 3660, 3630, 3480, 3300][i] - seq![4100int, 3980, 3900, 3850, 3800, 3770, 3740, 3700, 3660, 3630, 3480, 3300][i + 1]),
{
    lemma_curve_is_table(0);
    lemma_curve_is_table(11);
    if 0 <= i < 11 && curve_mv(i + 1) <= v < curve_mv(i) {
        lemma_curve_is_table(i);
        lemma_curve_is_table(i + 1);
        if v > curve_mv(11) {
            lemma_segment_from(v, 0);
            let k = segment_from(v, 0);
            if k < i {
                lemma_curve_mv_decreasing(k + 1, i);
            } else if k > i {
                lemma_curve_mv_decreasing(i + 1, k);
            }
            assert(k == i);
            lemma_curve_mv_decreasing(0, i);
            lemma_interpolate_bounds(v, i);
            assert(percentage_for(v) == interpolate(v, i));
        } else {
            assert(i == 10);
        }
    } else if 0 <= i < 11 {
        lemma_curve_is_table(i);
        lemma_curve_is_table(i + 1);
    }
}

/// At each point of the discharge table the percentage is the table's.
pub proof fn lemma_discharge_curve_points(i: int)
    requires
        0 <= i < 12,
    ensures
        percentage_for(seq![4100int, 3980, 3900, 3850, 3800, 3770, 3740, 3700, 3660, 3630, 3480, 3300][i] as u16) == seq![100int, 90, 80, 70, 60, 50, 40, 30, 20, 10, 5, 0][i],
{
    lemma_curve_is_table(i);
    if i == 0 {
        lemma_discharge_curve(4100, 0);
    } else {
        lemma_curve_is_table(i - 1);
        lemma_discharge_curve(curve_mv(i), i - 1);
    }
}

} // verus!
