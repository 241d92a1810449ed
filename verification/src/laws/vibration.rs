//! Vibration statistics: what each number says of the samples of its window, and how the
//! sensor's registers are read.

use crate::accelerometer::{axis, axis_value, excursion, found, greatest, least, mean};
use crate::accelerometer::{exact, measures, peak_sq, sample_of, sample_read, sample_result, span};
use crate::accelerometer::{squares, total, variance};
use crate::accelerometer::{BusRequest, InitStage, InitStep, Metrics, Sample};
use crate::accelerometer::{Error, AUTO_INCREMENT, OUT_X_L};
use vstd::prelude::*;

verus! {

// ---------------------------------------------------------------------------
// One axis
// ---------------------------------------------------------------------------
/// The three axes of a sample.
pub proof fn lemma_axes(s: Sample)
    ensures
        axis(s, 0) == s.x_mg,
        axis(s, 1) == s.y_mg,
        axis(s, 2) == s.z_mg,
{
}

/// Every sample adds its value to the sum of an axis, and its square to that of the
/// squares.
pub proof fn lemma_sums_add_up(w: Seq<Sample>, s: Sample, a: int)
    requires
        0 <= a < 3,
    ensures
        total(Seq::empty(), a) == 0,
        squares(Seq::empty(), a) == 0,
        total(w.push(s), a) - total(w, a) == axis(s, a),
        squares(w.push(s), a) - squares(w, a) == axis(s, a) * axis(s, a),
{
    assert(w.push(s).drop_last() =~= w);
}

/// The extremes of an axis bound all its values, and are two of them.
pub proof fn lemma_extremes(w: Seq<Sample>, a: int)
    requires
        w.len() > 0,
        0 <= a < 3,
    ensures
        forall|i: int| 0 <= i < w.len() ==> least(w, a) <= #[trigger] axis(w[i], a) <= greatest(w, a),
        exists|i: int| 0 <= i < w.len() && #[trigger] axis(w[i], a) == least(w, a),
        exists|i: int| 0 <= i < w.len() && #[trigger] axis(w[i], a) == greatest(w, a),
    decreases w.len(),
{
    let before = w.drop_last();
    let last = w.len() - 1;
    assert(axis(w[last], a) == axis(w.last(), a));
    if before.len() > 0 {
        lemma_extremes(before, a);
        assert forall|i: int| 0 <= i < w.len() implies least(w, a) <= #[trigger] axis(w[i], a)
            <= greatest(w, a) by {
            if i < last {
                assert(before[i] == w[i]);
                assert(axis(before[i], a) == axis(w[i], a));
            }
        }
        let i = choose|i: int| 0 <= i < before.len() && #[trigger] axis(before[i], a) == least(
            before,
            a,
        );
        let j = choose|j: int| 0 <= j < before.len() && #[trigger] axis(before[j], a) == greatest(
            before,
            a,
        );
        assert(axis(w[i], a) == axis(before[i], a));
        assert(axis(w[j], a) == axis(before[j], a));
    } else {
        assert(before =~= Seq::empty());
        assert(least(before, a) == i32::MAX && greatest(before, a) == i32::MIN);
    }
}

/// The span is the greatest difference of two samples.
pub proof fn lemma_span_is_the_greatest_difference(w: Seq<Sample>, a: int)
    requires
        w.len() > 0,
        0 <= a < 3,
    ensures
        forall|i: int, j: int|
            0 <= i < w.len() && 0 <= j < w.len() ==> #[trigger] axis(w[i], a) - #[trigger] axis(
                w[j],
                a,
            ) <= span(w, a),
        exists|i: int, j: int|
            0 <= i < w.len() && 0 <= j < w.len() && #[trigger] axis(w[i], a) - #[trigger] axis(
                w[j],
                a,
            ) == span(w, a),
{
    lemma_extremes(w, a);
    let i = choose|i: int| 0 <= i < w.len() && #[trigger] axis(w[i], a) == greatest(w, a);
    let j = choose|j: int| 0 <= j < w.len() && #[trigger] axis(w[j], a) == least(w, a);
    assert(axis(w[i], a) - axis(w[j], a) == span(w, a));
}

/// The mean is the quotient of sum and number, rounded toward zero.
pub proof fn lemma_mean_rounds_toward_zero(w: Seq<Sample>, a: int)
    requires
        w.len() > 0,
        0 <= a < 3,
    ensures
        ({
            let n = w.len() as int;
            let t = total(w, a);
            let m = mean(w, a);
            &&& t >= 0 ==> m * n <= t < (m + 1) * n && m >= 0
            &&& t <= 0 ==> (m - 1) * n < t <= m * n && m <= 0
        }),
{
    let n = w.len() as int;
    let t = total(w, a);
    let m = mean(w, a);
    if t >= 0 {
        assert(m * n <= t < (m + 1) * n && m >= 0) by (nonlinear_arith)
            requires
                m == t / n,
                n > 0,
                t >= 0,
        ;
        if t == 0 {
            assert(m == 0) by (nonlinear_arith)
                requires
                    m == t / n,
                    n > 0,
                    t == 0,
            ;
            assert((m - 1) * n < t <= m * n) by (nonlinear_arith)
                requires
                    m == 0,
                    n > 0,
                    t == 0,
            ;
        }
    } else {
        assert((m - 1) * n < t <= m * n && m <= 0) by (nonlinear_arith)
            requires
                m == -((-t) / n),
                n > 0,
                t < 0,
        ;
    }
}

/// The excursion is the greatest distance of a sample from the mean.
pub proof fn lemma_excursion_is_the_greatest_distance(w: Seq<Sample>, a: int)
    requires
        w.len() > 0,
        0 <= a < 3,
    ensures
        forall|i: int|
            0 <= i < w.len() ==> -excursion(w, a) <= #[trigger] axis(w[i], a) - mean(w, a)
                <= excursion(w, a),
        exists|i: int|
            0 <= i < w.len() && (#[trigger] axis(w[i], a) - mean(w, a) == excursion(w, a) || mean(
                w,
                a,
            ) - axis(w[i], a) == excursion(w, a)),
{
    lemma_extremes(w, a);
    let i = choose|i: int| 0 <= i < w.len() && #[trigger] axis(w[i], a) == greatest(w, a);
    let j = choose|j: int| 0 <= j < w.len() && #[trigger] axis(w[j], a) == least(w, a);
    assert(axis(w[i], a) == greatest(w, a));
    assert(axis(w[j], a) == least(w, a));
}

/// Where the sums fit, the variance is the population variance, rounded down.
pub proof fn lemma_variance_of_the_population(w: Seq<Sample>, a: int)
    requires
        w.len() > 0,
        0 <= a < 3,
        w.len() * squares(w, a) <= 0xffff_ffff_ffff_ffff,
        total(w, a) * total(w, a) <= 0xffff_ffff_ffff_ffff,
    ensures
        ({
            let n = w.len() as int;
            let d = n * squares(w, a) - total(w, a) * total(w, a);
            variance(w, a) * (n * n) <= d < (variance(w, a) + 1) * (n * n)
        }),
{
    assert(exact(w, a));
    crate::accelerometer::lemma_variance_is_exact(w, a);
    let n = w.len() as int;
    let d = n * squares(w, a) - total(w, a) * total(w, a);
    let v = variance(w, a);
    assert(n * n > 0) by (nonlinear_arith)
        requires
            n > 0,
    ;
    let nn = n * n;
    assert(v * nn <= d < (v + 1) * nn) by (nonlinear_arith)
        requires
            v == d / nn,
            nn > 0,
    ;
}

/// Where they do not fit, each is held at the largest 64-bit value.
pub proof fn lemma_variance_of_saturated_sums(w: Seq<Sample>, a: int)
    requires
        w.len() > 0,
        w.len() * squares(w, a) > 0xffff_ffff_ffff_ffff,
    ensures
        total(w, a) * total(w, a) >= 0xffff_ffff_ffff_ffff ==> variance(w, a) == 0,
        total(w, a) * total(w, a) < 0xffff_ffff_ffff_ffff ==> variance(w, a) == (
        0xffff_ffff_ffff_ffffint - total(w, a) * total(w, a)) / ((w.len() * w.len()) as int),
{
}

/// The greatest magnitude is that of a sample, and no sample exceeds it.
pub proof fn lemma_peak_is_the_greatest_magnitude(w: Seq<Sample>)
    requires
        w.len() > 0,
    ensures
        forall|i: int|
            0 <= i < w.len() ==> (#[trigger] w[i]).x_mg * w[i].x_mg + w[i].y_mg * w[i].y_mg
                + w[i].z_mg * w[i].z_mg <= peak_sq(w),
        exists|i: int|
            0 <= i < w.len() && (#[trigger] w[i]).x_mg * w[i].x_mg + w[i].y_mg * w[i].y_mg
                + w[i].z_mg * w[i].z_mg == peak_sq(w),
    decreases w.len(),
{
    let before = w.drop_last();
    let last = w.len() - 1;
    let s = w[last];
    assert(s == w.last());
    assert(s.x_mg * s.x_mg >= 0 && s.y_mg * s.y_mg >= 0 && s.z_mg * s.z_mg >= 0)
        by (nonlinear_arith);
    if before.len() > 0 {
        lemma_peak_is_the_greatest_magnitude(before);
        assert forall|i: int| 0 <= i < w.len() implies (#[trigger] w[i]).x_mg * w[i].x_mg
            + w[i].y_mg * w[i].y_mg + w[i].z_mg * w[i].z_mg <= peak_sq(w) by {
            if i < last {
                assert(before[i] == w[i]);
            }
        }
        let j = choose|j: int|
            0 <= j < before.len() && (#[trigger] before[j]).x_mg * before[j].x_mg + before[j].y_mg
                * before[j].y_mg + before[j].z_mg * before[j].z_mg == peak_sq(before);
        assert(w[j] == before[j]);
    } else {
        assert(before =~= Seq::empty());
        assert(peak_sq(before) == 0);
    }
}

// ---------------------------------------------------------------------------
// The metrics of a window
// ---------------------------------------------------------------------------
/// `r` is the square root of `n`, rounded down.
pub open spec fn rooted(r: int, n: int) -> bool {
    r >= 0 && r * r <= n && n < r * r + 2 * r + 1
}

/// No axis has a greater span or excursion than the peaks of the window, and one has as
/// great a one.
pub proof fn lemma_peaks_cover_every_axis(m: Metrics, w: Seq<Sample>)
    requires
        measures(m, w),
    ensures
        m.peak_to_peak_mg >= span(w, 0),
        m.peak_to_peak_mg >= span(w, 1),
        m.peak_to_peak_mg >= span(w, 2),
        m.peak_to_peak_mg == span(w, 0) || m.peak_to_peak_mg == span(w, 1) || m.peak_to_peak_mg
            == span(w, 2),
        m.dynamic_peak_mg >= excursion(w, 0),
        m.dynamic_peak_mg >= excursion(w, 1),
        m.dynamic_peak_mg >= excursion(w, 2),
        m.dynamic_peak_mg == excursion(w, 0) || m.dynamic_peak_mg == excursion(w, 1)
            || m.dynamic_peak_mg == excursion(w, 2),
{
}

/// The numbers of a window belong to it: the count, the mean and deviation of each axis,
/// the total deviation of all three and the greatest magnitude.
pub proof fn lemma_metrics_of_a_window(m: Metrics, w: Seq<Sample>)
    requires
        measures(m, w),
    ensures
        m.samples == w.len(),
        m.x_mean_mg == mean(w, 0),
        m.y_mean_mg == mean(w, 1),
        m.z_mean_mg == mean(w, 2),
        rooted(m.x_stddev_mg as int, variance(w, 0)),
        rooted(m.y_stddev_mg as int, variance(w, 1)),
        rooted(m.z_stddev_mg as int, variance(w, 2)),
        rooted(m.vibration_rms_mg as int, variance(w, 0) + variance(w, 1) + variance(w, 2)),
        rooted(m.acceleration_peak_mg as int, peak_sq(w)),
{
    lemma_rooted(m.x_stddev_mg as int, variance(w, 0));
    lemma_rooted(m.y_stddev_mg as int, variance(w, 1));
    lemma_rooted(m.z_stddev_mg as int, variance(w, 2));
    lemma_rooted(m.vibration_rms_mg as int, variance(w, 0) + variance(w, 1) + variance(w, 2));
    lemma_rooted(m.acceleration_peak_mg as int, peak_sq(w));
}

proof fn lemma_rooted(r: int, n: int)
    requires
        crate::accelerometer::is_root(r, n),
    ensures
        rooted(r, n),
{
    assert((r + 1) * (r + 1) == r * r + 2 * r + 1) by (nonlinear_arith);
}

/// The window with its axes exchanged in turn.
pub open spec fn turned(w: Seq<Sample>) -> Seq<Sample> {
    Seq::new(
        w.len(),
        |i: int| Sample { x_mg: w[i].y_mg, y_mg: w[i].z_mg, z_mg: w[i].x_mg },
    )
}

proof fn lemma_turned_axis(w: Seq<Sample>, a: int)
    requires
        0 <= a < 3,
    ensures
        total(turned(w), a) == total(w, (a + 1) % 3),
        squares(turned(w), a) == squares(w, (a + 1) % 3),
        least(turned(w), a) == least(w, (a + 1) % 3),
        greatest(turned(w), a) == greatest(w, (a + 1) % 3),
        peak_sq(turned(w)) == peak_sq(w),
    decreases w.len(),
{
    if w.len() > 0 {
        lemma_turned_axis(w.drop_last(), a);
        assert(turned(w).drop_last() =~= turned(w.drop_last()));
    } else {
        assert(turned(w) =~= w);
    }
}

/// How the sensor is turned does not matter to the peaks and the total deviation, and the
/// numbers of the axes are exchanged with them.
pub proof fn lemma_axes_are_treated_alike(m: Metrics, k: Metrics, w: Seq<Sample>)
    requires
        measures(m, w),
        measures(k, turned(w)),
    ensures
        k.peak_to_peak_mg == m.peak_to_peak_mg,
        k.dynamic_peak_mg == m.dynamic_peak_mg,
        k.acceleration_peak_mg == m.acceleration_peak_mg,
        k.vibration_rms_mg == m.vibration_rms_mg,
        k.x_mean_mg == m.y_mean_mg,
        k.y_mean_mg == m.z_mean_mg,
        k.z_mean_mg == m.x_mean_mg,
        k.x_stddev_mg == m.y_stddev_mg,
        k.y_stddev_mg == m.z_stddev_mg,
        k.z_stddev_mg == m.x_stddev_mg,
{
    lemma_turned_axis(w, 0);
    lemma_turned_axis(w, 1);
    lemma_turned_axis(w, 2);
    lemma_one_root(m.acceleration_peak_mg as int, k.acceleration_peak_mg as int, peak_sq(w));
    lemma_one_root(
        m.vibration_rms_mg as int,
        k.vibration_rms_mg as int,
        variance(w, 0) + variance(w, 1) + variance(w, 2),
    );
    lemma_one_root(m.y_stddev_mg as int, k.x_stddev_mg as int, variance(w, 1));
    lemma_one_root(m.z_stddev_mg as int, k.y_stddev_mg as int, variance(w, 2));
    lemma_one_root(m.x_stddev_mg as int, k.z_stddev_mg as int, variance(w, 0));
}

proof fn lemma_one_root(r: int, s: int, n: int)
    requires
        crate::accelerometer::is_root(r, n),
        crate::accelerometer::is_root(s, n),
    ensures
        r == s,
{
    assert(r == s) by (nonlinear_arith)
        requires
            0 <= r,
            0 <= s,
            r * r <= n,
            n < (r + 1) * (r + 1),
            s * s <= n,
            n < (s + 1) * (s + 1),
    ;
}

// ---------------------------------------------------------------------------
// The sensor
// ---------------------------------------------------------------------------
/// A register pair holds 12 bits in its upper part: two's complement, in steps of 2 mg.
/// What stands in the lowest four bits does not matter.
pub proof fn lemma_axis_register(low: u8, high: u8)
    ensures
        axis_value(low, high) % 2 == 0,
        -4096 <= axis_value(low, high) <= 4094,
        axis_value(low, high) == axis_value((low - low % 16) as u8, high),
        high < 0x80 ==> axis_value(low, high) == 32 * high + 2 * (low as int / 16),
        high >= 0x80 ==> axis_value(low, high) == 32 * (high - 256) + 2 * (low as int / 16),
{
}

/// Two register pairs that differ by one step of the upper 12 bits differ by 2 mg.
pub proof fn lemma_axis_step(low: u8, high: u8)
    requires
        low < 0xf0,
    ensures
        axis_value((low + 16) as u8, high) == axis_value(low, high) + 2,
{
}

/// The six registers hold x, y and z in this order, the lower byte first.
pub proof fn lemma_sample_registers(raw: Seq<u8>)
    requires
        raw.len() == 6,
    ensures
        sample_of(raw).x_mg == axis_value(raw[0], raw[1]),
        sample_of(raw).y_mg == axis_value(raw[2], raw[3]),
        sample_of(raw).z_mg == axis_value(raw[4], raw[5]),
        OUT_X_L | AUTO_INCREMENT == 0xa8,
{
    lemma_axis_register(raw[0], raw[1]);
    lemma_axis_register(raw[2], raw[3]);
    lemma_axis_register(raw[4], raw[5]);
    assert(0x28u8 | 0x80u8 == 0xa8) by (bit_vector);
}

/// The sensor is looked for at its two addresses in turn, and is the one whose register
/// 0x0f holds 0x33; it is set up only for a rate that it has.
pub proof fn lemma_sensor_is_found<E>(hz: u32, value: u8, e: E)
    ensures
        InitStage::First.operation() == (BusRequest::Read { address: 0x18, reg: 0x0f }),
        InitStage::Second.operation() == (BusRequest::Read { address: 0x19, reg: 0x0f }),
        value != 0x33 ==> InitStage::First.after::<E>(hz, Ok(value)) == InitStep::<E>::Do(
            InitStage::Second,
        ),
        InitStage::First.after::<E>(hz, Err(e)) == InitStep::<E>::Do(InitStage::Second),
        value != 0x33 ==> InitStage::Second.after::<E>(hz, Ok(value))
            == InitStep::<E>::Failed(Error::DeviceNotFound),
        InitStage::Second.after::<E>(hz, Err(e)) == InitStep::<E>::Failed(
            Error::DeviceNotFound,
        ),
        ({
            let supported = hz == 1 || hz == 10 || hz == 25 || hz == 50 || hz == 100 || hz == 200
                || hz == 400;
            &&& !supported ==> InitStage::First.after::<E>(hz, Ok(0x33))
                == InitStep::<E>::Failed(Error::UnsupportedSampleRate(hz))
            &&& !supported ==> InitStage::Second.after::<E>(hz, Ok(0x33))
                == InitStep::<E>::Failed(Error::UnsupportedSampleRate(hz))
            &&& supported ==> (InitStage::First.after::<E>(hz, Ok(0x33)) matches InitStep::Do(
                InitStage::Rate { address, .. },
            ) && address == 0x18)
            &&& supported ==> (InitStage::Second.after::<E>(hz, Ok(0x33)) matches InitStep::Do(
                InitStage::Rate { address, .. },
            ) && address == 0x19)
        }),
{
}

/// The set-up: the rate with all three axes on, then a range of 4 g with high resolution
/// and block update; a bus error ends it.
pub proof fn lemma_sensor_set_up<E>(address: u8, hz: u32, value: u8, e: E)
    ensures
        found::<E>(address, hz) matches InitStep::Do(stage) ==> (stage.operation() matches
            BusRequest::Write { address: to, reg, value: set } && to == address && reg == 0x20
            && set == if hz == 1 {
            0x17u8
        } else if hz == 10 {
            0x27
        } else if hz == 25 {
            0x37
        } else if hz == 50 {
            0x47
        } else if hz == 100 {
            0x57
        } else if hz == 200 {
            0x67
        } else {
            0x77
        }),
        found::<E>(address, hz) matches InitStep::Do(stage) ==> stage.after::<E>(hz, Ok(value))
            == InitStep::<E>::Do(InitStage::Range { address }),
        found::<E>(address, hz) matches InitStep::Do(stage) ==> stage.after::<E>(hz, Err(e))
            == InitStep::<E>::Failed(Error::I2c(e)),
        (InitStage::Range { address }).operation() == (BusRequest::Write {
            address,
            reg: 0x23,
            value: 0x98,
        }),
        (InitStage::Range { address }).after::<E>(hz, Ok(value)) == InitStep::<E>::Ready(address),
        (InitStage::Range { address }).after::<E>(hz, Err(e)) == InitStep::<E>::Failed(
            Error::I2c(e),
        ),
{
    assert(0x10u8 | 0x07 == 0x17 && 0x20u8 | 0x07 == 0x27 && 0x30u8 | 0x07 == 0x37 && 0x40u8 | 0x07
        == 0x47 && 0x50u8 | 0x07 == 0x57 && 0x60u8 | 0x07 == 0x67 && 0x70u8 | 0x07 == 0x77)
        by (bit_vector);
}

/// A sample is read from the sensor that was found, all six registers at once; without one
/// there is no sample.
pub proof fn lemma_samples_are_read<E>(address: u8, raw: [u8; 6], e: E)
    ensures
        sample_read::<E>(Some(address)) == Ok::<(u8, u8), Error<E>>((address, 0xa8)),
        sample_read::<E>(None) == Err::<(u8, u8), Error<E>>(Error::DeviceNotFound),
        sample_result::<E>(Some(address), Ok(raw)) == Ok::<Sample, Error<E>>(sample_of(raw@)),
        sample_result::<E>(Some(address), Err(e)) == Err::<Sample, Error<E>>(Error::I2c(e)),
        sample_result::<E>(None, Ok(raw)) == Err::<Sample, Error<E>>(Error::DeviceNotFound),
        sample_result::<E>(None, Err(e)) == Err::<Sample, Error<E>>(Error::DeviceNotFound),
{
    assert(0x28u8 | 0x80u8 == 0xa8) by (bit_vector);
}

} // verus!
