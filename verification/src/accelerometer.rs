//! Vibration statistics and the driver logic of a LIS2DH accelerometer.
//!
//! There is no motion detection here. Samples are reduced to statistics over a
//! window, fit for long-term storage.

use vstd::prelude::*;

verus! {

/// One reading of the three axes, in thousandths of standard gravity.
#[derive(Clone, Copy, Debug, Default, PartialEq, Eq, Structural)]
pub struct Sample {
    pub x_mg: i32,
    pub y_mg: i32,
    pub z_mg: i32,
}

/// The statistics of a window.
#[derive(Clone, Copy, Debug, Default, PartialEq, Eq, Structural)]
pub struct Metrics {
    pub samples: u32,
    pub x_mean_mg: i32,
    pub y_mean_mg: i32,
    pub z_mean_mg: i32,
    pub x_stddev_mg: u32,
    pub y_stddev_mg: u32,
    pub z_stddev_mg: u32,
    /// RMS of the AC component over all three axes. The mean of the window is
    /// removed, so gravity and mounting angle do not dominate it.
    pub vibration_rms_mg: u32,
    /// Largest peak-to-peak span of any axis in the window.
    pub peak_to_peak_mg: u32,
    /// Largest magnitude of acceleration in the window. This includes gravity,
    /// so a stationary sensor reads about 1 g.
    pub acceleration_peak_mg: u32,
    /// Largest excursion of any axis from its mean in the window. This does not
    /// depend on gravity or orientation.
    pub dynamic_peak_mg: u32,
}

// ---------------------------------------------------------------------------
// Statistics of a sequence of samples
// ---------------------------------------------------------------------------
/// The value of axis 0, 1 or 2.
pub open spec fn axis(s: Sample, a: int) -> int {
    if a == 0 {
        s.x_mg as int
    } else if a == 1 {
        s.y_mg as int
    } else {
        s.z_mg as int
    }
}

/// The sum of an axis.
pub open spec fn total(w: Seq<Sample>, a: int) -> int
    decreases w.len(),
{
    if w.len() == 0 {
        0
    } else {
        total(w.drop_last(), a) + axis(w.last(), a)
    }
}

/// The sum of the squares of an axis.
pub open spec fn squares(w: Seq<Sample>, a: int) -> int
    decreases w.len(),
{
    if w.len() == 0 {
        0
    } else {
        squares(w.drop_last(), a) + axis(w.last(), a) * axis(w.last(), a)
    }
}

/// The least value of an axis, where there is one.
pub open spec fn least(w: Seq<Sample>, a: int) -> int
    decreases w.len(),
{
    if w.len() == 0 {
        i32::MAX as int
    } else if axis(w.last(), a) < least(w.drop_last(), a) {
        axis(w.last(), a)
    } else {
        least(w.drop_last(), a)
    }
}

/// The greatest value of an axis, where there is one.
pub open spec fn greatest(w: Seq<Sample>, a: int) -> int
    decreases w.len(),
{
    if w.len() == 0 {
        i32::MIN as int
    } else if axis(w.last(), a) > greatest(w.drop_last(), a) {
        axis(w.last(), a)
    } else {
        greatest(w.drop_last(), a)
    }
}

/// The square of the magnitude of a sample.
pub open spec fn magnitude_sq(s: Sample) -> int {
    axis(s, 0) * axis(s, 0) + axis(s, 1) * axis(s, 1) + axis(s, 2) * axis(s, 2)
}

/// The square of the greatest magnitude.
pub open spec fn peak_sq(w: Seq<Sample>) -> int
    decreases w.len(),
{
    if w.len() == 0 {
        0
    } else if magnitude_sq(w.last()) > peak_sq(w.drop_last()) {
        magnitude_sq(w.last())
    } else {
        peak_sq(w.drop_last())
    }
}

/// The quotient, rounded toward zero.
pub open spec fn quotient(n: int, d: int) -> int {
    if n >= 0 {
        n / d
    } else {
        -((-n) / d)
    }
}

/// The mean of an axis, rounded toward zero.
pub open spec fn mean(w: Seq<Sample>, a: int) -> int {
    quotient(total(w, a), w.len() as int)
}

/// `n`, held at the largest 64-bit value.
pub open spec fn held(n: int) -> int {
    if n <= u64::MAX {
        n
    } else {
        u64::MAX as int
    }
}

/// The population variance of an axis, rounded down, from sums of 64 bits:
/// `(n * sum(x^2) - sum(x)^2) / n^2`, without rounding the mean first.
pub open spec fn variance(w: Seq<Sample>, a: int) -> int {
    let n = w.len() as int;
    let high = held(n * squares(w, a));
    let low = held(total(w, a) * total(w, a));
    if high <= low {
        0
    } else {
        (high - low) / (n * n)
    }
}

/// `r` is the square root of `n`, rounded down.
pub open spec fn is_root(r: int, n: int) -> bool {
    0 <= r && r * r <= n < (r + 1) * (r + 1)
}

/// The span of an axis.
pub open spec fn span(w: Seq<Sample>, a: int) -> int {
    greatest(w, a) - least(w, a)
}

/// The greatest excursion of an axis from its mean.
pub open spec fn excursion(w: Seq<Sample>, a: int) -> int {
    if mean(w, a) - least(w, a) > greatest(w, a) - mean(w, a) {
        mean(w, a) - least(w, a)
    } else {
        greatest(w, a) - mean(w, a)
    }
}

/// The greatest of three numbers.
pub open spec fn greatest_of(a: int, b: int, c: int) -> int {
    if a >= b && a >= c {
        a
    } else if b >= c {
        b
    } else {
        c
    }
}

/// `m` holds the statistics of the window `w`.
pub open spec fn measures(m: Metrics, w: Seq<Sample>) -> bool {
    &&& m.samples == w.len()
    &&& m.x_mean_mg == mean(w, 0)
    &&& m.y_mean_mg == mean(w, 1)
    &&& m.z_mean_mg == mean(w, 2)
    &&& is_root(m.x_stddev_mg as int, variance(w, 0))
    &&& is_root(m.y_stddev_mg as int, variance(w, 1))
    &&& is_root(m.z_stddev_mg as int, variance(w, 2))
    &&& is_root(m.vibration_rms_mg as int, variance(w, 0) + variance(w, 1) + variance(w, 2))
    &&& m.peak_to_peak_mg == greatest_of(span(w, 0), span(w, 1), span(w, 2))
    &&& is_root(m.acceleration_peak_mg as int, peak_sq(w))
    &&& m.dynamic_peak_mg == greatest_of(excursion(w, 0), excursion(w, 1), excursion(w, 2))
}

// ---------------------------------------------------------------------------
// The square root
// ---------------------------------------------------------------------------
proof fn lemma_newton_stays_above(x: int, value: int, next: int)
    requires
        x > 0,
        value >= 0,
        next == (x + value / x) / 2,
    ensures
        value < (next + 1) * (next + 1),
{
    let q = value / x;
    assert(value < x * (q + 1)) by (nonlinear_arith)
        requires
            x > 0,
            q == value / x,
    ;
    assert(4 * (next + 1) * (next + 1) >= (x + q + 1) * (x + q + 1)) by (nonlinear_arith)
        requires
            next == (x + q) / 2,
            x > 0,
            q >= 0,
    ;
    assert((x + q + 1) * (x + q + 1) >= 4 * (x * (q + 1))) by (nonlinear_arith);
    assert(4 * (next + 1) * (next + 1) == 4 * ((next + 1) * (next + 1))) by (nonlinear_arith);
}

proof fn lemma_newton_ends_below(x: int, value: int, next: int)
    requires
        x > 0,
        value >= 0,
        next == (x + value / x) / 2,
        next >= x,
    ensures
        x * x <= value,
{
    let q = value / x;
    assert(q >= x);
    assert(x * q <= value) by (nonlinear_arith)
        requires
            x > 0,
            q == value / x,
    ;
    assert(x * x <= x * q) by (nonlinear_arith)
        requires
            x > 0,
            q >= x,
    ;
}

/// The square root, rounded down.
pub fn isqrt(value: u64) -> (r: u32)
    requires
        value < u64::MAX,
    ensures
        is_root(r as int, value as int),
{
    if value == 0 {
        assert(0int * 0int <= 0 && 0 < (0int + 1) * (0int + 1)) by (nonlinear_arith);
        return 0;
    }
    let mut x = value;
    assert(value / value == 1) by (nonlinear_arith)
        requires
            value > 0,
    ;
    let mut next = (x + value / x) / 2;
    assert(value < (x + 1) * (x + 1)) by (nonlinear_arith)
        requires
            x == value,
            value > 0,
    ;
    proof {
        lemma_newton_stays_above(x as int, value as int, next as int);
        assert(next > 0);
    }
    while next < x
        invariant
            0 < value < u64::MAX,
            0 < x <= value,
            0 < next,
            next == (x + value / x) / 2,
            value < (x + 1) * (x + 1),
            value < (next + 1) * (next + 1),
        decreases x,
    {
        x = next;
        assert(value / x <= value) by (nonlinear_arith)
            requires
                x > 0,
        ;
        proof {
            // x <= value / 2 + 1, so the sum below fits.
            assert(x + value / x <= u64::MAX) by (nonlinear_arith)
                requires
                    0 < x <= value,
                    value < u64::MAX,
            ;
        }
        next = (x + value / x) / 2;
        proof {
            lemma_newton_stays_above(x as int, value as int, next as int);
            assert(value / x >= 1) by (nonlinear_arith)
                requires
                    0 < x <= value,
            ;
        }
    }
    proof {
        lemma_newton_ends_below(x as int, value as int, next as int);
        assert(x <= u32::MAX) by (nonlinear_arith)
            requires
                x * x <= value,
                value < u64::MAX,
        ;
    }
    x as u32
}

// ---------------------------------------------------------------------------
// The window
// ---------------------------------------------------------------------------
/// The sums and extremes of one axis.
#[derive(Clone, Copy)]
struct AxisStats {
    sum: i64,
    sum_sq: u64,
    min: i32,
    max: i32,
}

impl AxisStats {
    spec fn tracks(self, w: Seq<Sample>, a: int) -> bool {
        &&& self.sum == total(w, a)
        &&& self.sum_sq == squares(w, a)
        &&& self.min == least(w, a)
        &&& self.max == greatest(w, a)
    }

    fn new() -> (r: AxisStats)
        ensures
            forall|a: int| r.tracks(Seq::empty(), a),
    {
        AxisStats { sum: 0, sum_sq: 0, min: i32::MAX, max: i32::MIN }
    }

    fn push(
        self,
        Ghost(w): Ghost<Seq<Sample>>,
        Ghost(a): Ghost<int>,
        Ghost(sample): Ghost<Sample>,
        value: i32,
        square: u64,
    ) -> (r: AxisStats)
        requires
            self.tracks(w, a),
            0 <= a < 3,
            value == axis(sample, a),
            square == value * value,
            w.len() < u32::MAX,
            squares(w, a) + square <= u64::MAX,
        ensures
            r.tracks(w.push(sample), a),
    {
        proof {
            assert(w.push(sample).drop_last() =~= w);
            lemma_bounds(w, a);
        }
        AxisStats {
            sum: self.sum + value as i64,
            sum_sq: self.sum_sq + square,
            min: if value < self.min {
                value
            } else {
                self.min
            },
            max: if value > self.max {
                value
            } else {
                self.max
            },
        }
    }
}

proof fn lemma_quotient_between(low: int, high: int, sum: int, n: int)
    requires
        n > 0,
        low * n <= sum <= high * n,
    ensures
        low <= quotient(sum, n) <= high,
{
    if sum >= 0 {
        let q = sum / n;
        assert(low <= q <= high) by (nonlinear_arith)
            requires
                n > 0,
                low * n <= sum <= high * n,
                q == sum / n,
                sum >= 0,
        ;
    } else {
        let q = (-sum) / n;
        assert(low <= -q <= high) by (nonlinear_arith)
            requires
                n > 0,
                low * n <= sum <= high * n,
                q == (-sum) / n,
                sum < 0,
        ;
    }
}

/// The variance leaves room to add up three of them.
proof fn lemma_variance_bound(w: Seq<Sample>, a: int)
    requires
        w.len() > 0,
        0 <= a < 3,
    ensures
        0 <= variance(w, a) <= 0x3fff_ffff_ffff_ffff,
{
    let n = w.len() as int;
    lemma_bounds(w, a);
    if n == 1 {
        let first = w.drop_last();
        assert(first =~= Seq::empty());
        assert(total(first, a) == 0 && squares(first, a) == 0);
        assert(n * squares(w, a) == squares(w, a)) by (nonlinear_arith)
            requires
                n == 1,
        ;
    } else {
        let high = held(n * squares(w, a));
        let low = held(total(w, a) * total(w, a));
        let t = total(w, a);
        assert(0 <= t * t) by (nonlinear_arith);
        if high > low {
            let d = high - low;
            assert(0 <= d / (n * n) <= 0x3fff_ffff_ffff_ffff) by (nonlinear_arith)
                requires
                    0 <= d <= 0xffff_ffff_ffff_ffff,
                    n >= 2,
            ;
        }
    }
}

/// What one axis contributes to the statistics.
#[derive(Clone, Copy)]
struct AxisMetrics {
    mean: i32,
    variance: u64,
    span: u32,
    excursion: u32,
}

impl AxisStats {
    fn variance(&self, Ghost(w): Ghost<Seq<Sample>>, Ghost(a): Ghost<int>, n: u32) -> (r: u64)
        requires
            self.tracks(w, a),
            0 <= a < 3,
            n == w.len(),
            n > 0,
        ensures
            r == variance(w, a),
    {
        proof {
            lemma_bounds(w, a);
        }
        let limit: u128 = u64::MAX as u128;
        let sum_abs: u128 = if self.sum < 0 {
            (-(self.sum as i128)) as u128
        } else {
            self.sum as u128
        };
        let ghost t = total(w, a);
        let ghost q = squares(w, a);
        assert(sum_abs * sum_abs == t * t) by (nonlinear_arith)
            requires
                sum_abs == t || sum_abs == -t,
        ;
        assert(sum_abs * sum_abs <= 0x4000_0000_0000_0000_0000_0000_0000_0000) by (nonlinear_arith)
            requires
                0 <= sum_abs <= 0x8000_0000_0000_0000,
        ;
        assert(0 <= n * q <= 0x1_0000_0000_0000_0000_0000_0000) by (nonlinear_arith)
            requires
                0 <= n <= 0xffff_ffff,
                0 <= q <= 0xffff_ffff_ffff_ffff,
        ;
        assert(0 < n * n <= 0xffff_ffff_ffff_ffff) by (nonlinear_arith)
            requires
                0 < n <= 0xffff_ffff,
        ;
        let high = (n as u128) * (self.sum_sq as u128);
        let low = sum_abs * sum_abs;
        let high = if high > limit {
            limit
        } else {
            high
        };
        let low = if low > limit {
            limit
        } else {
            low
        };
        if high <= low {
            return 0;
        }
        let d = (high - low) as u64;
        let n_sq = (n as u64) * (n as u64);
        d / n_sq
    }

    fn mean(&self, Ghost(w): Ghost<Seq<Sample>>, Ghost(a): Ghost<int>, n: u32) -> (r: i32)
        requires
            self.tracks(w, a),
            0 <= a < 3,
            n == w.len(),
            n > 0,
        ensures
            r == mean(w, a),
            self.min <= r <= self.max,
    {
        proof {
            lemma_bounds(w, a);
            lemma_quotient_between(least(w, a), greatest(w, a), total(w, a), n as int);
        }
        let q = if self.sum >= 0 {
            self.sum / (n as i64)
        } else {
            -((-self.sum) / (n as i64))
        };
        q as i32
    }

    fn finish(&self, Ghost(w): Ghost<Seq<Sample>>, Ghost(a): Ghost<int>, n: u32) -> (r: AxisMetrics)
        requires
            self.tracks(w, a),
            0 <= a < 3,
            n == w.len(),
            n > 0,
        ensures
            r.mean == mean(w, a),
            r.variance == variance(w, a),
            r.span == span(w, a),
            r.excursion == excursion(w, a),
    {
        let mean = self.mean(Ghost(w), Ghost(a), n);
        let low = mean as i64 - self.min as i64;
        let high = self.max as i64 - mean as i64;
        AxisMetrics {
            mean,
            variance: self.variance(Ghost(w), Ghost(a), n),
            span: (self.max as i64 - self.min as i64) as u32,
            excursion: if low > high {
                low as u32
            } else {
                high as u32
            },
        }
    }
}

fn largest(a: u32, b: u32, c: u32) -> (r: u32)
    ensures
        r == greatest_of(a as int, b as int, c as int),
{
    if a >= b && a >= c {
        a
    } else if b >= c {
        b
    } else {
        c
    }
}

fn square_of(value: i32) -> (r: u64)
    ensures
        r == value * value,
        r <= 0x4000_0000_0000_0000,
{
    proof {
        lemma_square(value as int);
    }
    let value64 = value as i64;
    (value64 * value64) as u64
}

/// The sums and extremes of a window.
pub struct WindowStats {
    samples: u32,
    x: AxisStats,
    y: AxisStats,
    z: AxisStats,
    max_magnitude_sq: u64,
    seen: Ghost<Seq<Sample>>,
}

impl View for WindowStats {
    type V = Seq<Sample>;

    closed spec fn view(&self) -> Seq<Sample> {
        self.seen@
    }
}

proof fn lemma_bounds(w: Seq<Sample>, a: int)
    requires
        0 <= a < 3,
    ensures
        -0x8000_0000 * w.len() <= total(w, a) <= 0x8000_0000 * w.len(),
        0 <= squares(w, a),
        0 <= peak_sq(w) <= 3 * 0x4000_0000_0000_0000,
        i32::MIN <= least(w, a) <= i32::MAX,
        i32::MIN <= greatest(w, a) <= i32::MAX,
        w.len() > 0 ==> least(w, a) <= greatest(w, a),
        w.len() > 0 ==> least(w, a) * w.len() <= total(w, a) <= greatest(w, a) * w.len(),
    decreases w.len(),
{
    if w.len() > 0 {
        lemma_bounds(w.drop_last(), a);
        lemma_square(axis(w.last(), a));
        lemma_square(axis(w.last(), 0));
        lemma_square(axis(w.last(), 1));
        lemma_square(axis(w.last(), 2));
        let n = w.len() as int;
        let before = w.drop_last();
        let v = axis(w.last(), a);
        if n > 1 {
            assert(least(w, a) * n <= total(w, a)) by (nonlinear_arith)
                requires
                    least(before, a) * (n - 1) <= total(before, a),
                    least(w, a) <= least(before, a),
                    least(w, a) <= v,
                    total(w, a) == total(before, a) + v,
                    n > 1,
            ;
            assert(total(w, a) <= greatest(w, a) * n) by (nonlinear_arith)
                requires
                    total(before, a) <= greatest(before, a) * (n - 1),
                    greatest(before, a) <= greatest(w, a),
                    v <= greatest(w, a),
                    total(w, a) == total(before, a) + v,
                    n > 1,
            ;
        } else {
            assert(before =~= Seq::empty());
            assert(least(w, a) * n == v && greatest(w, a) * n == v) by (nonlinear_arith)
                requires
                    n == 1,
                    least(w, a) == v,
                    greatest(w, a) == v,
            ;
        }
    }
}

proof fn lemma_square(v: int)
    requires
        i32::MIN <= v <= i32::MAX,
    ensures
        0 <= v * v <= 0x4000_0000_0000_0000,
{
    assert(0 <= v * v <= 0x4000_0000_0000_0000) by (nonlinear_arith)
        requires
            -0x8000_0000 <= v <= 0x7fff_ffff,
    ;
}

impl WindowStats {
    #[verifier::type_invariant]
    spec fn consistent(self) -> bool {
        let w = self.seen@;
        &&& self.samples == w.len()
        &&& self.x.tracks(w, 0)
        &&& self.y.tracks(w, 1)
        &&& self.z.tracks(w, 2)
        &&& self.max_magnitude_sq == peak_sq(w)
    }

    /// The sums of the window have room for another sample.
    pub open spec fn has_room(self, sample: Sample) -> bool {
        &&& self@.len() < u32::MAX
        &&& squares(self@, 0) + sample.x_mg * sample.x_mg <= u64::MAX
        &&& squares(self@, 1) + sample.y_mg * sample.y_mg <= u64::MAX
        &&& squares(self@, 2) + sample.z_mg * sample.z_mg <= u64::MAX
    }

    /// An empty window.
    pub fn new() -> (r: WindowStats)
        ensures
            r@ == Seq::<Sample>::empty(),
    {
        WindowStats {
            samples: 0,
            x: AxisStats::new(),
            y: AxisStats::new(),
            z: AxisStats::new(),
            max_magnitude_sq: 0,
            seen: Ghost(Seq::empty()),
        }
    }

    /// Adds a sample.
    pub fn push(&mut self, sample: Sample)
        requires
            old(self).has_room(sample),
        ensures
            final(self)@ == old(self)@.push(sample),
    {
        proof {
            use_type_invariant(&*self);
        }
        let ghost w = self.seen@;
        let ghost next = w.push(sample);
        assert(next.drop_last() =~= w);
        let x_sq = square_of(sample.x_mg);
        let y_sq = square_of(sample.y_mg);
        let z_sq = square_of(sample.z_mg);
        let x = self.x.push(Ghost(w), Ghost(0), Ghost(sample), sample.x_mg, x_sq);
        let y = self.y.push(Ghost(w), Ghost(1), Ghost(sample), sample.y_mg, y_sq);
        let z = self.z.push(Ghost(w), Ghost(2), Ghost(sample), sample.z_mg, z_sq);
        let magnitude = x_sq.saturating_add(y_sq).saturating_add(z_sq);
        let max_magnitude_sq = if magnitude > self.max_magnitude_sq {
            magnitude
        } else {
            self.max_magnitude_sq
        };
        *self = WindowStats {
            samples: self.samples + 1,
            x,
            y,
            z,
            max_magnitude_sq,
            seen: Ghost(next),
        };
    }

    /// The statistics of the window, unless it is empty.
    pub fn finish(&self) -> (r: Option<Metrics>)
        ensures
            r is Some <==> self@.len() > 0,
            r matches Some(m) ==> measures(m, self@),
    {
        proof {
            use_type_invariant(self);
        }
        if self.samples == 0 {
            return None;
        }
        let n = self.samples;
        let ghost w = self.seen@;
        proof {
            lemma_variance_bound(w, 0);
            lemma_variance_bound(w, 1);
            lemma_variance_bound(w, 2);
            lemma_bounds(w, 0);
        }
        let x = self.x.finish(Ghost(w), Ghost(0), n);
        let y = self.y.finish(Ghost(w), Ghost(1), n);
        let z = self.z.finish(Ghost(w), Ghost(2), n);
        Some(
            Metrics {
                samples: n,
                x_mean_mg: x.mean,
                y_mean_mg: y.mean,
                z_mean_mg: z.mean,
                x_stddev_mg: isqrt(x.variance),
                y_stddev_mg: isqrt(y.variance),
                z_stddev_mg: isqrt(z.variance),
                vibration_rms_mg: isqrt(x.variance + y.variance + z.variance),
                peak_to_peak_mg: largest(x.span, y.span, z.span),
                acceleration_peak_mg: isqrt(self.max_magnitude_sq),
                dynamic_peak_mg: largest(x.excursion, y.excursion, z.excursion),
            },
        )
    }
}

impl Default for WindowStats {
    fn default() -> (r: Self)
        ensures
            r@ == Seq::<Sample>::empty(),
    {
        WindowStats::new()
    }
}

// ---------------------------------------------------------------------------
// What the statistics promise
// ---------------------------------------------------------------------------
/// The window with a constant acceleration added to every sample, as another
/// mounting angle would.
pub open spec fn shifted(w: Seq<Sample>, by: Sample) -> Seq<Sample> {
    Seq::new(
        w.len(),
        |i: int|
            Sample {
                x_mg: (w[i].x_mg + by.x_mg) as i32,
                y_mg: (w[i].y_mg + by.y_mg) as i32,
                z_mg: (w[i].z_mg + by.z_mg) as i32,
            },
    )
}

/// Every shifted value is one that a sample can hold.
pub open spec fn shift_fits(w: Seq<Sample>, by: Sample) -> bool {
    forall|i: int, a: int|
        0 <= i < w.len() && 0 <= a < 3 ==> i32::MIN <= #[trigger] axis(w[i], a) + axis(by, a)
            <= i32::MAX
}

/// The sums of the window fit in 64 bits, so that its variance is exact.
pub open spec fn exact(w: Seq<Sample>, a: int) -> bool {
    w.len() * squares(w, a) <= u64::MAX && total(w, a) * total(w, a) <= u64::MAX
}

proof fn lemma_shift(w: Seq<Sample>, by: Sample, a: int)
    requires
        shift_fits(w, by),
        0 <= a < 3,
    ensures
        total(shifted(w, by), a) == total(w, a) + w.len() * axis(by, a),
        squares(shifted(w, by), a) == squares(w, a) + 2 * axis(by, a) * total(w, a) + w.len() * (
        axis(by, a) * axis(by, a)),
        w.len() > 0 ==> least(shifted(w, by), a) == least(w, a) + axis(by, a),
        w.len() > 0 ==> greatest(shifted(w, by), a) == greatest(w, a) + axis(by, a),
    decreases w.len(),
{
    let v = shifted(w, by);
    let c = axis(by, a);
    if w.len() > 0 {
        let before = w.drop_last();
        assert forall|i: int, b: int| 0 <= i < before.len() && 0 <= b < 3 implies i32::MIN
            <= #[trigger] axis(before[i], b) + axis(by, b) <= i32::MAX by {
            assert(before[i] == w[i]);
            assert(i32::MIN <= axis(w[i], b) + axis(by, b) <= i32::MAX);
        }
        lemma_shift(before, by, a);
        assert(v.drop_last() =~= shifted(before, by));
        let x = axis(w.last(), a);
        assert(w.last() == w[w.len() - 1]);
        assert(i32::MIN <= axis(w[w.len() - 1], a) + c <= i32::MAX);
        assert(axis(v.last(), a) == x + c);
        let n = w.len() as int;
        let t = total(before, a);
        let q = squares(before, a);
        assert(n * c == (n - 1) * c + c) by (nonlinear_arith);
        assert((x + c) * (x + c) == x * x + 2 * c * x + c * c) by (nonlinear_arith);
        assert(2 * c * (t + x) == 2 * c * t + 2 * c * x) by (nonlinear_arith);
        assert(n * (c * c) == (n - 1) * (c * c) + c * c) by (nonlinear_arith);
        if n == 1 {
            let none = v.drop_last();
            assert(least(before, a) == i32::MAX && greatest(before, a) == i32::MIN);
            assert(least(none, a) == i32::MAX && greatest(none, a) == i32::MIN);
        }
    } else {
        assert(v =~= Seq::empty());
        let n = w.len() as int;
        assert(n * c == 0 && n * (c * c) == 0 && 2 * c * 0 == 0) by (nonlinear_arith)
            requires
                n == 0,
        ;
    }
}

/// Where the sums fit in 64 bits, the variance is that of the population, rounded
/// down: nothing is cut off.
pub proof fn lemma_variance_is_exact(w: Seq<Sample>, a: int)
    requires
        w.len() > 0,
        0 <= a < 3,
        exact(w, a),
    ensures
        w.len() * squares(w, a) >= total(w, a) * total(w, a),
        variance(w, a) == (w.len() * squares(w, a) - total(w, a) * total(w, a)) / ((w.len()
            * w.len()) as int),
{
    lemma_spread(w, a);
    let n = w.len() as int;
    if n * squares(w, a) == total(w, a) * total(w, a) {
        assert(0int / (n * n) == 0) by (nonlinear_arith)
            requires
                n > 0,
        ;
    }
}

proof fn lemma_spread(w: Seq<Sample>, a: int)
    ensures
        w.len() * squares(w, a) >= total(w, a) * total(w, a),
    decreases w.len(),
{
    let n = w.len() as int;
    if n > 0 {
        let before = w.drop_last();
        lemma_spread(before, a);
        let m = n - 1;
        let q = squares(before, a);
        let t = total(before, a);
        let x = axis(w.last(), a);
        if m == 0 {
            assert(q == 0 && t == 0);
            assert(n * (q + x * x) >= (t + x) * (t + x)) by (nonlinear_arith)
                requires
                    n == 1,
                    q == 0,
                    t == 0,
            ;
        } else {
            let e = q + m * (x * x) - 2 * t * x;
            assert(m * e == m * q - t * t + (t - m * x) * (t - m * x)) by (nonlinear_arith)
                requires
                    e == q + m * (x * x) - 2 * t * x,
            ;
            assert((t - m * x) * (t - m * x) >= 0) by (nonlinear_arith);
            assert(e >= 0) by (nonlinear_arith)
                requires
                    m > 0,
                    m * e >= 0,
            ;
            assert(n * (q + x * x) - (t + x) * (t + x) == m * q - t * t + e) by (nonlinear_arith)
                requires
                    n == m + 1,
                    e == q + m * (x * x) - 2 * t * x,
            ;
        }
    } else {
        assert(n * 0 >= 0 * 0) by (nonlinear_arith)
            requires
                n == 0,
        ;
    }
}

proof fn lemma_quotient_is_near(n: int, d: int)
    requires
        d > 0,
    ensures
        -d < n - quotient(n, d) * d < d,
{
    if n >= 0 {
        let q = n / d;
        assert(0 <= n - q * d < d) by (nonlinear_arith)
            requires
                d > 0,
                q == n / d,
        ;
    } else {
        let q = (-n) / d;
        assert(0 <= -n - q * d < d) by (nonlinear_arith)
            requires
                d > 0,
                q == (-n) / d,
        ;
        assert((-q) * d == -(q * d)) by (nonlinear_arith);
    }
}

/// A constant acceleration moves the rounded mean by as much, or by one more or less.
proof fn lemma_shifted_mean(w: Seq<Sample>, by: Sample, a: int)
    requires
        w.len() > 0,
        0 <= a < 3,
        shift_fits(w, by),
    ensures
        -1 <= mean(shifted(w, by), a) - mean(w, a) - axis(by, a) <= 1,
{
    lemma_shift(w, by, a);
    let n = w.len() as int;
    let c = axis(by, a);
    let t = total(w, a);
    lemma_quotient_is_near(t, n);
    lemma_quotient_is_near(t + n * c, n);
    let q = quotient(t, n);
    let p = quotient(t + n * c, n);
    assert(-1 <= p - q - c <= 1) by (nonlinear_arith)
        requires
            n > 0,
            -n < t - q * n < n,
            -n < t + n * c - p * n < n,
    ;
}

/// Vibration does not depend on gravity or mounting angle: a constant
/// acceleration added to every sample changes neither the variance nor the span
/// of any axis, and the excursion by no more than the rounding of the mean.
pub proof fn lemma_vibration_ignores_gravity(w: Seq<Sample>, by: Sample, a: int)
    requires
        w.len() > 0,
        0 <= a < 3,
        shift_fits(w, by),
        exact(w, a),
        exact(shifted(w, by), a),
    ensures
        variance(shifted(w, by), a) == variance(w, a),
        span(shifted(w, by), a) == span(w, a),
        -1 <= excursion(shifted(w, by), a) - excursion(w, a) <= 1,
{
    lemma_shift(w, by, a);
    lemma_shifted_mean(w, by, a);
    let n = w.len() as int;
    let c = axis(by, a);
    let t = total(w, a);
    let q = squares(w, a);
    assert(n * (q + 2 * c * t + n * (c * c)) - (t + n * c) * (t + n * c) == n * q - t * t)
        by (nonlinear_arith);
}

/// A sensor that does not move shows no vibration.
pub proof fn lemma_still_sensor_shows_no_vibration(w: Seq<Sample>, s: Sample, a: int)
    requires
        w.len() > 0,
        0 <= a < 3,
        forall|i: int| 0 <= i < w.len() ==> w[i] == s,
    ensures
        mean(w, a) == axis(s, a),
        variance(w, a) == 0,
        span(w, a) == 0,
        excursion(w, a) == 0,
{
    lemma_still(w, s, a);
    let n = w.len() as int;
    let v = axis(s, a);
    assert(n * (n * (v * v)) == (n * v) * (n * v)) by (nonlinear_arith);
    if v >= 0 {
        assert(n * v >= 0 && (n * v) / n == v) by (nonlinear_arith)
            requires
                n > 0,
                v >= 0,
        ;
    } else {
        assert(n * v < 0 && (-(n * v)) / n == -v) by (nonlinear_arith)
            requires
                n > 0,
                v < 0,
        ;
    }
}

proof fn lemma_still(w: Seq<Sample>, s: Sample, a: int)
    requires
        0 <= a < 3,
        forall|i: int| 0 <= i < w.len() ==> w[i] == s,
    ensures
        total(w, a) == w.len() * axis(s, a),
        squares(w, a) == w.len() * (axis(s, a) * axis(s, a)),
        w.len() > 0 ==> least(w, a) == axis(s, a) && greatest(w, a) == axis(s, a),
    decreases w.len(),
{
    let n = w.len() as int;
    let v = axis(s, a);
    if w.len() > 0 {
        let before = w.drop_last();
        lemma_still(before, s, a);
        if n == 1 {
            assert(least(before, a) == i32::MAX && greatest(before, a) == i32::MIN);
        }
        assert(n * v == (n - 1) * v + v) by (nonlinear_arith);
        assert(n * (v * v) == (n - 1) * (v * v) + v * v) by (nonlinear_arith);
    } else {
        assert(n * v == 0 && n * (v * v) == 0) by (nonlinear_arith)
            requires
                n == 0,
        ;
    }
}

/// The values of a sample are within the range of the sensor.
pub open spec fn within_range(s: Sample) -> bool {
    -4096 <= s.x_mg <= 4096 && -4096 <= s.y_mg <= 4096 && -4096 <= s.z_mg <= 4096
}

/// A window of samples from the sensor always has room for another one, up to
/// the largest number of samples.
pub proof fn lemma_sensor_samples_fit(w: WindowStats, sample: Sample)
    requires
        w@.len() < u32::MAX,
        forall|i: int| 0 <= i < w@.len() ==> within_range(#[trigger] w@[i]),
        within_range(sample),
    ensures
        w.has_room(sample),
{
    lemma_range_squares(w@, 0);
    lemma_range_squares(w@, 1);
    lemma_range_squares(w@, 2);
    lemma_range_square(sample.x_mg as int);
    lemma_range_square(sample.y_mg as int);
    lemma_range_square(sample.z_mg as int);
}

proof fn lemma_range_square(v: int)
    requires
        -4096 <= v <= 4096,
    ensures
        0 <= v * v <= 0x100_0000,
{
    assert(0 <= v * v <= 0x100_0000) by (nonlinear_arith)
        requires
            -4096 <= v <= 4096,
    ;
}

proof fn lemma_range_squares(w: Seq<Sample>, a: int)
    requires
        0 <= a < 3,
        forall|i: int| 0 <= i < w.len() ==> within_range(#[trigger] w[i]),
    ensures
        squares(w, a) <= 0x100_0000 * w.len(),
    decreases w.len(),
{
    if w.len() > 0 {
        assert(within_range(w[w.len() - 1]));
        lemma_range_square(axis(w.last(), a));
        assert forall|i: int| 0 <= i < w.drop_last().len() implies within_range(
            #[trigger] w.drop_last()[i],
        ) by {
            assert(within_range(w[i]));
        }
        lemma_range_squares(w.drop_last(), a);
    }
}

proof fn lemma_range_total(w: Seq<Sample>, a: int)
    requires
        0 <= a < 3,
        forall|i: int| 0 <= i < w.len() ==> within_range(#[trigger] w[i]),
    ensures
        -4096 * w.len() <= total(w, a) <= 4096 * w.len(),
    decreases w.len(),
{
    if w.len() > 0 {
        assert(within_range(w[w.len() - 1]));
        assert forall|i: int| 0 <= i < w.drop_last().len() implies within_range(
            #[trigger] w.drop_last()[i],
        ) by {
            assert(within_range(w[i]));
        }
        lemma_range_total(w.drop_last(), a);
    }
}

/// The variance of a window of samples from the sensor is exact up to a million
/// samples.
pub proof fn lemma_sensor_window_is_exact(w: Seq<Sample>, a: int)
    requires
        0 <= a < 3,
        w.len() < 0x10_0000,
        forall|i: int| 0 <= i < w.len() ==> within_range(#[trigger] w[i]),
    ensures
        exact(w, a),
{
    lemma_range_squares(w, a);
    lemma_range_total(w, a);
    lemma_bounds(w, a);
    let n = w.len() as int;
    let q = squares(w, a);
    let t = total(w, a);
    assert(n * q <= 0xffff_ffff_ffff_ffff) by (nonlinear_arith)
        requires
            0 <= n < 0x10_0000,
            0 <= q <= 0x100_0000 * n,
    ;
    assert(t * t <= 0xffff_ffff_ffff_ffff) by (nonlinear_arith)
        requires
            -4096 * 0xf_ffff <= t <= 4096 * 0xf_ffff,
    ;
}

// ---------------------------------------------------------------------------
// Order and growth of a window
// ---------------------------------------------------------------------------
proof fn lemma_taken_out(w: Seq<Sample>, i: int, a: int)
    requires
        0 <= i < w.len(),
        0 <= a < 3,
    ensures
        total(w, a) == total(w.remove(i), a) + axis(w[i], a),
        squares(w, a) == squares(w.remove(i), a) + axis(w[i], a) * axis(w[i], a),
        least(w, a) == if axis(w[i], a) < least(w.remove(i), a) {
            axis(w[i], a)
        } else {
            least(w.remove(i), a)
        },
        greatest(w, a) == if axis(w[i], a) > greatest(w.remove(i), a) {
            axis(w[i], a)
        } else {
            greatest(w.remove(i), a)
        },
        peak_sq(w) == if magnitude_sq(w[i]) > peak_sq(w.remove(i)) {
            magnitude_sq(w[i])
        } else {
            peak_sq(w.remove(i))
        },
    decreases w.len(),
{
    let rest = w.remove(i);
    let before = w.drop_last();
    if i == w.len() - 1 {
        assert(rest =~= before);
    } else {
        lemma_taken_out(before, i, a);
        assert(rest.drop_last() =~= before.remove(i));
        assert(rest.last() == w.last());
    }
}

/// The statistics depend on which samples a window holds, not on their order.
pub proof fn lemma_order_does_not_matter(v: Seq<Sample>, w: Seq<Sample>, a: int)
    requires
        v.to_multiset() == w.to_multiset(),
        0 <= a < 3,
    ensures
        v.len() == w.len(),
        total(v, a) == total(w, a),
        squares(v, a) == squares(w, a),
        least(v, a) == least(w, a),
        greatest(v, a) == greatest(w, a),
        peak_sq(v) == peak_sq(w),
        mean(v, a) == mean(w, a),
        variance(v, a) == variance(w, a),
        span(v, a) == span(w, a),
        excursion(v, a) == excursion(w, a),
    decreases v.len(),
{
    v.to_multiset_ensures();
    w.to_multiset_ensures();
    if v.len() > 0 {
        let before = v.drop_last();
        let last = v.last();
        assert(v =~= v.drop_last().push(last));
        before.to_multiset_ensures();
        assert(v.to_multiset() =~= before.to_multiset().insert(last));
        assert(v.contains(last)) by {
            assert(v[v.len() - 1] == last);
        }
        assert(v.to_multiset().count(last) > 0);
        assert(w.to_multiset().count(last) > 0);
        assert(w.contains(last));
        let i = choose|i: int| 0 <= i < w.len() && w[i] == last;
        assert(w.remove(i).to_multiset() =~= w.to_multiset().remove(last));
        assert(before.to_multiset() =~= w.remove(i).to_multiset());
        lemma_order_does_not_matter(before, w.remove(i), a);
        lemma_taken_out(w, i, a);
    }
}

proof fn lemma_root_grows(r: int, s: int, n: int, m: int)
    requires
        is_root(r, n),
        is_root(s, m),
        n <= m,
    ensures
        r <= s,
{
    assert(r <= s) by (nonlinear_arith)
        requires
            0 <= r,
            0 <= s,
            r * r <= n,
            n <= m,
            m < (s + 1) * (s + 1),
    ;
}

proof fn lemma_same_root(r: int, s: int, n: int)
    requires
        is_root(r, n),
        is_root(s, n),
    ensures
        r == s,
{
    lemma_root_grows(r, s, n, n);
    lemma_root_grows(s, r, n, n);
}

/// Windows of the same samples, in whatever order, have the same statistics.
pub proof fn lemma_same_samples_same_metrics(v: Seq<Sample>, w: Seq<Sample>, m: Metrics, k: Metrics)
    requires
        v.to_multiset() == w.to_multiset(),
        measures(m, v),
        measures(k, w),
    ensures
        m == k,
{
    lemma_order_does_not_matter(v, w, 0);
    lemma_order_does_not_matter(v, w, 1);
    lemma_order_does_not_matter(v, w, 2);
    let sum = variance(v, 0) + variance(v, 1) + variance(v, 2);
    lemma_same_root(m.x_stddev_mg as int, k.x_stddev_mg as int, variance(v, 0));
    lemma_same_root(m.y_stddev_mg as int, k.y_stddev_mg as int, variance(v, 1));
    lemma_same_root(m.z_stddev_mg as int, k.z_stddev_mg as int, variance(v, 2));
    lemma_same_root(m.vibration_rms_mg as int, k.vibration_rms_mg as int, sum);
    lemma_same_root(m.acceleration_peak_mg as int, k.acceleration_peak_mg as int, peak_sq(v));
}

/// Another sample never shrinks the span of an axis or the greatest magnitude.
pub proof fn lemma_window_grows(w: Seq<Sample>, s: Sample, a: int)
    requires
        0 <= a < 3,
    ensures
        least(w.push(s), a) <= least(w, a),
        greatest(w.push(s), a) >= greatest(w, a),
        span(w.push(s), a) >= span(w, a),
        peak_sq(w.push(s)) >= peak_sq(w),
{
    assert(w.push(s).drop_last() =~= w);
}

/// Another sample is counted, and never shrinks the peak-to-peak span or the peak of
/// acceleration.
pub proof fn lemma_metrics_grow(w: Seq<Sample>, s: Sample, m: Metrics, k: Metrics)
    requires
        measures(m, w),
        measures(k, w.push(s)),
    ensures
        k.samples == m.samples + 1,
        k.peak_to_peak_mg >= m.peak_to_peak_mg,
        k.acceleration_peak_mg >= m.acceleration_peak_mg,
{
    lemma_window_grows(w, s, 0);
    lemma_window_grows(w, s, 1);
    lemma_window_grows(w, s, 2);
    lemma_root_grows(
        m.acceleration_peak_mg as int,
        k.acceleration_peak_mg as int,
        peak_sq(w),
        peak_sq(w.push(s)),
    );
}

// ---------------------------------------------------------------------------
// The sensor
// ---------------------------------------------------------------------------
/// The register that identifies the sensor.
pub const WHO_AM_I: u8 = 0x0f;

/// What that register holds.
pub const WHO_AM_I_VALUE: u8 = 0x33;

/// The register for the data rate and the axes.
pub const CTRL_REG1: u8 = 0x20;

/// The register for range and resolution.
pub const CTRL_REG4: u8 = 0x23;

/// The first output register.
pub const OUT_X_L: u8 = 0x28;

/// Read on from register to register.
pub const AUTO_INCREMENT: u8 = 0x80;

/// Why the sensor cannot be used.
#[derive(Debug)]
pub enum Error<E> {
    /// The bus reported an error.
    I2c(E),
    /// No sensor answers at its addresses.
    DeviceNotFound,
    /// The sensor does not have this data rate.
    UnsupportedSampleRate(u32),
}

/// An operation on the bus.
#[derive(Clone, Copy, Debug, PartialEq, Eq, Structural)]
pub enum BusRequest {
    /// Read a register.
    Read { address: u8, reg: u8 },
    /// Write a register.
    Write { address: u8, reg: u8, value: u8 },
}

/// The bits that select a data rate.
pub open spec fn rate_bits(sample_hz: u32) -> Option<u8> {
    match sample_hz {
        1 => Some(0x10),
        10 => Some(0x20),
        25 => Some(0x30),
        50 => Some(0x40),
        100 => Some(0x50),
        200 => Some(0x60),
        400 => Some(0x70),
        _ => None,
    }
}

fn rate_bits_of(sample_hz: u32) -> (r: Option<u8>)
    ensures
        r == rate_bits(sample_hz),
{
    match sample_hz {
        1 => Some(0x10),
        10 => Some(0x20),
        25 => Some(0x30),
        50 => Some(0x40),
        100 => Some(0x50),
        200 => Some(0x60),
        400 => Some(0x70),
        _ => None,
    }
}

/// A sensor, and its address once it was found and set up.
#[derive(Clone, Copy, Debug, PartialEq, Eq, Structural)]
pub struct Lis2dh {
    pub address: Option<u8>,
}

/// The step of an initialization.
#[derive(Clone, Copy, Debug, PartialEq, Eq, Structural)]
pub enum InitStage {
    /// Ask at the first address.
    First,
    /// Ask at the second address.
    Second,
    /// Set the data rate; all axes in normal mode.
    Rate { address: u8, odr: u8 },
    /// Set block update, a range of 4 g and high resolution.
    Range { address: u8 },
}

/// What comes after a reply.
#[derive(Debug)]
pub enum InitStep<E> {
    Do(InitStage),
    /// The sensor is ready at this address.
    Ready(u8),
    Failed(Error<E>),
}

/// The sensor was found.
pub open spec fn found<E>(address: u8, sample_hz: u32) -> InitStep<E> {
    match rate_bits(sample_hz) {
        Some(odr) => InitStep::Do(InitStage::Rate { address, odr }),
        None => InitStep::Failed(Error::UnsupportedSampleRate(sample_hz)),
    }
}

impl InitStage {
    /// The operation that is wanted. In the mode that is set, a step of the
    /// 12-bit sample stands for 2 mg.
    pub open spec fn operation(self) -> BusRequest {
        match self {
            InitStage::First => BusRequest::Read { address: 0x18, reg: WHO_AM_I },
            InitStage::Second => BusRequest::Read { address: 0x19, reg: WHO_AM_I },
            InitStage::Rate { address, odr } => BusRequest::Write {
                address,
                reg: CTRL_REG1,
                value: odr | 0x07,
            },
            InitStage::Range { address } => BusRequest::Write {
                address,
                reg: CTRL_REG4,
                value: 0x98,
            },
        }
    }

    /// What comes after a reply; that to a write carries no value of interest.
    pub open spec fn after<E>(self, sample_hz: u32, reply: Result<u8, E>) -> InitStep<E> {
        match self {
            InitStage::First => if reply is Ok && reply->Ok_0 == WHO_AM_I_VALUE {
                found(0x18, sample_hz)
            } else {
                InitStep::Do(InitStage::Second)
            },
            InitStage::Second => if reply is Ok && reply->Ok_0 == WHO_AM_I_VALUE {
                found(0x19, sample_hz)
            } else {
                InitStep::Failed(Error::DeviceNotFound)
            },
            InitStage::Rate { address, .. } => match reply {
                Ok(_) => InitStep::Do(InitStage::Range { address }),
                Err(e) => InitStep::Failed(Error::I2c(e)),
            },
            InitStage::Range { address } => match reply {
                Ok(_) => InitStep::Ready(address),
                Err(e) => InitStep::Failed(Error::I2c(e)),
            },
        }
    }

    /// The operation that is wanted.
    pub fn request(&self) -> (r: BusRequest)
        ensures
            r == self.operation(),
    {
        match *self {
            InitStage::First => BusRequest::Read { address: 0x18, reg: WHO_AM_I },
            InitStage::Second => BusRequest::Read { address: 0x19, reg: WHO_AM_I },
            InitStage::Rate { address, odr } => BusRequest::Write {
                address,
                reg: CTRL_REG1,
                value: odr | 0x07,
            },
            InitStage::Range { address } => BusRequest::Write {
                address,
                reg: CTRL_REG4,
                value: 0x98,
            },
        }
    }
}

/// The value of an axis: 12 bits, left-aligned in a little-endian word, in steps
/// of 2 mg.
pub open spec fn axis_value(low: u8, high: u8) -> int {
    let word = low as int + 256 * high as int;
    let signed = if word >= 0x8000 {
        word - 0x10000
    } else {
        word
    };
    2 * (signed / 16)
}

/// The sample that six output registers hold.
pub open spec fn sample_of(raw: Seq<u8>) -> Sample {
    Sample {
        x_mg: axis_value(raw[0], raw[1]) as i32,
        y_mg: axis_value(raw[2], raw[3]) as i32,
        z_mg: axis_value(raw[4], raw[5]) as i32,
    }
}

/// The read of a sample: the sensor's address and the first register.
pub open spec fn sample_read<E>(address: Option<u8>) -> Result<(u8, u8), Error<E>> {
    match address {
        Some(address) => Ok((address, OUT_X_L | AUTO_INCREMENT)),
        None => Err(Error::DeviceNotFound),
    }
}

/// The sample that the bus returned.
pub open spec fn sample_result<E>(address: Option<u8>, reply: Result<[u8; 6], E>) -> Result<
    Sample,
    Error<E>,
> {
    if address is None {
        Err(Error::DeviceNotFound)
    } else {
        match reply {
            Ok(raw) => Ok(sample_of(raw@)),
            Err(e) => Err(Error::I2c(e)),
        }
    }
}

fn axis_value_of(low: u8, high: u8) -> (r: i32)
    ensures
        r == axis_value(low, high),
        -4096 <= r <= 4094,
{
    let word = low as i32 + 256 * high as i32;
    let signed = if word >= 0x8000 {
        word - 0x10000
    } else {
        word
    };
    // Rounding down, as the arithmetic shift of the register does.
    let steps = (signed + 0x8000) / 16 - 0x800;
    2 * steps
}

impl Lis2dh {
    /// A sensor that was not set up yet.
    pub fn new() -> (r: Lis2dh)
        ensures
            r.address is None,
    {
        Lis2dh { address: None }
    }

    /// Begins to find and set up the sensor.
    pub fn init(&self) -> (r: InitStage)
        ensures
            r == InitStage::First,
    {
        InitStage::First
    }

    fn probe<E>(
        &self,
        address: u8,
        sample_hz: u32,
        reply: Result<u8, E>,
        otherwise: InitStep<E>,
    ) -> (r: InitStep<E>)
        ensures
            r == if reply is Ok && reply->Ok_0 == WHO_AM_I_VALUE {
                found(address, sample_hz)
            } else {
                otherwise
            },
    {
        match reply {
            Ok(value) => {
                if value == WHO_AM_I_VALUE {
                    return match rate_bits_of(sample_hz) {
                        Some(odr) => InitStep::Do(InitStage::Rate { address, odr }),
                        None => InitStep::Failed(Error::UnsupportedSampleRate(sample_hz)),
                    };
                }
                otherwise
            },
            Err(_) => otherwise,
        }
    }

    /// Takes the reply to an operation of the initialization.
    pub fn supply<E>(&mut self, stage: InitStage, sample_hz: u32, reply: Result<u8, E>) -> (r:
        InitStep<E>)
        ensures
            r == stage.after::<E>(sample_hz, reply),
            final(self).address == match r {
                InitStep::Ready(address) => Some(address),
                _ => old(self).address,
            },
    {
        match stage {
            InitStage::First => self.probe(
                0x18,
                sample_hz,
                reply,
                InitStep::Do(InitStage::Second),
            ),
            InitStage::Second => self.probe(
                0x19,
                sample_hz,
                reply,
                InitStep::Failed(Error::DeviceNotFound),
            ),
            InitStage::Rate { address, .. } => match reply {
                Ok(_) => InitStep::Do(InitStage::Range { address }),
                Err(e) => InitStep::Failed(Error::I2c(e)),
            },
            InitStage::Range { address } => match reply {
                Ok(_) => {
                    self.address = Some(address);
                    InitStep::Ready(address)
                },
                Err(e) => InitStep::Failed(Error::I2c(e)),
            },
        }
    }

    /// The read that gives a sample: the address and the first register, with
    /// reading on.
    pub fn sample_request<E>(&self) -> (r: Result<(u8, u8), Error<E>>)
        ensures
            r == sample_read::<E>(self.address),
    {
        match self.address {
            Some(address) => Ok((address, OUT_X_L | AUTO_INCREMENT)),
            None => Err(Error::DeviceNotFound),
        }
    }

    /// The sample that the bus returned.
    pub fn read_sample<E>(&self, reply: Result<[u8; 6], E>) -> (r: Result<Sample, Error<E>>)
        ensures
            r == sample_result(self.address, reply),
            r matches Ok(sample) ==> within_range(sample),
    {
        if self.address.is_none() {
            return Err(Error::DeviceNotFound);
        }
        match reply {
            Ok(raw) => Ok(
                Sample {
                    x_mg: axis_value_of(raw[0], raw[1]),
                    y_mg: axis_value_of(raw[2], raw[3]),
                    z_mg: axis_value_of(raw[4], raw[5]),
                },
            ),
            Err(e) => Err(Error::I2c(e)),
        }
    }
}

} // verus!
