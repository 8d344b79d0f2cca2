use vstd::prelude::*;

verus! {

/// The positive full-scale sample value. A level counts in units of
/// `1 / FULL_SCALE`, so that dividing a sample by the full scale is exact.
pub const FULL_SCALE: u32 = 0x7fff_ffff;

/// Cells of the bar that stand for a level of exactly one.
pub const BAR_WIDTH: u32 = 50;

/// Loudness of one frame: the root mean square of its samples, rounded down
/// to a whole sample unit. The normalized loudness is `raw / FULL_SCALE`.
#[derive(Clone, Copy, Debug, PartialEq, Eq, Structural)]
pub struct Level {
    pub raw: u32,
}

/// Magnitude of a sample.
pub open spec fn magnitude(sample: i32) -> nat {
    if sample < 0 {
        (-(sample as int)) as nat
    } else {
        sample as nat
    }
}

/// The square of one sample.
pub open spec fn square(sample: i32) -> nat {
    (sample as int * sample as int) as nat
}

/// Sum of the squared samples of a frame.
pub open spec fn sum_squares(samples: Seq<i32>) -> nat
    decreases samples.len(),
{
    if samples.len() == 0 {
        0
    } else {
        sum_squares(samples.drop_last()) + square(samples.last())
    }
}

/// `r` is the root mean square of `samples`, rounded down to a whole
/// number: `r <= sqrt(sum_squares / len) < r + 1`. An empty frame has the
/// root mean square zero.
pub open spec fn is_rms(samples: Seq<i32>, r: nat) -> bool {
    if samples.len() == 0 {
        r == 0
    } else {
        r * r * samples.len() <= sum_squares(samples) < (r + 1) * (r + 1) * samples.len()
    }
}

/// The level of a frame: its root mean square, rounded down.
pub open spec fn level_of(samples: Seq<i32>) -> Level {
    Level { raw: (choose|r: nat| is_rms(samples, r)) as u32 }
}

/// `k` is the fraction `num / den` rounded to the nearest whole number,
/// with halves rounded up.
pub open spec fn rounds_to(num: int, den: int, k: int) -> bool {
    (2 * k - 1) * den <= 2 * num < (2 * k + 1) * den
}

/// `num / den` rounded to the nearest whole number, halves up, for a
/// positive `den`.
pub open spec fn rounded(num: int, den: int) -> int {
    (2 * num + den) / (2 * den)
}

impl Level {
    /// This level times `scale`, rounded to the nearest whole number.
    pub open spec fn reading(self, scale: int) -> int {
        rounded(self.raw as int * scale, FULL_SCALE as int)
    }
}

/// `r` is the square root of `q`, rounded down.
spec fn is_floor_sqrt(q: nat, r: nat) -> bool {
    r * r <= q < (r + 1) * (r + 1)
}

proof fn lemma_floor_sqrt_exists(q: nat) -> (r: nat)
    ensures
        is_floor_sqrt(q, r),
    decreases q,
{
    if q == 0 {
        assert(is_floor_sqrt(0, 0)) by (nonlinear_arith);
        0
    } else {
        let r = lemma_floor_sqrt_exists((q - 1) as nat);
        if (r + 1) * (r + 1) <= q {
            assert(q < (r + 2) * (r + 2)) by (nonlinear_arith)
                requires
                    q - 1 < (r + 1) * (r + 1),
            ;
            r + 1
        } else {
            r
        }
    }
}

/// The rounded-down root of the rounded-down mean is the rounded-down root
/// of the mean.
proof fn lemma_rms_from_mean(samples: Seq<i32>, r: nat)
    requires
        samples.len() > 0,
        is_floor_sqrt(sum_squares(samples) / samples.len(), r),
    ensures
        is_rms(samples, r),
{
    let n = samples.len();
    let total = sum_squares(samples);
    let q = total / n;
    vstd::arithmetic::div_mod::lemma_fundamental_div_mod(total as int, n as int);
    vstd::arithmetic::div_mod::lemma_mod_bound(total as int, n as int);
    assert(r * r * n <= total) by (nonlinear_arith)
        requires
            r * r <= q,
            n * q <= total,
    ;
    assert(total < (r + 1) * (r + 1) * n) by (nonlinear_arith)
        requires
            q + 1 <= (r + 1) * (r + 1),
            total < n * q + n,
    ;
}

proof fn lemma_sum_squares_step(samples: Seq<i32>, i: int)
    requires
        0 <= i < samples.len(),
    ensures
        sum_squares(samples.take(i + 1)) == sum_squares(samples.take(i)) + square(samples[i]),
{
    assert(samples.take(i + 1).drop_last() =~= samples.take(i));
}

proof fn lemma_square_bound(sample: i32)
    ensures
        square(sample) == sample as int * sample as int,
        square(sample) == magnitude(sample) * magnitude(sample),
        square(sample) <= 0x4000_0000_0000_0000,
{
    let s: int = sample as int;
    assert(0 <= s * s <= 0x4000_0000_0000_0000) by (nonlinear_arith)
        requires
            -0x8000_0000 <= s <= 0x7fff_ffff,
    ;
    assert((-s) * (-s) == s * s) by (nonlinear_arith);
}

proof fn lemma_sum_squares_constant(samples: Seq<i32>, c: i32)
    requires
        forall|i: int| 0 <= i < samples.len() ==> samples[i] == c,
    ensures
        sum_squares(samples) == samples.len() * square(c),
    decreases samples.len(),
{
    if samples.len() > 0 {
        lemma_sum_squares_constant(samples.drop_last(), c);
        assert(samples.len() * square(c) == (samples.len() - 1) * square(c) + square(c))
            by (nonlinear_arith);
    } else {
        assert(0 * square(c) == 0) by (nonlinear_arith);
    }
}

proof fn lemma_sum_squares_bound(samples: Seq<i32>)
    ensures
        sum_squares(samples) <= samples.len() * 0x4000_0000_0000_0000,
    decreases samples.len(),
{
    if samples.len() > 0 {
        lemma_sum_squares_bound(samples.drop_last());
        lemma_square_bound(samples.last());
    }
}

/// A frame has at most one root mean square.
pub proof fn lemma_rms_unique(samples: Seq<i32>, r1: nat, r2: nat)
    requires
        is_rms(samples, r1),
        is_rms(samples, r2),
    ensures
        r1 == r2,
{
    let n = samples.len();
    if n > 0 && r1 < r2 {
        assert((r1 + 1) * (r1 + 1) * n <= r2 * r2 * n) by (nonlinear_arith)
            requires
                r1 + 1 <= r2,
        ;
    } else if n > 0 && r2 < r1 {
        assert((r2 + 1) * (r2 + 1) * n <= r1 * r1 * n) by (nonlinear_arith)
            requires
                r2 + 1 <= r1,
        ;
    }
}

/// Every frame has a level, and no frame is louder than the most negative
/// sample: a level is at most one unit above full scale.
pub proof fn lemma_level_bound(samples: Seq<i32>)
    ensures
        is_rms(samples, level_of(samples).raw as nat),
        level_of(samples).raw <= FULL_SCALE + 1,
{
    let n = samples.len();
    if n > 0 {
        let r0 = lemma_floor_sqrt_exists(sum_squares(samples) / n);
        lemma_rms_from_mean(samples, r0);
    } else {
        assert(is_rms(samples, 0));
    }
    let r = choose|r: nat| is_rms(samples, r);
    assert(is_rms(samples, r));
    if n > 0 {
        lemma_sum_squares_bound(samples);
        let total = sum_squares(samples);
        assert(r <= 0x8000_0000) by (nonlinear_arith)
            requires
                n > 0,
                r * r * n <= total,
                total <= n * 0x4000_0000_0000_0000,
        ;
    }
}

/// Whatever number is a root mean square of a frame is its level.
pub proof fn lemma_level_of(samples: Seq<i32>, r: nat)
    requires
        is_rms(samples, r),
    ensures
        level_of(samples).raw == r,
{
    lemma_level_bound(samples);
    lemma_rms_unique(samples, level_of(samples).raw as nat, r);
}

/// An empty frame has level zero.
pub proof fn lemma_empty_frame_level()
    ensures
        level_of(Seq::<i32>::empty()).raw == 0,
{
    lemma_level_of(Seq::<i32>::empty(), 0);
}

/// A frame whose samples all equal `c` has level `|c|`.
pub proof fn lemma_constant_frame_level(samples: Seq<i32>, c: i32)
    requires
        samples.len() > 0,
        forall|i: int| 0 <= i < samples.len() ==> samples[i] == c,
    ensures
        level_of(samples).raw == magnitude(c),
{
    lemma_sum_squares_constant(samples, c);
    lemma_square_bound(c);
    let n: nat = samples.len();
    let m: nat = magnitude(c);
    assert(m * m * n <= n * (m * m) < (m + 1) * (m + 1) * n) by (nonlinear_arith)
        requires
            n > 0,
    ;
    lemma_level_of(samples, m);
}

/// A frame of zeros has level zero.
pub proof fn lemma_silent_frame_level(samples: Seq<i32>)
    requires
        forall|i: int| 0 <= i < samples.len() ==> samples[i] == 0,
    ensures
        level_of(samples).raw == 0,
{
    if samples.len() == 0 {
        lemma_level_of(samples, 0);
    } else {
        lemma_constant_frame_level(samples, 0);
    }
}

/// A frame of one sample has that sample's magnitude as its level.
pub proof fn lemma_single_sample_level(sample: i32)
    ensures
        level_of(seq![sample]).raw == magnitude(sample),
{
    lemma_constant_frame_level(seq![sample], sample);
}

/// A frame in which every sample is at positive full scale has level one:
/// `raw` equals `FULL_SCALE`.
pub proof fn lemma_full_scale_frame_level(samples: Seq<i32>)
    requires
        samples.len() > 0,
        forall|i: int| 0 <= i < samples.len() ==> samples[i] == FULL_SCALE,
    ensures
        level_of(samples).raw == FULL_SCALE,
{
    lemma_constant_frame_level(samples, 0x7fff_ffff);
}

/// Levels are measured against the positive full scale, not against the
/// negative minimum: the most negative sample lies one unit beyond a level
/// of one.
pub proof fn lemma_most_negative_sample_level()
    ensures
        level_of(seq![i32::MIN]).raw == FULL_SCALE + 1,
{
    lemma_single_sample_level(i32::MIN);
}

/// A fraction with a positive denominator rounds to at most one number.
pub proof fn lemma_rounding_unique(num: int, den: int, k1: int, k2: int)
    requires
        den > 0,
        rounds_to(num, den, k1),
        rounds_to(num, den, k2),
    ensures
        k1 == k2,
{
    if k1 < k2 {
        assert((2 * k1 + 1) * den <= (2 * k2 - 1) * den) by (nonlinear_arith)
            requires
                k1 + 1 <= k2,
                den > 0,
        ;
    } else if k2 < k1 {
        assert((2 * k2 + 1) * den <= (2 * k1 - 1) * den) by (nonlinear_arith)
            requires
                k2 + 1 <= k1,
                den > 0,
        ;
    }
}

/// `rounded` names the number that `rounds_to` describes.
pub proof fn lemma_rounded_is_nearest(num: int, den: int)
    requires
        den > 0,
    ensures
        rounds_to(num, den, rounded(num, den)),
{
    let k: int = rounded(num, den);
    vstd::arithmetic::div_mod::lemma_fundamental_div_mod(2 * num + den, 2 * den);
    vstd::arithmetic::div_mod::lemma_mod_bound(2 * num + den, 2 * den);
    assert((2 * den) * k == 2 * (k * den)) by (nonlinear_arith);
    assert((2 * k - 1) * den == 2 * (k * den) - den) by (nonlinear_arith);
    assert((2 * k + 1) * den == 2 * (k * den) + den) by (nonlinear_arith);
}

/// The bar of a level that some frame has never outgrows its 50 cells, and
/// its label never passes 100.
pub proof fn lemma_reading_bound(samples: Seq<i32>)
    ensures
        0 <= level_of(samples).reading(BAR_WIDTH as int) <= BAR_WIDTH,
        0 <= level_of(samples).reading(100) <= 100,
{
    lemma_level_bound(samples);
}

/// Rounded-down square root of a number that is at most `2^62`.
fn floor_sqrt(q: u64) -> (r: u32)
    requires
        q <= 0x4000_0000_0000_0000,
    ensures
        is_floor_sqrt(q as nat, r as nat),
{
    let mut lo: u64 = 0;
    let mut hi: u64 = 0x8000_0001;
    assert(0x8000_0001u64 * 0x8000_0001u64 > 0x4000_0000_0000_0000) by (nonlinear_arith);
    while hi - lo > 1
        invariant
            lo < hi <= 0x8000_0001,
            lo * lo <= q < hi * hi,
        decreases hi - lo,
    {
        let mid: u64 = lo + (hi - lo) / 2;
        assert(mid * mid <= 0x8000_0001 * 0x8000_0001) by (nonlinear_arith)
            requires
                mid <= 0x8000_0001,
        ;
        if mid * mid <= q {
            lo = mid;
        } else {
            hi = mid;
        }
    }
    lo as u32
}

/// Loudness of a frame: the root mean square of its samples.
///
/// An empty frame has level zero.
pub fn rms(samples: &[i32]) -> (level: Level)
    ensures
        is_rms(samples@, level.raw as nat),
        level == level_of(samples@),
{
    let len: usize = samples.len();
    if len == 0 {
        proof {
            lemma_level_of(samples@, 0);
        }
        return Level { raw: 0 };
    }
    let mut total: u128 = 0;
    let mut i: usize = 0;
    while i < len
        invariant
            len == samples@.len(),
            i <= len,
            total == sum_squares(samples@.take(i as int)),
            total <= i * 0x4000_0000_0000_0000,
        decreases len - i,
    {
        let s: i64 = samples[i] as i64;
        proof {
            lemma_square_bound(samples@[i as int]);
            lemma_sum_squares_step(samples@, i as int);
        }
        let sq: i64 = s * s;
        total = total + sq as u128;
        i = i + 1;
    }
    assert(samples@.take(len as int) =~= samples@);
    let mean: u128 = total / (len as u128);
    assert(mean <= 0x4000_0000_0000_0000) by (nonlinear_arith)
        requires
            len > 0,
            total <= len * 0x4000_0000_0000_0000,
            mean == total / (len as u128),
    ;
    let raw: u32 = floor_sqrt(mean as u64);
    proof {
        lemma_rms_from_mean(samples@, raw as nat);
        lemma_level_of(samples@, raw as nat);
    }
    Level { raw }
}

/// `level * scale`, rounded to the nearest whole number.
fn scaled(level: Level, scale: u32) -> (k: u64)
    requires
        scale <= 100,
    ensures
        k == level.reading(scale as int),
        k <= 2 * scale + 1,
{
    let raw: u64 = level.raw as u64;
    let factor: u64 = scale as u64;
    assert(raw * factor <= 0xffff_ffff * 100) by (nonlinear_arith)
        requires
            raw <= 0xffff_ffff,
            factor <= 100,
    ;
    assert(raw * factor <= 0xffff_ffff * factor) by (nonlinear_arith)
        requires
            raw <= 0xffff_ffff,
            0 <= factor,
    ;
    let num: u64 = raw * factor;
    let k: u64 = (2 * num + 0x7fff_ffff) / 0xffff_fffe;
    assert(k * 0xffff_fffe <= 2 * num + 0x7fff_ffff < (k + 1) * 0xffff_fffe);
    k
}

/// Number of filled cells that show `level`: `level * 50`, rounded to the
/// nearest whole number. A level above one gives more than 50 cells; the
/// bar is not clamped.
pub fn bar_length(level: Level) -> (cells: usize)
    ensures
        rounds_to(level.raw as int * BAR_WIDTH as int, FULL_SCALE as int, cells as int),
        cells == level.reading(BAR_WIDTH as int),
{
    proof {
        lemma_rounded_is_nearest(level.raw as int * BAR_WIDTH as int, FULL_SCALE as int);
    }
    scaled(level, BAR_WIDTH) as usize
}

/// The percentage shown beside the bar: `level * 100`, rounded to the
/// nearest whole number.
pub fn percentage_label(level: Level) -> (percent: u32)
    ensures
        rounds_to(level.raw as int * 100, FULL_SCALE as int, percent as int),
        percent == level.reading(100),
{
    proof {
        lemma_rounded_is_nearest(level.raw as int * 100, FULL_SCALE as int);
    }
    scaled(level, 100) as u32
}

} // verus!
