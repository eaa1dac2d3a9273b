//! Feature extraction over one acquisition window.
//!
//! Each window is [`WINDOW_LEN`] samples of a three-axis accelerometer. Two kinds of feature
//! are computed per axis and concatenated into one vector of [`FEATURE_LEN`] values: the
//! time-domain statistics (RMS, crest factor, kurtosis), then the spectral bands, both
//! grouped by axis.
//!
//! This module decides what each feature is computed from and where it goes: the columns, the
//! exact integer sums and peaks, the cases in which a statistic is defined to be zero, the bins
//! of each spectral band, and the layout of the vector. The floating-point primitives are
//! handed in as [`Numerics`].
use crate::float32::F32Bits;
use vstd::prelude::*;

verus! {

/// Samples per acquisition window (160 ms at 3200 Hz).
pub const WINDOW_LEN: usize = 512;

/// Accelerometer axes (X, Y, Z).
pub const N_AXES: usize = 3;

/// Time-domain features per axis: RMS, crest factor, kurtosis.
pub const FEATURES_PER_AXIS: usize = 3;

/// Spectral bands per axis, log-spaced over the AC spectrum.
pub const FFT_BANDS_PER_AXIS: usize = 5;

/// Bins in the magnitude spectrum of one window.
pub const FFT_BINS: usize = 256;

/// Length of the feature vector: the statistics of each axis, then the bands of each axis.
pub const FEATURE_LEN: usize = N_AXES * (FEATURES_PER_AXIS + FFT_BANDS_PER_AXIS);

/// One acquisition sample: a reading on each axis.
pub type Sample = [i16; N_AXES];

/// A zeroed sample, for window buffers before acquisition fills them.
pub const DEFAULT_SAMPLE: Sample = [0, 0, 0];

/// Band `b` spans the bins from `BAND_EDGES[b]` up to, but not at, `BAND_EDGES[b + 1]`. The
/// edges grow geometrically from bin 1 to the end of the spectrum; bin 0 (DC) is in no band.
pub const BAND_EDGES: [usize; 6] = [1, 3, 9, 28, 84, 256];

/// The readings of one axis over a window, oldest first.
pub open spec fn axis_readings(window: Seq<Sample>, axis: int) -> Seq<i16> {
    Seq::new(window.len(), |t: int| window[t][axis])
}

/// The readings of one axis, gathered out of the interleaved window.
pub fn column(window: &[Sample; WINDOW_LEN], axis: usize) -> (col: [i16; WINDOW_LEN])
    requires
        axis < N_AXES,
    ensures
        col@ == axis_readings(window@, axis as int),
{
    let mut col: [i16; WINDOW_LEN] = [0; WINDOW_LEN];
    let mut t: usize = 0;
    while t < WINDOW_LEN
        invariant
            t <= WINDOW_LEN,
            axis < N_AXES,
            forall|u: int| 0 <= u < t ==> #[trigger] col[u] == window[u][axis as int],
        decreases WINDOW_LEN - t,
    {
        col[t] = window[t][axis];
        t += 1;
    }
    col
}

/// The exact sum of the squared readings.
pub open spec fn square_sum(x: Seq<i16>) -> int
    decreases x.len(),
{
    if x.len() == 0 {
        0
    } else {
        square_sum(x.drop_last()) + x.last() * x.last()
    }
}

/// The absolute value of a reading.
pub open spec fn magnitude(v: i16) -> int {
    if v < 0 {
        -v
    } else {
        v as int
    }
}

/// Whether every reading is zero.
pub open spec fn silent(x: Seq<i16>) -> bool {
    forall|i: int| 0 <= i < x.len() ==> #[trigger] x[i] == 0
}

/// Whether `p` is the largest absolute reading.
pub open spec fn is_peak(x: Seq<i16>, p: int) -> bool {
    &&& exists|i: int| 0 <= i < x.len() && magnitude(#[trigger] x[i]) == p
    &&& forall|i: int| 0 <= i < x.len() ==> magnitude(#[trigger] x[i]) <= p
}

/// Whether all readings are the same.
pub open spec fn constant(x: Seq<i16>) -> bool {
    forall|i: int, j: int| 0 <= i < x.len() && 0 <= j < x.len() ==> x[i] == x[j]
}

/// The sum of squares behind the RMS amplitude `sqrt(sum / len)`, accumulated exactly: a
/// window of `i16` readings cannot overflow an `i64`.
pub fn sum_squares(x: &[i16]) -> (sum: i64)
    requires
        x@.len() <= 0x1_FFFF_FFFF,
    ensures
        sum == square_sum(x@),
{
    let mut sum: i64 = 0;
    let mut i: usize = 0;
    while i < x.len()
        invariant
            i <= x@.len() <= 0x1_FFFF_FFFF,
            sum == square_sum(x@.take(i as int)),
            0 <= sum <= 0x4000_0000 * i,
        decreases x@.len() - i,
    {
        let v: i64 = x[i] as i64;
        assert(0 <= v * v <= 0x4000_0000) by (nonlinear_arith)
            requires
                -0x8000 <= v <= 0x7FFF,
        ;
        assert(x@.take(i + 1).drop_last() =~= x@.take(i as int));
        sum = sum + v * v;
        i += 1;
    }
    assert(x@.take(x@.len() as int) =~= x@);
    sum
}

/// The largest absolute reading.
pub fn peak(x: &[i16]) -> (p: u16)
    requires
        x@.len() > 0,
    ensures
        is_peak(x@, p as int),
{
    let mut p: u16 = 0;
    let mut i: usize = 0;
    while i < x.len()
        invariant
            i <= x@.len(),
            i == 0 ==> p == 0,
            i > 0 ==> is_peak(x@.take(i as int), p as int),
        decreases x@.len() - i,
    {
        let v: i32 = x[i] as i32;
        let m: u16 = if v < 0 { (-v) as u16 } else { v as u16 };
        let ghost seen = x@.take(i as int);
        let ghost next = x@.take(i + 1);
        assert(next[i as int] == x@[i as int]);
        proof {
            if i > 0 {
                let j = choose|j: int| 0 <= j < seen.len() && magnitude(#[trigger] seen[j]) == p;
                assert(magnitude(next[j]) == p);
            }
        }
        if i == 0 || m > p {
            p = m;
        }
        i += 1;
    }
    assert(x@.take(x@.len() as int) =~= x@);
    p
}

/// The numerator of the crest factor `peak / RMS`, or `None` for a silent window, whose RMS
/// is zero and whose crest factor is defined to be zero.
pub fn crest_peak(x: &[i16]) -> (p: Option<u16>)
    requires
        x@.len() > 0,
    ensures
        p is None <==> silent(x@),
        p matches Some(v) ==> is_peak(x@, v as int),
{
    let p: u16 = peak(x);
    if p == 0 {
        None
    } else {
        proof {
            let j = choose|j: int| 0 <= j < x@.len() && magnitude(#[trigger] x@[j]) == p;
            assert(x@[j] != 0);
        }
        Some(p)
    }
}

/// Whether a window is constant: its variance is zero, and its kurtosis is defined to be
/// zero.
pub fn is_constant(x: &[i16]) -> (r: bool)
    ensures
        r == constant(x@),
{
    let mut i: usize = 1;
    while i < x.len()
        invariant
            1 <= i,
            x@.len() > 0 ==> i <= x@.len(),
            forall|j: int| 0 <= j < i && j < x@.len() ==> #[trigger] x@[j] == x@[0],
        decreases x@.len() - i,
    {
        if x[i] != x[0] {
            return false;
        }
        i += 1;
    }
    true
}

/// The bins of spectral band `b`: the first one, and the one past the last.
pub fn band_range(b: usize) -> (r: (usize, usize))
    requires
        b < FFT_BANDS_PER_AXIS,
    ensures
        r == (BAND_EDGES[b as int], BAND_EDGES[b + 1]),
        1 <= r.0 < r.1 <= FFT_BINS,
{
    (BAND_EDGES[b], BAND_EDGES[b + 1])
}

/// Where statistic `i` of `axis` stands in the feature vector.
pub open spec fn stat_index(axis: int, i: int) -> int {
    axis * FEATURES_PER_AXIS + i
}

/// Where spectral band `b` of `axis` stands in the feature vector.
pub open spec fn band_index(axis: int, b: int) -> int {
    N_AXES * FEATURES_PER_AXIS + axis * FFT_BANDS_PER_AXIS + b
}

/// The numeric primitives behind the features. Single-precision values are bit patterns.
pub struct Numerics<R, Q, K, S, L> {
    /// The square root of a quotient: of an exact sum and the number of its terms.
    pub root: R,
    /// A peak over an RMS amplitude.
    pub ratio: Q,
    /// The fourth central moment over the squared variance of readings that vary.
    pub moments: K,
    /// The magnitude spectrum of a Hann-windowed column.
    pub spectrum: S,
    /// The compressed sum of the magnitudes of a band.
    pub compress: L,
}

/// Whether `r` is the RMS amplitude of the readings: the root of their exact sum of squares
/// over their number.
pub open spec fn rms_gives<R: Fn(i64, usize) -> F32Bits>(root: R, x: Seq<i16>, r: F32Bits) -> bool {
    root.ensures((square_sum(x) as i64, x.len() as usize), r)
}

/// Whether `r` is the crest factor of the readings: the peak over the RMS amplitude, or zero
/// where all readings are zero.
pub open spec fn crest_gives<R, Q>(root: R, ratio: Q, x: Seq<i16>, r: F32Bits) -> bool where
    R: Fn(i64, usize) -> F32Bits,
    Q: Fn(u16, F32Bits) -> F32Bits,
 {
    if silent(x) {
        r == 0
    } else {
        exists|p: u16, level: F32Bits|
            is_peak(x, p as int) && rms_gives(root, x, level) && #[trigger] ratio.ensures(
                (p, level),
                r,
            )
    }
}

/// Whether `r` is the kurtosis of the readings: the standardized moment, or zero where all
/// readings are the same.
pub open spec fn kurtosis_gives<K: Fn(&[i16]) -> F32Bits>(
    moments: K,
    x: Seq<i16>,
    r: F32Bits,
) -> bool {
    if constant(x) {
        r == 0
    } else {
        exists|col: &[i16]| col@ == x && #[trigger] moments.ensures((col,), r)
    }
}

/// Whether `r` is the compressed sum of band `b` of a spectrum.
pub open spec fn band_gives<L: Fn(&[F32Bits]) -> F32Bits>(
    compress: L,
    spectrum: Seq<F32Bits>,
    b: int,
    r: F32Bits,
) -> bool {
    exists|bins: &[F32Bits]|
        bins@ == spectrum.subrange(BAND_EDGES[b] as int, BAND_EDGES[b + 1] as int)
            && #[trigger] compress.ensures((bins,), r)
}

/// Whether the spectrum of the readings is `mag`.
pub open spec fn spectrum_gives<S: Fn(&[i16; WINDOW_LEN]) -> [F32Bits; FFT_BINS]>(
    spectrum: S,
    x: Seq<i16>,
    mag: [F32Bits; FFT_BINS],
) -> bool {
    exists|col: &[i16; WINDOW_LEN]| col@ == x && #[trigger] spectrum.ensures((col,), mag)
}

/// Whether `out` holds the spectral bands of the readings: of one spectrum, band by band.
pub open spec fn bands_give<S, L>(spectrum: S, compress: L, x: Seq<i16>, out: Seq<F32Bits>) -> bool where
    S: Fn(&[i16; WINDOW_LEN]) -> [F32Bits; FFT_BINS],
    L: Fn(&[F32Bits]) -> F32Bits,
 {
    exists|mag: [F32Bits; FFT_BINS]| #[trigger]
        spectrum_gives(spectrum, x, mag) && forall|b: int|
            0 <= b < FFT_BANDS_PER_AXIS ==> band_gives(compress, mag@, b, #[trigger] out[b])
}

/// Root-mean-square amplitude: the overall vibration energy in a window.
///
/// The sum of squares is accumulated exactly, so only `root` rounds.
pub fn rms<R: Fn(i64, usize) -> F32Bits>(x: &[i16], root: &R) -> (r: F32Bits)
    requires
        0 < x@.len() <= 0x1_FFFF_FFFF,
        forall|sum: i64, n: usize| #[trigger] root.requires((sum, n)),
    ensures
        rms_gives(*root, x@, r),
{
    let n: usize = x.len();
    root(sum_squares(x), n)
}

/// Crest factor: peak over RMS, the peak being the largest absolute reading. Zero for a silent
/// window, where the ratio is otherwise undefined.
pub fn crest<R, Q>(x: &[i16], root: &R, ratio: &Q) -> (r: F32Bits) where
    R: Fn(i64, usize) -> F32Bits,
    Q: Fn(u16, F32Bits) -> F32Bits,

    requires
        0 < x@.len() <= 0x1_FFFF_FFFF,
        forall|sum: i64, n: usize| #[trigger] root.requires((sum, n)),
        forall|p: u16, level: F32Bits| #[trigger] ratio.requires((p, level)),
    ensures
        crest_gives(*root, *ratio, x@, r),
{
    match crest_peak(x) {
        None => 0,
        Some(p) => {
            let level: F32Bits = rms(x, root);
            ratio(p, level)
        },
    }
}

/// Pearson kurtosis: how heavy-tailed the readings are. Zero for a constant window, where the
/// variance is zero and kurtosis is undefined.
pub fn kurtosis<K: Fn(&[i16]) -> F32Bits>(x: &[i16], moments: &K) -> (r: F32Bits)
    requires
        x@.len() > 0,
        forall|col: &[i16]| #[trigger] moments.requires((col,)),
    ensures
        kurtosis_gives(*moments, x@, r),
{
    if is_constant(x) {
        0
    } else {
        moments(x)
    }
}

/// Spectral band features of a column: its magnitude spectrum, summed and compressed band by
/// band.
pub fn fft_bands<S, L>(col: &[i16; WINDOW_LEN], spectrum: &S, compress: &L) -> (out:
    [F32Bits; FFT_BANDS_PER_AXIS]) where
    S: Fn(&[i16; WINDOW_LEN]) -> [F32Bits; FFT_BINS],
    L: Fn(&[F32Bits]) -> F32Bits,

    requires
        forall|c: &[i16; WINDOW_LEN]| #[trigger] spectrum.requires((c,)),
        forall|bins: &[F32Bits]| #[trigger] compress.requires((bins,)),
    ensures
        bands_give(*spectrum, *compress, col@, out@),
{
    let mag: [F32Bits; FFT_BINS] = spectrum(col);
    assert(spectrum_gives(*spectrum, col@, mag));
    let mut out: [F32Bits; FFT_BANDS_PER_AXIS] = [0; FFT_BANDS_PER_AXIS];
    let mut b: usize = 0;
    while b < FFT_BANDS_PER_AXIS
        invariant
            b <= FFT_BANDS_PER_AXIS,
            forall|bins: &[F32Bits]| #[trigger] compress.requires((bins,)),
            forall|i: int| 0 <= i < b ==> band_gives(*compress, mag@, i, #[trigger] out@[i]),
        decreases FFT_BANDS_PER_AXIS - b,
    {
        let (first, end) = band_range(b);
        let all: &[F32Bits] = mag.as_slice();
        let bins: &[F32Bits] = &all[first..end];
        let v: F32Bits = compress(bins);
        assert(band_gives(*compress, mag@, b as int, v));
        out[b] = v;
        b += 1;
    }
    out
}

impl<R, Q, K, S, L> Numerics<R, Q, K, S, L> where
    R: Fn(i64, usize) -> F32Bits,
    Q: Fn(u16, F32Bits) -> F32Bits,
    K: Fn(&[i16]) -> F32Bits,
    S: Fn(&[i16; WINDOW_LEN]) -> [F32Bits; FFT_BINS],
    L: Fn(&[F32Bits]) -> F32Bits,
 {
    /// Whether the primitives accept every argument.
    pub open spec fn total(&self) -> bool {
        &&& forall|sum: i64, n: usize| #[trigger] self.root.requires((sum, n))
        &&& forall|p: u16, level: F32Bits| #[trigger] self.ratio.requires((p, level))
        &&& forall|col: &[i16]| #[trigger] self.moments.requires((col,))
        &&& forall|col: &[i16; WINDOW_LEN]| #[trigger] self.spectrum.requires((col,))
        &&& forall|bins: &[F32Bits]| #[trigger] self.compress.requires((bins,))
    }

    /// Whether the primitives are functions: equal arguments give equal results.
    pub open spec fn functional(&self) -> bool {
        &&& forall|sum: i64, n: usize, a: F32Bits, b: F32Bits| #[trigger]
            self.root.ensures((sum, n), a) && #[trigger] self.root.ensures((sum, n), b) ==> a == b
        &&& forall|p: u16, level: F32Bits, a: F32Bits, b: F32Bits| #[trigger]
            self.ratio.ensures((p, level), a) && #[trigger] self.ratio.ensures((p, level), b)
                ==> a == b
        &&& forall|x: &[i16], y: &[i16], a: F32Bits, b: F32Bits|
            x@ == y@ && #[trigger] self.moments.ensures((x,), a) && #[trigger] self.moments.ensures(
                (y,),
                b,
            ) ==> a == b
        &&& forall|x: Seq<i16>, a: [F32Bits; FFT_BINS], b: [F32Bits; FFT_BINS]| #[trigger]
            spectrum_gives(self.spectrum, x, a) && #[trigger] spectrum_gives(self.spectrum, x, b)
                ==> a == b
        &&& forall|s: Seq<F32Bits>, i: int, a: F32Bits, b: F32Bits| #[trigger]
            band_gives(self.compress, s, i, a) && #[trigger] band_gives(self.compress, s, i, b)
                ==> a == b
    }

    /// Whether `out` holds, for each of the first `axes` axes of a window, the features of the
    /// readings of that axis.
    pub open spec fn extracts(&self, window: Seq<Sample>, out: Seq<F32Bits>, axes: int) -> bool {
        forall|axis: int|
            #![trigger axis_readings(window, axis)]
            0 <= axis < axes ==> self.describes(axis_readings(window, axis), out, axis)
    }

    /// Whether `out` holds the features of these readings at the places of an axis.
    pub open spec fn describes(&self, x: Seq<i16>, out: Seq<F32Bits>, axis: int) -> bool {
        &&& rms_gives(self.root, x, out[stat_index(axis, 0)])
        &&& crest_gives(self.root, self.ratio, x, out[stat_index(axis, 1)])
        &&& kurtosis_gives(self.moments, x, out[stat_index(axis, 2)])
        &&& bands_give(
            self.spectrum,
            self.compress,
            x,
            out.subrange(band_index(axis, 0), band_index(axis + 1, 0)),
        )
    }
}

/// Fill `out` with the feature vector of a window.
///
/// `out` is laid out as two blocks: the statistics of axis 0 (`[rms, crest, kurtosis]`), then
/// of axis 1, then of axis 2; after them the spectral bands of axis 0, of axis 1, of axis 2.
pub fn extract<R, Q, K, S, L>(
    window: &[Sample; WINDOW_LEN],
    out: &mut [F32Bits; FEATURE_LEN],
    numerics: &Numerics<R, Q, K, S, L>,
) where
    R: Fn(i64, usize) -> F32Bits,
    Q: Fn(u16, F32Bits) -> F32Bits,
    K: Fn(&[i16]) -> F32Bits,
    S: Fn(&[i16; WINDOW_LEN]) -> [F32Bits; FFT_BINS],
    L: Fn(&[F32Bits]) -> F32Bits,

    requires
        numerics.total(),
    ensures
        numerics.extracts(window@, final(out)@, N_AXES as int),
{
    let mut axis: usize = 0;
    while axis < N_AXES
        invariant
            axis <= N_AXES,
            numerics.total(),
            numerics.extracts(window@, out@, axis as int),
        decreases N_AXES - axis,
    {
        let ghost before = out@;
        let col: [i16; WINDOW_LEN] = column(window, axis);
        let x: &[i16] = col.as_slice();
        let base: usize = axis * FEATURES_PER_AXIS;
        out[base] = rms(x, &numerics.root);
        out[base + 1] = crest(x, &numerics.root, &numerics.ratio);
        out[base + 2] = kurtosis(x, &numerics.moments);
        let band: [F32Bits; FFT_BANDS_PER_AXIS] = fft_bands(
            &col,
            &numerics.spectrum,
            &numerics.compress,
        );
        let first: usize = N_AXES * FEATURES_PER_AXIS + axis * FFT_BANDS_PER_AXIS;
        let ghost stats_done = out@;
        let mut b: usize = 0;
        while b < FFT_BANDS_PER_AXIS
            invariant
                axis < N_AXES,
                first == N_AXES * FEATURES_PER_AXIS + axis * FFT_BANDS_PER_AXIS,
                b <= FFT_BANDS_PER_AXIS,
                forall|i: int|
                    0 <= i < FEATURE_LEN && !(first <= i < first + b) ==> #[trigger] out@[i]
                        == stats_done[i],
                forall|i: int| 0 <= i < b ==> out@[first + i] == #[trigger] band@[i],
            decreases FFT_BANDS_PER_AXIS - b,
        {
            out[first + b] = band[b];
            b += 1;
        }
        proof {
            let r = axis_readings(window@, axis as int);
            assert(out@.subrange(band_index(axis as int, 0), band_index(axis + 1, 0)) =~= band@);
            assert(numerics.describes(r, out@, axis as int));
            assert forall|a: int| #![trigger axis_readings(window@, a)] 0 <= a < axis implies
                numerics.describes(axis_readings(window@, a), out@, a) by {
                assert(numerics.describes(axis_readings(window@, a), before, a));
                assert(out@.subrange(band_index(a, 0), band_index(a + 1, 0)) =~= before.subrange(
                    band_index(a, 0),
                    band_index(a + 1, 0),
                ));
            }
        }
        axis += 1;
    }
}

/// A window is silent exactly when its sum of squares, and with it its RMS, is zero.
pub proof fn law_silent_iff_no_energy(x: Seq<i16>)
    ensures
        silent(x) <==> square_sum(x) == 0,
        0 <= square_sum(x) <= 0x4000_0000 * x.len(),
    decreases x.len(),
{
    if x.len() > 0 {
        let v = x.last() as int;
        law_silent_iff_no_energy(x.drop_last());
        assert(0 <= v * v <= 0x4000_0000 && (v * v == 0 <==> v == 0)) by (nonlinear_arith)
            requires
                -0x8000 <= v <= 0x7FFF,
        ;
        if silent(x) {
            assert forall|i: int| 0 <= i < x.len() - 1 implies #[trigger] x.drop_last()[i]
                == 0 by {}
        }
        if silent(x.drop_last()) && v == 0 {
            assert forall|i: int| 0 <= i < x.len() implies #[trigger] x[i] == 0 by {
                if i < x.len() - 1 {
                    assert(x.drop_last()[i] == 0);
                }
            }
        }
    }
}

/// The bands split the AC spectrum: every bin but bin 0 lies in exactly one band.
pub proof fn law_bands_partition_the_spectrum(bin: int)
    requires
        0 <= bin < FFT_BINS,
    ensures
        bin == 0 <==> forall|b: int|
            0 <= b < FFT_BANDS_PER_AXIS ==> !(#[trigger] BAND_EDGES[b] <= bin < BAND_EDGES[b + 1]),
        forall|b: int, c: int|
            0 <= b < FFT_BANDS_PER_AXIS && 0 <= c < FFT_BANDS_PER_AXIS && (
            #[trigger] BAND_EDGES[b]) <= bin < BAND_EDGES[b + 1] && (#[trigger] BAND_EDGES[c])
                <= bin < BAND_EDGES[c + 1] ==> b == c,
{
}

/// The layout uses each index of the feature vector for exactly one feature.
pub proof fn law_layout_covers_the_vector(i: int)
    requires
        0 <= i < FEATURE_LEN,
    ensures
        i < N_AXES * FEATURES_PER_AXIS ==> i == stat_index(
            i / FEATURES_PER_AXIS as int,
            i % FEATURES_PER_AXIS as int,
        ),
        i >= N_AXES * FEATURES_PER_AXIS ==> i == band_index(
            (i - N_AXES * FEATURES_PER_AXIS) / FFT_BANDS_PER_AXIS as int,
            (i - N_AXES * FEATURES_PER_AXIS) % FFT_BANDS_PER_AXIS as int,
        ),
        forall|axis: int, k: int|
            0 <= axis < N_AXES && 0 <= k < FEATURES_PER_AXIS ==> 0 <= #[trigger] stat_index(axis, k)
                < N_AXES * FEATURES_PER_AXIS,
        forall|axis: int, k: int|
            0 <= axis < N_AXES && 0 <= k < FFT_BANDS_PER_AXIS ==> N_AXES * FEATURES_PER_AXIS
                <= #[trigger] band_index(axis, k) < FEATURE_LEN,
{
}

/// The absolute values of some readings, without their order.
pub open spec fn magnitudes(x: Seq<i16>) -> vstd::multiset::Multiset<int> {
    x.map_values(|v: i16| magnitude(v)).to_multiset()
}

/// Taking a reading out takes its square out of the sum.
proof fn lemma_square_sum_remove(x: Seq<i16>, j: int)
    requires
        0 <= j < x.len(),
    ensures
        square_sum(x) == square_sum(x.remove(j)) + x[j] * x[j],
    decreases x.len(),
{
    if j == x.len() - 1 {
        assert(x.remove(j) =~= x.drop_last());
    } else {
        lemma_square_sum_remove(x.drop_last(), j);
        assert(x.remove(j).drop_last() =~= x.drop_last().remove(j));
    }
}

/// The sum of squares, and with it the RMS amplitude, depends neither on the order of the
/// readings nor on their signs.
pub proof fn law_sum_ignores_order_and_sign(x: Seq<i16>, y: Seq<i16>)
    requires
        magnitudes(x) == magnitudes(y),
    ensures
        square_sum(x) == square_sum(y),
        x.len() == y.len(),
    decreases x.len(),
{
    broadcast use vstd::seq_lib::group_to_multiset_ensures;

    let f = |v: i16| magnitude(v);
    let mx = x.map_values(f);
    let my = y.map_values(f);
    assert(mx.to_multiset().len() == mx.len());
    assert(my.to_multiset().len() == my.len());
    if x.len() > 0 {
        let m = mx.last();
        assert(mx.contains(m));
        assert(my.to_multiset().count(m) > 0);
        assert(my.contains(m));
        let j = choose|j: int| 0 <= j < my.len() && my[j] == m;
        assert(mx.drop_last() =~= mx.remove(mx.len() - 1));
        assert(mx.drop_last() =~= x.drop_last().map_values(f));
        assert(my.remove(j) =~= y.remove(j).map_values(f));
        assert(magnitudes(x.drop_last()) =~= magnitudes(y.remove(j)));
        law_sum_ignores_order_and_sign(x.drop_last(), y.remove(j));
        lemma_square_sum_remove(y, j);
        let a = x.last();
        let b = y[j];
        assert(a * a == b * b) by (nonlinear_arith)
            requires
                a == b || a == -b,
        ;
    }
}

/// The RMS amplitude is the same, bit for bit, for readings in another order or with other
/// signs.
pub proof fn law_rms_ignores_order_and_sign<R: Fn(i64, usize) -> F32Bits>(
    root: R,
    x: Seq<i16>,
    y: Seq<i16>,
    a: F32Bits,
    b: F32Bits,
)
    requires
        magnitudes(x) == magnitudes(y),
        forall|sum: i64, n: usize, r: F32Bits, s: F32Bits| #[trigger]
            root.ensures((sum, n), r) && #[trigger] root.ensures((sum, n), s) ==> r == s,
        rms_gives(root, x, a),
        rms_gives(root, y, b),
    ensures
        a == b,
{
    law_sum_ignores_order_and_sign(x, y);
}

/// With a root that is zero at zero alone, the RMS amplitude is zero exactly for a silent
/// window.
pub proof fn law_rms_is_zero_iff_silent<R: Fn(i64, usize) -> F32Bits>(
    root: R,
    x: Seq<i16>,
    r: F32Bits,
)
    requires
        0 < x.len() <= 0x1_FFFF_FFFF,
        x.len() <= usize::MAX,
        forall|sum: i64, n: usize, v: F32Bits| #[trigger]
            root.ensures((sum, n), v) && sum >= 0 && n > 0 ==> (crate::float32::is_zero(v)
                <==> sum == 0),
        rms_gives(root, x, r),
    ensures
        crate::float32::is_zero(r) <==> silent(x),
{
    law_silent_iff_no_energy(x);
}

/// With primitives that are functions, a window determines its feature vector.
pub proof fn law_windows_determine_their_features<R, Q, K, S, L>(
    numerics: Numerics<R, Q, K, S, L>,
    window: Seq<Sample>,
    a: Seq<F32Bits>,
    b: Seq<F32Bits>,
) where
    R: Fn(i64, usize) -> F32Bits,
    Q: Fn(u16, F32Bits) -> F32Bits,
    K: Fn(&[i16]) -> F32Bits,
    S: Fn(&[i16; WINDOW_LEN]) -> [F32Bits; FFT_BINS],
    L: Fn(&[F32Bits]) -> F32Bits,

    requires
        numerics.functional(),
        numerics.extracts(window, a, N_AXES as int),
        numerics.extracts(window, b, N_AXES as int),
        a.len() == FEATURE_LEN,
        b.len() == FEATURE_LEN,
    ensures
        a == b,
{
    assert forall|i: int| 0 <= i < FEATURE_LEN implies a[i] == b[i] by {
        law_layout_covers_the_vector(i);
        let axis: int = if i < N_AXES * FEATURES_PER_AXIS {
            i / (FEATURES_PER_AXIS as int)
        } else {
            (i - N_AXES * FEATURES_PER_AXIS) / (FFT_BANDS_PER_AXIS as int)
        };
        let x = axis_readings(window, axis);
        assert(numerics.describes(x, a, axis) && numerics.describes(x, b, axis));
        lemma_described_alike(numerics, x, a, b, axis, axis);
        let first = band_index(axis, 0);
        if i >= N_AXES * FEATURES_PER_AXIS {
            assert(a[i] == a.subrange(first, band_index(axis + 1, 0))[i - first]);
            assert(b[i] == b.subrange(first, band_index(axis + 1, 0))[i - first]);
        }
    }
    assert(a =~= b);
}

/// Whether one vector holds at one axis what another holds at another: the same statistics and
/// the same bands.
pub open spec fn same_features(a: Seq<F32Bits>, i: int, b: Seq<F32Bits>, j: int) -> bool {
    &&& forall|k: int|
        0 <= k < FEATURES_PER_AXIS ==> a[#[trigger] stat_index(i, k)] == b[stat_index(j, k)]
    &&& a.subrange(band_index(i, 0), band_index(i + 1, 0)) == b.subrange(
        band_index(j, 0),
        band_index(j + 1, 0),
    )
}

/// With primitives that are functions, permuting the axes of a window permutes the statistics
/// and the bands of its features the same way. `source` names the axis that each axis of the
/// second window shows of the first.
pub proof fn law_axes_carry_their_features<R, Q, K, S, L>(
    numerics: Numerics<R, Q, K, S, L>,
    first: Seq<Sample>,
    second: Seq<Sample>,
    source: spec_fn(int) -> int,
    a: Seq<F32Bits>,
    b: Seq<F32Bits>,
) where
    R: Fn(i64, usize) -> F32Bits,
    Q: Fn(u16, F32Bits) -> F32Bits,
    K: Fn(&[i16]) -> F32Bits,
    S: Fn(&[i16; WINDOW_LEN]) -> [F32Bits; FFT_BINS],
    L: Fn(&[F32Bits]) -> F32Bits,

    requires
        numerics.functional(),
        first.len() == second.len(),
        forall|axis: int| 0 <= axis < N_AXES ==> 0 <= #[trigger] source(axis) < N_AXES,
        forall|t: int, axis: int|
            0 <= t < second.len() && 0 <= axis < N_AXES ==> #[trigger] second[t][axis]
                == first[t][source(axis)],
        numerics.extracts(first, a, N_AXES as int),
        numerics.extracts(second, b, N_AXES as int),
        a.len() == FEATURE_LEN,
        b.len() == FEATURE_LEN,
    ensures
        forall|axis: int|
            0 <= axis < N_AXES ==> same_features(a, #[trigger] source(axis), b, axis),
{
    assert forall|axis: int| 0 <= axis < N_AXES implies same_features(
        a,
        #[trigger] source(axis),
        b,
        axis,
    ) by {
        let x = axis_readings(second, axis);
        assert(x =~= axis_readings(first, source(axis)));
        assert(numerics.describes(x, b, axis));
        assert(numerics.describes(axis_readings(first, source(axis)), a, source(axis)));
        lemma_described_alike(numerics, x, a, b, source(axis), axis);
    }
}

/// With primitives that are functions, readings determine the features of their axis.
proof fn lemma_described_alike<R, Q, K, S, L>(
    numerics: Numerics<R, Q, K, S, L>,
    x: Seq<i16>,
    a: Seq<F32Bits>,
    b: Seq<F32Bits>,
    i: int,
    j: int,
) where
    R: Fn(i64, usize) -> F32Bits,
    Q: Fn(u16, F32Bits) -> F32Bits,
    K: Fn(&[i16]) -> F32Bits,
    S: Fn(&[i16; WINDOW_LEN]) -> [F32Bits; FFT_BINS],
    L: Fn(&[F32Bits]) -> F32Bits,

    requires
        numerics.functional(),
        0 <= i < N_AXES,
        0 <= j < N_AXES,
        numerics.describes(x, a, i),
        numerics.describes(x, b, j),
        a.len() == FEATURE_LEN,
        b.len() == FEATURE_LEN,
    ensures
        same_features(a, i, b, j),
{
    assert(a[stat_index(i, 0)] == b[stat_index(j, 0)]);
    if !silent(x) {
        let (p, u) = choose|p: u16, u: F32Bits|
            is_peak(x, p as int) && rms_gives(numerics.root, x, u)
                && #[trigger] numerics.ratio.ensures((p, u), a[stat_index(i, 1)]);
        let (q, v) = choose|q: u16, v: F32Bits|
            is_peak(x, q as int) && rms_gives(numerics.root, x, v)
                && #[trigger] numerics.ratio.ensures((q, v), b[stat_index(j, 1)]);
        assert(u == v);
        assert(p == q);
    }
    assert(a[stat_index(i, 1)] == b[stat_index(j, 1)]);
    assert(a[stat_index(i, 2)] == b[stat_index(j, 2)]);
    let c = a.subrange(band_index(i, 0), band_index(i + 1, 0));
    let d = b.subrange(band_index(j, 0), band_index(j + 1, 0));
    assert forall|k: int| 0 <= k < c.len() implies c[k] == d[k] by {
        let m = choose|m: [F32Bits; FFT_BINS]| #[trigger]
            spectrum_gives(numerics.spectrum, x, m) && forall|l: int|
                0 <= l < FFT_BANDS_PER_AXIS ==> band_gives(
                    numerics.compress,
                    m@,
                    l,
                    #[trigger] c[l],
                );
        let n = choose|n: [F32Bits; FFT_BINS]| #[trigger]
            spectrum_gives(numerics.spectrum, x, n) && forall|l: int|
                0 <= l < FFT_BANDS_PER_AXIS ==> band_gives(
                    numerics.compress,
                    n@,
                    l,
                    #[trigger] d[l],
                );
        assert(m == n);
        assert(band_gives(numerics.compress, m@, k, c[k]));
        assert(band_gives(numerics.compress, n@, k, d[k]));
    }
    assert(c =~= d);
}

/// The sum of some readings.
pub open spec fn total(x: Seq<i16>) -> int {
    x.fold_left(0, |sum: int, v: i16| sum + v)
}

/// The sum of squares is additive over parts, and that of one reading is its square.
pub proof fn law_sum_of_squares_is_additive(x: Seq<i16>, y: Seq<i16>, v: i16)
    ensures
        square_sum(x + y) == square_sum(x) + square_sum(y),
        square_sum(seq![v]) == v * v,
        square_sum(Seq::empty()) == 0,
    decreases y.len(),
{
    reveal_with_fuel(square_sum, 2);
    assert(seq![v].drop_last() =~= Seq::empty());
    if y.len() == 0 {
        assert(x + y =~= x);
    } else {
        law_sum_of_squares_is_additive(x, y.drop_last(), v);
        assert((x + y).drop_last() =~= x + y.drop_last());
    }
}

/// The reported sum of a window that is read in two parts is the sum of what is reported of the
/// parts, and of one reading its square is reported.
pub proof fn law_reported_sums_add_up(
    x: &[i16],
    y: &[i16],
    xy: &[i16],
    a: i64,
    b: i64,
    ab: i64,
)
    requires
        xy@.len() <= 0x1_FFFF_FFFF,
        xy@ == x@ + y@,
        call_ensures(sum_squares, (x,), a),
        call_ensures(sum_squares, (y,), b),
        call_ensures(sum_squares, (xy,), ab),
    ensures
        ab == a + b,
        x@.len() == 1 ==> a == x@[0] * x@[0],
        x@.len() == 0 ==> a == 0,
{
    law_sum_of_squares_is_additive(x@, y@, x@[0]);
    if x@.len() == 1 {
        assert(x@ =~= seq![x@[0]]);
    }
    if x@.len() == 0 {
        assert(x@ =~= Seq::empty());
    }
}

/// The reported peak bounds every reading on both sides, and one reading meets the bound.
pub proof fn law_peak_is_the_largest_size(x: &[i16], p: u16, i: int)
    requires
        x@.len() > 0,
        call_ensures(peak, (x,), p),
        0 <= i < x@.len(),
    ensures
        -p <= x@[i] <= p,
        exists|j: int| 0 <= j < x@.len() && (#[trigger] x@[j] == p || x@[j] == -p),
{
    let j = choose|j: int| 0 <= j < x@.len() && magnitude(#[trigger] x@[j]) == p;
    assert(x@[j] == p || x@[j] == -p);
    assert(magnitude(x@[i]) <= p);
}

/// The peak of a crest factor is missing exactly where all readings are zero, and is otherwise
/// the peak.
pub proof fn law_crest_peak_is_missing_in_silence(x: &[i16], r: Option<u16>)
    requires
        x@.len() > 0,
        call_ensures(crest_peak, (x,), r),
    ensures
        r is None <==> x@ == Seq::new(x@.len(), |i: int| 0i16),
        r matches Some(p) ==> p > 0 && forall|i: int|
            0 <= i < x@.len() ==> -p <= #[trigger] x@[i] <= p,
        r matches Some(p) ==> exists|j: int|
            0 <= j < x@.len() && (#[trigger] x@[j] == p || x@[j] == -p),
{
    let zeros = Seq::new(x@.len(), |i: int| 0i16);
    if r is None {
        assert(x@ =~= zeros);
    } else {
        let p = r->0;
        let j = choose|j: int| 0 <= j < x@.len() && magnitude(#[trigger] x@[j]) == p;
        assert(x@[j] == p || x@[j] == -p);
        assert forall|i: int| 0 <= i < x@.len() implies -p <= #[trigger] x@[i] <= p by {
            assert(magnitude(x@[i]) <= p);
        }
        if x@ == zeros {
            assert forall|i: int| 0 <= i < x@.len() implies #[trigger] x@[i] == 0 by {
                assert(x@[i] == zeros[i]);
            }
        }
        let k = choose|k: int| 0 <= k < x@.len() && #[trigger] x@[k] != 0;
        assert(magnitude(x@[k]) <= p);
    }
}

/// A window is reported as constant exactly where it repeats its first reading: any two
/// readings that differ, wherever they stand, rule it out.
pub proof fn law_constant_windows_repeat_one_reading(x: &[i16], r: bool, i: int, j: int)
    requires
        call_ensures(is_constant, (x,), r),
        0 <= i < x@.len(),
        0 <= j < x@.len(),
    ensures
        r <==> x@ == Seq::new(x@.len(), |k: int| x@[0]),
        x@[i] != x@[j] ==> !r,
{
    let same = Seq::new(x@.len(), |k: int| x@[0]);
    if r {
        assert(x@ =~= same);
    }
    if x@ == same {
        assert forall|a: int, b: int| 0 <= a < x@.len() && 0 <= b < x@.len() implies x@[a]
            == x@[b] by {
            assert(x@[a] == same[a] && x@[b] == same[b]);
        }
    }
}

/// The squared distances of readings from one value.
spec fn spread(x: Seq<i16>, v: int) -> int
    decreases x.len(),
{
    if x.len() == 0 {
        0
    } else {
        spread(x.drop_last(), v) + (x.last() - v) * (x.last() - v)
    }
}

/// The spread around a value, from the sums; it is zero only where every reading is the value.
proof fn lemma_spread(x: Seq<i16>, v: int)
    ensures
        spread(x, v) == square_sum(x) - 2 * v * total(x) + x.len() * v * v,
        spread(x, v) >= 0,
        spread(x, v) == 0 <==> forall|i: int| 0 <= i < x.len() ==> #[trigger] x[i] == v,
    decreases x.len(),
{
    let f = |sum: int, w: i16| sum + w;
    if x.len() > 0 {
        let y = x.drop_last();
        let w = x.last() as int;
        lemma_spread(y, v);
        assert(total(x) == total(y) + w);
        assert((w - v) * (w - v) >= 0 && ((w - v) * (w - v) == 0 <==> w == v))
            by (nonlinear_arith);
        assert(spread(x, v) == square_sum(x) - 2 * v * total(x) + x.len() * v * v)
            by (nonlinear_arith)
            requires
                spread(y, v) == square_sum(y) - 2 * v * total(y) + y.len() * v * v,
                spread(x, v) == spread(y, v) + (w - v) * (w - v),
                square_sum(x) == square_sum(y) + w * w,
                total(x) == total(y) + w,
                x.len() == y.len() + 1,
        ;
        if forall|i: int| 0 <= i < x.len() ==> #[trigger] x[i] == v {
            assert forall|i: int| 0 <= i < y.len() implies #[trigger] y[i] == v by {
                assert(x[i] == v);
            }
            assert(x[x.len() - 1] == v);
        }
        if spread(x, v) == 0 {
            assert forall|i: int| 0 <= i < x.len() implies #[trigger] x[i] == v by {
                if i < y.len() {
                    assert(y[i] == v);
                }
            }
        }
    } else {
        assert(total(x) == 0);
    }
}

/// The variance is not negative, and zero only for readings that are all the same.
proof fn lemma_variance(x: Seq<i16>)
    ensures
        x.len() * square_sum(x) >= total(x) * total(x),
        x.len() * square_sum(x) == total(x) * total(x) <==> forall|i: int, j: int|
            0 <= i < x.len() && 0 <= j < x.len() ==> x[i] == x[j],
    decreases x.len(),
{
    if x.len() > 0 {
        let y = x.drop_last();
        let w = x.last() as int;
        lemma_variance(y);
        lemma_spread(y, w);
        assert(total(x) == total(y) + w);
        assert(x.len() * square_sum(x) - total(x) * total(x) == y.len() * square_sum(y) - total(y)
            * total(y) + spread(y, w)) by (nonlinear_arith)
            requires
                spread(y, w) == square_sum(y) - 2 * w * total(y) + y.len() * w * w,
                square_sum(x) == square_sum(y) + w * w,
                total(x) == total(y) + w,
                x.len() == y.len() + 1,
        ;
        if forall|i: int, j: int| 0 <= i < x.len() && 0 <= j < x.len() ==> x[i] == x[j] {
            assert forall|i: int, j: int| 0 <= i < y.len() && 0 <= j < y.len() implies y[i]
                == y[j] by {
                assert(x[i] == x[j]);
            }
            assert forall|i: int| 0 <= i < y.len() implies #[trigger] y[i] == w by {
                assert(x[i] == x[x.len() - 1]);
            }
        }
        if spread(y, w) == 0 {
            assert forall|i: int, j: int| 0 <= i < x.len() && 0 <= j < x.len() implies x[i]
                == x[j] by {
                if i < y.len() {
                    assert(y[i] == w);
                }
                if j < y.len() {
                    assert(y[j] == w);
                }
            }
        }
    } else {
        assert(total(x) == 0);
    }
}

/// A window is reported as constant exactly where its variance is zero: where the number of its
/// readings times their sum of squares is the square of their sum.
pub proof fn law_constant_windows_have_no_variance(x: &[i16], r: bool)
    requires
        call_ensures(is_constant, (x,), r),
    ensures
        r <==> x@.len() * square_sum(x@) == total(x@) * total(x@),
{
    lemma_variance(x@);
}

/// A column holds the readings of its axis, time for time.
pub proof fn law_columns_are_the_axis(
    window: &[Sample; WINDOW_LEN],
    axis: usize,
    col: [i16; WINDOW_LEN],
    t: int,
)
    requires
        axis < 3,
        call_ensures(column, (window, axis), col),
        0 <= t < 512,
    ensures
        col@[t] == window@[t][axis as int],
{
}

/// The fifth power of a number, by way of its square.
proof fn lemma_fifth_power(v: int, p: int)
    requires
        (v * v) * (v * v) * v == p,
    ensures
        v * v * v * v * v == p,
{
    assert(v * v * v * v * v == (v * v) * (v * v) * v) by (nonlinear_arith);
}

/// The edges of the bands are the powers of the fifth root of 256, rounded to the nearest bin:
/// twice an edge lies within one of twice such a power, all raised to the fifth.
pub proof fn law_band_edges_grow_geometrically(b: usize, r: (usize, usize))
    requires
        b < 5,
        call_ensures(band_range, (b,), r),
    ensures
        ({
            let power = vstd::arithmetic::power::pow(256, b as nat);
            let (a, b, c, d) = (2 * r.0 - 1, 2 * r.0 + 1, 2 * r.1 - 1, 2 * r.1 + 1);
            &&& a * a * a * a * a < 32 * power < b * b * b * b * b
            &&& c * c * c * c * c < 32 * 256 * power < d * d * d * d * d
        }),
{
    reveal_with_fuel(vstd::arithmetic::power::pow, 6);
    assert(BAND_EDGES[0] == 1 && BAND_EDGES[1] == 3 && BAND_EDGES[2] == 9 && BAND_EDGES[3] == 28
        && BAND_EDGES[4] == 84 && BAND_EDGES[5] == 256);
    let power = vstd::arithmetic::power::pow(256, b as nat);
    if b == 0 {
        assert(power == 1);
        lemma_fifth_power(1, 1);
        lemma_fifth_power(3, 243);
        lemma_fifth_power(5, 3125);
        lemma_fifth_power(7, 16807);
    } else if b == 1 {
        assert(power == 256);
        lemma_fifth_power(5, 3125);
        lemma_fifth_power(7, 16807);
        lemma_fifth_power(17, 1419857);
        lemma_fifth_power(19, 2476099);
    } else if b == 2 {
        assert(power == 65536);
        lemma_fifth_power(17, 1419857);
        lemma_fifth_power(19, 2476099);
        lemma_fifth_power(55, 503284375);
        lemma_fifth_power(57, 601692057);
    } else if b == 3 {
        assert(power == 16777216);
        lemma_fifth_power(55, 503284375);
        lemma_fifth_power(57, 601692057);
        lemma_fifth_power(167, 129891985607);
        lemma_fifth_power(169, 137858491849);
    } else {
        assert(power == 4294967296);
        lemma_fifth_power(167, 129891985607);
        lemma_fifth_power(169, 137858491849);
        lemma_fifth_power(511, 34842114263551);
        lemma_fifth_power(513, 35529314273793);
    }
}

/// What the feature vector is, as a whole: where the primitives compute certain functions, each
/// axis has, at three places from `3 axis` on, the root of its sum of squares over 512, its peak
/// over that (or zero where it is silent) and its standardized moment (or zero where it does not
/// vary), and at five places from `9 + 5 axis` on the compressed bins 1 to 3, 3 to 9, 9 to 28,
/// 28 to 84 and 84 to 256 of its spectrum.
pub proof fn law_extract_computes_the_features<R, Q, K, S, L>(
    numerics: Numerics<R, Q, K, S, L>,
    window: Seq<Sample>,
    out: Seq<F32Bits>,
    axis: int,
    p: u16,
    root: spec_fn(int, int) -> F32Bits,
    ratio: spec_fn(int, F32Bits) -> F32Bits,
    moments: spec_fn(Seq<i16>) -> F32Bits,
    spectrum: spec_fn(Seq<i16>) -> Seq<F32Bits>,
    compress: spec_fn(Seq<F32Bits>) -> F32Bits,
) where
    R: Fn(i64, usize) -> F32Bits,
    Q: Fn(u16, F32Bits) -> F32Bits,
    K: Fn(&[i16]) -> F32Bits,
    S: Fn(&[i16; WINDOW_LEN]) -> [F32Bits; FFT_BINS],
    L: Fn(&[F32Bits]) -> F32Bits,

    requires
        window.len() == 512,
        out.len() == 24,
        0 <= axis < 3,
        numerics.extracts(window, out, 3),
        forall|sum: i64, n: usize, r: F32Bits| #[trigger]
            numerics.root.ensures((sum, n), r) ==> r == root(sum as int, n as int),
        forall|q: u16, level: F32Bits, r: F32Bits| #[trigger]
            numerics.ratio.ensures((q, level), r) ==> r == ratio(q as int, level),
        forall|x: &[i16], r: F32Bits| #[trigger]
            numerics.moments.ensures((x,), r) ==> r == moments(x@),
        forall|x: &[i16; WINDOW_LEN], r: [F32Bits; FFT_BINS]| #[trigger]
            numerics.spectrum.ensures((x,), r) ==> r@ == spectrum(x@),
        forall|x: &[F32Bits], r: F32Bits| #[trigger]
            numerics.compress.ensures((x,), r) ==> r == compress(x@),
        // p is the peak of the axis
        forall|t: int| 0 <= t < 512 ==> -p <= #[trigger] window[t][axis] <= p,
        exists|t: int|
            0 <= t < 512 && (#[trigger] window[t][axis] == p || window[t][axis] == -p),
    ensures
        ({
            let x = Seq::new(512, |t: int| window[t][axis]);
            let level = root(square_sum(x), 512);
            let mag = spectrum(x);
            &&& out[3 * axis] == level
            &&& out[3 * axis + 1] == if p == 0 {
                0
            } else {
                ratio(p as int, level)
            }
            &&& (forall|t: int| 0 <= t < 512 ==> #[trigger] window[t][axis] == window[0][axis])
                ==> out[3 * axis + 2] == 0
            &&& (exists|t: int| 0 <= t < 512 && #[trigger] window[t][axis] != window[0][axis])
                ==> out[3 * axis + 2] == moments(x)
            &&& out[9 + 5 * axis] == compress(mag.subrange(1, 3))
            &&& out[10 + 5 * axis] == compress(mag.subrange(3, 9))
            &&& out[11 + 5 * axis] == compress(mag.subrange(9, 28))
            &&& out[12 + 5 * axis] == compress(mag.subrange(28, 84))
            &&& out[13 + 5 * axis] == compress(mag.subrange(84, 256))
        }),
{
    let x = Seq::new(512, |t: int| window[t][axis]);
    assert(axis_readings(window, axis) =~= x);
    assert(numerics.describes(x, out, axis));
    law_silent_iff_no_energy(x);
    assert(forall|t: int| 0 <= t < 512 ==> #[trigger] x[t] == window[t][axis]);
    let t = choose|t: int|
        0 <= t < 512 && (#[trigger] window[t][axis] == p || window[t][axis] == -p);
    assert(x[t] == p || x[t] == -p);
    assert forall|i: int| 0 <= i < x.len() implies magnitude(#[trigger] x[i]) <= p by {
        assert(-p <= window[i][axis] <= p);
    }
    assert(magnitude(x[t]) == p);
    assert(is_peak(x, p as int));
    if p == 0 {
        assert(silent(x)) by {
            assert forall|i: int| 0 <= i < x.len() implies #[trigger] x[i] == 0 by {
                assert(magnitude(x[i]) <= p);
            }
        }
    } else {
        assert(x[t] != 0);
        assert(!silent(x));
        let (q, level) = choose|q: u16, level: F32Bits|
            is_peak(x, q as int) && rms_gives(numerics.root, x, level)
                && #[trigger] numerics.ratio.ensures((q, level), out[stat_index(axis, 1)]);
        assert(q == p);
        assert(level == root(square_sum(x), 512));
    }
    if forall|i: int| 0 <= i < 512 ==> #[trigger] window[i][axis] == window[0][axis] {
        assert forall|i: int, j: int| 0 <= i < x.len() && 0 <= j < x.len() implies x[i]
            == x[j] by {
            assert(window[i][axis] == window[0][axis]);
            assert(window[j][axis] == window[0][axis]);
        }
        assert(constant(x));
    }
    if exists|i: int| 0 <= i < 512 && #[trigger] window[i][axis] != window[0][axis] {
        let i = choose|i: int| 0 <= i < 512 && #[trigger] window[i][axis] != window[0][axis];
        assert(x[i] != x[0]);
        assert(!constant(x));
    }
    let bands = out.subrange(band_index(axis, 0), band_index(axis + 1, 0));
    let mag = choose|m: [F32Bits; FFT_BINS]| #[trigger]
        spectrum_gives(numerics.spectrum, x, m) && forall|b: int|
            0 <= b < FFT_BANDS_PER_AXIS ==> band_gives(
                numerics.compress,
                m@,
                b,
                #[trigger] bands[b],
            );
    assert(mag@ == spectrum(x));
    assert(BAND_EDGES[0] == 1 && BAND_EDGES[1] == 3 && BAND_EDGES[2] == 9 && BAND_EDGES[3] == 28
        && BAND_EDGES[4] == 84 && BAND_EDGES[5] == 256);
    assert(bands[0] == out[9 + 5 * axis]);
    assert(bands[1] == out[10 + 5 * axis]);
    assert(bands[2] == out[11 + 5 * axis]);
    assert(bands[3] == out[12 + 5 * axis]);
    assert(bands[4] == out[13 + 5 * axis]);
}

/// What the statistics of any readings are, where the primitives compute certain functions: the
/// root of the sum of squares over their number; the peak over that, or zero in silence; the
/// standardized moment, or zero where nothing varies.
pub proof fn law_statistics_are_what_they_are_called<R, Q, K>(
    x: &[i16],
    p: u16,
    rms_fn: &R,
    ratio_fn: &Q,
    moments_fn: &K,
    level: F32Bits,
    crest_of: F32Bits,
    kurtosis_of: F32Bits,
    root: spec_fn(int, int) -> F32Bits,
    ratio: spec_fn(int, F32Bits) -> F32Bits,
    moments: spec_fn(Seq<i16>) -> F32Bits,
) where
    R: Fn(i64, usize) -> F32Bits,
    Q: Fn(u16, F32Bits) -> F32Bits,
    K: Fn(&[i16]) -> F32Bits,

    requires
        0 < x@.len() <= 0x1_FFFF_FFFF,
        call_ensures(rms::<R>, (x, rms_fn), level),
        call_ensures(crest::<R, Q>, (x, rms_fn, ratio_fn), crest_of),
        call_ensures(kurtosis::<K>, (x, moments_fn), kurtosis_of),
        call_ensures(peak, (x,), p),
        forall|sum: i64, n: usize, r: F32Bits| #[trigger]
            rms_fn.ensures((sum, n), r) ==> r == root(sum as int, n as int),
        forall|q: u16, l: F32Bits, r: F32Bits| #[trigger]
            ratio_fn.ensures((q, l), r) ==> r == ratio(q as int, l),
        forall|y: &[i16], r: F32Bits| #[trigger] moments_fn.ensures((y,), r) ==> r == moments(y@),
    ensures
        level == root(square_sum(x@), x@.len() as int),
        crest_of == if p == 0 {
            0
        } else {
            ratio(p as int, level)
        },
        (forall|i: int| 0 <= i < x@.len() ==> #[trigger] x@[i] == x@[0]) ==> kurtosis_of == 0,
        (exists|i: int| 0 <= i < x@.len() && #[trigger] x@[i] != x@[0]) ==> kurtosis_of == moments(
            x@,
        ),
{
    law_silent_iff_no_energy(x@);
    assert(x.len() == x@.len());
    assert(square_sum(x@) <= 0x7FFF_FFFF_FFFF_FFFF);
    let j = choose|j: int| 0 <= j < x@.len() && magnitude(#[trigger] x@[j]) == p;
    if p == 0 {
        assert(silent(x@)) by {
            assert forall|i: int| 0 <= i < x@.len() implies #[trigger] x@[i] == 0 by {
                assert(magnitude(x@[i]) <= p);
            }
        }
    } else {
        assert(x@[j] != 0);
        assert(!silent(x@));
        let (q, l) = choose|q: u16, l: F32Bits|
            is_peak(x@, q as int) && rms_gives(*rms_fn, x@, l) && #[trigger] ratio_fn.ensures(
                (q, l),
                crest_of,
            );
        assert(q == p);
        assert(l == level);
    }
    if exists|i: int| 0 <= i < x@.len() && #[trigger] x@[i] != x@[0] {
        let i = choose|i: int| 0 <= i < x@.len() && #[trigger] x@[i] != x@[0];
        assert(!constant(x@));
    }
    if forall|i: int| 0 <= i < x@.len() ==> #[trigger] x@[i] == x@[0] {
        assert(constant(x@));
    }
}

/// What the bands of a column are, where the primitives compute certain functions: bins 1 to 3, 3
/// to 9, 9 to 28, 28 to 84 and 84 to 256 of its spectrum, compressed.
pub proof fn law_bands_are_bins_of_the_spectrum<S, L>(
    col: &[i16; WINDOW_LEN],
    spectrum_fn: &S,
    compress_fn: &L,
    out: [F32Bits; FFT_BANDS_PER_AXIS],
    spectrum: spec_fn(Seq<i16>) -> Seq<F32Bits>,
    compress: spec_fn(Seq<F32Bits>) -> F32Bits,
) where S: Fn(&[i16; WINDOW_LEN]) -> [F32Bits; FFT_BINS], L: Fn(&[F32Bits]) -> F32Bits
    requires
        call_ensures(fft_bands::<S, L>, (col, spectrum_fn, compress_fn), out),
        forall|x: &[i16; WINDOW_LEN], r: [F32Bits; FFT_BINS]| #[trigger]
            spectrum_fn.ensures((x,), r) ==> r@ == spectrum(x@),
        forall|x: &[F32Bits], r: F32Bits| #[trigger]
            compress_fn.ensures((x,), r) ==> r == compress(x@),
    ensures
        out@ == seq![
            compress(spectrum(col@).subrange(1, 3)),
            compress(spectrum(col@).subrange(3, 9)),
            compress(spectrum(col@).subrange(9, 28)),
            compress(spectrum(col@).subrange(28, 84)),
            compress(spectrum(col@).subrange(84, 256)),
        ],
{
    let mag = choose|m: [F32Bits; FFT_BINS]| #[trigger]
        spectrum_gives(*spectrum_fn, col@, m) && forall|b: int|
            0 <= b < FFT_BANDS_PER_AXIS ==> band_gives(*compress_fn, m@, b, #[trigger] out@[b]);
    assert(mag@ == spectrum(col@));
    assert(BAND_EDGES[0] == 1 && BAND_EDGES[1] == 3 && BAND_EDGES[2] == 9 && BAND_EDGES[3] == 28
        && BAND_EDGES[4] == 84 && BAND_EDGES[5] == 256);
    assert(band_gives(*compress_fn, mag@, 0, out@[0]));
    assert(band_gives(*compress_fn, mag@, 1, out@[1]));
    assert(band_gives(*compress_fn, mag@, 2, out@[2]));
    assert(band_gives(*compress_fn, mag@, 3, out@[3]));
    assert(band_gives(*compress_fn, mag@, 4, out@[4]));
}

} // verus!
