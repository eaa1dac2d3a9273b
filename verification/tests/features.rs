use pmcore::features::{
    self, band_range, crest_peak, extract, fft_bands, is_constant, peak, sum_squares, Numerics,
    Sample, DEFAULT_SAMPLE, FEATURES_PER_AXIS, FEATURE_LEN, FFT_BANDS_PER_AXIS, FFT_BINS, N_AXES,
    WINDOW_LEN,
};

fn close(a: f32, b: f32) -> bool {
    libm::fabsf(a - b) < 1e-4
}

fn root(sum: i64, n: usize) -> u32 {
    libm::sqrtf(sum as f32 / n as f32).to_bits()
}

fn ratio(peak: u16, level: u32) -> u32 {
    (peak as f32 / f32::from_bits(level)).to_bits()
}

fn moments(x: &[i16]) -> u32 {
    let n = x.len() as f32;
    let mean = x.iter().map(|&v| v as f32).sum::<f32>() / n;
    let (m2, m4) = x.iter().fold((0f32, 0f32), |(m2, m4), &v| {
        let d = v as f32 - mean;
        let d2 = d * d;
        (m2 + d2, m4 + d2 * d2)
    });
    let variance = m2 / n;
    ((m4 / n) / (variance * variance)).to_bits()
}

/// Magnitude spectrum of the Hann-windowed signal, bin by bin.
fn spectrum(col: &[i16; WINDOW_LEN]) -> [u32; FFT_BINS] {
    let turn = 2.0 * core::f64::consts::PI / WINDOW_LEN as f64;
    core::array::from_fn(|k| {
        let (mut re, mut im) = (0.0f64, 0.0f64);
        for (n, &c) in col.iter().enumerate() {
            let s = c as f64 * (0.5 - 0.5 * (turn * n as f64).cos());
            let phase = turn * ((k * n) % WINDOW_LEN) as f64;
            re += s * phase.cos();
            im -= s * phase.sin();
        }
        ((re * re + im * im).sqrt() as f32).to_bits()
    })
}

fn compress(bins: &[u32]) -> u32 {
    libm::log1pf(bins.iter().map(|&v| f32::from_bits(v)).sum()).to_bits()
}

fn rms(x: &[i16]) -> f32 {
    f32::from_bits(features::rms(x, &root))
}

fn crest(x: &[i16]) -> f32 {
    f32::from_bits(features::crest(x, &root, &ratio))
}

fn kurtosis(x: &[i16]) -> f32 {
    f32::from_bits(features::kurtosis(x, &moments))
}

fn run(window: &[Sample; WINDOW_LEN]) -> [f32; FEATURE_LEN] {
    let mut out = [0u32; FEATURE_LEN];
    let numerics = Numerics {
        root,
        ratio,
        moments,
        spectrum,
        compress,
    };
    extract(window, &mut out, &numerics);
    out.map(f32::from_bits)
}

#[test]
fn rms_of_constant_is_its_magnitude() {
    assert!(close(rms(&[7, 7, 7, 7]), 7.0));
    assert!(close(rms(&[-7, -7, -7, -7]), 7.0));
}

#[test]
fn rms_matches_hand_value() {
    assert!(close(rms(&[3, 4]), libm::sqrtf(12.5)));
}

#[test]
fn crest_of_alternating_unit_is_one() {
    assert!(close(crest(&[1, -1, 1, -1]), 1.0));
}

#[test]
fn crest_rises_for_an_impulsive_signal() {
    assert!(close(crest(&[0, 0, 4, 0]), 2.0));
}

#[test]
fn crest_of_a_silent_window_is_zero() {
    assert_eq!(crest(&[0, 0, 0, 0]), 0.0);
}

#[test]
fn kurtosis_of_two_point_signal_is_one() {
    assert!(close(kurtosis(&[-1, 1, -1, 1]), 1.0));
}

#[test]
fn kurtosis_matches_hand_value() {
    assert!(close(kurtosis(&[0, 0, 0, 4]), 21.0 / 9.0));
}

#[test]
fn kurtosis_of_constant_is_zero() {
    assert_eq!(kurtosis(&[5, 5, 5, 5]), 0.0);
}

#[test]
fn extract_lays_out_per_axis_features() {
    let window: [Sample; WINDOW_LEN] = core::array::from_fn(|t| {
        [
            if t % 2 == 0 { -1 } else { 1 },
            5,
            if t % 4 == 3 { 4 } else { 0 },
        ]
    });
    let out = run(&window);
    assert!(close(out[0], 1.0) && close(out[1], 1.0) && close(out[2], 1.0));
    assert!(close(out[3], 5.0) && close(out[4], 1.0) && close(out[5], 0.0));
    assert!(close(out[6], 2.0) && close(out[7], 2.0) && close(out[8], 21.0 / 9.0));
}

// First feature index of axis `a`'s spectral band block.
fn band_base(a: usize) -> usize {
    N_AXES * FEATURES_PER_AXIS + a * FFT_BANDS_PER_AXIS
}

#[test]
fn fft_bands_locate_a_tone_in_its_band() {
    let window: [Sample; WINDOW_LEN] = core::array::from_fn(|n| {
        let phase = 2.0 * core::f32::consts::PI * 40.0 * n as f32 / WINDOW_LEN as f32;
        [(1000.0 * libm::cosf(phase)) as i16, 0, 0]
    });
    let out = run(&window);

    let axis0 = &out[band_base(0)..band_base(0) + FFT_BANDS_PER_AXIS];
    let argmax = (0..FFT_BANDS_PER_AXIS)
        .max_by(|&a, &b| axis0[a].total_cmp(&axis0[b]))
        .unwrap();
    assert_eq!(argmax, 3, "tone should dominate band 3, got bands {axis0:?}");

    for a in 1..N_AXES {
        for &v in &out[band_base(a)..band_base(a) + FFT_BANDS_PER_AXIS] {
            assert!(v < 1e-3, "silent axis {a} band non-zero: {v}");
        }
    }
}

#[test]
fn fft_bands_of_silent_window_are_zero() {
    let window = [DEFAULT_SAMPLE; WINDOW_LEN];
    let out = run(&window);
    for &v in &out[N_AXES * FEATURES_PER_AXIS..] {
        assert_eq!(v, 0.0);
    }
}

#[test]
fn extract_gives_each_value_its_index() {
    // Primitives that name themselves and what they saw.
    let mut window: [Sample; WINDOW_LEN] = [[10, 20, 30]; WINDOW_LEN];
    window[5] = [11, 21, 31];
    let mut out = [0u32; FEATURE_LEN];
    let numerics = Numerics {
        root: |sum: i64, n: usize| (sum / n as i64) as u32,
        ratio: |peak: u16, level: u32| 1000 * peak as u32 + level,
        moments: |x: &[i16]| 7000 + x[5] as u32,
        spectrum: |col: &[i16; WINDOW_LEN]| [col[5] as u32; FFT_BINS],
        compress: |bins: &[u32]| 100 * bins.len() as u32 + bins[0],
    };
    extract(&window, &mut out, &numerics);
    assert_eq!(
        out,
        [
            100, 11100, 7011, 400, 21400, 7021, 900, 31900, 7031, 211, 611, 1911, 5611, 17211, 221,
            621, 1921, 5621, 17221, 231, 631, 1931, 5631, 17231
        ]
    );
}

#[test]
fn bands_see_their_bins() {
    let spectrum = |_: &[i16; WINDOW_LEN]| core::array::from_fn(|k| k as u32);
    let ends = |bins: &[u32]| 1000 * bins[0] + bins[bins.len() - 1];
    assert_eq!(
        fft_bands(&[0; WINDOW_LEN], &spectrum, &ends),
        [1002, 3008, 9027, 28083, 84255]
    );
}

#[test]
fn rms_ignores_order_and_sign() {
    let x = [3i16, -4, 0, 12, i16::MIN, 7];
    let y = [i16::MIN, 7, -12, 4, -3, 0];
    assert_eq!(rms(&x).to_bits(), rms(&y).to_bits());
    assert_eq!(rms(&[i16::MIN; WINDOW_LEN]), 32768.0);
    assert_eq!(rms(&[0; 9]), 0.0);
}

#[test]
fn sums_and_peaks_are_exact_at_the_extremes() {
    assert_eq!(sum_squares(&[i16::MIN; WINDOW_LEN]), 512 * (1i64 << 30));
    assert_eq!(sum_squares(&[3, -4]), 25);
    assert_eq!(sum_squares(&[]), 0);
    assert_eq!(peak(&[5, i16::MIN, 7]), 32768);
    assert_eq!(peak(&[0, -3, 2]), 3);
    assert_eq!(crest_peak(&[0, -9, 2]), Some(9));
    assert_eq!(crest_peak(&[0, 0]), None);
}

#[test]
fn constant_windows_are_recognised() {
    assert!(is_constant(&[]));
    assert!(is_constant(&[4]));
    assert!(is_constant(&[-2, -2, -2]));
    assert!(!is_constant(&[-2, -2, -1]));
}

#[test]
fn columns_are_the_readings_of_one_axis() {
    let window: [Sample; WINDOW_LEN] = core::array::from_fn(|t| [t as i16, -(t as i16), 7]);
    assert_eq!(pmcore::features::column(&window, 0)[511], 511);
    assert_eq!(pmcore::features::column(&window, 1)[511], -511);
    assert_eq!(pmcore::features::column(&window, 2), [7; WINDOW_LEN]);
}

#[test]
fn bands_tile_the_spectrum() {
    let mut next = 1;
    for b in 0..FFT_BANDS_PER_AXIS {
        let (first, end) = band_range(b);
        assert_eq!(first, next);
        assert!(end > first);
        next = end;
    }
    assert_eq!(next, FFT_BINS);
}

#[test]
fn axes_carry_their_features() {
    let window: [Sample; WINDOW_LEN] =
        core::array::from_fn(|t| [t as i16 % 13, -(t as i16 % 5), (t as i16 * 7) % 101]);
    let turned = window.map(|s| [s[2], s[0], s[1]]);
    let (a, b) = (run(&window), run(&turned));
    for (axis, source) in [(0, 2), (1, 0), (2, 1)] {
        assert_eq!(
            b[3 * axis..3 * axis + 3],
            a[3 * source..3 * source + 3]
        );
        assert_eq!(
            b[band_base(axis)..band_base(axis + 1)],
            a[band_base(source)..band_base(source + 1)]
        );
    }
}
