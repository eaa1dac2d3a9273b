use pmcore::features::{Sample, FEATURE_LEN, N_AXES, WINDOW_LEN};
use pmcore::forward::{
    forward, forward_q8, quantize_to_i8, ConvQ8Weights, ConvShape, Kernels, KernelsQ8, OutRange,
    PoolQ8,
};
use pmcore::model::{
    conv1d_out_len, Class, ModelConfig, ModelError, ModelWeights, QuantizedWeights, Weights,
    HEADER_BYTES, MAGIC, N_CLASSES, VERSION_F32, VERSION_Q8,
};
use pmcore::state::{Arena, RunState};
use pmcore::views::{view_ints, view_words};

fn close(a: f32, b: f32) -> bool {
    libm::fabsf(a - b) < 1e-5
}

fn small() -> ModelConfig {
    ModelConfig {
        c1: 2,
        k1: 3,
        s1: 1,
        c2: 2,
        k2: 3,
        s2: 1,
    }
}

fn deployed() -> ModelConfig {
    ModelConfig {
        c1: 16,
        k1: 7,
        s1: 2,
        c2: 32,
        k2: 5,
        s2: 2,
    }
}

/// Bytes at an address that is a multiple of four.
struct Aligned {
    words: Vec<u32>,
    len: usize,
}

impl Aligned {
    fn new(bytes: &[u8]) -> Aligned {
        let mut words = vec![0u32; bytes.len().div_ceil(4)];
        bytemuck::cast_slice_mut::<u32, u8>(&mut words)[..bytes.len()].copy_from_slice(bytes);
        Aligned {
            words,
            len: bytes.len(),
        }
    }

    fn bytes(&self) -> &[u8] {
        &bytemuck::cast_slice::<u32, u8>(&self.words)[..self.len]
    }
}

fn header(version: i32, cfg: &ModelConfig) -> Vec<u8> {
    let mut b = vec![0u8; HEADER_BYTES];
    b[..4].copy_from_slice(&MAGIC);
    let put = |b: &mut [u8], off: usize, v: i32| {
        b[off..off + 4].copy_from_slice(&v.to_le_bytes());
    };
    put(&mut b, 4, version);
    put(&mut b, 8, N_AXES as i32);
    put(&mut b, 12, WINDOW_LEN as i32);
    put(&mut b, 16, cfg.c1 as i32);
    put(&mut b, 20, cfg.k1 as i32);
    put(&mut b, 24, cfg.s1 as i32);
    put(&mut b, 28, cfg.c2 as i32);
    put(&mut b, 32, cfg.k2 as i32);
    put(&mut b, 36, cfg.s2 as i32);
    put(&mut b, 40, FEATURE_LEN as i32);
    put(&mut b, 44, N_CLASSES as i32);
    b
}

/// An on-disk model for `cfg` from the six weight tensors (in order).
fn build_blob(cfg: &ModelConfig, weights: &[f32]) -> Vec<u8> {
    assert_eq!(weights.len(), cfg.weight_floats());
    let mut b = header(VERSION_F32, cfg);
    for &w in weights {
        b.extend_from_slice(&w.to_le_bytes());
    }
    b
}

// Numeric kernels in their plainest form.

fn conv1d<'b>(
    out: &'b mut [f32],
    x: &[f32],
    w: &[u32],
    b: &[u32],
    s: ConvShape,
) -> &'b mut [f32] {
    let n = conv1d_out_len(s.len, s.kernel, s.stride);
    assert_eq!(x.len(), s.c_in * s.len);
    assert_eq!(w.len(), s.c_out * s.c_in * s.kernel);
    assert_eq!(b.len(), s.c_out);
    assert_eq!(out.len(), s.c_out * n);
    for o in 0..s.c_out {
        for t in 0..n {
            let mut acc = f32::from_bits(b[o]);
            for i in 0..s.c_in {
                for k in 0..s.kernel {
                    acc += x[i * s.len + t * s.stride + k]
                        * f32::from_bits(w[(o * s.c_in + i) * s.kernel + k]);
                }
            }
            out[o * n + t] = acc;
        }
    }
    out
}

fn relu(out: &mut [f32]) -> &mut [f32] {
    for v in out.iter_mut() {
        *v = v.max(0.0);
    }
    out
}

fn pool<'b>(out: &'b mut [f32], x: &[f32], channels: usize, len: usize) -> &'b mut [f32] {
    assert_eq!(x.len(), channels * len);
    for (o, row) in out.iter_mut().zip(x.chunks_exact(len)) {
        *o = row.iter().sum::<f32>() / len as f32;
    }
    out
}

fn matmul(x: &[f32], w: &[u32], cols: usize, rows: usize) -> [u32; N_CLASSES] {
    assert_eq!((rows, x.len(), w.len()), (N_CLASSES, cols, rows * cols));
    core::array::from_fn(|o| {
        w[o * cols..][..cols]
            .iter()
            .zip(x)
            .map(|(&w, &x)| f32::from_bits(w) * x)
            .sum::<f32>()
            .to_bits()
    })
}

fn add_bias(v: [u32; N_CLASSES], b: &[u32]) -> [u32; N_CLASSES] {
    core::array::from_fn(|o| (f32::from_bits(v[o]) + f32::from_bits(b[o])).to_bits())
}

fn softmax(v: [u32; N_CLASSES]) -> [u32; N_CLASSES] {
    let v = v.map(f32::from_bits);
    let top = v.iter().fold(f32::NEG_INFINITY, |m, &v| m.max(v));
    let e = v.map(|v| libm::expf(v - top));
    let sum: f32 = e.iter().sum();
    e.map(|v| (v / sum).to_bits())
}

fn quotient(v: u32, scale: u32) -> i32 {
    libm::roundf(f32::from_bits(v) / f32::from_bits(scale)) as i32
}

fn quantize(v: f32, scale: f32) -> i8 {
    quantize_to_i8(v.to_bits(), scale.to_bits(), &quotient)
}

fn requantize(acc: i32, mult: i32, shift: i32, range: OutRange) -> i8 {
    let exact = acc as f64 * (mult as f64 / (1u64 << 31) as f64) * 2f64.powi(shift);
    exact.round().clamp(range.min as f64, range.max as f64) as i8
}

fn conv1d_i8<'b>(
    out: &'b mut [i8],
    x: &[i8],
    t: ConvQ8Weights<'_>,
    range: OutRange,
    s: ConvShape,
) -> &'b mut [i8] {
    let n = conv1d_out_len(s.len, s.kernel, s.stride);
    for o in 0..s.c_out {
        for p in 0..n {
            let mut acc = t.bias[o];
            for i in 0..s.c_in {
                for k in 0..s.kernel {
                    acc += x[i * s.len + p * s.stride + k] as i32
                        * t.weights[(o * s.c_in + i) * s.kernel + k] as i32;
                }
            }
            out[o * n + p] = requantize(acc, t.mult[o], t.shift[o], range);
        }
    }
    out
}

fn pool_i8<'b>(out: &'b mut [i8], x: &[i8], s: PoolQ8, range: OutRange) -> &'b mut [i8] {
    assert_eq!(x.len(), s.channels * s.len);
    for (o, row) in out.iter_mut().zip(x.chunks_exact(s.len)) {
        let acc: i32 = row.iter().map(|&v| v as i32).sum();
        *o = requantize(acc, s.mult, s.shift, range);
    }
    out
}

fn matmul_i8(x: &[i8], w: &[i8], cols: usize, rows: usize) -> [i32; N_CLASSES] {
    assert_eq!((rows, x.len(), w.len()), (N_CLASSES, cols, rows * cols));
    core::array::from_fn(|o| {
        w[o * cols..][..cols]
            .iter()
            .zip(x)
            .map(|(&w, &x)| w as i32 * x as i32)
            .sum()
    })
}

/// Run the single-precision pass, leaving its activations in `state`.
fn run_f32<'b>(
    cfg: &ModelConfig,
    weights: &Weights,
    state: &mut RunState<'b, f32>,
    window: &[Sample; WINDOW_LEN],
    features: &[f32; FEATURE_LEN],
) -> [f32; N_CLASSES] {
    let kernels = Kernels {
        reading: |v: i16| v as f32,
        conv1d,
        relu,
        pool,
        feature: f32::from_bits,
        matmul,
        add_bias,
        softmax,
    };
    forward(cfg, weights, state, window, &features.map(f32::to_bits), &kernels).map(f32::from_bits)
}

/// Run the integer-only pass.
fn run_q8(
    cfg: &ModelConfig,
    weights: &QuantizedWeights,
    state: &mut RunState<i8>,
    window: &[Sample; WINDOW_LEN],
    features: &[f32; FEATURE_LEN],
) -> [f32; N_CLASSES] {
    let kernels = KernelsQ8 {
        level: |v: i16| (v as f32).to_bits(),
        quotient,
        conv1d: conv1d_i8,
        pool: pool_i8,
        matmul: matmul_i8,
        rescale: |v: i32, scale: u32, bias: u32| {
            (v as f32 * f32::from_bits(scale) + f32::from_bits(bias)).to_bits()
        },
        softmax,
    };
    forward_q8(cfg, weights, state, window, &features.map(f32::to_bits), &kernels)
        .map(f32::from_bits)
}

fn run(
    cfg: &ModelConfig,
    w: &Weights,
    window: &[Sample; WINDOW_LEN],
    feats: &[f32; FEATURE_LEN],
) -> [f32; N_CLASSES] {
    let mut scratch = vec![0.0f32; cfg.buf_len()];
    let mut arena = Arena::new(&mut scratch);
    let mut state = RunState::new(&mut arena, cfg).unwrap();
    run_f32(cfg, w, &mut state, window, feats)
}

#[test]
fn class_index_roundtrips_and_names() {
    for i in 0..N_CLASSES {
        assert!(!Class::from_index(i).unwrap().name().is_empty());
    }
    assert_eq!(Class::from_index(N_CLASSES), None);
    assert!(!Class::Normal.is_fault());
    assert!(Class::OuterRace.is_fault());
}

#[test]
fn load_rejects_bad_magic_and_size() {
    let cfg = small();
    let blob = build_blob(&cfg, &vec![0.0; cfg.weight_floats()]);

    let mut bad = blob.clone();
    bad[0] = b'X';
    assert_eq!(
        Weights::load(Aligned::new(&bad).bytes()).err(),
        Some(ModelError::BadMagic)
    );

    let truncated = Aligned::new(&blob[..blob.len() - 4]);
    assert!(matches!(
        Weights::load(truncated.bytes()),
        Err(ModelError::SizeMismatch { .. })
    ));
}

#[test]
fn load_returns_config_and_views_that_partition_the_payload() {
    let cfg = small();
    // Fill the weights with their own index so each view reveals where it was carved.
    let w: Vec<f32> = (0..cfg.weight_floats()).map(|i| i as f32).collect();
    let blob = Aligned::new(&build_blob(&cfg, &w));
    let (parsed, views) = Weights::load(blob.bytes()).unwrap();

    assert_eq!(parsed, cfg);
    assert_eq!(views.conv1_w.len(), cfg.c1 * N_AXES * cfg.k1);
    assert_eq!(f32::from_bits(views.conv1_w[0]), 0.0);
    assert_eq!(
        f32::from_bits(views.conv1_b[0]),
        (cfg.c1 * N_AXES * cfg.k1) as f32
    );
    assert_eq!(views.fc_b.len(), N_CLASSES);
    // The last tensor ends exactly at the payload end.
    assert_eq!(
        f32::from_bits(views.fc_b[N_CLASSES - 1]),
        (cfg.weight_floats() - 1) as f32
    );
}

#[test]
fn forward_plumbing_is_softmax_of_the_dense_bias() {
    // All weights but the dense bias are zero, so the logits equal the dense bias whatever the
    // input, and the output is exactly its softmax.
    let cfg = small();
    let mut w = vec![0.0f32; cfg.weight_floats()];
    let n = w.len();
    w[n - N_CLASSES..].copy_from_slice(&[0.0, core::f32::consts::LN_2, 0.0, 0.0]);
    let blob = Aligned::new(&build_blob(&cfg, &w));
    let (config, weights) = Weights::load(blob.bytes()).unwrap();

    let window = [[123i16, -7, 9]; WINDOW_LEN];
    let feats = [1.0f32; FEATURE_LEN];
    let probs = run(&config, &weights, &window, &feats);

    assert!(close(probs[0], 0.2));
    assert!(close(probs[1], 0.4));
    assert!(close(probs[2], 0.2));
    assert!(close(probs[3], 0.2));
}

#[test]
fn forward_outputs_a_valid_distribution() {
    let cfg = ModelConfig {
        c1: 4,
        k1: 5,
        s1: 3,
        c2: 4,
        k2: 3,
        s2: 2,
    };
    let w: Vec<f32> = (0..cfg.weight_floats())
        .map(|i| ((i as f32 * 0.123).sin()) * 0.05)
        .collect();
    let blob = Aligned::new(&build_blob(&cfg, &w));
    let (config, weights) = Weights::load(blob.bytes()).unwrap();

    let window: [Sample; WINDOW_LEN] =
        core::array::from_fn(|t| [(t as i16 % 50) - 25, 10, -((t as i16) % 7)]);
    let feats = [0.5f32; FEATURE_LEN];
    let probs = run(&config, &weights, &window, &feats);

    let sum: f32 = probs.iter().sum();
    assert!(close(sum, 1.0), "probs sum to {sum}");
    assert!(probs
        .iter()
        .all(|&p| (0.0..=1.0).contains(&p) && p.is_finite()));
}

#[test]
fn forward_q8_tracks_fp32() {
    let cfg = ModelConfig {
        c1: 8,
        k1: 5,
        s1: 3,
        c2: 8,
        k2: 3,
        s2: 2,
    };
    let wf: Vec<f32> = (0..cfg.weight_floats())
        .map(|i| libm::sinf(i as f32 * 0.123) * 0.1)
        .collect();
    let blob = Aligned::new(&build_blob(&cfg, &wf));
    let (config, weights) = Weights::load(blob.bytes()).unwrap();

    let window: [Sample; WINDOW_LEN] =
        core::array::from_fn(|t| [(t as i16 % 50) - 25, 10, -((t as i16) % 7)]);
    let feats = [0.5f32; FEATURE_LEN];

    let mut scratch = vec![0.0f32; config.buf_len()];
    let mut arena = Arena::new(&mut scratch);
    let mut state = RunState::new(&mut arena, &config).unwrap();
    let probs_f = run_f32(&config, &weights, &mut state, &window, &feats);

    // Activation scales calibrated from the single-precision activations.
    let win_abs = window.iter().flatten().fold(0i16, |m, &v| m.max(v.abs())) as f32;
    let s_in0 = win_abs / 127.0;
    let s_c1 = max_abs(state.x_c1) / 127.0;
    let s_c2 = max_abs(state.x_c2) / 127.0;
    let s_fc_in = max_abs(state.fc_in) / 127.0;

    let (c1w, s_w1) = quantize_rows(&floats(weights.conv1_w), config.c1, N_AXES * config.k1);
    let (c2w, s_w2) = quantize_rows(&floats(weights.conv2_w), config.c2, config.c1 * config.k2);
    let (fcw, s_wfc) = quantize_rows(&floats(weights.fc_w), N_CLASSES, config.c2 + FEATURE_LEN);

    let conv1_b = floats(weights.conv1_b);
    let conv2_b = floats(weights.conv2_b);
    let mut c1_bias = vec![0i32; config.c1];
    let mut c1_mult = vec![0i32; config.c1];
    let mut c1_shift = vec![0i32; config.c1];
    for o in 0..config.c1 {
        c1_bias[o] = libm::roundf(conv1_b[o] / (s_in0 * s_w1[o])) as i32;
        let (m, s) = quantize_multiplier(s_in0 * s_w1[o] / s_c1);
        c1_mult[o] = m;
        c1_shift[o] = s;
    }
    let mut c2_bias = vec![0i32; config.c2];
    let mut c2_mult = vec![0i32; config.c2];
    let mut c2_shift = vec![0i32; config.c2];
    for o in 0..config.c2 {
        c2_bias[o] = libm::roundf(conv2_b[o] / (s_c1 * s_w2[o])) as i32;
        let (m, s) = quantize_multiplier(s_c1 * s_w2[o] / s_c2);
        c2_mult[o] = m;
        c2_shift[o] = s;
    }
    let (pool_mult, pool_shift) = quantize_multiplier(s_c2 / (config.l2() as f32 * s_fc_in));
    let fc_bias: Vec<u32> = weights.fc_b.to_vec();
    let fc_out_scale: Vec<u32> = (0..N_CLASSES)
        .map(|o| (s_fc_in * s_wfc[o]).to_bits())
        .collect();

    let qw = QuantizedWeights {
        conv1_w: &c1w,
        conv1_bias: &c1_bias,
        conv1_mult: &c1_mult,
        conv1_shift: &c1_shift,
        conv2_w: &c2w,
        conv2_bias: &c2_bias,
        conv2_mult: &c2_mult,
        conv2_shift: &c2_shift,
        pool_mult,
        pool_shift,
        fc_w: &fcw,
        fc_bias: &fc_bias,
        fc_out_scale: &fc_out_scale,
        s_in0: s_in0.to_bits(),
        s_fc_in: s_fc_in.to_bits(),
    };

    let mut ibuf = vec![0i8; config.buf_len()];
    let mut iarena = Arena::new(&mut ibuf);
    let mut istate = RunState::new(&mut iarena, &config).unwrap();
    let probs_q = run_q8(&config, &qw, &mut istate, &window, &feats);

    let sum: f32 = probs_q.iter().sum();
    assert!(close(sum, 1.0), "int8 probs sum to {sum}");
    assert_eq!(
        argmax(&probs_f),
        argmax(&probs_q),
        "int8 changed the argmax: fp32 {probs_f:?} vs int8 {probs_q:?}"
    );
    let max_abs_diff = probs_f
        .iter()
        .zip(&probs_q)
        .map(|(a, b)| (a - b).abs())
        .fold(0.0f32, f32::max);
    assert!(
        max_abs_diff < 0.05,
        "int8 diverges from fp32: max abs {max_abs_diff} (fp32 {probs_f:?} vs int8 {probs_q:?})"
    );
}

fn floats(bits: &[u32]) -> Vec<f32> {
    bits.iter().map(|&v| f32::from_bits(v)).collect()
}

fn argmax(p: &[f32; N_CLASSES]) -> usize {
    p.iter()
        .enumerate()
        .max_by(|a, b| a.1.partial_cmp(b.1).unwrap())
        .unwrap()
        .0
}

fn max_abs(x: &[f32]) -> f32 {
    x.iter().fold(0.0f32, |m, &v| m.max(libm::fabsf(v)))
}

// A real multiplier as a Q31 mantissa and a signed shift.
fn quantize_multiplier(m: f32) -> (i32, i32) {
    if m == 0.0 {
        return (0, 0);
    }
    let exp = libm::floorf(libm::log2f(m)) as i32 + 1;
    let frac = (m as f64) / 2f64.powi(exp);
    let mut q = (frac * (1i64 << 31) as f64).round() as i64;
    let mut shift = exp;
    if q == (1i64 << 31) {
        q /= 2;
        shift += 1;
    }
    (q as i32, shift)
}

// Quantize one weight tensor per output row: int8 values and a scale per row.
fn quantize_rows(w: &[f32], rows: usize, cols: usize) -> (Vec<i8>, Vec<f32>) {
    let mut q = vec![0i8; w.len()];
    let mut scales = vec![0.0f32; rows];
    for o in 0..rows {
        let row = &w[o * cols..][..cols];
        let scale = max_abs(row) / 127.0;
        scales[o] = scale;
        for j in 0..cols {
            q[o * cols + j] = quantize(row[j], scale);
        }
    }
    (q, scales)
}

#[test]
fn every_header_error_has_an_input() {
    let cfg = small();
    let good = build_blob(&cfg, &vec![0.0; cfg.weight_floats()]);
    let with = |off: usize, v: i32| {
        let mut b = good.clone();
        b[off..off + 4].copy_from_slice(&v.to_le_bytes());
        b
    };
    assert_eq!(ModelConfig::parse(&good[..63]), Err(ModelError::TooShort));
    assert_eq!(ModelConfig::parse(&[]), Err(ModelError::TooShort));
    assert_eq!(ModelConfig::parse(&with(0, 7)), Err(ModelError::BadMagic));
    assert_eq!(
        ModelConfig::parse(&with(4, -3)),
        Err(ModelError::UnsupportedVersion(-3))
    );
    for off in [8, 12, 40, 44] {
        assert_eq!(
            ModelConfig::parse(&with(off, 99)),
            Err(ModelError::ConfigMismatch)
        );
    }
    assert_eq!(ModelConfig::parse(&good), Ok(cfg));
    assert_eq!(ModelConfig::version(&good), Ok(VERSION_F32));
    assert_eq!(ModelConfig::version(&with(4, 77)), Ok(77));
    assert_eq!(ModelConfig::version(&good[..10]), Err(ModelError::TooShort));
    assert_eq!(ModelConfig::version(&with(0, 7)), Err(ModelError::BadMagic));
}

#[test]
fn loaders_refuse_each_others_version_and_wrong_sizes() {
    let cfg = small();
    let f = Aligned::new(&build_blob(&cfg, &vec![0.0; cfg.weight_floats()]));
    assert_eq!(
        QuantizedWeights::load(f.bytes()).err(),
        Some(ModelError::UnsupportedVersion(VERSION_F32))
    );
    let q = Aligned::new(&quantized_blob(&cfg));
    assert_eq!(
        Weights::load(q.bytes()).err(),
        Some(ModelError::UnsupportedVersion(VERSION_Q8))
    );
    let mut long = quantized_blob(&cfg);
    long.push(0);
    assert_eq!(
        QuantizedWeights::load(Aligned::new(&long).bytes()).err(),
        Some(ModelError::SizeMismatch {
            expected: long.len() - 1,
            got: long.len()
        })
    );
    let short = build_blob(&cfg, &vec![0.0; cfg.weight_floats()]);
    assert_eq!(
        Weights::load(Aligned::new(&short[..short.len() - 4]).bytes()).err(),
        Some(ModelError::SizeMismatch {
            expected: short.len(),
            got: short.len() - 4
        })
    );
    assert!(matches!(
        Weights::new(&[0; 3], &cfg),
        Err(ModelError::SizeMismatch { got: 12, .. })
    ));
}

/// A quantized model whose blocks count up: 0.. in each.
fn quantized_blob(cfg: &ModelConfig) -> Vec<u8> {
    let mut b = header(VERSION_Q8, cfg);
    for i in 0..cfg.q_f32_floats() {
        b.extend_from_slice(&(i as f32).to_le_bytes());
    }
    for i in 0..cfg.q_i32_count() {
        b.extend_from_slice(&(-(i as i32)).to_le_bytes());
    }
    for i in 0..cfg.q_weight_i8s() {
        b.push((-(i as i64) % 100) as i8 as u8);
    }
    b
}

#[test]
fn quantized_views_partition_the_three_blocks() {
    let cfg = small();
    let blob = Aligned::new(&quantized_blob(&cfg));
    let (parsed, w) = QuantizedWeights::load(blob.bytes()).unwrap();
    assert_eq!(parsed, cfg);
    assert_eq!(f32::from_bits(w.s_in0), 0.0);
    assert_eq!(f32::from_bits(w.s_fc_in), 1.0);
    assert_eq!(floats(w.fc_out_scale), vec![2.0, 3.0, 4.0, 5.0]);
    assert_eq!(floats(w.fc_bias), vec![6.0, 7.0, 8.0, 9.0]);
    assert_eq!(w.conv1_bias, &[0, -1]);
    assert_eq!(w.conv1_mult, &[-2, -3]);
    assert_eq!(w.conv1_shift, &[-4, -5]);
    assert_eq!(w.conv2_bias, &[-6, -7]);
    assert_eq!(w.conv2_mult, &[-8, -9]);
    assert_eq!(w.conv2_shift, &[-10, -11]);
    assert_eq!((w.pool_mult, w.pool_shift), (-12, -13));
    assert_eq!(w.conv1_w.len(), 18);
    assert_eq!(w.conv2_w.len(), 12);
    assert_eq!(w.fc_w.len(), N_CLASSES * 26);
    assert_eq!(w.conv1_w[17], -17);
    assert_eq!(w.conv2_w[0], -18);
    assert_eq!(w.fc_w[0], -30);
}

#[test]
fn misplaced_models_are_reported() {
    let cfg = small();
    for blob in [
        build_blob(&cfg, &vec![0.0; cfg.weight_floats()]),
        quantized_blob(&cfg),
    ] {
        let mut shifted = vec![0u8];
        shifted.extend_from_slice(&blob);
        let held = Aligned::new(&shifted);
        assert_eq!(
            ModelWeights::load(&held.bytes()[1..]).err(),
            Some(ModelError::Misaligned)
        );
    }
    assert_eq!(
        Weights::from_view(None, &cfg).err(),
        Some(ModelError::Misaligned)
    );
    let i8s = vec![0i8; cfg.q_weight_i8s()];
    let words = vec![0u32; cfg.q_f32_floats()];
    assert_eq!(
        QuantizedWeights::from_views(Some(&words), None, &i8s, &cfg).err(),
        Some(ModelError::Misaligned)
    );
}

#[test]
fn either_version_loads_by_its_header() {
    let cfg = small();
    let f = Aligned::new(&build_blob(&cfg, &vec![0.0; cfg.weight_floats()]));
    let q = Aligned::new(&quantized_blob(&cfg));
    assert!(matches!(
        ModelWeights::load(f.bytes()),
        Ok((_, ModelWeights::F32(_)))
    ));
    assert!(matches!(
        ModelWeights::load(q.bytes()),
        Ok((_, ModelWeights::Q8(_)))
    ));
    let mut other = f.bytes().to_vec();
    other[4..8].copy_from_slice(&9i32.to_le_bytes());
    assert_eq!(
        ModelWeights::load(Aligned::new(&other).bytes()).err(),
        Some(ModelError::UnsupportedVersion(9))
    );
}

#[test]
fn sizes_of_the_deployed_model() {
    let cfg = deployed();
    assert_eq!(cfg.weight_floats(), 336 + 16 + 2560 + 32 + 4 * 56 + 4);
    assert_eq!(cfg.q_weight_i8s(), 336 + 2560 + 4 * 56);
    assert_eq!(cfg.q_i32_count(), 3 * 16 + 3 * 32 + 2);
    assert_eq!(cfg.q_f32_floats(), 2 + 2 * 4);
    assert_eq!(cfg.file_bytes(), Some(64 + 4 * cfg.weight_floats()));
    assert_eq!(cfg.q_file_bytes(), Some(64 + 4 * 10 + 4 * 146 + 3120));
    assert!(cfg.q_file_bytes() < cfg.file_bytes());
    assert_eq!(conv1d_out_len(512, 512, 3), 1);
}

#[test]
fn sizes_that_do_not_fit_are_not_computed() {
    let huge = ModelConfig {
        c1: usize::MAX / 2,
        k1: 7,
        s1: 1,
        c2: usize::MAX / 2,
        k2: 5,
        s2: 1,
    };
    assert_eq!(huge.file_bytes(), None);
    assert_eq!(huge.q_file_bytes(), None);
    assert_eq!(huge.checked_buf_len(), None);
}

#[test]
fn errors_in_words() {
    assert_eq!(ModelError::TooShort.message(), "model file is too short");
    assert_eq!(
        ModelError::BadMagic.message(),
        "not an edge-pm model (bad magic)"
    );
    assert_eq!(
        ModelError::UnsupportedVersion(-2147483648).message(),
        "unsupported model version -2147483648"
    );
    assert_eq!(
        ModelError::ConfigMismatch.message(),
        "model dimensions do not match the compiled pipeline"
    );
    assert_eq!(
        ModelError::SizeMismatch {
            expected: 1208,
            got: 0
        }
        .message(),
        "model size mismatch: expected 1208 bytes, got 0"
    );
    assert_eq!(
        ModelError::Misaligned.message(),
        "model weight region is not 4-byte aligned"
    );
}

/// Kernels over plain integers that leave a trace of what they were given.
#[test]
fn a_pass_hands_each_kernel_its_operands() {
    let cfg = deployed();
    let n = cfg.weight_floats();
    let floats: Vec<u32> = (0..n as u32).collect();
    let weights = Weights::new(&floats, &cfg).unwrap();
    let mut buf = vec![-1i64; cfg.buf_len()];
    let mut arena = Arena::new(&mut buf);
    let mut state = RunState::new(&mut arena, &cfg).unwrap();

    fn conv<'b>(out: &'b mut [i64], x: &[i64], w: &[u32], b: &[u32], s: ConvShape) -> &'b mut [i64] {
        let v = x[0] * 1_000_000 + w[0] as i64 * 1000 + b[0] as i64 + s.stride as i64;
        out.fill(v);
        out
    }
    fn negate(out: &mut [i64]) -> &mut [i64] {
        for v in out.iter_mut() {
            *v = -*v;
        }
        out
    }
    fn head<'b>(out: &'b mut [i64], x: &[i64], channels: usize, len: usize) -> &'b mut [i64] {
        for o in 0..channels {
            out[o] = x[o * len];
        }
        out
    }
    let kernels = Kernels {
        reading: |v: i16| v as i64,
        conv1d: conv,
        relu: negate,
        pool: head,
        feature: |v: u32| v as i64,
        matmul: |x: &[i64], w: &[u32], cols: usize, rows: usize| {
            assert_eq!((cols, rows, w.len()), (56, 4, 224));
            assert_eq!(x[32], 900);
            [w[0], x[55] as u32, 2, 3]
        },
        add_bias: |v: [u32; N_CLASSES], b: &[u32]| [v[0] + b[0], v[1] + b[1], v[2], v[3]],
        softmax: |v: [u32; N_CLASSES]| [v[3], v[2], v[1], v[0]],
    };
    let window = [[2i16, 3, 4]; WINDOW_LEN];
    let features: [u32; FEATURE_LEN] = core::array::from_fn(|i| 900 + i as u32);
    let probs = forward(&cfg, &weights, &mut state, &window, &features, &kernels);

    // conv1_w starts at 0, conv1_b at 336, conv2_w at 352, conv2_b at 2912, fc_w at 2944.
    let c1 = -(2 * 1_000_000 + 336 + 2);
    let c2 = -(c1 * 1_000_000 + 352_000 + 2912 + 2);
    assert_eq!((state.x[0], state.x[512], state.x[1024]), (2, 3, 4));
    assert_eq!((state.x_c1[0], state.x_c2[0]), (c1, c2));
    assert_eq!((state.fc_in[0], state.fc_in[31], state.fc_in[32]), (c2, c2, 900));
    assert_eq!(probs, [3, 2, 923 + 3169, 2944 + 3168]);
}

#[test]
fn quantization_clamps_and_is_odd() {
    assert_eq!(quantize(5.0, 1.0), 5);
    assert_eq!(quantize(2.5, 1.0), 3);
    assert_eq!(quantize(-2.5, 1.0), -3);
    assert_eq!(quantize(128.0, 1.0), 127);
    assert_eq!(quantize(-128.0, 1.0), -127);
    assert_eq!(quantize(1e30, 1.0), 127);
    assert_eq!(quantize(-1e30, 1.0), -127);
    assert_eq!(quantize(5.0, 0.0), 0);
    assert_eq!(quantize(5.0, -0.0), 0);
    let mut last = -127;
    for i in -300..300 {
        let v = i as f32 * 0.7;
        assert_eq!(quantize(-v, 1.0), -quantize(v, 1.0));
        assert!(quantize(v, 1.0) >= last);
        last = quantize(v, 1.0);
    }
}

#[test]
fn int8_activations_stay_in_range() {
    let cfg = small();
    let blob = Aligned::new(&quantized_blob(&cfg));
    let (config, weights) = QuantizedWeights::load(blob.bytes()).unwrap();
    let window: [Sample; WINDOW_LEN] = core::array::from_fn(|t| [t as i16 * 60, -30000, 5]);
    let feats: [f32; FEATURE_LEN] = core::array::from_fn(|i| 40.0 * i as f32 - 500.0);
    let run_over = |fill: i8| {
        let mut buf = vec![fill; config.buf_len()];
        let mut arena = Arena::new(&mut buf);
        let mut state = RunState::new(&mut arena, &config).unwrap();
        let probs = run_q8(&config, &weights, &mut state, &window, &feats);
        assert!(state.x_c1.iter().chain(state.x_c2.iter()).all(|&v| v >= 0));
        assert!(state.x.iter().chain(state.fc_in.iter()).all(|&v| v >= -127));
        assert_eq!(state.fc_in[config.c2], -127);
        assert_eq!(state.fc_in[config.c2 + 13], 20);
        (probs, state.fc_in.to_vec())
    };
    assert_eq!(run_over(0), run_over(-128));
}

#[test]
fn reserved_header_bytes_are_ignored() {
    let cfg = small();
    let mut blob = build_blob(&cfg, &vec![1.0; cfg.weight_floats()]);
    blob[48..64].fill(0xEE);
    assert_eq!(ModelConfig::parse(&blob), Ok(cfg));
    assert!(Weights::load(Aligned::new(&blob).bytes()).is_ok());
}

#[test]
fn a_pass_ignores_what_an_earlier_one_left_behind() {
    let cfg = small();
    let w: Vec<f32> = (0..cfg.weight_floats())
        .map(|i| ((i as f32 * 0.321).sin()) * 0.05)
        .collect();
    let blob = Aligned::new(&build_blob(&cfg, &w));
    let (config, weights) = Weights::load(blob.bytes()).unwrap();
    let window: [Sample; WINDOW_LEN] = core::array::from_fn(|t| [t as i16 % 9, 4, -3]);
    let feats = [0.25f32; FEATURE_LEN];
    let fresh = run(&config, &weights, &window, &feats);

    let mut scratch = vec![1.0e6f32; config.buf_len()];
    let mut arena = Arena::new(&mut scratch);
    let mut state = RunState::new(&mut arena, &config).unwrap();
    assert_eq!(run_f32(&config, &weights, &mut state, &window, &feats), fresh);
    assert_eq!(run_f32(&config, &weights, &mut state, &window, &feats), fresh);
}

#[test]
fn views_encode_back_to_the_payload() {
    let cfg = small();
    let w: Vec<f32> = (0..cfg.weight_floats()).map(|i| i as f32 - 7.5).collect();
    let f = Aligned::new(&build_blob(&cfg, &w));
    let (_, v) = Weights::load(f.bytes()).unwrap();
    let mut out: Vec<u8> = Vec::new();
    for t in [v.conv1_w, v.conv1_b, v.conv2_w, v.conv2_b, v.fc_w, v.fc_b] {
        out.extend(t.iter().flat_map(|x| x.to_le_bytes()));
    }
    assert_eq!(out, Weights::payload(f.bytes()));
    assert_eq!(Weights::payload(f.bytes()), &f.bytes()[HEADER_BYTES..]);

    let q = Aligned::new(&quantized_blob(&cfg));
    let (_, v) = QuantizedWeights::load(q.bytes()).unwrap();
    let mut words: Vec<u8> = [v.s_in0, v.s_fc_in]
        .iter()
        .chain(v.fc_out_scale)
        .chain(v.fc_bias)
        .flat_map(|x| x.to_le_bytes())
        .collect();
    let mut ints: Vec<u8> = Vec::new();
    for t in [
        v.conv1_bias,
        v.conv1_mult,
        v.conv1_shift,
        v.conv2_bias,
        v.conv2_mult,
        v.conv2_shift,
        &[v.pool_mult, v.pool_shift],
    ] {
        ints.extend(t.iter().flat_map(|x| x.to_le_bytes()));
    }
    let mut bytes: Vec<u8> = Vec::new();
    for t in [v.conv1_w, v.conv2_w, v.fc_w] {
        bytes.extend(t.iter().map(|&x| x as u8));
    }
    assert_eq!(
        QuantizedWeights::blocks(q.bytes(), &cfg),
        (&words[..], &ints[..], &bytes[..])
    );
    words.append(&mut ints);
    words.append(&mut bytes);
    assert_eq!(words, &q.bytes()[HEADER_BYTES..]);
}

#[test]
fn either_loader_is_answered_for() {
    let cfg = small();
    let f = Aligned::new(&build_blob(&cfg, &vec![2.0; cfg.weight_floats()]));
    let (c, w) = Weights::load(f.bytes()).unwrap();
    let Ok((d, ModelWeights::F32(v))) = ModelWeights::load(f.bytes()) else {
        panic!("expected single-precision weights");
    };
    assert_eq!((c, w.fc_w, w.fc_b), (d, v.fc_w, v.fc_b));
    for len in [0, 63, 64, 100] {
        let cut = Aligned::new(&f.bytes()[..len]);
        assert_eq!(
            ModelWeights::load(cut.bytes()).err(),
            Weights::load(cut.bytes()).err()
        );
    }
    // An unknown version is refused as such, even if the fixed dimensions mismatch too.
    let mut other = f.bytes().to_vec();
    other[4] = 9;
    other[8] = 9;
    assert_eq!(
        ModelWeights::load(&other).err(),
        Some(ModelError::UnsupportedVersion(9))
    );
}

#[test]
fn casts_view_whole_aligned_words() {
    let held = Aligned::new(&[1, 0, 0, 0, 0xFF, 0xFF, 0xFF, 0xFF, 7]);
    assert_eq!(view_words(&held.bytes()[..8]), Some(&[1, u32::MAX][..]));
    assert_eq!(view_ints(&held.bytes()[..8]), Some(&[1, -1][..]));
    assert_eq!(view_words(&held.bytes()[..7]), None);
    assert_eq!(view_ints(&held.bytes()[..7]), None);
    assert_eq!(view_words(&held.bytes()[1..5]), None);
    assert_eq!(view_ints(&held.bytes()[1..5]), None);
}
