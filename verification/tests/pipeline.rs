use pmcore::alert::{AlertMachine, State};
use pmcore::features::{Numerics, Sample, DEFAULT_SAMPLE, FEATURE_LEN, N_AXES, WINDOW_LEN};
use pmcore::forward::{ConvQ8Weights, ConvShape, Kernels, KernelsQ8, OutRange, PoolQ8};
use pmcore::model::{Class, ModelConfig, QuantizedWeights, Weights, N_CLASSES};
use pmcore::pipeline::{
    handle_outcome, process_window, process_window_q8, store_burst, store_sample, Indication,
    Outcome, Windower,
};
use pmcore::state::{Arena, RunState};

fn root(sum: i64, n: usize) -> u32 {
    libm::sqrtf(sum as f32 / n as f32).to_bits()
}

fn ratio(_: u16, _: u32) -> u32 {
    0
}

fn moments(_: &[i16]) -> u32 {
    0
}

fn spectrum(_: &[i16; WINDOW_LEN]) -> [u32; 256] {
    [0; 256]
}

fn compress(_: &[u32]) -> u32 {
    0
}

fn keep<'b>(out: &'b mut [f32], _: &[f32], _: &[u32], _: &[u32], _: ConvShape) -> &'b mut [f32] {
    out
}

fn same(out: &mut [f32]) -> &mut [f32] {
    out
}

fn unpooled<'b>(out: &'b mut [f32], _: &[f32], _: usize, _: usize) -> &'b mut [f32] {
    out
}

/// Probabilities that put 0.9 on the class named by the first feature.
fn pick(x: &[f32], _: &[u32], cols: usize, _: usize) -> [u32; N_CLASSES] {
    let mut p = [0.1f32 / 3.0; N_CLASSES];
    p[x[cols - FEATURE_LEN] as usize] = 0.9;
    p.map(f32::to_bits)
}

fn unbiased(v: [u32; N_CLASSES], _: &[u32]) -> [u32; N_CLASSES] {
    v
}

fn unscaled(v: [u32; N_CLASSES]) -> [u32; N_CLASSES] {
    v
}

const CFG: ModelConfig = ModelConfig {
    c1: 1,
    k1: 3,
    s1: 2,
    c2: 1,
    k2: 3,
    s2: 2,
};

fn step(alert: &mut AlertMachine, class: i16) -> Outcome {
    let numerics = Numerics {
        root,
        ratio,
        moments,
        spectrum,
        compress,
    };
    let kernels = Kernels {
        reading: |v: i16| v as f32,
        conv1d: keep,
        relu: same,
        pool: unpooled,
        feature: f32::from_bits,
        matmul: pick,
        add_bias: unbiased,
        softmax: unscaled,
    };
    let floats = vec![0u32; CFG.weight_floats()];
    let weights = Weights::new(&floats, &CFG).unwrap();
    let mut buf = vec![0.0f32; CFG.buf_len()];
    let mut arena = Arena::new(&mut buf);
    let mut state = RunState::new(&mut arena, &CFG).unwrap();
    let window = [[class, 2, 3]; WINDOW_LEN];
    process_window(
        &CFG, &weights, &window, &mut state, alert, &numerics, &kernels,
    )
}

#[test]
fn a_window_goes_through_every_stage() {
    let mut alert = AlertMachine::new();
    let out = step(&mut alert, 2);
    assert_eq!(f32::from_bits(out.features[0]), 2.0);
    assert_eq!(f32::from_bits(out.features[3]), 2.0);
    assert_eq!(f32::from_bits(out.features[6]), 3.0);
    assert_eq!(f32::from_bits(out.probs[2]), 0.9);
    assert_eq!(out.class, Class::OuterRace);
    assert_eq!(out.confidence, 0.9f32.to_bits());
    assert_eq!(
        out.state,
        State::Alert {
            class: Class::OuterRace
        }
    );
    assert_eq!(alert.state(), out.state);
}

#[test]
fn the_light_follows_the_state_and_only_changes_are_logged() {
    let mut alert = AlertMachine::new();
    let mut prev = State::Normal;
    let mut seen = Vec::new();
    for class in [0, 1, 1, 3, 0, 0, 0, 0] {
        let out = step(&mut alert, class);
        seen.push(handle_outcome(&out, &mut prev));
        assert_eq!(prev, out.state);
    }
    let expect = [
        (false, false),
        (true, true),
        (true, false),
        (true, true),
        (true, false),
        (true, false),
        (false, true),
        (false, false),
    ];
    assert_eq!(
        seen,
        expect
            .map(|(lit, log)| Indication { lit, log })
            .to_vec()
    );
}

#[test]
fn samples_fill_a_buffer_and_start_over() {
    let mut buf = [DEFAULT_SAMPLE; WINDOW_LEN];
    let mut fill = 0;
    for t in 0..WINDOW_LEN {
        assert_eq!(fill, t);
        let full = store_sample(&mut buf, &mut fill, [t as i16, 1, 2]);
        assert_eq!(full, t == WINDOW_LEN - 1);
        assert_eq!(buf[t], [t as i16, 1, 2]);
    }
    assert_eq!(fill, 0);
}

#[test]
fn streams_are_cut_into_consecutive_windows() {
    let stream: Vec<Sample> = (0..2 * WINDOW_LEN as i16 + 76).map(|i| [i, -i, 5]).collect();
    let mut windower = Windower::new();
    let mut windows: Vec<Vec<Sample>> = Vec::new();
    for s in &stream {
        if let Some(w) = windower.push(*s) {
            windows.push(w.to_vec());
        }
    }
    assert_eq!(windows.len(), 2);
    assert_eq!(windows[0], stream[..WINDOW_LEN]);
    assert_eq!(windows[1], stream[WINDOW_LEN..2 * WINDOW_LEN]);
    assert_eq!(windower.fill_level(), 76);
    assert_eq!(Windower::new().fill_level(), 0);
    assert_eq!(N_AXES, stream[0].len());
}

#[test]
fn stored_samples_follow_the_cut() {
    let stream: Vec<Sample> = (0..3 * WINDOW_LEN as i16 + 9).map(|i| [i, 1, 2]).collect();
    let mut buf = [DEFAULT_SAMPLE; WINDOW_LEN];
    let mut fill = 0;
    let mut sent: Vec<Sample> = Vec::new();
    // Samples come in bursts; an empty burst adds none.
    for burst in stream.chunks(31) {
        for s in burst {
            if store_sample(&mut buf, &mut fill, *s) {
                sent.extend_from_slice(&buf);
            }
        }
    }
    assert_eq!(sent, stream[..3 * WINDOW_LEN]);
    assert_eq!(fill, 9);
    assert_eq!(buf[..fill], stream[3 * WINDOW_LEN..]);
}

fn keep_i8<'b>(
    out: &'b mut [i8],
    _: &[i8],
    _: ConvQ8Weights<'_>,
    range: OutRange,
    _: ConvShape,
) -> &'b mut [i8] {
    assert_eq!((range.min, range.max), (0, 127));
    out
}

fn pool_i8<'b>(out: &'b mut [i8], _: &[i8], shape: PoolQ8, range: OutRange) -> &'b mut [i8] {
    assert_eq!((shape.mult, shape.shift), (7, 8));
    assert_eq!((range.min, range.max), (-127, 127));
    out
}

#[test]
fn an_int8_window_goes_through_every_stage() {
    let numerics = Numerics {
        root,
        ratio,
        moments,
        spectrum,
        compress,
    };
    let kernels = KernelsQ8 {
        level: |v: i16| (v as f32).to_bits(),
        quotient: |v: u32, s: u32| libm::roundf(f32::from_bits(v) / f32::from_bits(s)) as i32,
        conv1d: keep_i8,
        pool: pool_i8,
        matmul: |x: &[i8], w: &[i8], cols: usize, rows: usize| {
            assert_eq!((cols, rows, w.len()), (25, 4, 100));
            let mut v = [0i32; N_CLASSES];
            v[x[1] as usize] = 9;
            v
        },
        rescale: |v: i32, scale: u32, bias: u32| {
            (v as f32 * f32::from_bits(scale) + f32::from_bits(bias)).to_bits()
        },
        softmax: unscaled,
    };
    let tenth = [0.1f32.to_bits(); 4];
    let zeros = [0u32; 4];
    let weights = QuantizedWeights {
        conv1_w: &[0; 9],
        conv1_bias: &[0],
        conv1_mult: &[0],
        conv1_shift: &[0],
        conv2_w: &[0; 3],
        conv2_bias: &[0],
        conv2_mult: &[0],
        conv2_shift: &[0],
        pool_mult: 7,
        pool_shift: 8,
        fc_w: &[0; 100],
        fc_bias: &zeros,
        fc_out_scale: &tenth,
        s_in0: 2.0f32.to_bits(),
        s_fc_in: 1.0f32.to_bits(),
    };
    let mut buf = vec![0i8; CFG.buf_len()];
    let mut arena = Arena::new(&mut buf);
    let mut state = RunState::new(&mut arena, &CFG).unwrap();
    let mut alert = AlertMachine::new();
    let window = [[3, -300, 9]; WINDOW_LEN];
    let out = process_window_q8(
        &CFG, &weights, &window, &mut state, &mut alert, &numerics, &kernels,
    );
    assert_eq!(out.class, Class::RollingElement);
    assert!((f32::from_bits(out.confidence) - 0.9).abs() < 1e-6);
    assert_eq!(alert.state(), out.state);
    assert_eq!((state.x[0], state.x[512], state.x[1024]), (2, -127, 5));
    assert_eq!(&state.fc_in[1..8], &[3, 0, 0, 127, 0, 0, 9]);
}

#[test]
fn stored_bursts_follow_the_cut() {
    let stream: Vec<Sample> = (0..3 * WINDOW_LEN as i16 + 9).map(|i| [i, 1, 2]).collect();
    let mut buf = [DEFAULT_SAMPLE; WINDOW_LEN];
    let mut fill = 0;
    let mut sent: Vec<Sample> = Vec::new();
    for burst in stream.chunks(700) {
        let mut rest = burst;
        while !rest.is_empty() {
            let (n, full) = store_burst(&mut buf, &mut fill, rest);
            rest = &rest[n..];
            if full {
                sent.extend_from_slice(&buf);
            }
        }
    }
    assert_eq!(store_burst(&mut buf, &mut fill, &[]), (0, false));
    assert_eq!(sent, stream[..3 * WINDOW_LEN]);
    assert_eq!(fill, 9);
    assert_eq!(buf[..fill], stream[3 * WINDOW_LEN..]);
    // What stands behind the stored samples is left as it was.
    assert_eq!(buf[9], stream[2 * WINDOW_LEN + 9]);
}
