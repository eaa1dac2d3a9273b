//! The forward pass: from a window and its features to the class probabilities.
//!
//! Both passes are here, the single-precision one and its integer-only twin. They decide which
//! kernel runs when, with which dimensions, on which buffers and with which tensors; the
//! numeric kernels themselves are handed in. A kernel that fills a buffer takes the buffer and
//! hands it back, so a pass works in the buffers of its [`RunState`] alone and allocates
//! nothing.
use crate::features::{Sample, FEATURE_LEN, N_AXES, WINDOW_LEN};
use crate::float32::{zero, F32Bits};
use crate::model::{ModelConfig, QuantizedWeights, Weights, N_CLASSES};
use crate::state::{Buffers, RunState};
use vstd::prelude::*;

verus! {

/// The dimensions of a convolution.
#[derive(Clone, Copy, Debug, PartialEq, Eq, Structural)]
pub struct ConvShape {
    /// Input channels.
    pub c_in: usize,
    /// Output channels.
    pub c_out: usize,
    /// Input samples per channel.
    pub len: usize,
    /// Kernel length.
    pub kernel: usize,
    /// Stride.
    pub stride: usize,
}

impl ConvShape {
    /// Whether the dimensions agree with the lengths of the output, the input, the weights and
    /// the biases.
    pub open spec fn fits(self, output: nat, input: nat, weights: nat, biases: nat) -> bool {
        &&& self.stride >= 1
        &&& self.kernel <= self.len
        &&& self.c_in * self.len == input
        &&& self.c_out * crate::model::out_len(
            self.len as int,
            self.kernel as int,
            self.stride as int,
        ) == output
        &&& self.c_out * self.c_in * self.kernel == weights
        &&& self.c_out == biases
    }
}

/// The first convolution of a config: from the window to `x_c1`.
pub open spec fn first_shape(config: ModelConfig) -> ConvShape {
    ConvShape {
        c_in: N_AXES,
        c_out: config.c1,
        len: WINDOW_LEN,
        kernel: config.k1,
        stride: config.s1,
    }
}

/// The second convolution of a config: from `x_c1` to `x_c2`.
pub open spec fn second_shape(config: ModelConfig) -> ConvShape {
    ConvShape {
        c_in: config.c1,
        c_out: config.c2,
        len: config.len1() as usize,
        kernel: config.k2,
        stride: config.s2,
    }
}

/// The numeric kernels of the single-precision pass, over elements of type `T`.
pub struct Kernels<X, C, R, P, G, M, A, S> {
    /// A raw reading as an element.
    pub reading: X,
    /// Convolve the input with the weights, add the biases, and fill the output.
    pub conv1d: C,
    /// Clamp a buffer to non-negative values.
    pub relu: R,
    /// Average each channel of the input into the head of the output.
    pub pool: P,
    /// A feature as an element.
    pub feature: G,
    /// Multiply the input by a matrix, given its columns and rows.
    pub matmul: M,
    /// Add the biases.
    pub add_bias: A,
    /// Normalize to probabilities.
    pub softmax: S,
}

/// Whether `after` is a conv output buffer, `before` until then, once the kernel has run.
pub open spec fn conv_gives<'buf, T: 'buf, C>(
    conv1d: C,
    before: Seq<T>,
    input: Seq<T>,
    weights: &[F32Bits],
    biases: &[F32Bits],
    shape: ConvShape,
    after: Seq<T>,
) -> bool where
    C: Fn(&'buf mut [T], &[T], &[F32Bits], &[F32Bits], ConvShape) -> &'buf mut [T],
 {
    exists|o: &'buf mut [T], x: &[T], r: &'buf mut [T]|
        #![trigger conv1d.ensures((o, x, weights, biases, shape), r)]
        o@ == before && x@ == input && r@ == after && conv1d.ensures(
            (o, x, weights, biases, shape),
            r,
        )
}

/// Whether `after` is a buffer, `before` until then, once the rectifier has run.
pub open spec fn relu_gives<'buf, T: 'buf, R: Fn(&'buf mut [T]) -> &'buf mut [T]>(
    relu: R,
    before: Seq<T>,
    after: Seq<T>,
) -> bool {
    exists|o: &'buf mut [T], r: &'buf mut [T]|
        o@ == before && r@ == after && #[trigger] relu.ensures((o,), r)
}

/// Whether `after` is the dense input, `before` until then, once the pool has run.
pub open spec fn pool_gives<'buf, T: 'buf, P>(
    pool: P,
    before: Seq<T>,
    input: Seq<T>,
    channels: usize,
    len: usize,
    after: Seq<T>,
) -> bool where P: Fn(&'buf mut [T], &[T], usize, usize) -> &'buf mut [T] {
    exists|o: &'buf mut [T], x: &[T], r: &'buf mut [T]|
        #![trigger pool.ensures((o, x, channels, len), r)]
        o@ == before && x@ == input && r@ == after && pool.ensures((o, x, channels, len), r)
}

/// Whether `out` is the product of the dense input and a matrix.
pub open spec fn matmul_gives<T, M>(
    matmul: M,
    input: Seq<T>,
    weights: &[F32Bits],
    cols: usize,
    rows: usize,
    out: [F32Bits; N_CLASSES],
) -> bool where M: Fn(&[T], &[F32Bits], usize, usize) -> [F32Bits; N_CLASSES] {
    exists|x: &[T]| x@ == input && #[trigger] matmul.ensures((x, weights, cols, rows), out)
}

/// Whether the input buffer holds a window channel by channel.
pub open spec fn loaded<T, X: Fn(i16) -> T>(reading: X, window: Seq<Sample>, x: Seq<T>) -> bool {
    forall|channel: int, t: int|
        0 <= channel < N_AXES && 0 <= t < WINDOW_LEN ==> reading.ensures(
            (window[t][channel],),
            #[trigger] x[crate::state::slot(channel, t)],
        )
}

/// Whether the dense input holds the features behind its first `at` elements.
pub open spec fn appended<T, G: Fn(F32Bits) -> T>(
    feature: G,
    features: Seq<F32Bits>,
    fc_in: Seq<T>,
    at: int,
) -> bool {
    forall|i: int|
        at <= i < at + FEATURE_LEN ==> feature.ensures((features[i - at],), #[trigger] fc_in[i])
}

/// What a single-precision pass computes on the way and does not leave in its buffers.
pub struct Steps<T> {
    /// The conv1 output before it is rectified.
    pub conv1: Seq<T>,
    /// The conv2 output before it is rectified.
    pub conv2: Seq<T>,
    /// The dense input before the features are appended.
    pub pooled: Seq<T>,
    /// The dense output before the biases are added.
    pub product: [F32Bits; N_CLASSES],
    /// The dense output before it is normalized.
    pub logits: [F32Bits; N_CLASSES],
}

impl<X, C, R, P, G, M, A, S> Kernels<X, C, R, P, G, M, A, S> {
    /// Whether the kernels accept every call whose dimensions agree with the buffers and the
    /// tensors, and hand back a buffer of the length they were given.
    pub open spec fn usable<'buf, T: 'buf>(&self) -> bool where
        X: Fn(i16) -> T,
        C: Fn(&'buf mut [T], &[T], &[F32Bits], &[F32Bits], ConvShape) -> &'buf mut [T],
        R: Fn(&'buf mut [T]) -> &'buf mut [T],
        P: Fn(&'buf mut [T], &[T], usize, usize) -> &'buf mut [T],
        G: Fn(F32Bits) -> T,
        M: Fn(&[T], &[F32Bits], usize, usize) -> [F32Bits; N_CLASSES],
        A: Fn([F32Bits; N_CLASSES], &[F32Bits]) -> [F32Bits; N_CLASSES],
        S: Fn([F32Bits; N_CLASSES]) -> [F32Bits; N_CLASSES],
     {
        &&& forall|v: i16| #[trigger] self.reading.requires((v,))
        &&& forall|o: &'buf mut [T], x: &[T], w: &[F32Bits], b: &[F32Bits], s: ConvShape|
            s.fits(o@.len(), x@.len(), w@.len(), b@.len()) ==> #[trigger] self.conv1d.requires(
                (o, x, w, b, s),
            )
        &&& forall|
            o: &'buf mut [T],
            x: &[T],
            w: &[F32Bits],
            b: &[F32Bits],
            s: ConvShape,
            r: &'buf mut [T],
        | #[trigger]
            self.conv1d.ensures((o, x, w, b, s), r) ==> r@.len() == o@.len()
        &&& forall|o: &'buf mut [T]| #[trigger] self.relu.requires((o,))
        &&& forall|o: &'buf mut [T], r: &'buf mut [T]| #[trigger]
            self.relu.ensures((o,), r) ==> r@.len() == o@.len()
        &&& forall|o: &'buf mut [T], x: &[T], channels: usize, len: usize|
            channels <= o@.len() && channels * len == x@.len() && len >= 1
                ==> #[trigger] self.pool.requires((o, x, channels, len))
        &&& forall|
            o: &'buf mut [T],
            x: &[T],
            channels: usize,
            len: usize,
            r: &'buf mut [T],
        | #[trigger]
            self.pool.ensures((o, x, channels, len), r) ==> r@.len() == o@.len()
        &&& forall|v: F32Bits| #[trigger] self.feature.requires((v,))
        &&& forall|x: &[T], w: &[F32Bits], cols: usize, rows: usize|
            x@.len() == cols && rows == N_CLASSES && w@.len() == rows * cols
                ==> #[trigger] self.matmul.requires((x, w, cols, rows))
        &&& forall|v: [F32Bits; N_CLASSES], b: &[F32Bits]|
            b@.len() == N_CLASSES ==> #[trigger] self.add_bias.requires((v, b))
        &&& forall|v: [F32Bits; N_CLASSES]| #[trigger] self.softmax.requires((v,))
    }

    /// Whether the kernels are functions of their inputs: what an output buffer held before
    /// does not matter, nor does anything outside the call.
    pub open spec fn functional<'buf, T: 'buf>(&self) -> bool where
        X: Fn(i16) -> T,
        C: Fn(&'buf mut [T], &[T], &[F32Bits], &[F32Bits], ConvShape) -> &'buf mut [T],
        R: Fn(&'buf mut [T]) -> &'buf mut [T],
        P: Fn(&'buf mut [T], &[T], usize, usize) -> &'buf mut [T],
        G: Fn(F32Bits) -> T,
        M: Fn(&[T], &[F32Bits], usize, usize) -> [F32Bits; N_CLASSES],
        A: Fn([F32Bits; N_CLASSES], &[F32Bits]) -> [F32Bits; N_CLASSES],
        S: Fn([F32Bits; N_CLASSES]) -> [F32Bits; N_CLASSES],
     {
        &&& forall|v: i16, a: T, b: T| #[trigger]
            self.reading.ensures((v,), a) && #[trigger] self.reading.ensures((v,), b) ==> a == b
        &&& forall|
            o: Seq<T>,
            p: Seq<T>,
            x: Seq<T>,
            w: &[F32Bits],
            b: &[F32Bits],
            s: ConvShape,
            r: Seq<T>,
            q: Seq<T>,
        |
            o.len() == p.len() && #[trigger] conv_gives(self.conv1d, o, x, w, b, s, r)
                && #[trigger] conv_gives(self.conv1d, p, x, w, b, s, q) ==> r == q
        &&& forall|o: Seq<T>, r: Seq<T>, q: Seq<T>| #[trigger]
            relu_gives(self.relu, o, r) && #[trigger] relu_gives(self.relu, o, q) ==> r == q
        &&& forall|
            o: Seq<T>,
            p: Seq<T>,
            x: Seq<T>,
            channels: usize,
            len: usize,
            r: Seq<T>,
            q: Seq<T>,
        |
            o.len() == p.len() && #[trigger] pool_gives(self.pool, o, x, channels, len, r)
                && #[trigger] pool_gives(self.pool, p, x, channels, len, q) ==> r.take(
                channels as int,
            ) == q.take(channels as int)
        &&& forall|v: F32Bits, a: T, b: T| #[trigger]
            self.feature.ensures((v,), a) && #[trigger] self.feature.ensures((v,), b) ==> a == b
        &&& forall|
            x: Seq<T>,
            w: &[F32Bits],
            cols: usize,
            rows: usize,
            r: [F32Bits; N_CLASSES],
            q: [F32Bits; N_CLASSES],
        | #[trigger]
            matmul_gives(self.matmul, x, w, cols, rows, r) && #[trigger] matmul_gives(
                self.matmul,
                x,
                w,
                cols,
                rows,
                q,
            ) ==> r == q
        &&& forall|
            v: [F32Bits; N_CLASSES],
            b: &[F32Bits],
            r: [F32Bits; N_CLASSES],
            q: [F32Bits; N_CLASSES],
        | #[trigger]
            self.add_bias.ensures((v, b), r) && #[trigger] self.add_bias.ensures((v, b), q) ==> r
                == q
        &&& forall|v: [F32Bits; N_CLASSES], r: [F32Bits; N_CLASSES], q: [F32Bits; N_CLASSES]| #[trigger]
            self.softmax.ensures((v,), r) && #[trigger] self.softmax.ensures((v,), q) ==> r == q
    }

    /// Whether a pass over these buffers takes these steps and ends in these buffers and
    /// probabilities.
    pub open spec fn steps<'buf, 'w, T: 'buf>(
        &self,
        config: ModelConfig,
        weights: Weights<'w>,
        window: Seq<Sample>,
        features: Seq<F32Bits>,
        before: Buffers<T>,
        mid: Steps<T>,
        after: Buffers<T>,
        probs: [F32Bits; N_CLASSES],
    ) -> bool where
        X: Fn(i16) -> T,
        C: Fn(&'buf mut [T], &[T], &[F32Bits], &[F32Bits], ConvShape) -> &'buf mut [T],
        R: Fn(&'buf mut [T]) -> &'buf mut [T],
        P: Fn(&'buf mut [T], &[T], usize, usize) -> &'buf mut [T],
        G: Fn(F32Bits) -> T,
        M: Fn(&[T], &[F32Bits], usize, usize) -> [F32Bits; N_CLASSES],
        A: Fn([F32Bits; N_CLASSES], &[F32Bits]) -> [F32Bits; N_CLASSES],
        S: Fn([F32Bits; N_CLASSES]) -> [F32Bits; N_CLASSES],
     {
        &&& loaded(self.reading, window, after.x)
        &&& conv_gives(
            self.conv1d,
            before.x_c1,
            after.x,
            weights.conv1_w,
            weights.conv1_b,
            first_shape(config),
            mid.conv1,
        )
        &&& relu_gives(self.relu, mid.conv1, after.x_c1)
        &&& conv_gives(
            self.conv1d,
            before.x_c2,
            after.x_c1,
            weights.conv2_w,
            weights.conv2_b,
            second_shape(config),
            mid.conv2,
        )
        &&& relu_gives(self.relu, mid.conv2, after.x_c2)
        &&& pool_gives(
            self.pool,
            before.fc_in,
            after.x_c2,
            config.c2,
            config.len2() as usize,
            mid.pooled,
        )
        &&& after.fc_in.take(config.c2 as int) == mid.pooled.take(config.c2 as int)
        &&& appended(self.feature, features, after.fc_in, config.c2 as int)
        &&& matmul_gives(
            self.matmul,
            after.fc_in,
            weights.fc_w,
            config.fc_in_len() as usize,
            N_CLASSES,
            mid.product,
        )
        &&& self.add_bias.ensures((mid.product, weights.fc_b), mid.logits)
        &&& self.softmax.ensures((mid.logits,), probs)
    }

    /// Whether a pass over these buffers can end in these buffers and probabilities.
    pub open spec fn runs<'buf, 'w, T: 'buf>(
        &self,
        config: ModelConfig,
        weights: Weights<'w>,
        window: Seq<Sample>,
        features: Seq<F32Bits>,
        before: Buffers<T>,
        after: Buffers<T>,
        probs: [F32Bits; N_CLASSES],
    ) -> bool where
        X: Fn(i16) -> T,
        C: Fn(&'buf mut [T], &[T], &[F32Bits], &[F32Bits], ConvShape) -> &'buf mut [T],
        R: Fn(&'buf mut [T]) -> &'buf mut [T],
        P: Fn(&'buf mut [T], &[T], usize, usize) -> &'buf mut [T],
        G: Fn(F32Bits) -> T,
        M: Fn(&[T], &[F32Bits], usize, usize) -> [F32Bits; N_CLASSES],
        A: Fn([F32Bits; N_CLASSES], &[F32Bits]) -> [F32Bits; N_CLASSES],
        S: Fn([F32Bits; N_CLASSES]) -> [F32Bits; N_CLASSES],
     {
        exists|mid: Steps<T>| #[trigger]
            self.steps(config, weights, window, features, before, mid, after, probs)
    }
}

/// Take a buffer out of its place, which is left empty.
fn take<'buf, T>(place: &mut &'buf mut [T]) -> (buffer: &'buf mut [T])
    ensures
        buffer@ == old(place)@,
{
    let mut buffer: &'buf mut [T] = &mut [];
    core::mem::swap(&mut buffer, place);
    buffer
}

/// Run the single-precision forward pass: classify a window and its features into the class
/// probabilities.
///
/// It touches no memory beyond the buffers of `state`, so it allocates nothing.
pub fn forward<'buf, T, X, C, R, P, G, M, A, S>(
    config: &ModelConfig,
    weights: &Weights,
    state: &mut RunState<'buf, T>,
    window: &[Sample; WINDOW_LEN],
    features: &[F32Bits; FEATURE_LEN],
    kernels: &Kernels<X, C, R, P, G, M, A, S>,
) -> (probs: [F32Bits; N_CLASSES]) where
    T: 'buf,
    X: Fn(i16) -> T,
    C: Fn(&'buf mut [T], &[T], &[F32Bits], &[F32Bits], ConvShape) -> &'buf mut [T],
    R: Fn(&'buf mut [T]) -> &'buf mut [T],
    P: Fn(&'buf mut [T], &[T], usize, usize) -> &'buf mut [T],
    G: Fn(F32Bits) -> T,
    M: Fn(&[T], &[F32Bits], usize, usize) -> [F32Bits; N_CLASSES],
    A: Fn([F32Bits; N_CLASSES], &[F32Bits]) -> [F32Bits; N_CLASSES],
    S: Fn([F32Bits; N_CLASSES]) -> [F32Bits; N_CLASSES],

    requires
        config.convolves(),
        old(state).shaped(*config),
        weights.shaped(*config),
        kernels.usable(),
    ensures
        final(state).shaped(*config),
        kernels.runs(*config, *weights, window@, features@, old(state)@, final(state)@, probs),
{
    proof {
        config.lemma_products();
        config.lemma_lengths();
    }
    let ghost before = state@;
    state.x_from_window(window, &kernels.reading);

    // conv1, then relu
    let first = ConvShape {
        c_in: N_AXES,
        c_out: config.c1,
        len: WINDOW_LEN,
        kernel: config.k1,
        stride: config.s1,
    };
    let out: &'buf mut [T] = take(&mut state.x_c1);
    let out: &'buf mut [T] = (kernels.conv1d)(
        out,
        &*state.x,
        weights.conv1_w,
        weights.conv1_b,
        first,
    );
    let ghost conv1 = out@;
    state.x_c1 = (kernels.relu)(out);

    // conv2, then relu
    let second = ConvShape {
        c_in: config.c1,
        c_out: config.c2,
        len: config.l1(),
        kernel: config.k2,
        stride: config.s2,
    };
    let out: &'buf mut [T] = take(&mut state.x_c2);
    let out: &'buf mut [T] = (kernels.conv1d)(
        out,
        &*state.x_c1,
        weights.conv2_w,
        weights.conv2_b,
        second,
    );
    let ghost conv2 = out@;
    state.x_c2 = (kernels.relu)(out);

    // global average pool, with the features behind it
    let out: &'buf mut [T] = take(&mut state.fc_in);
    state.fc_in = (kernels.pool)(out, &*state.x_c2, config.c2, config.l2());
    let ghost pooled = state.fc_in@;
    state.append_features(config.c2, features, &kernels.feature);

    // dense and bias, then softmax
    let cols: usize = state.fc_in.len();
    let product: [F32Bits; N_CLASSES] = (kernels.matmul)(
        &*state.fc_in,
        weights.fc_w,
        cols,
        N_CLASSES,
    );
    let logits: [F32Bits; N_CLASSES] = (kernels.add_bias)(product, weights.fc_b);
    let probs: [F32Bits; N_CLASSES] = (kernels.softmax)(logits);
    proof {
        assert(state@.fc_in.take(config.c2 as int) =~= pooled.take(config.c2 as int));
        let mid = Steps { conv1, conv2, pooled, product, logits };
        assert(kernels.steps(
            *config,
            *weights,
            window@,
            features@,
            before,
            mid,
            state@,
            probs,
        ));
    }
    probs
}

/// A clamped rounded quotient.
pub open spec fn clamped(rounded: i32) -> int {
    if rounded < -127 {
        -127
    } else if rounded > 127 {
        127
    } else {
        rounded as int
    }
}

/// Whether `q` is a value quantized at a scale: its rounded quotient clamped to `[-127, 127]`,
/// or zero where the scale is zero.
pub open spec fn quantize_gives<Q: Fn(F32Bits, F32Bits) -> i32>(
    quotient: Q,
    v: F32Bits,
    scale: F32Bits,
    q: i8,
) -> bool {
    if crate::float32::is_zero(scale) {
        q == 0
    } else {
        exists|rounded: i32| #[trigger]
            quotient.ensures((v, scale), rounded) && q == clamped(rounded)
    }
}

/// Symmetric int8 quantization of one value at a fixed scale: the rounded quotient, clamped to
/// `[-127, 127]`, or `0` if the scale is zero. `quotient` rounds `v / scale` to the nearest
/// integer. Used only at the two input boundaries, the window and the features.
pub fn quantize_to_i8<Q: Fn(F32Bits, F32Bits) -> i32>(
    v: F32Bits,
    scale: F32Bits,
    quotient: &Q,
) -> (q: i8)
    requires
        quotient.requires((v, scale)),
    ensures
        quantize_gives(*quotient, v, scale, q),
        -127 <= q <= 127,
{
    if zero(scale) {
        0
    } else {
        let rounded: i32 = quotient(v, scale);
        if rounded > 127 {
            127
        } else if rounded < -127 {
            -127
        } else {
            rounded as i8
        }
    }
}

/// What an int8 convolution works with.
#[derive(Clone, Copy, Debug)]
pub struct ConvQ8Weights<'w> {
    /// Weights.
    pub weights: &'w [i8],
    /// Biases, one per output channel.
    pub bias: &'w [i32],
    /// Requantization multipliers, one per output channel.
    pub mult: &'w [i32],
    /// Requantization shifts, one per output channel.
    pub shift: &'w [i32],
}

/// The range that an int8 kernel clamps its output to.
#[derive(Clone, Copy, Debug, PartialEq, Eq, Structural)]
pub struct OutRange {
    /// Least output value.
    pub min: i8,
    /// Greatest output value.
    pub max: i8,
}

/// The dimensions of the int8 pool and how it requantizes.
#[derive(Clone, Copy, Debug, PartialEq, Eq, Structural)]
pub struct PoolQ8 {
    /// Channels.
    pub channels: usize,
    /// Samples per channel.
    pub len: usize,
    /// Requantization multiplier.
    pub mult: i32,
    /// Requantization shift.
    pub shift: i32,
}

impl<'w> ConvQ8Weights<'w> {
    /// Whether the tensors and the buffers have the lengths that the dimensions give them.
    pub open spec fn fits(self, shape: ConvShape, output: nat, input: nat) -> bool {
        &&& shape.fits(output, input, self.weights@.len(), self.bias@.len())
        &&& self.mult@.len() == shape.c_out
        &&& self.shift@.len() == shape.c_out
    }
}

/// The range of an int8 convolution: the rectifier is folded into its lower end.
pub open spec fn rectified() -> OutRange {
    OutRange { min: 0, max: 127 }
}

/// The range of the int8 pool.
pub open spec fn symmetric() -> OutRange {
    OutRange { min: (-127) as i8, max: 127 }
}

/// The numeric kernels of the integer-only pass. Real values, as bit patterns, occur in the
/// boundary functions alone: `level`, `quotient`, `rescale` and `softmax`.
pub struct KernelsQ8<V, Q, C, P, M, Z, S> {
    /// A raw reading as a real value.
    pub level: V,
    /// The rounded quotient of a value and a scale.
    pub quotient: Q,
    /// Convolve, requantize, clamp, and fill the output.
    pub conv1d: C,
    /// Average each channel of the input into the head of the output, requantize, and clamp.
    pub pool: P,
    /// Multiply the input by a matrix, given its columns and rows.
    pub matmul: M,
    /// An integer output times its scale, plus its bias.
    pub rescale: Z,
    /// Normalize to probabilities.
    pub softmax: S,
}

/// Whether `q` is a raw reading quantized at a scale.
pub open spec fn reading_gives<V, Q>(
    level: V,
    quotient: Q,
    scale: F32Bits,
    reading: i16,
    q: i8,
) -> bool where V: Fn(i16) -> F32Bits, Q: Fn(F32Bits, F32Bits) -> i32 {
    exists|v: F32Bits| #[trigger]
        level.ensures((reading,), v) && quantize_gives(quotient, v, scale, q)
}

/// Whether `after` is a conv output buffer, `before` until then, once the int8 kernel has run.
pub open spec fn conv_q8_gives<'buf, 'w, C>(
    conv1d: C,
    before: Seq<i8>,
    input: Seq<i8>,
    tensors: ConvQ8Weights<'w>,
    range: OutRange,
    shape: ConvShape,
    after: Seq<i8>,
) -> bool where
    C: Fn(&'buf mut [i8], &[i8], ConvQ8Weights<'w>, OutRange, ConvShape) -> &'buf mut [i8],
 {
    exists|o: &'buf mut [i8], x: &[i8], r: &'buf mut [i8]|
        #![trigger conv1d.ensures((o, x, tensors, range, shape), r)]
        o@ == before && x@ == input && r@ == after && conv1d.ensures(
            (o, x, tensors, range, shape),
            r,
        )
}

/// Whether `after` is the dense input, `before` until then, once the int8 pool has run.
pub open spec fn pool_q8_gives<'buf, P>(
    pool: P,
    before: Seq<i8>,
    input: Seq<i8>,
    shape: PoolQ8,
    range: OutRange,
    after: Seq<i8>,
) -> bool where P: Fn(&'buf mut [i8], &[i8], PoolQ8, OutRange) -> &'buf mut [i8] {
    exists|o: &'buf mut [i8], x: &[i8], r: &'buf mut [i8]|
        #![trigger pool.ensures((o, x, shape, range), r)]
        o@ == before && x@ == input && r@ == after && pool.ensures((o, x, shape, range), r)
}

/// Whether `out` is the integer product of the dense input and a matrix.
pub open spec fn matmul_q8_gives<M>(
    matmul: M,
    input: Seq<i8>,
    weights: &[i8],
    cols: usize,
    rows: usize,
    out: [i32; N_CLASSES],
) -> bool where M: Fn(&[i8], &[i8], usize, usize) -> [i32; N_CLASSES] {
    exists|x: &[i8]| x@ == input && #[trigger] matmul.ensures((x, weights, cols, rows), out)
}

/// The tensors of the first convolution.
pub open spec fn first_tensors<'w>(weights: QuantizedWeights<'w>) -> ConvQ8Weights<'w> {
    ConvQ8Weights {
        weights: weights.conv1_w,
        bias: weights.conv1_bias,
        mult: weights.conv1_mult,
        shift: weights.conv1_shift,
    }
}

/// The tensors of the second convolution.
pub open spec fn second_tensors<'w>(weights: QuantizedWeights<'w>) -> ConvQ8Weights<'w> {
    ConvQ8Weights {
        weights: weights.conv2_w,
        bias: weights.conv2_bias,
        mult: weights.conv2_mult,
        shift: weights.conv2_shift,
    }
}

/// The pool of a config.
pub open spec fn pool_shape<'w>(config: ModelConfig, weights: QuantizedWeights<'w>) -> PoolQ8 {
    PoolQ8 {
        channels: config.c2,
        len: config.len2() as usize,
        mult: weights.pool_mult,
        shift: weights.pool_shift,
    }
}

/// What an integer-only pass computes on the way and does not leave in its buffers.
pub struct StepsQ8 {
    /// The dense input before the features are appended.
    pub pooled: Seq<i8>,
    /// The integer outputs.
    pub product: [i32; N_CLASSES],
    /// The outputs before they are normalized.
    pub logits: [F32Bits; N_CLASSES],
}

impl<V, Q, C, P, M, Z, S> KernelsQ8<V, Q, C, P, M, Z, S> {
    /// Whether the kernels accept every call whose dimensions agree with the buffers and the
    /// tensors, and hand back a buffer of the length they were given.
    pub open spec fn usable<'buf, 'w>(&self) -> bool where
        V: Fn(i16) -> F32Bits,
        Q: Fn(F32Bits, F32Bits) -> i32,
        C: Fn(&'buf mut [i8], &[i8], ConvQ8Weights<'w>, OutRange, ConvShape) -> &'buf mut [i8],
        P: Fn(&'buf mut [i8], &[i8], PoolQ8, OutRange) -> &'buf mut [i8],
        M: Fn(&[i8], &[i8], usize, usize) -> [i32; N_CLASSES],
        Z: Fn(i32, F32Bits, F32Bits) -> F32Bits,
        S: Fn([F32Bits; N_CLASSES]) -> [F32Bits; N_CLASSES],
     {
        &&& forall|v: i16| #[trigger] self.level.requires((v,))
        &&& forall|v: F32Bits, scale: F32Bits| #[trigger] self.quotient.requires((v, scale))
        &&& forall|o: &'buf mut [i8], x: &[i8], t: ConvQ8Weights<'w>, g: OutRange, s: ConvShape|
            t.fits(s, o@.len(), x@.len()) ==> #[trigger] self.conv1d.requires((o, x, t, g, s))
        &&& forall|
            o: &'buf mut [i8],
            x: &[i8],
            t: ConvQ8Weights<'w>,
            g: OutRange,
            s: ConvShape,
            r: &'buf mut [i8],
        | #[trigger]
            self.conv1d.ensures((o, x, t, g, s), r) ==> r@.len() == o@.len()
        &&& forall|o: &'buf mut [i8], x: &[i8], s: PoolQ8, g: OutRange|
            s.channels <= o@.len() && s.channels * s.len == x@.len() && s.len >= 1
                ==> #[trigger] self.pool.requires((o, x, s, g))
        &&& forall|o: &'buf mut [i8], x: &[i8], s: PoolQ8, g: OutRange, r: &'buf mut [i8]| #[trigger]
            self.pool.ensures((o, x, s, g), r) ==> r@.len() == o@.len()
        &&& forall|x: &[i8], w: &[i8], cols: usize, rows: usize|
            x@.len() == cols && rows == N_CLASSES && w@.len() == rows * cols
                ==> #[trigger] self.matmul.requires((x, w, cols, rows))
        &&& forall|v: i32, scale: F32Bits, bias: F32Bits| #[trigger]
            self.rescale.requires((v, scale, bias))
        &&& forall|v: [F32Bits; N_CLASSES]| #[trigger] self.softmax.requires((v,))
    }

    /// Whether the kernels are functions of their inputs: what an output buffer held before
    /// does not matter, nor does anything outside the call.
    pub open spec fn functional<'buf, 'w>(&self) -> bool where
        V: Fn(i16) -> F32Bits,
        Q: Fn(F32Bits, F32Bits) -> i32,
        C: Fn(&'buf mut [i8], &[i8], ConvQ8Weights<'w>, OutRange, ConvShape) -> &'buf mut [i8],
        P: Fn(&'buf mut [i8], &[i8], PoolQ8, OutRange) -> &'buf mut [i8],
        M: Fn(&[i8], &[i8], usize, usize) -> [i32; N_CLASSES],
        Z: Fn(i32, F32Bits, F32Bits) -> F32Bits,
        S: Fn([F32Bits; N_CLASSES]) -> [F32Bits; N_CLASSES],
     {
        &&& forall|v: i16, a: F32Bits, b: F32Bits| #[trigger]
            self.level.ensures((v,), a) && #[trigger] self.level.ensures((v,), b) ==> a == b
        &&& forall|v: F32Bits, scale: F32Bits, a: i32, b: i32| #[trigger]
            self.quotient.ensures((v, scale), a) && #[trigger] self.quotient.ensures((v, scale), b)
                ==> a == b
        &&& forall|
            o: Seq<i8>,
            p: Seq<i8>,
            x: Seq<i8>,
            t: ConvQ8Weights<'w>,
            g: OutRange,
            s: ConvShape,
            r: Seq<i8>,
            q: Seq<i8>,
        |
            o.len() == p.len() && #[trigger] conv_q8_gives(self.conv1d, o, x, t, g, s, r)
                && #[trigger] conv_q8_gives(self.conv1d, p, x, t, g, s, q) ==> r == q
        &&& forall|
            o: Seq<i8>,
            p: Seq<i8>,
            x: Seq<i8>,
            s: PoolQ8,
            g: OutRange,
            r: Seq<i8>,
            q: Seq<i8>,
        |
            o.len() == p.len() && #[trigger] pool_q8_gives(self.pool, o, x, s, g, r)
                && #[trigger] pool_q8_gives(self.pool, p, x, s, g, q) ==> r.take(
                s.channels as int,
            ) == q.take(s.channels as int)
        &&& forall|
            x: Seq<i8>,
            w: &[i8],
            cols: usize,
            rows: usize,
            r: [i32; N_CLASSES],
            q: [i32; N_CLASSES],
        | #[trigger]
            matmul_q8_gives(self.matmul, x, w, cols, rows, r) && #[trigger] matmul_q8_gives(
                self.matmul,
                x,
                w,
                cols,
                rows,
                q,
            ) ==> r == q
        &&& forall|v: i32, scale: F32Bits, bias: F32Bits, r: F32Bits, q: F32Bits| #[trigger]
            self.rescale.ensures((v, scale, bias), r) && #[trigger] self.rescale.ensures(
                (v, scale, bias),
                q,
            ) ==> r == q
        &&& forall|v: [F32Bits; N_CLASSES], r: [F32Bits; N_CLASSES], q: [F32Bits; N_CLASSES]| #[trigger]
            self.softmax.ensures((v,), r) && #[trigger] self.softmax.ensures((v,), q) ==> r == q
    }

    /// Whether a pass over these buffers takes these steps and ends in these buffers and
    /// probabilities.
    pub open spec fn steps<'buf, 'w>(
        &self,
        config: ModelConfig,
        weights: QuantizedWeights<'w>,
        window: Seq<Sample>,
        features: Seq<F32Bits>,
        before: Buffers<i8>,
        mid: StepsQ8,
        after: Buffers<i8>,
        probs: [F32Bits; N_CLASSES],
    ) -> bool where
        V: Fn(i16) -> F32Bits,
        Q: Fn(F32Bits, F32Bits) -> i32,
        C: Fn(&'buf mut [i8], &[i8], ConvQ8Weights<'w>, OutRange, ConvShape) -> &'buf mut [i8],
        P: Fn(&'buf mut [i8], &[i8], PoolQ8, OutRange) -> &'buf mut [i8],
        M: Fn(&[i8], &[i8], usize, usize) -> [i32; N_CLASSES],
        Z: Fn(i32, F32Bits, F32Bits) -> F32Bits,
        S: Fn([F32Bits; N_CLASSES]) -> [F32Bits; N_CLASSES],
     {
        &&& forall|channel: int, t: int|
            0 <= channel < N_AXES && 0 <= t < WINDOW_LEN ==> reading_gives(
                self.level,
                self.quotient,
                weights.s_in0,
                window[t][channel],
                #[trigger] after.x[crate::state::slot(channel, t)],
            )
        &&& conv_q8_gives(
            self.conv1d,
            before.x_c1,
            after.x,
            first_tensors(weights),
            rectified(),
            first_shape(config),
            after.x_c1,
        )
        &&& conv_q8_gives(
            self.conv1d,
            before.x_c2,
            after.x_c1,
            second_tensors(weights),
            rectified(),
            second_shape(config),
            after.x_c2,
        )
        &&& pool_q8_gives(
            self.pool,
            before.fc_in,
            after.x_c2,
            pool_shape(config, weights),
            symmetric(),
            mid.pooled,
        )
        &&& after.fc_in.take(config.c2 as int) == mid.pooled.take(config.c2 as int)
        &&& forall|i: int|
            config.c2 <= i < config.c2 + FEATURE_LEN ==> quantize_gives(
                self.quotient,
                features[i - config.c2],
                weights.s_fc_in,
                #[trigger] after.fc_in[i],
            )
        &&& matmul_q8_gives(
            self.matmul,
            after.fc_in,
            weights.fc_w,
            config.fc_in_len() as usize,
            N_CLASSES,
            mid.product,
        )
        &&& forall|o: int|
            0 <= o < N_CLASSES ==> self.rescale.ensures(
                (mid.product[o], weights.fc_out_scale[o], weights.fc_bias[o]),
                #[trigger] mid.logits[o],
            )
        &&& self.softmax.ensures((mid.logits,), probs)
    }

    /// Whether a pass over these buffers can end in these buffers and probabilities.
    pub open spec fn runs<'buf, 'w>(
        &self,
        config: ModelConfig,
        weights: QuantizedWeights<'w>,
        window: Seq<Sample>,
        features: Seq<F32Bits>,
        before: Buffers<i8>,
        after: Buffers<i8>,
        probs: [F32Bits; N_CLASSES],
    ) -> bool where
        V: Fn(i16) -> F32Bits,
        Q: Fn(F32Bits, F32Bits) -> i32,
        C: Fn(&'buf mut [i8], &[i8], ConvQ8Weights<'w>, OutRange, ConvShape) -> &'buf mut [i8],
        P: Fn(&'buf mut [i8], &[i8], PoolQ8, OutRange) -> &'buf mut [i8],
        M: Fn(&[i8], &[i8], usize, usize) -> [i32; N_CLASSES],
        Z: Fn(i32, F32Bits, F32Bits) -> F32Bits,
        S: Fn([F32Bits; N_CLASSES]) -> [F32Bits; N_CLASSES],
     {
        exists|mid: StepsQ8| #[trigger]
            self.steps(config, weights, window, features, before, mid, after, probs)
    }
}

/// Run the integer-only forward pass, the quantized twin of [`forward`].
///
/// The window and the features are quantized at fixed scales, both convolutions and the pool
/// stay in integers, and the dense outputs are rescaled for the closing softmax. It touches no
/// memory beyond the buffers of `state`, so it allocates nothing.
pub fn forward_q8<'buf, 'w, V, Q, C, P, M, Z, S>(
    config: &ModelConfig,
    weights: &QuantizedWeights<'w>,
    state: &mut RunState<'buf, i8>,
    window: &[Sample; WINDOW_LEN],
    features: &[F32Bits; FEATURE_LEN],
    kernels: &KernelsQ8<V, Q, C, P, M, Z, S>,
) -> (probs: [F32Bits; N_CLASSES]) where
    V: Fn(i16) -> F32Bits,
    Q: Fn(F32Bits, F32Bits) -> i32,
    C: Fn(&'buf mut [i8], &[i8], ConvQ8Weights<'w>, OutRange, ConvShape) -> &'buf mut [i8],
    P: Fn(&'buf mut [i8], &[i8], PoolQ8, OutRange) -> &'buf mut [i8],
    M: Fn(&[i8], &[i8], usize, usize) -> [i32; N_CLASSES],
    Z: Fn(i32, F32Bits, F32Bits) -> F32Bits,
    S: Fn([F32Bits; N_CLASSES]) -> [F32Bits; N_CLASSES],

    requires
        config.convolves(),
        old(state).shaped(*config),
        weights.shaped(*config),
        kernels.usable(),
    ensures
        final(state).shaped(*config),
        kernels.runs(*config, *weights, window@, features@, old(state)@, final(state)@, probs),
{
    proof {
        config.lemma_products();
        config.lemma_lengths();
    }
    let ghost before = state@;

    // de-interleave and quantize the window
    let s_in0: F32Bits = weights.s_in0;
    let reading = |v: i16| -> (q: i8)
        ensures
            reading_gives(kernels.level, kernels.quotient, s_in0, v, q),
        {
            let value: F32Bits = (kernels.level)(v);
            quantize_to_i8(value, s_in0, &kernels.quotient)
        };
    state.x_from_window(window, &reading);

    // conv1 and conv2, each with its rectifier folded in
    let rectified = OutRange { min: 0, max: 127 };
    let first = ConvShape {
        c_in: N_AXES,
        c_out: config.c1,
        len: WINDOW_LEN,
        kernel: config.k1,
        stride: config.s1,
    };
    let tensors = ConvQ8Weights {
        weights: weights.conv1_w,
        bias: weights.conv1_bias,
        mult: weights.conv1_mult,
        shift: weights.conv1_shift,
    };
    let out: &'buf mut [i8] = take(&mut state.x_c1);
    state.x_c1 = (kernels.conv1d)(out, &*state.x, tensors, rectified, first);

    let second = ConvShape {
        c_in: config.c1,
        c_out: config.c2,
        len: config.l1(),
        kernel: config.k2,
        stride: config.s2,
    };
    let tensors = ConvQ8Weights {
        weights: weights.conv2_w,
        bias: weights.conv2_bias,
        mult: weights.conv2_mult,
        shift: weights.conv2_shift,
    };
    let out: &'buf mut [i8] = take(&mut state.x_c2);
    state.x_c2 = (kernels.conv1d)(out, &*state.x_c1, tensors, rectified, second);

    // global average pool, with the quantized features behind it
    let shape = PoolQ8 {
        channels: config.c2,
        len: config.l2(),
        mult: weights.pool_mult,
        shift: weights.pool_shift,
    };
    let symmetric = OutRange { min: -127, max: 127 };
    let out: &'buf mut [i8] = take(&mut state.fc_in);
    state.fc_in = (kernels.pool)(out, &*state.x_c2, shape, symmetric);
    let ghost pooled = state.fc_in@;
    let s_fc_in: F32Bits = weights.s_fc_in;
    let feature = |v: F32Bits| -> (q: i8)
        ensures
            quantize_gives(kernels.quotient, v, s_fc_in, q),
        { quantize_to_i8(v, s_fc_in, &kernels.quotient) };
    state.append_features(config.c2, features, &feature);

    // dense, then rescale and bias per class, then softmax
    let cols: usize = state.fc_in.len();
    let product: [i32; N_CLASSES] = (kernels.matmul)(
        &*state.fc_in,
        weights.fc_w,
        cols,
        N_CLASSES,
    );
    let mut logits: [F32Bits; N_CLASSES] = [0; N_CLASSES];
    let mut o: usize = 0;
    while o < N_CLASSES
        invariant
            o <= N_CLASSES,
            weights.shaped(*config),
            kernels.usable(),
            forall|i: int|
                0 <= i < o ==> kernels.rescale.ensures(
                    (product[i], weights.fc_out_scale[i], weights.fc_bias[i]),
                    #[trigger] logits[i],
                ),
        decreases N_CLASSES - o,
    {
        logits[o] = (kernels.rescale)(product[o], weights.fc_out_scale[o], weights.fc_bias[o]);
        o += 1;
    }
    let probs: [F32Bits; N_CLASSES] = (kernels.softmax)(logits);
    proof {
        assert(state@.fc_in.take(config.c2 as int) =~= pooled.take(config.c2 as int));
        let mid = StepsQ8 { pooled, product, logits };
        assert(kernels.steps(
            *config,
            *weights,
            window@,
            features@,
            before,
            mid,
            state@,
            probs,
        ));
    }
    probs
}

/// A pass depends on the model, the window and the features alone: whatever an earlier pass
/// left in the buffers, it ends in the same buffers and the same probabilities.
pub proof fn law_forward_ignores_old_contents<'buf, 'w, T, X, C, R, P, G, M, A, S>(
    kernels: Kernels<X, C, R, P, G, M, A, S>,
    config: ModelConfig,
    weights: Weights<'w>,
    window: Seq<Sample>,
    features: Seq<F32Bits>,
    one: (Buffers<T>, Buffers<T>, [F32Bits; N_CLASSES]),
    two: (Buffers<T>, Buffers<T>, [F32Bits; N_CLASSES]),
) where
    T: 'buf,
    X: Fn(i16) -> T,
    C: Fn(&'buf mut [T], &[T], &[F32Bits], &[F32Bits], ConvShape) -> &'buf mut [T],
    R: Fn(&'buf mut [T]) -> &'buf mut [T],
    P: Fn(&'buf mut [T], &[T], usize, usize) -> &'buf mut [T],
    G: Fn(F32Bits) -> T,
    M: Fn(&[T], &[F32Bits], usize, usize) -> [F32Bits; N_CLASSES],
    A: Fn([F32Bits; N_CLASSES], &[F32Bits]) -> [F32Bits; N_CLASSES],
    S: Fn([F32Bits; N_CLASSES]) -> [F32Bits; N_CLASSES],

    requires
        kernels.functional(),
        one.0.shaped(config) && one.1.shaped(config),
        two.0.shaped(config) && two.1.shaped(config),
        kernels.runs(config, weights, window, features, one.0, one.1, one.2),
        kernels.runs(config, weights, window, features, two.0, two.1, two.2),
    ensures
        one.1 == two.1,
        one.2 == two.2,
{
    let m = choose|m: Steps<T>| #[trigger]
        kernels.steps(config, weights, window, features, one.0, m, one.1, one.2);
    let n = choose|n: Steps<T>| #[trigger]
        kernels.steps(config, weights, window, features, two.0, n, two.1, two.2);
    assert forall|i: int| 0 <= i < N_AXES * WINDOW_LEN implies one.1.x[i] == two.1.x[i] by {
        let channel = i / (WINDOW_LEN as int);
        let t = i % (WINDOW_LEN as int);
        assert(i == crate::state::slot(channel, t));
    }
    assert(one.1.x =~= two.1.x);
    assert(m.conv1 == n.conv1);
    assert(one.1.x_c1 == two.1.x_c1);
    assert(m.conv2 == n.conv2);
    assert(one.1.x_c2 == two.1.x_c2);
    assert(m.pooled.take(config.c2 as int) == n.pooled.take(config.c2 as int));
    assert forall|i: int| 0 <= i < config.fc_in_len() implies one.1.fc_in[i]
        == two.1.fc_in[i] by {
        if i < config.c2 {
            assert(one.1.fc_in[i] == one.1.fc_in.take(config.c2 as int)[i]);
            assert(two.1.fc_in[i] == two.1.fc_in.take(config.c2 as int)[i]);
        }
    }
    assert(one.1.fc_in =~= two.1.fc_in);
}

/// What holds of everything the rectifier hands back holds of both conv outputs after a pass.
pub proof fn law_conv_outputs_are_rectified<'buf, 'w, T, X, C, R, P, G, M, A, S>(
    kernels: Kernels<X, C, R, P, G, M, A, S>,
    config: ModelConfig,
    weights: Weights<'w>,
    window: Seq<Sample>,
    features: Seq<F32Bits>,
    before: Buffers<T>,
    after: Buffers<T>,
    probs: [F32Bits; N_CLASSES],
    holds: spec_fn(T) -> bool,
) where
    T: 'buf,
    X: Fn(i16) -> T,
    C: Fn(&'buf mut [T], &[T], &[F32Bits], &[F32Bits], ConvShape) -> &'buf mut [T],
    R: Fn(&'buf mut [T]) -> &'buf mut [T],
    P: Fn(&'buf mut [T], &[T], usize, usize) -> &'buf mut [T],
    G: Fn(F32Bits) -> T,
    M: Fn(&[T], &[F32Bits], usize, usize) -> [F32Bits; N_CLASSES],
    A: Fn([F32Bits; N_CLASSES], &[F32Bits]) -> [F32Bits; N_CLASSES],
    S: Fn([F32Bits; N_CLASSES]) -> [F32Bits; N_CLASSES],

    requires
        kernels.runs(config, weights, window, features, before, after, probs),
        forall|o: Seq<T>, r: Seq<T>, i: int|
            #![trigger relu_gives(kernels.relu, o, r), r[i]]
            relu_gives(kernels.relu, o, r) && 0 <= i < r.len() ==> holds(r[i]),
    ensures
        forall|i: int| 0 <= i < after.x_c1.len() ==> holds(#[trigger] after.x_c1[i]),
        forall|i: int| 0 <= i < after.x_c2.len() ==> holds(#[trigger] after.x_c2[i]),
{
}

/// An integer-only pass depends on the model, the window and the features alone: whatever an
/// earlier pass left in the buffers, it ends in the same buffers and the same probabilities.
pub proof fn law_forward_q8_ignores_old_contents<'buf, 'w, V, Q, C, P, M, Z, S>(
    kernels: KernelsQ8<V, Q, C, P, M, Z, S>,
    config: ModelConfig,
    weights: QuantizedWeights<'w>,
    window: Seq<Sample>,
    features: Seq<F32Bits>,
    one: (Buffers<i8>, Buffers<i8>, [F32Bits; N_CLASSES]),
    two: (Buffers<i8>, Buffers<i8>, [F32Bits; N_CLASSES]),
) where
    V: Fn(i16) -> F32Bits,
    Q: Fn(F32Bits, F32Bits) -> i32,
    C: Fn(&'buf mut [i8], &[i8], ConvQ8Weights<'w>, OutRange, ConvShape) -> &'buf mut [i8],
    P: Fn(&'buf mut [i8], &[i8], PoolQ8, OutRange) -> &'buf mut [i8],
    M: Fn(&[i8], &[i8], usize, usize) -> [i32; N_CLASSES],
    Z: Fn(i32, F32Bits, F32Bits) -> F32Bits,
    S: Fn([F32Bits; N_CLASSES]) -> [F32Bits; N_CLASSES],

    requires
        kernels.functional(),
        one.0.shaped(config) && one.1.shaped(config),
        two.0.shaped(config) && two.1.shaped(config),
        kernels.runs(config, weights, window, features, one.0, one.1, one.2),
        kernels.runs(config, weights, window, features, two.0, two.1, two.2),
    ensures
        one.1 == two.1,
        one.2 == two.2,
{
    let m = choose|m: StepsQ8| #[trigger]
        kernels.steps(config, weights, window, features, one.0, m, one.1, one.2);
    let n = choose|n: StepsQ8| #[trigger]
        kernels.steps(config, weights, window, features, two.0, n, two.1, two.2);
    assert forall|i: int| 0 <= i < N_AXES * WINDOW_LEN implies one.1.x[i] == two.1.x[i] by {
        let channel = i / (WINDOW_LEN as int);
        let t = i % (WINDOW_LEN as int);
        assert(i == crate::state::slot(channel, t));
    }
    assert(one.1.x =~= two.1.x);
    assert(one.1.x_c1 == two.1.x_c1);
    assert(one.1.x_c2 == two.1.x_c2);
    assert(m.pooled.take(config.c2 as int) == n.pooled.take(config.c2 as int));
    assert forall|i: int| 0 <= i < config.fc_in_len() implies one.1.fc_in[i]
        == two.1.fc_in[i] by {
        if i < config.c2 {
            assert(one.1.fc_in[i] == one.1.fc_in.take(config.c2 as int)[i]);
            assert(two.1.fc_in[i] == two.1.fc_in.take(config.c2 as int)[i]);
        }
    }
    assert(one.1.fc_in =~= two.1.fc_in);
    assert(m.product == n.product);
    assert forall|o: int| 0 <= o < N_CLASSES implies m.logits@[o] == n.logits@[o] by {
        assert(m.logits[o] == n.logits[o]);
    }
    assert(m.logits@ =~= n.logits@);
    assert(m.logits == n.logits);
}

/// With kernels that keep to the range they are given, every activation of an integer-only
/// pass stays in the range of its layer: both conv outputs in `0..=127`, the window and the
/// dense input in `-127..=127`.
pub proof fn law_int8_activations_stay_in_range<'buf, 'w, V, Q, C, P, M, Z, S>(
    kernels: KernelsQ8<V, Q, C, P, M, Z, S>,
    config: ModelConfig,
    weights: QuantizedWeights<'w>,
    window: Seq<Sample>,
    features: Seq<F32Bits>,
    before: Buffers<i8>,
    after: Buffers<i8>,
    probs: [F32Bits; N_CLASSES],
) where
    V: Fn(i16) -> F32Bits,
    Q: Fn(F32Bits, F32Bits) -> i32,
    C: Fn(&'buf mut [i8], &[i8], ConvQ8Weights<'w>, OutRange, ConvShape) -> &'buf mut [i8],
    P: Fn(&'buf mut [i8], &[i8], PoolQ8, OutRange) -> &'buf mut [i8],
    M: Fn(&[i8], &[i8], usize, usize) -> [i32; N_CLASSES],
    Z: Fn(i32, F32Bits, F32Bits) -> F32Bits,
    S: Fn([F32Bits; N_CLASSES]) -> [F32Bits; N_CLASSES],

    requires
        after.shaped(config),
        kernels.runs(config, weights, window, features, before, after, probs),
        forall|
            o: Seq<i8>,
            x: Seq<i8>,
            t: ConvQ8Weights<'w>,
            g: OutRange,
            s: ConvShape,
            r: Seq<i8>,
            i: int,
        |
            #![trigger conv_q8_gives(kernels.conv1d, o, x, t, g, s, r), r[i]]
            conv_q8_gives(kernels.conv1d, o, x, t, g, s, r) && 0 <= i < r.len() ==> g.min <= r[i]
                <= g.max,
        forall|o: Seq<i8>, x: Seq<i8>, s: PoolQ8, g: OutRange, r: Seq<i8>, i: int|
            #![trigger pool_q8_gives(kernels.pool, o, x, s, g, r), r[i]]
            pool_q8_gives(kernels.pool, o, x, s, g, r) && 0 <= i < s.channels && i < r.len()
                ==> g.min <= r[i] <= g.max,
        forall|o: Seq<i8>, x: Seq<i8>, s: PoolQ8, g: OutRange, r: Seq<i8>| #[trigger]
            pool_q8_gives(kernels.pool, o, x, s, g, r) ==> r.len() == o.len(),
        before.shaped(config),
    ensures
        forall|i: int| 0 <= i < after.x.len() ==> -127 <= #[trigger] after.x[i] <= 127,
        forall|i: int| 0 <= i < after.x_c1.len() ==> 0 <= #[trigger] after.x_c1[i] <= 127,
        forall|i: int| 0 <= i < after.x_c2.len() ==> 0 <= #[trigger] after.x_c2[i] <= 127,
        forall|i: int| 0 <= i < after.fc_in.len() ==> -127 <= #[trigger] after.fc_in[i] <= 127,
{
    let m = choose|m: StepsQ8| #[trigger]
        kernels.steps(config, weights, window, features, before, m, after, probs);
    assert forall|i: int| 0 <= i < after.x.len() implies -127 <= #[trigger] after.x[i] <= 127 by {
        let channel = i / (WINDOW_LEN as int);
        let t = i % (WINDOW_LEN as int);
        assert(i == crate::state::slot(channel, t));
        assert(reading_gives(
            kernels.level,
            kernels.quotient,
            weights.s_in0,
            window[t][channel],
            after.x[crate::state::slot(channel, t)],
        ));
    }
    assert forall|i: int| 0 <= i < after.fc_in.len() implies -127 <= #[trigger] after.fc_in[i]
        <= 127 by {
        if i < config.c2 {
            assert(after.fc_in[i] == after.fc_in.take(config.c2 as int)[i]);
            assert(m.pooled[i] == m.pooled.take(config.c2 as int)[i]);
        }
    }
}

/// The value with the other sign.
pub open spec fn negated(v: F32Bits) -> F32Bits {
    if v < 0x8000_0000 {
        (v + 0x8000_0000) as F32Bits
    } else {
        (v - 0x8000_0000) as F32Bits
    }
}

/// The quotient with the other sign, where quotients too large for an `i32` saturate.
pub open spec fn opposite(rounded: i32) -> i32 {
    if rounded == i32::MAX {
        i32::MIN
    } else if rounded == i32::MIN {
        i32::MAX
    } else {
        (-rounded) as i32
    }
}

/// Quantization never leaves `[-127, 127]`, sends everything to zero at a zero scale, and is
/// odd: with a quotient that rounds opposite values to opposite integers, opposite values have
/// opposite results.
pub proof fn law_quantization_is_odd<Q: Fn(F32Bits, F32Bits) -> i32>(
    quotient: Q,
    v: F32Bits,
    scale: F32Bits,
    a: i8,
    b: i8,
)
    requires
        quantize_gives(quotient, v, scale, a),
        quantize_gives(quotient, negated(v), scale, b),
        forall|r: i32, s: i32| #[trigger]
            quotient.ensures((v, scale), r) && #[trigger] quotient.ensures((negated(v), scale), s)
                ==> s == opposite(r),
    ensures
        -127 <= a <= 127,
        crate::float32::is_zero(scale) ==> a == 0,
        b == -a,
{
}

/// Quantization is monotone: with a quotient that keeps the order of two values, so do their
/// results.
pub proof fn law_quantization_is_monotone<Q: Fn(F32Bits, F32Bits) -> i32>(
    quotient: Q,
    v: F32Bits,
    w: F32Bits,
    scale: F32Bits,
    a: i8,
    b: i8,
)
    requires
        quantize_gives(quotient, v, scale, a),
        quantize_gives(quotient, w, scale, b),
        forall|r: i32, s: i32| #[trigger]
            quotient.ensures((v, scale), r) && #[trigger] quotient.ensures((w, scale), s) ==> r
                <= s,
    ensures
        a <= b,
{
}

/// At every scale but the two zeros, a value whose rounded quotient is `r` becomes exactly `r`
/// where that fits, and the end of the range that is nearer to it where it does not; at a zero
/// scale everything becomes zero.
pub proof fn law_quantization_keeps_the_quotient<Q: Fn(F32Bits, F32Bits) -> i32>(
    quotient: &Q,
    v: F32Bits,
    scale: F32Bits,
    r: i32,
    q: i8,
)
    requires
        forall|s: i32| #[trigger] quotient.ensures((v, scale), s) ==> s == r,
        call_ensures(quantize_to_i8::<Q>, (v, scale, quotient), q),
    ensures
        scale != 0 && scale != 0x8000_0000 ==> {
            &&& -127 <= r <= 127 ==> q == r
            &&& r > 127 ==> q == 127
            &&& r < -127 ==> q == -127
        },
        scale == 0 || scale == 0x8000_0000 ==> q == 0,
{
}

/// What the single-precision pass computes, as a whole: where the kernels compute certain
/// functions, the buffers and the probabilities after a pass are the composition of these
/// functions over the window, the features and the six tensors of the model.
pub proof fn law_forward_computes_the_network<'buf, 'w, T, X, C, R, P, G, M, A, S>(
    kernels: Kernels<X, C, R, P, G, M, A, S>,
    config: ModelConfig,
    weights: Weights<'w>,
    window: Seq<Sample>,
    features: Seq<F32Bits>,
    before: Buffers<T>,
    after: Buffers<T>,
    probs: [F32Bits; N_CLASSES],
    reading: spec_fn(i16) -> T,
    conv: spec_fn(Seq<T>, Seq<F32Bits>, Seq<F32Bits>, ConvShape) -> Seq<T>,
    relu: spec_fn(Seq<T>) -> Seq<T>,
    pool: spec_fn(Seq<T>, usize, usize) -> Seq<T>,
    feature: spec_fn(F32Bits) -> T,
    matmul: spec_fn(Seq<T>, Seq<F32Bits>, usize, usize) -> Seq<F32Bits>,
    bias: spec_fn(Seq<F32Bits>, Seq<F32Bits>) -> Seq<F32Bits>,
    softmax: spec_fn(Seq<F32Bits>) -> Seq<F32Bits>,
) where
    T: 'buf,
    X: Fn(i16) -> T,
    C: Fn(&'buf mut [T], &[T], &[F32Bits], &[F32Bits], ConvShape) -> &'buf mut [T],
    R: Fn(&'buf mut [T]) -> &'buf mut [T],
    P: Fn(&'buf mut [T], &[T], usize, usize) -> &'buf mut [T],
    G: Fn(F32Bits) -> T,
    M: Fn(&[T], &[F32Bits], usize, usize) -> [F32Bits; N_CLASSES],
    A: Fn([F32Bits; N_CLASSES], &[F32Bits]) -> [F32Bits; N_CLASSES],
    S: Fn([F32Bits; N_CLASSES]) -> [F32Bits; N_CLASSES],

    requires
        config.s1 >= 1,
        config.s2 >= 1,
        config.k1 <= 512,
        config.k2 <= (512 - config.k1) / (config.s1 as int) + 1,
        after.x.len() == 1536,
        after.fc_in.len() == config.c2 + 24,
        kernels.runs(config, weights, window, features, before, after, probs),
        forall|v: i16, r: T| #[trigger] kernels.reading.ensures((v,), r) ==> r == reading(v),
        forall|
            o: &'buf mut [T],
            x: &[T],
            w: &[F32Bits],
            b: &[F32Bits],
            s: ConvShape,
            r: &'buf mut [T],
        | #[trigger]
            kernels.conv1d.ensures((o, x, w, b, s), r) ==> r@ == conv(x@, w@, b@, s),
        forall|o: &'buf mut [T], r: &'buf mut [T]| #[trigger]
            kernels.relu.ensures((o,), r) ==> r@ == relu(o@),
        forall|o: &'buf mut [T], x: &[T], channels: usize, len: usize, r: &'buf mut [T]| #[trigger]
            kernels.pool.ensures((o, x, channels, len), r) ==> channels <= r@.len() && r@.subrange(
                0,
                channels as int,
            ) == pool(x@, channels, len),
        forall|v: F32Bits, r: T| #[trigger] kernels.feature.ensures((v,), r) ==> r == feature(v),
        forall|x: &[T], w: &[F32Bits], cols: usize, rows: usize, r: [F32Bits; N_CLASSES]| #[trigger]
            kernels.matmul.ensures((x, w, cols, rows), r) ==> r@ == matmul(x@, w@, cols, rows),
        forall|v: [F32Bits; N_CLASSES], b: &[F32Bits], r: [F32Bits; N_CLASSES]| #[trigger]
            kernels.add_bias.ensures((v, b), r) ==> r@ == bias(v@, b@),
        forall|v: [F32Bits; N_CLASSES], r: [F32Bits; N_CLASSES]| #[trigger]
            kernels.softmax.ensures((v,), r) ==> r@ == softmax(v@),
    ensures
        ({
            let l1 = (512 - config.k1) / (config.s1 as int) + 1;
            let l2 = (l1 - config.k2) / (config.s2 as int) + 1;
            let x = Seq::new(1536, |i: int| reading(window[i % 512][i / 512]));
            let c1 = relu(
                conv(
                    x,
                    weights.conv1_w@,
                    weights.conv1_b@,
                    (ConvShape {
                        c_in: 3,
                        c_out: config.c1,
                        len: 512,
                        kernel: config.k1,
                        stride: config.s1,
                    }),
                ),
            );
            let c2 = relu(
                conv(
                    c1,
                    weights.conv2_w@,
                    weights.conv2_b@,
                    (ConvShape {
                        c_in: config.c1,
                        c_out: config.c2,
                        len: l1 as usize,
                        kernel: config.k2,
                        stride: config.s2,
                    }),
                ),
            );
            let dense = pool(c2, config.c2, l2 as usize) + Seq::new(
                24,
                |k: int| feature(features[k]),
            );
            &&& after.x == x
            &&& after.x_c1 == c1
            &&& after.x_c2 == c2
            &&& after.fc_in == dense
            &&& probs@ == softmax(
                bias(
                    matmul(dense, weights.fc_w@, (config.c2 + 24) as usize, 4),
                    weights.fc_b@,
                ),
            )
        }),
{
    let m = choose|m: Steps<T>| #[trigger]
        kernels.steps(config, weights, window, features, before, m, after, probs);
    let x = Seq::new(1536, |i: int| reading(window[i % 512][i / 512]));
    assert forall|i: int| 0 <= i < 1536 implies after.x[i] == x[i] by {
        assert(i == crate::state::slot(i / 512, i % 512));
    }
    assert(after.x =~= x);
    let l1 = (512 - config.k1) / (config.s1 as int) + 1;
    let l2 = (l1 - config.k2) / (config.s2 as int) + 1;
    let head = pool(after.x_c2, config.c2, l2 as usize);
    assert(m.pooled.take(config.c2 as int) == head);
    assert(head.len() == config.c2);
    let dense = head + Seq::new(24, |k: int| feature(features[k]));
    assert forall|i: int| 0 <= i < dense.len() implies after.fc_in[i] == dense[i] by {
        if i < config.c2 {
            assert(after.fc_in[i] == after.fc_in.take(config.c2 as int)[i]);
        }
    }
    assert(after.fc_in =~= dense);
}

/// A pass puts feature `k` behind the pooled values, at place `c2 + k` of the dense input, and
/// nowhere else: passes over feature vectors that differ at `k` alone have dense inputs that
/// differ there alone.
pub proof fn law_features_keep_their_places<'buf, 'w, T, X, C, R, P, G, M, A, S>(
    kernels: Kernels<X, C, R, P, G, M, A, S>,
    config: ModelConfig,
    weights: Weights<'w>,
    window: Seq<Sample>,
    one: (Seq<F32Bits>, Buffers<T>, Buffers<T>, [F32Bits; N_CLASSES]),
    two: (Seq<F32Bits>, Buffers<T>, Buffers<T>, [F32Bits; N_CLASSES]),
    k: int,
    i: int,
) where
    T: 'buf,
    X: Fn(i16) -> T,
    C: Fn(&'buf mut [T], &[T], &[F32Bits], &[F32Bits], ConvShape) -> &'buf mut [T],
    R: Fn(&'buf mut [T]) -> &'buf mut [T],
    P: Fn(&'buf mut [T], &[T], usize, usize) -> &'buf mut [T],
    G: Fn(F32Bits) -> T,
    M: Fn(&[T], &[F32Bits], usize, usize) -> [F32Bits; N_CLASSES],
    A: Fn([F32Bits; N_CLASSES], &[F32Bits]) -> [F32Bits; N_CLASSES],
    S: Fn([F32Bits; N_CLASSES]) -> [F32Bits; N_CLASSES],

    requires
        kernels.functional(),
        one.1.shaped(config) && one.2.shaped(config),
        two.1.shaped(config) && two.2.shaped(config),
        kernels.runs(config, weights, window, one.0, one.1, one.2, one.3),
        kernels.runs(config, weights, window, two.0, two.1, two.2, two.3),
        0 <= k < 24,
        one.0.len() == 24,
        two.0.len() == 24,
        forall|j: int| 0 <= j < 24 && j != k ==> #[trigger] one.0[j] == two.0[j],
        0 <= i < config.c2 + 24,
    ensures
        i != config.c2 + k ==> one.2.fc_in[i] == two.2.fc_in[i],
        kernels.feature.ensures((one.0[k],), one.2.fc_in[config.c2 + k]),
{
    let m = choose|m: Steps<T>| #[trigger]
        kernels.steps(config, weights, window, one.0, one.1, m, one.2, one.3);
    let n = choose|n: Steps<T>| #[trigger]
        kernels.steps(config, weights, window, two.0, two.1, n, two.2, two.3);
    assert forall|j: int| 0 <= j < N_AXES * WINDOW_LEN implies one.2.x[j] == two.2.x[j] by {
        assert(j == crate::state::slot(j / (WINDOW_LEN as int), j % (WINDOW_LEN as int)));
    }
    assert(one.2.x =~= two.2.x);
    assert(m.conv1 == n.conv1);
    assert(m.conv2 == n.conv2);
    assert(m.pooled.take(config.c2 as int) == n.pooled.take(config.c2 as int));
    if i < config.c2 {
        assert(one.2.fc_in[i] == one.2.fc_in.take(config.c2 as int)[i]);
        assert(two.2.fc_in[i] == two.2.fc_in.take(config.c2 as int)[i]);
    }
    assert(kernels.feature.ensures((one.0[k],), one.2.fc_in[config.c2 + k]));
}

/// What the integer-only pass computes, as a whole: where the kernels compute certain
/// functions, the buffers and the probabilities after a pass are the composition of these
/// functions over the quantized window, the quantized features and the tensors of the model,
/// each convolution clamped to `0..=127` and the pool to `-127..=127`.
pub proof fn law_forward_q8_computes_the_network<'buf, 'w, V, Q, C, P, M, Z, S>(
    kernels: KernelsQ8<V, Q, C, P, M, Z, S>,
    config: ModelConfig,
    weights: QuantizedWeights<'w>,
    window: Seq<Sample>,
    features: Seq<F32Bits>,
    before: Buffers<i8>,
    after: Buffers<i8>,
    probs: [F32Bits; N_CLASSES],
    level: spec_fn(i16) -> F32Bits,
    quotient: spec_fn(F32Bits, F32Bits) -> i32,
    conv: spec_fn(
        Seq<i8>,
        Seq<i8>,
        Seq<i32>,
        Seq<i32>,
        Seq<i32>,
        i8,
        i8,
        ConvShape,
    ) -> Seq<i8>,
    pool: spec_fn(Seq<i8>, usize, usize, i32, i32, i8, i8) -> Seq<i8>,
    matmul: spec_fn(Seq<i8>, Seq<i8>, usize, usize) -> Seq<i32>,
    rescale: spec_fn(i32, F32Bits, F32Bits) -> F32Bits,
    softmax: spec_fn(Seq<F32Bits>) -> Seq<F32Bits>,
) where
    V: Fn(i16) -> F32Bits,
    Q: Fn(F32Bits, F32Bits) -> i32,
    C: Fn(&'buf mut [i8], &[i8], ConvQ8Weights<'w>, OutRange, ConvShape) -> &'buf mut [i8],
    P: Fn(&'buf mut [i8], &[i8], PoolQ8, OutRange) -> &'buf mut [i8],
    M: Fn(&[i8], &[i8], usize, usize) -> [i32; N_CLASSES],
    Z: Fn(i32, F32Bits, F32Bits) -> F32Bits,
    S: Fn([F32Bits; N_CLASSES]) -> [F32Bits; N_CLASSES],

    requires
        config.s1 >= 1,
        config.s2 >= 1,
        config.k1 <= 512,
        config.k2 <= (512 - config.k1) / (config.s1 as int) + 1,
        after.x.len() == 1536,
        after.fc_in.len() == config.c2 + 24,
        kernels.runs(config, weights, window, features, before, after, probs),
        forall|v: i16, r: F32Bits| #[trigger] kernels.level.ensures((v,), r) ==> r == level(v),
        forall|v: F32Bits, s: F32Bits, r: i32| #[trigger]
            kernels.quotient.ensures((v, s), r) ==> r == quotient(v, s),
        forall|
            o: &'buf mut [i8],
            x: &[i8],
            t: ConvQ8Weights<'w>,
            g: OutRange,
            s: ConvShape,
            r: &'buf mut [i8],
        | #[trigger]
            kernels.conv1d.ensures((o, x, t, g, s), r) ==> r@ == conv(
                x@,
                t.weights@,
                t.bias@,
                t.mult@,
                t.shift@,
                g.min,
                g.max,
                s,
            ),
        forall|o: &'buf mut [i8], x: &[i8], s: PoolQ8, g: OutRange, r: &'buf mut [i8]| #[trigger]
            kernels.pool.ensures((o, x, s, g), r) ==> s.channels <= r@.len() && r@.subrange(
                0,
                s.channels as int,
            ) == pool(x@, s.channels, s.len, s.mult, s.shift, g.min, g.max),
        forall|x: &[i8], w: &[i8], cols: usize, rows: usize, r: [i32; N_CLASSES]| #[trigger]
            kernels.matmul.ensures((x, w, cols, rows), r) ==> r@ == matmul(x@, w@, cols, rows),
        forall|v: i32, s: F32Bits, b: F32Bits, r: F32Bits| #[trigger]
            kernels.rescale.ensures((v, s, b), r) ==> r == rescale(v, s, b),
        forall|v: [F32Bits; N_CLASSES], r: [F32Bits; N_CLASSES]| #[trigger]
            kernels.softmax.ensures((v,), r) ==> r@ == softmax(v@),
    ensures
        ({
            let l1 = (512 - config.k1) / (config.s1 as int) + 1;
            let l2 = (l1 - config.k2) / (config.s2 as int) + 1;
            let int8 = |scale: F32Bits, r: i32|
                if scale == 0 || scale == 0x8000_0000 {
                    0i8
                } else if r > 127 {
                    127i8
                } else if r < -127 {
                    (-127) as i8
                } else {
                    r as i8
                };
            let x = Seq::new(
                1536,
                |i: int|
                    int8(
                        weights.s_in0,
                        quotient(level(window[i % 512][i / 512]), weights.s_in0),
                    ),
            );
            let c1 = conv(
                x,
                weights.conv1_w@,
                weights.conv1_bias@,
                weights.conv1_mult@,
                weights.conv1_shift@,
                0,
                127,
                (ConvShape {
                        c_in: 3,
                        c_out: config.c1,
                        len: 512,
                        kernel: config.k1,
                        stride: config.s1,
                    }),
            );
            let c2 = conv(
                c1,
                weights.conv2_w@,
                weights.conv2_bias@,
                weights.conv2_mult@,
                weights.conv2_shift@,
                0,
                127,
                (ConvShape {
                        c_in: config.c1,
                        c_out: config.c2,
                        len: l1 as usize,
                        kernel: config.k2,
                        stride: config.s2,
                    }),
            );
            let dense = pool(
                c2,
                config.c2,
                l2 as usize,
                weights.pool_mult,
                weights.pool_shift,
                (-127) as i8,
                127,
            ) + Seq::new(
                24,
                |k: int| int8(weights.s_fc_in, quotient(features[k], weights.s_fc_in)),
            );
            let product = matmul(dense, weights.fc_w@, (config.c2 + 24) as usize, 4);
            &&& after.x == x
            &&& after.x_c1 == c1
            &&& after.x_c2 == c2
            &&& after.fc_in == dense
            &&& probs@ == softmax(
                Seq::new(
                    4,
                    |o: int| rescale(product[o], weights.fc_out_scale[o], weights.fc_bias[o]),
                ),
            )
        }),
{
    let int8 = |scale: F32Bits, r: i32|
        if scale == 0 || scale == 0x8000_0000 {
    0i8
        } else if r > 127 {
    127i8
        } else if r < -127 {
    (-127) as i8
        } else {
    r as i8
        };
    let m = choose|m: StepsQ8| #[trigger]
        kernels.steps(config, weights, window, features, before, m, after, probs);
    let x = Seq::new(
        1536,
        |i: int|
            int8(weights.s_in0, quotient(level(window[i % 512][i / 512]), weights.s_in0)),
    );
    assert forall|i: int| 0 <= i < 1536 implies after.x[i] == x[i] by {
        assert(i == crate::state::slot(i / 512, i % 512));
        assert(reading_gives(
            kernels.level,
            kernels.quotient,
            weights.s_in0,
            window[i % 512][i / 512],
            after.x[crate::state::slot(i / 512, i % 512)],
        ));
    }
    assert(after.x =~= x);
    let l1 = (512 - config.k1) / (config.s1 as int) + 1;
    let l2 = (l1 - config.k2) / (config.s2 as int) + 1;
    let head = pool(
        after.x_c2,
        config.c2,
        l2 as usize,
        weights.pool_mult,
        weights.pool_shift,
        (-127) as i8,
        127,
    );
    assert(m.pooled.take(config.c2 as int) == head);
    assert(head.len() == config.c2);
    let dense = head + Seq::new(
        24,
        |k: int| int8(weights.s_fc_in, quotient(features[k], weights.s_fc_in)),
    );
    assert forall|i: int| 0 <= i < dense.len() implies after.fc_in[i] == dense[i] by {
        if i < config.c2 {
            assert(after.fc_in[i] == after.fc_in.take(config.c2 as int)[i]);
        } else {
            assert(quantize_gives(
                kernels.quotient,
                features[i - config.c2],
                weights.s_fc_in,
                after.fc_in[i],
            ));
        }
    }
    assert(after.fc_in =~= dense);
    let product = matmul(dense, weights.fc_w@, (config.c2 + 24) as usize, 4);
    let logits = Seq::new(
        4,
        |o: int| rescale(product[o], weights.fc_out_scale[o], weights.fc_bias[o]),
    );
    assert(m.logits@ =~= logits) by {
        assert forall|o: int| 0 <= o < 4 implies m.logits@[o] == logits[o] by {
            assert(m.logits[o] == m.logits@[o]);
            assert(m.product[o] == m.product@[o]);
        }
    }
}

} // verus!
