//! The per-window step, and the cutting of a sample stream into windows.
//!
//! How samples arrive is up to the caller: a sensor that is drained on interrupts, or a
//! recording. [`store_sample`] and [`Windower`] turn either into full windows, and
//! [`process_window`] takes each full window through every stage, so the wiring between the
//! stages exists in exactly one place.
use crate::alert::{top_class, AlertMachine, Condition, State};
use crate::features::{
    extract, Numerics, Sample, DEFAULT_SAMPLE, FEATURE_LEN, FFT_BINS, N_AXES, WINDOW_LEN,
};
use crate::float32::F32Bits;
use crate::forward::{
    forward, forward_q8, ConvQ8Weights, ConvShape, Kernels, KernelsQ8, OutRange, PoolQ8,
};
use crate::model::{Class, ModelConfig, QuantizedWeights, Weights, N_CLASSES};
use crate::state::{Buffers, RunState};
use vstd::prelude::*;

verus! {

/// The result of running one window through the full pipeline.
#[derive(Clone, Copy, Debug)]
pub struct Outcome {
    /// The feature vector of the window.
    pub features: [F32Bits; FEATURE_LEN],
    /// The softmax probabilities, one per [`Class`].
    pub probs: [F32Bits; N_CLASSES],
    /// The most likely class (argmax of `probs`).
    pub class: Class,
    /// The probability of `class`.
    pub confidence: F32Bits,
    /// The alert state after this window was folded into the machine.
    pub state: State,
}

/// Whether an outcome is what its probabilities call for, with the state of a machine that
/// goes from one condition to the next.
pub open spec fn concludes(out: Outcome, before: Condition, after: Condition) -> bool {
    &&& out.class == crate::alert::dominant(out.probs@)
    &&& out.confidence == crate::alert::dominant_prob(out.probs@)
    &&& after == before.after(out.probs@)
    &&& out.state == after.state
}

/// Fold the probabilities of a window into the alert machine.
fn conclude(
    features: [F32Bits; FEATURE_LEN],
    probs: [F32Bits; N_CLASSES],
    alert: &mut AlertMachine,
) -> (out: Outcome)
    ensures
        out.features == features,
        out.probs == probs,
        concludes(out, old(alert)@, final(alert)@),
{
    let state: State = alert.update(&probs);
    let (class, confidence) = top_class(&probs);
    Outcome { features, probs, class, confidence, state }
}

/// Run one completed window through every stage: extract its features, run the
/// single-precision forward pass over the window and the features, and advance the alert
/// machine by the probabilities.
///
/// This is the body of the steady-state loop: it allocates nothing and reuses the weights and
/// the run state of the caller.
pub fn process_window<'buf, T, N1, N2, N3, N4, N5, X, C, R, P, G, M, A, S>(
    config: &ModelConfig,
    weights: &Weights,
    window: &[Sample; WINDOW_LEN],
    state: &mut RunState<'buf, T>,
    alert: &mut AlertMachine,
    numerics: &Numerics<N1, N2, N3, N4, N5>,
    kernels: &Kernels<X, C, R, P, G, M, A, S>,
) -> (out: Outcome) where
    N1: Fn(i64, usize) -> F32Bits,
    N2: Fn(u16, F32Bits) -> F32Bits,
    N3: Fn(&[i16]) -> F32Bits,
    N4: Fn(&[i16; WINDOW_LEN]) -> [F32Bits; FFT_BINS],
    N5: Fn(&[F32Bits]) -> F32Bits,
    T: 'buf,
    X: Fn(i16) -> T,
    C: Fn(&'buf mut [T], &[T], &[F32Bits], &[F32Bits], ConvShape) -> &'buf mut [T],
    R: Fn(&'buf mut [T]) -> &'buf mut [T],
    P: Fn(&'buf mut [T], &[T], usize, usize) -> &'buf mut [T],
    G: Fn(F32Bits) -> T,
    M: Fn(&[T], &[F32Bits], usize, usize) -> [F32Bits; N_CLASSES],
    A: Fn([F32Bits; N_CLASSES], &[F32Bits]) -> [F32Bits; N_CLASSES],
    S: Fn([F32Bits; N_CLASSES]) -> [F32Bits; N_CLASSES],

    requires
        config.convolves(),
        old(state).shaped(*config),
        weights.shaped(*config),
        numerics.total(),
        kernels.usable(),
    ensures
        final(state).shaped(*config),
        numerics.extracts(window@, out.features@, N_AXES as int),
        kernels.runs(
            *config,
            *weights,
            window@,
            out.features@,
            old(state)@,
            final(state)@,
            out.probs,
        ),
        concludes(out, old(alert)@, final(alert)@),
{
    let mut features: [F32Bits; FEATURE_LEN] = [0; FEATURE_LEN];
    extract(window, &mut features, numerics);
    let probs: [F32Bits; N_CLASSES] = forward(config, weights, state, window, &features, kernels);
    conclude(features, probs, alert)
}

/// [`process_window`] with the integer-only forward pass.
pub fn process_window_q8<'buf, 'w, N1, N2, N3, N4, N5, V, Q, C, P, M, Z, S>(
    config: &ModelConfig,
    weights: &QuantizedWeights<'w>,
    window: &[Sample; WINDOW_LEN],
    state: &mut RunState<'buf, i8>,
    alert: &mut AlertMachine,
    numerics: &Numerics<N1, N2, N3, N4, N5>,
    kernels: &KernelsQ8<V, Q, C, P, M, Z, S>,
) -> (out: Outcome) where
    N1: Fn(i64, usize) -> F32Bits,
    N2: Fn(u16, F32Bits) -> F32Bits,
    N3: Fn(&[i16]) -> F32Bits,
    N4: Fn(&[i16; WINDOW_LEN]) -> [F32Bits; FFT_BINS],
    N5: Fn(&[F32Bits]) -> F32Bits,
    V: Fn(i16) -> F32Bits,
    Q: Fn(F32Bits, F32Bits) -> i32,
    C: Fn(&'buf mut [i8], &[i8], ConvQ8Weights<'w>, OutRange, ConvShape) -> &'buf mut [i8],
    P: Fn(&'buf mut [i8], &[i8], PoolQ8, OutRange) -> &'buf mut [i8],
    M: Fn(&[i8], &[i8], usize, usize) -> [i32; N_CLASSES],
    Z: Fn(i32, F32Bits, F32Bits) -> F32Bits,
    S: Fn([F32Bits; N_CLASSES]) -> [F32Bits; N_CLASSES],

    requires
        config.convolves(),
        old(state).shaped(*config),
        weights.shaped(*config),
        numerics.total(),
        kernels.usable(),
    ensures
        final(state).shaped(*config),
        numerics.extracts(window@, out.features@, N_AXES as int),
        kernels.runs(
            *config,
            *weights,
            window@,
            out.features@,
            old(state)@,
            final(state)@,
            out.probs,
        ),
        concludes(out, old(alert)@, final(alert)@),
{
    let mut features: [F32Bits; FEATURE_LEN] = [0; FEATURE_LEN];
    extract(window, &mut features, numerics);
    let probs: [F32Bits; N_CLASSES] = forward_q8(
        config,
        weights,
        state,
        window,
        &features,
        kernels,
    );
    conclude(features, probs, alert)
}

/// What to do about the outcome of a window.
#[derive(Clone, Copy, Debug, PartialEq, Eq, Structural)]
pub struct Indication {
    /// Whether the alert light is on.
    pub lit: bool,
    /// Whether to log the state.
    pub log: bool,
}

/// Drive the alert light from the state, and log only changes of state, so that steady-state
/// acquisition stays silent.
pub fn handle_outcome(out: &Outcome, prev: &mut State) -> (r: Indication)
    ensures
        r.lit <==> out.state is Alert,
        r.log <==> out.state != *old(prev),
        *final(prev) == out.state,
{
    let lit: bool = match out.state {
        State::Alert { class } => true,
        State::Normal => false,
    };
    let log: bool = out.state != *prev;
    *prev = out.state;
    Indication { lit, log }
}

/// Put the next sample of a stream into a window buffer that holds `fill` samples. Returns
/// whether the window is complete; the count then starts over, for the next buffer.
pub fn store_sample(buf: &mut [Sample; WINDOW_LEN], fill: &mut usize, s: Sample) -> (full: bool)
    requires
        *old(fill) < WINDOW_LEN,
    ensures
        final(buf)@ == old(buf)@.update(*old(fill) as int, s),
        full <==> *old(fill) + 1 == WINDOW_LEN,
        *final(fill) == (if full {
            0
        } else {
            *old(fill) + 1
        }),
    no_unwind
{
    buf[*fill] = s;
    *fill = *fill + 1;
    if *fill == WINDOW_LEN {
        *fill = 0;
        true
    } else {
        false
    }
}

/// What a buffer holds once `n` samples of a burst have been put behind the first `fill`.
pub open spec fn filled(buf: Seq<Sample>, fill: int, burst: Seq<Sample>, n: int) -> Seq<Sample> {
    buf.take(fill) + burst.take(n) + buf.skip(fill + n)
}

/// Put samples of a burst into a window buffer that holds `fill` samples, until the window is
/// complete or the burst is used up. Returns how many samples were put there, and whether the
/// window is complete; the count then starts over, for the next buffer.
pub fn store_burst(buf: &mut [Sample; WINDOW_LEN], fill: &mut usize, burst: &[Sample]) -> (r: (
    usize,
    bool,
))
    requires
        *old(fill) < WINDOW_LEN,
    ensures
        r.0 == (if burst@.len() < WINDOW_LEN - *old(fill) {
            burst@.len() as int
        } else {
            WINDOW_LEN - *old(fill)
        }),
        r.1 <==> *old(fill) + r.0 == WINDOW_LEN,
        final(buf)@ == filled(old(buf)@, *old(fill) as int, burst@, r.0 as int),
        *final(fill) == (if r.1 {
            0
        } else {
            *old(fill) + r.0
        }),
{
    let ghost start = *fill as int;
    let ghost before = buf@;
    let mut n: usize = 0;
    assert(filled(before, start, burst@, 0) =~= before);
    while n < burst.len()
        invariant
            n <= burst@.len(),
            *fill == start + n,
            *fill < WINDOW_LEN,
            before == old(buf)@,
            start == *old(fill),
            buf@ == filled(before, start, burst@, n as int),
        decreases burst@.len() - n,
    {
        let full: bool = store_sample(buf, fill, burst[n]);
        n += 1;
        assert(buf@ =~= filled(before, start, burst@, n as int));
        if full {
            return (n, true);
        }
    }
    (n, false)
}

/// What the samples waiting for a full window become when one more arrives, and the window
/// that it completes, if it completes one.
pub open spec fn step(pending: Seq<Sample>, s: Sample) -> (Seq<Sample>, Option<Seq<Sample>>) {
    if pending.len() + 1 < WINDOW_LEN {
        (pending.push(s), None)
    } else {
        (Seq::empty(), Some(pending.push(s)))
    }
}

/// The windows that a stream completes, in order.
pub open spec fn windows(stream: Seq<Sample>) -> Seq<Seq<Sample>>
    decreases stream.len(),
{
    if stream.len() == 0 {
        Seq::empty()
    } else {
        let before = windows(stream.drop_last());
        match step(pending(stream.drop_last()), stream.last()).1 {
            Some(window) => before.push(window),
            None => before,
        }
    }
}

/// The samples of a stream that wait for a full window at its end.
pub open spec fn pending(stream: Seq<Sample>) -> Seq<Sample>
    decreases stream.len(),
{
    if stream.len() == 0 {
        Seq::empty()
    } else {
        step(pending(stream.drop_last()), stream.last()).0
    }
}

/// Accumulates samples into non-overlapping windows.
pub struct Windower {
    buf: [Sample; WINDOW_LEN],
    fill: usize,
}

impl View for Windower {
    type V = Seq<Sample>;

    /// The samples that wait for a full window, oldest first.
    closed spec fn view(&self) -> Seq<Sample> {
        self.buf@.take(self.fill as int)
    }
}

impl Windower {
    #[verifier::type_invariant]
    spec fn consistent(self) -> bool {
        self.fill < WINDOW_LEN
    }

    /// A windower with nothing waiting.
    pub fn new() -> (w: Windower)
        ensures
            w@ == Seq::<Sample>::empty(),
    {
        Windower { buf: [DEFAULT_SAMPLE; WINDOW_LEN], fill: 0 }
    }

    /// Add one sample. Returns the window that it completes, if it completes one.
    pub fn push(&mut self, s: Sample) -> (r: Option<&[Sample; WINDOW_LEN]>)
        ensures
            final(self)@ == step(old(self)@, s).0,
            r is Some <==> step(old(self)@, s).1 is Some,
            r matches Some(window) ==> step(old(self)@, s).1 == Some(window@),
            old(self)@.len() < WINDOW_LEN,
    {
        proof {
            use_type_invariant(&*self);
        }
        let full: bool = store_sample(&mut self.buf, &mut self.fill, s);
        if full {
            Some(&self.buf)
        } else {
            None
        }
    }

    /// How many samples wait for a full window.
    pub fn fill_level(&self) -> (n: usize)
        ensures
            n == self@.len(),
            n < WINDOW_LEN,
    {
        proof {
            use_type_invariant(self);
        }
        self.fill
    }
}

/// A stream is cut into consecutive windows that do not overlap and leave nothing out: window
/// `i` is samples `512 i` to `512 (i + 1)`, and what is left waits for the next window.
pub proof fn law_streams_are_cut_into_consecutive_windows(stream: Seq<Sample>)
    ensures
        windows(stream).len() == stream.len() / WINDOW_LEN as nat,
        forall|i: int|
            0 <= i < windows(stream).len() ==> #[trigger] windows(stream)[i] == stream.subrange(
                WINDOW_LEN * i,
                WINDOW_LEN * (i + 1),
            ),
        pending(stream) == stream.skip(WINDOW_LEN * windows(stream).len()),
        pending(stream).len() == stream.len() % WINDOW_LEN as nat,
    decreases stream.len(),
{
    if stream.len() > 0 {
        let before = stream.drop_last();
        law_streams_are_cut_into_consecutive_windows(before);
        let w = windows(before);
        assert forall|i: int| 0 <= i < w.len() implies #[trigger] w[i] == stream.subrange(
            WINDOW_LEN * i,
            WINDOW_LEN * (i + 1),
        ) by {
            assert(before.subrange(WINDOW_LEN * i, WINDOW_LEN * (i + 1)) =~= stream.subrange(
                WINDOW_LEN * i,
                WINDOW_LEN * (i + 1),
            ));
        }
        assert(pending(before).push(stream.last()) =~= stream.skip(WINDOW_LEN * w.len()));
    }
}

/// The windows of a stream, end to end, are the stream up to its last full window: every
/// window has its full length, and no sample is lost, repeated or reordered.
pub proof fn law_windows_join_to_a_prefix(stream: Seq<Sample>)
    ensures
        windows(stream).flatten() == stream.take(WINDOW_LEN * (stream.len() as int / WINDOW_LEN as int)),
        forall|i: int|
            0 <= i < windows(stream).len() ==> #[trigger] windows(stream)[i].len() == WINDOW_LEN,
    decreases stream.len(),
{
    law_streams_are_cut_into_consecutive_windows(stream);
    if stream.len() == 0 {
        assert(windows(stream).flatten() =~= seq![]);
        assert(stream.take(0) =~= seq![]);
    } else {
        let before = stream.drop_last();
        law_windows_join_to_a_prefix(before);
        law_streams_are_cut_into_consecutive_windows(before);
        let n = WINDOW_LEN * (stream.len() as int / WINDOW_LEN as int);
        let m = WINDOW_LEN * (before.len() as int / WINDOW_LEN as int);
        if pending(before).len() + 1 < WINDOW_LEN {
            assert(before.take(m) =~= stream.take(n));
        } else {
            let window = pending(before).push(stream.last());
            assert(windows(stream) == windows(before).push(window));
            windows(before).lemma_flatten_push(window);
            assert(windows(stream).flatten() == windows(before).flatten() + window);
            assert(before.take(m) + window =~= stream.take(n));
        }
    }
}

/// Storing a sample of a stream in a window buffer keeps to how the stream is cut: a buffer
/// that holds what waits for a full window goes on to hold it, and the buffer that is reported
/// full is the window that the sample completes.
pub proof fn law_stored_samples_follow_the_cut(
    seen: Seq<Sample>,
    s: Sample,
    before: Seq<Sample>,
    fill: int,
)
    requires
        before.len() == WINDOW_LEN,
        0 <= fill < WINDOW_LEN,
        before.take(fill) == pending(seen),
    ensures
        ({
            let after = before.update(fill, s);
            if fill + 1 == WINDOW_LEN {
                &&& windows(seen.push(s)) == windows(seen).push(after)
                &&& pending(seen.push(s)) == Seq::<Sample>::empty()
            } else {
                &&& windows(seen.push(s)) == windows(seen)
                &&& pending(seen.push(s)) == after.take(fill + 1)
            }
        }),
{
    let next = seen.push(s);
    assert(next.drop_last() =~= seen);
    assert(pending(seen).push(s) =~= before.update(fill, s).take(fill + 1));
    assert(before.update(fill, s).take(WINDOW_LEN as int) =~= before.update(fill, s));
}

/// Storing part of a burst keeps to how the stream is cut, as storing its samples one by one
/// does: a buffer that holds what waits for a full window goes on to hold it, and the buffer
/// that is reported full is the window that the burst completes.
pub proof fn law_stored_bursts_follow_the_cut(
    seen: Seq<Sample>,
    burst: Seq<Sample>,
    before: Seq<Sample>,
    fill: int,
    n: int,
)
    requires
        before.len() == WINDOW_LEN,
        0 <= fill < WINDOW_LEN,
        before.take(fill) == pending(seen),
        0 <= n <= burst.len(),
        fill + n <= WINDOW_LEN,
    ensures
        ({
            let after = filled(before, fill, burst, n);
            if fill + n == WINDOW_LEN {
                &&& windows(seen + burst.take(n)) == windows(seen).push(after)
                &&& pending(seen + burst.take(n)) == Seq::<Sample>::empty()
            } else {
                &&& windows(seen + burst.take(n)) == windows(seen)
                &&& pending(seen + burst.take(n)) == after.take(fill + n)
            }
        }),
    decreases n,
{
    if n == 0 {
        assert(seen + burst.take(0) =~= seen);
        assert(filled(before, fill, burst, 0) =~= before);
    } else {
        law_stored_bursts_follow_the_cut(seen, burst, before, fill, n - 1);
        let so_far = seen + burst.take(n - 1);
        let buf = filled(before, fill, burst, n - 1);
        let s = burst[n - 1];
        law_stored_samples_follow_the_cut(so_far, s, buf, fill + n - 1);
        assert(so_far.push(s) =~= seen + burst.take(n));
        assert(buf.update(fill + n - 1, s) =~= filled(before, fill, burst, n));
    }
}

/// An outcome depends on the model, the window and the alert machine alone: whatever an
/// earlier pass left in the buffers, features, probabilities, class, confidence and state are
/// the same.
pub proof fn law_outcomes_ignore_old_contents<'buf, 'w, T, N1, N2, N3, N4, N5, X, C, R, P, G, M, A, S>(
    numerics: Numerics<N1, N2, N3, N4, N5>,
    kernels: Kernels<X, C, R, P, G, M, A, S>,
    config: ModelConfig,
    weights: Weights<'w>,
    window: Seq<Sample>,
    one: (Buffers<T>, Buffers<T>, Outcome, Condition),
    two: (Buffers<T>, Buffers<T>, Outcome, Condition),
    start: Condition,
) where
    N1: Fn(i64, usize) -> F32Bits,
    N2: Fn(u16, F32Bits) -> F32Bits,
    N3: Fn(&[i16]) -> F32Bits,
    N4: Fn(&[i16; WINDOW_LEN]) -> [F32Bits; FFT_BINS],
    N5: Fn(&[F32Bits]) -> F32Bits,
    T: 'buf,
    X: Fn(i16) -> T,
    C: Fn(&'buf mut [T], &[T], &[F32Bits], &[F32Bits], ConvShape) -> &'buf mut [T],
    R: Fn(&'buf mut [T]) -> &'buf mut [T],
    P: Fn(&'buf mut [T], &[T], usize, usize) -> &'buf mut [T],
    G: Fn(F32Bits) -> T,
    M: Fn(&[T], &[F32Bits], usize, usize) -> [F32Bits; N_CLASSES],
    A: Fn([F32Bits; N_CLASSES], &[F32Bits]) -> [F32Bits; N_CLASSES],
    S: Fn([F32Bits; N_CLASSES]) -> [F32Bits; N_CLASSES],

    requires
        numerics.functional(),
        kernels.functional(),
        one.0.shaped(config) && one.1.shaped(config),
        two.0.shaped(config) && two.1.shaped(config),
        numerics.extracts(window, one.2.features@, N_AXES as int),
        numerics.extracts(window, two.2.features@, N_AXES as int),
        kernels.runs(config, weights, window, one.2.features@, one.0, one.1, one.2.probs),
        kernels.runs(config, weights, window, two.2.features@, two.0, two.1, two.2.probs),
        concludes(one.2, start, one.3),
        concludes(two.2, start, two.3),
    ensures
        one.1 == two.1,
        one.2 == two.2,
        one.3 == two.3,
{
    crate::features::law_windows_determine_their_features(
        numerics,
        window,
        one.2.features@,
        two.2.features@,
    );
    assert(one.2.features == two.2.features);
    crate::forward::law_forward_ignores_old_contents(
        kernels,
        config,
        weights,
        window,
        one.2.features@,
        (one.0, one.1, one.2.probs),
        (two.0, two.1, two.2.probs),
    );
}

/// With the integer-only pass, too, an outcome depends on the model, the window and the alert
/// machine alone.
pub proof fn law_int8_outcomes_ignore_old_contents<'buf, 'w, N1, N2, N3, N4, N5, V, Q, C, P, M, Z, S>(
    numerics: Numerics<N1, N2, N3, N4, N5>,
    kernels: KernelsQ8<V, Q, C, P, M, Z, S>,
    config: ModelConfig,
    weights: QuantizedWeights<'w>,
    window: Seq<Sample>,
    one: (Buffers<i8>, Buffers<i8>, Outcome, Condition),
    two: (Buffers<i8>, Buffers<i8>, Outcome, Condition),
    start: Condition,
) where
    N1: Fn(i64, usize) -> F32Bits,
    N2: Fn(u16, F32Bits) -> F32Bits,
    N3: Fn(&[i16]) -> F32Bits,
    N4: Fn(&[i16; WINDOW_LEN]) -> [F32Bits; FFT_BINS],
    N5: Fn(&[F32Bits]) -> F32Bits,
    V: Fn(i16) -> F32Bits,
    Q: Fn(F32Bits, F32Bits) -> i32,
    C: Fn(&'buf mut [i8], &[i8], ConvQ8Weights<'w>, OutRange, ConvShape) -> &'buf mut [i8],
    P: Fn(&'buf mut [i8], &[i8], PoolQ8, OutRange) -> &'buf mut [i8],
    M: Fn(&[i8], &[i8], usize, usize) -> [i32; N_CLASSES],
    Z: Fn(i32, F32Bits, F32Bits) -> F32Bits,
    S: Fn([F32Bits; N_CLASSES]) -> [F32Bits; N_CLASSES],

    requires
        numerics.functional(),
        kernels.functional(),
        one.0.shaped(config) && one.1.shaped(config),
        two.0.shaped(config) && two.1.shaped(config),
        numerics.extracts(window, one.2.features@, N_AXES as int),
        numerics.extracts(window, two.2.features@, N_AXES as int),
        kernels.runs(config, weights, window, one.2.features@, one.0, one.1, one.2.probs),
        kernels.runs(config, weights, window, two.2.features@, two.0, two.1, two.2.probs),
        concludes(one.2, start, one.3),
        concludes(two.2, start, two.3),
    ensures
        one.1 == two.1,
        one.2 == two.2,
        one.3 == two.3,
{
    crate::features::law_windows_determine_their_features(
        numerics,
        window,
        one.2.features@,
        two.2.features@,
    );
    assert(one.2.features == two.2.features);
    crate::forward::law_forward_q8_ignores_old_contents(
        kernels,
        config,
        weights,
        window,
        one.2.features@,
        (one.0, one.1, one.2.probs),
        (two.0, two.1, two.2.probs),
    );
}

/// What is concluded of a window: class and confidence are those of the most likely class, the
/// machine has moved by exactly this window, and the state is the one it is in.
pub proof fn law_conclusions_follow_the_probabilities(
    out: Outcome,
    before: Condition,
    after: Condition,
    top: Class,
    p: F32Bits,
)
    requires
        concludes(out, before, after),
        call_ensures(top_class, (&out.probs,), (top, p)),
    ensures
        out.class == top,
        out.confidence == p,
        after == before.after(out.probs@),
        out.state == after.state,
{
}

} // verus!
