//! Recorded sample streams: reading one, and following a run over it.
//!
//! A recording is one sample per line, `x,y,z`, with white space allowed around the line and
//! around each number. Blank lines count as lines but hold no sample; columns after the third
//! are ignored. A window recording holds exactly [`WINDOW_LEN`] samples, a stream any number.
use crate::alert::{AlertMachine, Condition, State};
use crate::features::{
    Numerics, Sample, DEFAULT_SAMPLE, FEATURE_LEN, FFT_BINS, N_AXES, WINDOW_LEN,
};
use crate::float32::F32Bits;
use crate::forward::{ConvShape, Kernels};
use crate::model::{Class, ModelConfig, Weights, N_CLASSES};
use crate::pipeline::{process_window, Outcome, Windower};
use crate::state::{Buffers, RunState};
use crate::text::{characters, find, parse_number, render, trim, NumberError};
use vstd::prelude::*;
use vstd::string::StringExecFns;

verus! {

/// What is wrong with a line.
#[derive(Clone, Copy, Debug, PartialEq, Eq, Structural)]
pub enum RowError {
    /// It has fewer than [`N_AXES`] columns.
    MissingColumn,
    /// A column is not a 16-bit number.
    BadNumber(NumberError),
}

/// Why a recording was refused.
#[derive(Clone, Copy, Debug, PartialEq, Eq, Structural)]
pub enum RecordingError {
    /// A line is neither blank nor a sample.
    BadRow {
        /// The line, counted from one.
        line: usize,
        /// What is wrong with it.
        error: RowError,
    },
    /// A window recording goes on after [`WINDOW_LEN`] samples.
    TooManyRows,
    /// A window recording ends too early.
    TooFewRows {
        /// The samples it holds.
        rows: usize,
    },
}

impl RecordingError {
    /// The error in words.
    pub open spec fn words(self) -> Seq<char> {
        match self {
            RecordingError::BadRow { line, error } => "line "@ + crate::text::decimal(line as nat)
                + match error {
                RowError::MissingColumn => ": expected 3 columns"@,
                RowError::BadNumber(e) => ": "@ + e.words(),
            },
            RecordingError::TooManyRows => "more than 512 sample rows"@,
            RecordingError::TooFewRows { rows } => "expected 512 sample rows, got "@
                + crate::text::decimal(rows as nat),
        }
    }

    /// The error in words.
    pub fn message(&self) -> (s: String)
        ensures
            s@ == self.words(),
    {
        let mut s: String = String::new();
        match *self {
            RecordingError::BadRow { line, error } => {
                s.append("line ");
                s.append(render(line as u64).as_str());
                match error {
                    RowError::MissingColumn => s.append(": expected 3 columns"),
                    RowError::BadNumber(e) => {
                        s.append(": ");
                        s.append(e.message());
                    },
                }
            },
            RecordingError::TooManyRows => s.append("more than 512 sample rows"),
            RecordingError::TooFewRows { rows } => {
                s.append("expected 512 sample rows, got ");
                s.append(render(rows as u64).as_str());
            },
        }
        s
    }
}

/// The readings in the first `n` columns of a row, or the first thing wrong with them.
pub open spec fn readings(columns: Seq<Seq<char>>, n: int) -> Result<Seq<i16>, RowError>
    decreases n,
{
    if n <= 0 {
        Ok(seq![])
    } else {
        match readings(columns, n - 1) {
            Err(e) => Err(e),
            Ok(before) => {
                if n > columns.len() {
                    Err(RowError::MissingColumn)
                } else {
                    match crate::text::number(crate::text::trimmed(columns[n - 1])) {
                        Ok(v) => Ok(before.push(v as i16)),
                        Err(e) => Err(RowError::BadNumber(e)),
                    }
                }
            },
        }
    }
}

/// Whether a line holds nothing but white space.
pub open spec fn blank(line: Seq<char>) -> bool {
    crate::text::trimmed(line).len() == 0
}

/// The sample on a line that is not blank.
pub open spec fn row(line: Seq<char>) -> Result<Seq<i16>, RowError> {
    readings(crate::text::fields(crate::text::trimmed(line), ','), N_AXES as int)
}

/// Whether `n` samples are all that a limit allows.
pub open spec fn at_limit(limit: Option<usize>, n: nat) -> bool {
    match limit {
        Some(most) => n >= most,
        None => false,
    }
}

/// The samples on the given lines, or the first thing wrong with them. A sample beyond the
/// limit is refused before it is read.
pub open spec fn samples(
    lines: Seq<Seq<char>>,
    limit: Option<usize>,
) -> Result<Seq<Seq<i16>>, RecordingError>
    decreases lines.len(),
{
    if lines.len() == 0 {
        Ok(seq![])
    } else {
        match samples(lines.drop_last(), limit) {
            Err(e) => Err(e),
            Ok(before) => {
                if blank(lines.last()) {
                    Ok(before)
                } else if at_limit(limit, before.len()) {
                    Err(RecordingError::TooManyRows)
                } else {
                    match row(lines.last()) {
                        Ok(sample) => Ok(before.push(sample)),
                        Err(error) => Err(
                            RecordingError::BadRow { line: lines.len() as usize, error },
                        ),
                    }
                }
            },
        }
    }
}

/// The readings of each sample.
pub open spec fn unpacked(stream: Seq<Sample>) -> Seq<Seq<i16>> {
    Seq::new(stream.len(), |i: int| stream[i]@)
}

/// What a stream recording holds.
pub open spec fn stream_of(text: Seq<char>) -> Result<Seq<Seq<i16>>, RecordingError> {
    samples(crate::text::lines(text), None)
}

/// What a window recording holds.
pub open spec fn window_of(text: Seq<char>) -> Result<Seq<Seq<i16>>, RecordingError> {
    match samples(crate::text::lines(text), Some(WINDOW_LEN)) {
        Err(e) => Err(e),
        Ok(rows) => {
            if rows.len() == WINDOW_LEN {
                Ok(rows)
            } else {
                Err(RecordingError::TooFewRows { rows: rows.len() as usize })
            }
        },
    }
}

/// Read the sample on a trimmed line.
fn parse_row(line: &[char]) -> (r: Result<Sample, RowError>)
    ensures
        r is Ok <==> readings(crate::text::fields(line@, ','), N_AXES as int) is Ok,
        r matches Ok(s) ==> readings(crate::text::fields(line@, ','), N_AXES as int) == Ok::<
            Seq<i16>,
            RowError,
        >(s@),
        r matches Err(e) ==> readings(crate::text::fields(line@, ','), N_AXES as int) == Err::<
            Seq<i16>,
            RowError,
        >(e),
{
    let mut s: Sample = DEFAULT_SAMPLE;
    let mut rest: &[char] = line;
    let mut more: bool = true;
    let mut axis: usize = 0;
    let ghost columns = crate::text::fields(line@, ',');
    assert(s@.take(0) =~= seq![]);
    while axis < N_AXES
        invariant
            axis <= N_AXES,
            columns == crate::text::fields(line@, ','),
            axis <= columns.len(),
            more ==> crate::text::fields(rest@, ',') == columns.skip(axis as int),
            !more ==> axis == columns.len(),
            readings(columns, axis as int) == Ok::<Seq<i16>, RowError>(s@.take(axis as int)),
        decreases N_AXES - axis,
    {
        if !more {
            proof {
                lemma_reading_error(columns, axis + 1, N_AXES as int);
            }
            return Err(RowError::MissingColumn);
        }
        let n: usize = rest.len();
        let k: usize = find(rest, ',');
        let ghost column = columns[axis as int];
        proof {
            assert(column == crate::text::fields(rest@, ',')[0]);
            assert(rest@.take(n as int) =~= rest@);
        }
        match parse_number(trim(&rest[0..k])) {
            Ok(v) => {
                let ghost before = s@;
                s[axis] = v;
                assert(s@.take(axis + 1) =~= before.take(axis as int).push(v));
            },
            Err(e) => {
                proof {
                    lemma_reading_error(columns, axis + 1, N_AXES as int);
                }
                return Err(RowError::BadNumber(e));
            },
        }
        proof {
            if k < n {
                let tail = crate::text::fields(rest@.skip(k + 1), ',');
                assert(columns.skip(axis as int) =~= seq![column] + tail);
                assert(columns.skip(axis + 1) =~= columns.skip(axis as int).skip(1));
                assert(tail =~= columns.skip(axis + 1));
            }
        }
        if k < n {
            rest = &rest[k + 1..n];
        } else {
            more = false;
        }
        axis += 1;
    }
    assert(s@.take(N_AXES as int) =~= s@);
    Ok(s)
}

/// What is wrong with a column is wrong with the row.
proof fn lemma_reading_error(columns: Seq<Seq<char>>, k: int, n: int)
    requires
        k <= n,
        readings(columns, k) is Err,
    ensures
        readings(columns, n) == readings(columns, k),
    decreases n - k,
{
    if k < n {
        lemma_reading_error(columns, k, n - 1);
    }
}

/// What is wrong with a line is wrong with the recording.
proof fn lemma_sample_error(lines: Seq<Seq<char>>, k: int, limit: Option<usize>)
    requires
        0 <= k <= lines.len(),
        samples(lines.take(k), limit) is Err,
    ensures
        samples(lines, limit) == samples(lines.take(k), limit),
    decreases lines.len() - k,
{
    if k < lines.len() {
        assert(lines.take(k + 1).drop_last() =~= lines.take(k));
        lemma_sample_error(lines, k + 1, limit);
    } else {
        assert(lines.take(k) =~= lines);
    }
}

/// Read the samples of a recording, up to a limit.
fn parse_samples(text: &str, limit: Option<usize>) -> (r: Result<Vec<Sample>, RecordingError>)
    ensures
        r is Ok <==> samples(crate::text::lines(text@), limit) is Ok,
        r matches Ok(v) ==> samples(crate::text::lines(text@), limit) == Ok::<
            Seq<Seq<i16>>,
            RecordingError,
        >(unpacked(v@)),
        r matches Err(e) ==> samples(crate::text::lines(text@), limit) == Err::<
            Seq<Seq<i16>>,
            RecordingError,
        >(e),
{
    let chars: Vec<char> = characters(text);
    let mut rest: &[char] = chars.as_slice();
    let mut stream: Vec<Sample> = Vec::new();
    let mut count: usize = 0;
    let ghost lines = crate::text::lines(text@);
    assert(unpacked(stream@) =~= seq![]);
    assert(rest.len() <= usize::MAX);
    while rest.len() > 0
        invariant
            lines == crate::text::lines(text@),
            count <= lines.len(),
            count + rest@.len() <= usize::MAX,
            crate::text::lines(rest@) == lines.skip(count as int),
            samples(lines.take(count as int), limit) == Ok::<Seq<Seq<i16>>, RecordingError>(
                unpacked(stream@),
            ),
        decreases rest@.len(),
    {
        let n: usize = rest.len();
        let k: usize = find(rest, '\n');
        let ghost now = lines.take(count + 1);
        proof {
            assert(crate::text::lines(rest@).len() > 0);
            assert(lines[count as int] == crate::text::lines(rest@)[0]);
            assert(now.drop_last() =~= lines.take(count as int));
            assert(now.last() == rest@.take(k as int));
            if samples(now, limit) is Err {
                lemma_sample_error(lines, count + 1, limit);
            }
        }
        count += 1;
        let line: &[char] = trim(&rest[0..k]);
        if line.len() > 0 {
            if let Some(most) = limit {
                if stream.len() >= most {
                    return Err(RecordingError::TooManyRows);
                }
            }
            match parse_row(line) {
                Ok(s) => {
                    let ghost before = stream@;
                    stream.push(s);
                    assert(unpacked(stream@) =~= unpacked(before).push(s@));
                },
                Err(error) => {
                    return Err(RecordingError::BadRow { line: count, error });
                },
            }
        }
        proof {
            if k < n {
                let tail = crate::text::lines(rest@.skip(k + 1));
                assert(lines.skip(count - 1) =~= seq![now.last()] + tail);
                assert(lines.skip(count as int) =~= lines.skip(count - 1).skip(1));
                assert(tail =~= lines.skip(count as int));
            }
        }
        if k < n {
            rest = &rest[k + 1..n];
        } else {
            rest = &rest[n..n];
        }
    }
    assert(lines.take(count as int) =~= lines);
    Ok(stream)
}

/// Read a stream recording of any length.
pub fn parse_stream(text: &str) -> (r: Result<Vec<Sample>, RecordingError>)
    ensures
        r is Ok <==> stream_of(text@) is Ok,
        r matches Ok(v) ==> stream_of(text@) == Ok::<Seq<Seq<i16>>, RecordingError>(unpacked(v@)),
        r matches Err(e) ==> stream_of(text@) == Err::<Seq<Seq<i16>>, RecordingError>(e),
{
    parse_samples(text, None)
}

/// Read a window recording, which holds exactly [`WINDOW_LEN`] samples.
pub fn parse_window(text: &str) -> (r: Result<[Sample; WINDOW_LEN], RecordingError>)
    ensures
        r is Ok <==> window_of(text@) is Ok,
        r matches Ok(w) ==> window_of(text@) == Ok::<Seq<Seq<i16>>, RecordingError>(unpacked(w@)),
        r matches Err(e) ==> window_of(text@) == Err::<Seq<Seq<i16>>, RecordingError>(e),
{
    let rows: Vec<Sample> = match parse_samples(text, Some(WINDOW_LEN)) {
        Ok(rows) => rows,
        Err(e) => return Err(e),
    };
    if rows.len() != WINDOW_LEN {
        return Err(RecordingError::TooFewRows { rows: rows.len() });
    }
    let mut window: [Sample; WINDOW_LEN] = [DEFAULT_SAMPLE; WINDOW_LEN];
    let mut i: usize = 0;
    while i < WINDOW_LEN
        invariant
            i <= WINDOW_LEN,
            rows@.len() == WINDOW_LEN,
            forall|j: int| 0 <= j < i ==> #[trigger] window@[j] == rows@[j],
        decreases WINDOW_LEN - i,
    {
        window[i] = rows[i];
        i += 1;
    }
    assert(window@ =~= rows@);
    Ok(window)
}

/// How the log names a state.
pub open spec fn state_label(s: State) -> Seq<char> {
    match s {
        State::Normal => "NORMAL"@,
        State::Alert { class } => "ALERT:"@ + class.label(),
    }
}

/// Render an alert state for the human-readable log.
pub fn fmt_state(s: State) -> (r: String)
    ensures
        r@ == state_label(s),
{
    let mut r: String = String::new();
    match s {
        State::Normal => r.append("NORMAL"),
        State::Alert { class } => {
            r.append("ALERT:");
            r.append(class.name());
        },
    }
    r
}

/// The state a run is in after a history of states, one per window; a run starts out normal.
pub open spec fn latest(history: Seq<State>) -> State {
    if history.len() == 0 {
        State::Normal
    } else {
        history.last()
    }
}

/// The state that a new one replaces after a history, if it is another one.
pub open spec fn change(history: Seq<State>, state: State) -> Option<State> {
    if state != latest(history) {
        Some(latest(history))
    } else {
        None
    }
}

/// How many alerts a history raises: changes of state that end in an alert, the change from
/// one latched fault to another among them.
pub open spec fn raised(history: Seq<State>) -> nat
    decreases history.len(),
{
    if history.len() == 0 {
        0
    } else {
        let before = history.drop_last();
        if history.last() != latest(before) && history.last() is Alert {
            raised(before) + 1
        } else {
            raised(before)
        }
    }
}

/// What a replay has seen so far.
pub struct ReplayLog {
    windows: usize,
    alerts: usize,
    prev: State,
    history: Ghost<Seq<State>>,
}

impl View for ReplayLog {
    type V = Seq<State>;

    /// The state after each window, oldest first.
    closed spec fn view(&self) -> Seq<State> {
        self.history@
    }
}

impl ReplayLog {
    #[verifier::type_invariant]
    spec fn consistent(self) -> bool {
        &&& self.windows == self.history@.len()
        &&& self.alerts == raised(self.history@)
        &&& self.prev == latest(self.history@)
        &&& self.alerts <= self.windows
    }

    /// A log before the first window.
    pub fn new() -> (log: ReplayLog)
        ensures
            log@ == Seq::<State>::empty(),
    {
        ReplayLog { windows: 0, alerts: 0, prev: State::Normal, history: Ghost(Seq::empty()) }
    }

    /// Record the state after one more window. Returns the state that it replaces, if it is
    /// another one.
    pub fn record(&mut self, state: State) -> (from: Option<State>)
        requires
            old(self)@.len() < usize::MAX,
        ensures
            final(self)@ == old(self)@.push(state),
            from == change(old(self)@, state),
    {
        proof {
            use_type_invariant(&*self);
        }
        let changed: bool = state != self.prev;
        let from: Option<State> = if changed {
            Some(self.prev)
        } else {
            None
        };
        let alerts: usize = match state {
            State::Alert { class } if changed => self.alerts + 1,
            _ => self.alerts,
        };
        let history: Ghost<Seq<State>> = Ghost(self.history@.push(state));
        assert(history@.drop_last() =~= self.history@);
        *self = ReplayLog { windows: self.windows + 1, alerts, prev: state, history };
        from
    }

    /// How many windows were recorded.
    pub fn windows(&self) -> (n: usize)
        ensures
            n == self@.len(),
    {
        proof {
            use_type_invariant(self);
        }
        self.windows
    }

    /// How many alerts were raised.
    pub fn alerts(&self) -> (n: usize)
        ensures
            n == raised(self@),
    {
        proof {
            use_type_invariant(self);
        }
        self.alerts
    }

    /// The state after the last window.
    pub fn state(&self) -> (s: State)
        ensures
            s == latest(self@),
    {
        proof {
            use_type_invariant(self);
        }
        self.prev
    }
}

/// A run of the pipeline over a stream.
pub struct Replay {
    /// The outcome of each window, oldest first.
    pub outcomes: Vec<Outcome>,
    /// What the run has seen.
    pub log: ReplayLog,
    /// The samples at the end of the stream that do not fill a window.
    pub leftover: usize,
}

/// The probabilities of each outcome.
pub open spec fn probabilities(outcomes: Seq<Outcome>) -> Seq<Seq<F32Bits>> {
    Seq::new(outcomes.len(), |i: int| outcomes[i].probs@)
}

/// The state of each outcome.
pub open spec fn states(outcomes: Seq<Outcome>) -> Seq<State> {
    Seq::new(outcomes.len(), |i: int| outcomes[i].state)
}

/// The state that outcome `i` replaces, if it brings another one.
pub open spec fn replaced(outcomes: Seq<Outcome>, i: int) -> Option<State> {
    change(states(outcomes).take(i), outcomes[i].state)
}

/// Whether a forward pass in some run state gives these probabilities.
pub open spec fn classified<'buf, 'w, T, X, C, R, P, G, M, A, S>(
    kernels: Kernels<X, C, R, P, G, M, A, S>,
    config: ModelConfig,
    weights: Weights<'w>,
    window: Seq<Sample>,
    out: Outcome,
) -> bool where
    T: 'buf,
    X: Fn(i16) -> T,
    C: Fn(&'buf mut [T], &[T], &[F32Bits], &[F32Bits], ConvShape) -> &'buf mut [T],
    R: Fn(&'buf mut [T]) -> &'buf mut [T],
    P: Fn(&'buf mut [T], &[T], usize, usize) -> &'buf mut [T],
    G: Fn(F32Bits) -> T,
    M: Fn(&[T], &[F32Bits], usize, usize) -> [F32Bits; N_CLASSES],
    A: Fn([F32Bits; N_CLASSES], &[F32Bits]) -> [F32Bits; N_CLASSES],
    S: Fn([F32Bits; N_CLASSES]) -> [F32Bits; N_CLASSES],
 {
    exists|before: Buffers<T>, after: Buffers<T>|
        before.shaped(config) && after.shaped(config) && #[trigger] kernels.runs(
            config,
            weights,
            window,
            out.features@,
            before,
            after,
            out.probs,
        )
}

/// Whether the last of these outcomes is what its probabilities call for, with the state of a
/// machine that started in `start` and has seen them all.
pub open spec fn decided(start: Condition, seen: Seq<Outcome>) -> bool {
    let out = seen.last();
    &&& out.class == crate::alert::dominant(out.probs@)
    &&& out.confidence == crate::alert::dominant_prob(out.probs@)
    &&& out.state == start.after_all(probabilities(seen)).state
}

/// One more outcome leaves the ones before it as they were, and is decided where the machine
/// went on by its probabilities.
proof fn lemma_next_outcome(start: Condition, before: Seq<Outcome>, out: Outcome)
    ensures
        ({
            let after = before.push(out);
            let now = start.after_all(probabilities(before));
            &&& states(after) == states(before).push(out.state)
            &&& start.after_all(probabilities(after)) == now.after(out.probs@)
            &&& replaced(after, before.len() as int) == change(states(before), out.state)
            &&& crate::pipeline::concludes(out, now, now.after(out.probs@)) ==> decided(
                start,
                after.take(before.len() as int + 1),
            )
            &&& forall|i: int|
                #![trigger after[i]]
                0 <= i < before.len() ==> {
                    &&& after[i] == before[i]
                    &&& after.take(i + 1) == before.take(i + 1)
                    &&& replaced(after, i) == replaced(before, i)
                }
        }),
{
    let after = before.push(out);
    assert(probabilities(after).drop_last() =~= probabilities(before));
    assert(after.take(after.len() as int) =~= after);
    assert(states(after) =~= states(before).push(out.state));
    assert(states(after).take(before.len() as int) =~= states(before));
    assert forall|i: int|
        #![trigger after[i]]
        0 <= i < before.len() implies after[i] == before[i] && after.take(i + 1) == before.take(
        i + 1,
    ) && replaced(after, i) == replaced(before, i) by {
        assert(after.take(i + 1) =~= before.take(i + 1));
        assert(states(after).take(i) =~= states(before).take(i));
    }
}

/// Take one window of a replay through the pipeline, record its state and report it.
fn replay_window<'buf, 'w, T, N1, N2, N3, N4, N5, X, C, R, P, G, M, A, S, E>(
    config: &ModelConfig,
    weights: &Weights<'w>,
    window: &[Sample; WINDOW_LEN],
    state: &mut RunState<'buf, T>,
    alert: &mut AlertMachine,
    log: &mut ReplayLog,
    numerics: &Numerics<N1, N2, N3, N4, N5>,
    kernels: &Kernels<X, C, R, P, G, M, A, S>,
    report: &E,
) -> (out: Outcome) where
    N1: Fn(i64, usize) -> F32Bits,
    N2: Fn(u16, F32Bits) -> F32Bits,
    N3: Fn(&[i16]) -> F32Bits,
    N4: Fn(&[i16; WINDOW_LEN]) -> [F32Bits; FFT_BINS],
    N5: Fn(&[F32Bits]) -> F32Bits,
    T: 'buf,
    X: Fn(i16) -> T,
    C: Fn(&'buf mut [T], &[T], &[F32Bits], &[F32Bits], ConvShape) -> &'buf mut [T],
    R: Fn(&'buf mut [T]) -> &'buf mut [T],
    P: Fn(&'buf mut [T], &[T], usize, usize) -> &'buf mut [T],
    G: Fn(F32Bits) -> T,
    M: Fn(&[T], &[F32Bits], usize, usize) -> [F32Bits; N_CLASSES],
    A: Fn([F32Bits; N_CLASSES], &[F32Bits]) -> [F32Bits; N_CLASSES],
    S: Fn([F32Bits; N_CLASSES]) -> [F32Bits; N_CLASSES],
    E: Fn(usize, &Outcome, Option<State>),

    requires
        config.convolves(),
        old(state).shaped(*config),
        weights.shaped(*config),
        numerics.total(),
        kernels.usable(),
        old(log)@.len() < usize::MAX,
        forall|n: usize, out: &Outcome, from: Option<State>| #[trigger]
            report.requires((n, out, from)),
    ensures
        final(state).shaped(*config),
        numerics.extracts(window@, out.features@, N_AXES as int),
        classified(*kernels, *config, *weights, window@, out),
        crate::pipeline::concludes(out, old(alert)@, final(alert)@),
        final(log)@ == old(log)@.push(out.state),
        report.ensures((old(log)@.len() as usize, &out, change(old(log)@, out.state)), ()),
{
    let out: Outcome = process_window(config, weights, window, state, alert, numerics, kernels);
    let index: usize = log.windows();
    let from: Option<State> = log.record(out.state);
    report(index, &out, from);
    out
}

/// Chop a stream into windows and drive the full pipeline over them.
///
/// Every window goes through [`process_window`]. As soon as it has, `report` gets its number,
/// its outcome, and the state that the outcome replaces, if it brings another one.
pub fn replay<'buf, 'w, T, N1, N2, N3, N4, N5, X, C, R, P, G, M, A, S, E>(
    config: &ModelConfig,
    weights: &Weights<'w>,
    stream: &[Sample],
    state: &mut RunState<'buf, T>,
    alert: &mut AlertMachine,
    numerics: &Numerics<N1, N2, N3, N4, N5>,
    kernels: &Kernels<X, C, R, P, G, M, A, S>,
    report: &E,
) -> (r: Replay) where
    N1: Fn(i64, usize) -> F32Bits,
    N2: Fn(u16, F32Bits) -> F32Bits,
    N3: Fn(&[i16]) -> F32Bits,
    N4: Fn(&[i16; WINDOW_LEN]) -> [F32Bits; FFT_BINS],
    N5: Fn(&[F32Bits]) -> F32Bits,
    T: 'buf,
    X: Fn(i16) -> T,
    C: Fn(&'buf mut [T], &[T], &[F32Bits], &[F32Bits], ConvShape) -> &'buf mut [T],
    R: Fn(&'buf mut [T]) -> &'buf mut [T],
    P: Fn(&'buf mut [T], &[T], usize, usize) -> &'buf mut [T],
    G: Fn(F32Bits) -> T,
    M: Fn(&[T], &[F32Bits], usize, usize) -> [F32Bits; N_CLASSES],
    A: Fn([F32Bits; N_CLASSES], &[F32Bits]) -> [F32Bits; N_CLASSES],
    S: Fn([F32Bits; N_CLASSES]) -> [F32Bits; N_CLASSES],
    E: Fn(usize, &Outcome, Option<State>),

    requires
        config.convolves(),
        old(state).shaped(*config),
        weights.shaped(*config),
        numerics.total(),
        kernels.usable(),
        forall|n: usize, out: &Outcome, from: Option<State>| #[trigger]
            report.requires((n, out, from)),
    ensures
        r.outcomes@.len() == crate::pipeline::windows(stream@).len(),
        r.leftover == crate::pipeline::pending(stream@).len(),
        r.log@ == states(r.outcomes@),
        forall|i: int|
            0 <= i < r.outcomes@.len() ==> {
                let out = #[trigger] r.outcomes@[i];
                let window = crate::pipeline::windows(stream@)[i];
                &&& numerics.extracts(window, out.features@, N_AXES as int)
                &&& classified(*kernels, *config, *weights, window, out)
                &&& decided(old(alert)@, r.outcomes@.take(i + 1))
                &&& report.ensures((i as usize, &out, replaced(r.outcomes@, i)), ())
            },
        final(alert)@ == old(alert)@.after_all(probabilities(r.outcomes@)),
        final(state).shaped(*config),
{
    let mut windower = Windower::new();
    let mut outcomes: Vec<Outcome> = Vec::new();
    let mut log = ReplayLog::new();
    let mut n: usize = 0;
    while n < stream.len()
        invariant
            n <= stream@.len(),
            config.convolves(),
            state.shaped(*config),
            weights.shaped(*config),
            numerics.total(),
            kernels.usable(),
            forall|n: usize, out: &Outcome, from: Option<State>| #[trigger]
                report.requires((n, out, from)),
            windower@ == crate::pipeline::pending(stream@.take(n as int)),
            outcomes@.len() == crate::pipeline::windows(stream@.take(n as int)).len(),
            outcomes@.len() <= n,
            log@ == states(outcomes@),
            forall|i: int|
                0 <= i < outcomes@.len() ==> {
                    let out = #[trigger] outcomes@[i];
                    let window = crate::pipeline::windows(stream@.take(n as int))[i];
                    &&& numerics.extracts(window, out.features@, N_AXES as int)
                    &&& classified(*kernels, *config, *weights, window, out)
                    &&& decided(old(alert)@, outcomes@.take(i + 1))
                    &&& report.ensures((i as usize, &out, replaced(outcomes@, i)), ())
                },
            alert@ == old(alert)@.after_all(probabilities(outcomes@)),
        decreases stream@.len() - n,
    {
        assert(stream@.take(n + 1).drop_last() =~= stream@.take(n as int));
        if let Some(window) = windower.push(stream[n]) {
            let out: Outcome = replay_window(
                config,
                weights,
                window,
                state,
                alert,
                &mut log,
                numerics,
                kernels,
                report,
            );
            proof {
                lemma_next_outcome(old(alert)@, outcomes@, out);
            }
            outcomes.push(out);
        }
        n += 1;
    }
    assert(stream@.take(n as int) =~= stream@);
    Replay { outcomes, log, leftover: windower.fill_level() }
}

/// A sample as a line of a recording.
pub open spec fn row_text(sample: Seq<i16>) -> Seq<char> {
    crate::text::signed_decimal(sample[0] as int) + seq![','] + (crate::text::signed_decimal(
        sample[1] as int,
    ) + seq![','] + crate::text::signed_decimal(sample[2] as int))
}

/// A stream as a recording.
pub open spec fn recording(stream: Seq<Seq<i16>>) -> Seq<char>
    decreases stream.len(),
{
    if stream.len() == 0 {
        seq![]
    } else {
        row_text(stream[0]) + seq!['\n'] + recording(stream.skip(1))
    }
}

/// A written number holds neither separators nor white space.
proof fn lemma_written_number(v: i16)
    ensures
        crate::text::signed_decimal(v as int).len() > 0,
        forall|i: int|
            0 <= i < crate::text::signed_decimal(v as int).len() ==> {
                let c = #[trigger] crate::text::signed_decimal(v as int)[i];
                c == '-' || '0' <= c <= '9'
            },
        crate::text::trimmed(crate::text::signed_decimal(v as int))
            == crate::text::signed_decimal(v as int),
{
    if v < 0 {
        crate::text::lemma_decimal_digits((-v) as nat);
    } else {
        crate::text::lemma_decimal_digits(v as nat);
    }
}

/// A written sample reads back as itself.
proof fn lemma_written_row(sample: Seq<i16>)
    requires
        sample.len() == N_AXES,
    ensures
        row(row_text(sample)) == Ok::<Seq<i16>, RowError>(sample),
        !blank(row_text(sample)),
        !row_text(sample).contains('\n'),
{
    let x = crate::text::signed_decimal(sample[0] as int);
    let y = crate::text::signed_decimal(sample[1] as int);
    let z = crate::text::signed_decimal(sample[2] as int);
    lemma_written_number(sample[0]);
    lemma_written_number(sample[1]);
    lemma_written_number(sample[2]);
    crate::text::law_fields_split_at_the_separator(x, ',', y + seq![','] + z);
    crate::text::law_fields_split_at_the_separator(y, ',', z);
    crate::text::law_fields_split_at_the_separator(z, ',', seq![]);
    crate::text::law_written_numbers_read_back(sample[0]);
    crate::text::law_written_numbers_read_back(sample[1]);
    crate::text::law_written_numbers_read_back(sample[2]);
    reveal_with_fuel(readings, 4);
    assert(Seq::<i16>::empty().push(sample[0]).push(sample[1]).push(sample[2]) =~= sample);
}

/// The lines of a recording are its samples.
proof fn lemma_recording_lines(stream: Seq<Seq<i16>>)
    requires
        forall|i: int| 0 <= i < stream.len() ==> #[trigger] stream[i].len() == N_AXES,
    ensures
        crate::text::lines(recording(stream)) == stream.map_values(|s: Seq<i16>| row_text(s)),
    decreases stream.len(),
{
    if stream.len() > 0 {
        let rest = stream.skip(1);
        lemma_written_row(stream[0]);
        lemma_recording_lines(rest);
        crate::text::law_lines_split_at_the_line_feed(row_text(stream[0]), recording(rest));
        assert(stream.map_values(|s: Seq<i16>| row_text(s)) =~= seq![row_text(stream[0])]
            + rest.map_values(|s: Seq<i16>| row_text(s)));
    }
}

/// The samples on the lines of a recording are those that were written.
proof fn lemma_recorded_samples(stream: Seq<Seq<i16>>, limit: Option<usize>)
    requires
        forall|i: int| 0 <= i < stream.len() ==> #[trigger] stream[i].len() == N_AXES,
        limit matches Some(most) ==> stream.len() <= most,
    ensures
        samples(stream.map_values(|s: Seq<i16>| row_text(s)), limit) == Ok::<
            Seq<Seq<i16>>,
            RecordingError,
        >(stream),
    decreases stream.len(),
{
    let texts = stream.map_values(|s: Seq<i16>| row_text(s));
    if stream.len() == 0 {
        assert(stream =~= seq![]);
    } else {
        let before = stream.drop_last();
        lemma_recorded_samples(before, limit);
        assert(texts.drop_last() =~= before.map_values(|s: Seq<i16>| row_text(s)));
        lemma_written_row(stream.last());
        assert(before.push(stream.last()) =~= stream);
    }
}

/// A stream that was written as a recording reads back as itself.
pub proof fn law_recorded_streams_read_back(stream: Seq<Seq<i16>>)
    requires
        forall|i: int| 0 <= i < stream.len() ==> #[trigger] stream[i].len() == N_AXES,
    ensures
        stream_of(recording(stream)) == Ok::<Seq<Seq<i16>>, RecordingError>(stream),
{
    lemma_recording_lines(stream);
    lemma_recorded_samples(stream, None);
}

/// A window that was written as a recording reads back as itself.
pub proof fn law_recorded_windows_read_back(window: Seq<Seq<i16>>)
    requires
        window.len() == WINDOW_LEN,
        forall|i: int| 0 <= i < window.len() ==> #[trigger] window[i].len() == N_AXES,
    ensures
        window_of(recording(window)) == Ok::<Seq<Seq<i16>>, RecordingError>(window),
{
    lemma_recording_lines(window);
    lemma_recorded_samples(window, Some(WINDOW_LEN));
}

/// The two readers differ only in what they refuse: a text is a window exactly when it is a
/// stream of [`WINDOW_LEN`] samples, and then both readers give the same ones.
pub proof fn law_windows_are_full_streams(text: Seq<char>, rows: Seq<Seq<i16>>)
    ensures
        window_of(text) == Ok::<Seq<Seq<i16>>, RecordingError>(rows) <==> (stream_of(text) == Ok::<
            Seq<Seq<i16>>,
            RecordingError,
        >(rows) && rows.len() == WINDOW_LEN),
{
    let lines = crate::text::lines(text);
    lemma_limited_samples(lines, Some(WINDOW_LEN));
    lemma_unlimited_samples(lines, Some(WINDOW_LEN));
}

/// A line that is not blank after [`WINDOW_LEN`] good rows is refused as one too many, whatever
/// it or the lines after it hold.
pub proof fn law_rows_beyond_the_window_are_refused(text: Seq<char>, k: int)
    requires
        0 <= k < crate::text::lines(text).len(),
        samples(crate::text::lines(text).take(k), None) matches Ok(rows) && rows.len()
            == WINDOW_LEN,
        !blank(crate::text::lines(text)[k]),
    ensures
        window_of(text) == Err::<Seq<Seq<i16>>, RecordingError>(RecordingError::TooManyRows),
{
    let lines = crate::text::lines(text);
    lemma_unlimited_samples(lines.take(k), Some(WINDOW_LEN));
    assert(lines.take(k + 1).drop_last() =~= lines.take(k));
    lemma_sample_error(lines, k + 1, Some(WINDOW_LEN));
}

/// Lines that pass under a limit pass without one.
proof fn lemma_limited_samples(lines: Seq<Seq<char>>, limit: Option<usize>)
    ensures
        samples(lines, limit) is Ok ==> samples(lines, None) == samples(lines, limit),
    decreases lines.len(),
{
    if lines.len() > 0 {
        lemma_limited_samples(lines.drop_last(), limit);
    }
}

/// Lines that pass without a limit and hold no more than it allows pass under it.
proof fn lemma_unlimited_samples(lines: Seq<Seq<char>>, limit: Option<usize>)
    requires
        limit is Some,
    ensures
        samples(lines, None) matches Ok(rows) ==> rows.len() <= limit->0 ==> samples(lines, limit)
            == samples(lines, None),
    decreases lines.len(),
{
    if lines.len() > 0 {
        lemma_unlimited_samples(lines.drop_last(), limit);
    }
}

/// A history raises no alert exactly when it never leaves the normal state.
pub proof fn law_no_alert_raised_iff_always_normal(history: Seq<State>)
    ensures
        raised(history) <= history.len(),
        raised(history) == 0 <==> forall|i: int|
            0 <= i < history.len() ==> #[trigger] history[i] == State::Normal,
    decreases history.len(),
{
    if history.len() > 0 {
        let before = history.drop_last();
        law_no_alert_raised_iff_always_normal(before);
        assert forall|i: int| 0 <= i < before.len() implies before[i] == history[i] by {}
        if raised(history) == 0 {
            assert forall|i: int| 0 <= i < history.len() implies #[trigger] history[i]
                == State::Normal by {}
        } else if raised(before) > 0 {
            let i = choose|i: int| 0 <= i < before.len() && before[i] != State::Normal;
            assert(history[i] != State::Normal);
        }
    }
}

/// What a line says, column by column: of the trimmed line, cut at its commas, the first three
/// columns, each trimmed and read as a number. The first thing that is wrong is reported, from
/// the left.
pub proof fn law_rows_are_three_columns(line: Seq<char>)
    ensures
        ({
            let columns = crate::text::fields(crate::text::trimmed(line), ',');
            let x = crate::text::number(crate::text::trimmed(columns[0]));
            let y = crate::text::number(crate::text::trimmed(columns[1]));
            let z = crate::text::number(crate::text::trimmed(columns[2]));
            &&& columns.len() >= 1
            &&& x matches Err(e) ==> row(line) == Err::<Seq<i16>, RowError>(RowError::BadNumber(e))
            &&& x is Ok && columns.len() == 1 ==> row(line) == Err::<Seq<i16>, RowError>(
                RowError::MissingColumn,
            )
            &&& x is Ok && columns.len() > 1 && y is Err ==> row(line) == Err::<Seq<i16>, RowError>(
                RowError::BadNumber(y->Err_0),
            )
            &&& x is Ok && columns.len() == 2 && y is Ok ==> row(line) == Err::<
                Seq<i16>,
                RowError,
            >(RowError::MissingColumn)
            &&& x is Ok && columns.len() > 2 && y is Ok && z is Err ==> row(line) == Err::<
                Seq<i16>,
                RowError,
            >(RowError::BadNumber(z->Err_0))
            &&& x is Ok && columns.len() > 2 && y is Ok && z is Ok ==> row(line) == Ok::<
                Seq<i16>,
                RowError,
            >(seq![x->Ok_0 as i16, y->Ok_0 as i16, z->Ok_0 as i16])
        }),
{
    reveal_with_fuel(readings, 4);
    let columns = crate::text::fields(crate::text::trimmed(line), ',');
    let x = crate::text::number(crate::text::trimmed(columns[0]));
    let y = crate::text::number(crate::text::trimmed(columns[1]));
    let z = crate::text::number(crate::text::trimmed(columns[2]));
    assert(Seq::<i16>::empty().push(x->Ok_0 as i16).push(y->Ok_0 as i16).push(z->Ok_0 as i16)
        =~= seq![x->Ok_0 as i16, y->Ok_0 as i16, z->Ok_0 as i16]);
}

/// What one more line adds to a recording: nothing if it is blank, else its sample; a sample
/// beyond the limit is refused before it is read, and a bad one with the number of its line. What
/// is wrong stays wrong.
pub proof fn law_recordings_grow_line_by_line(
    lines: Seq<Seq<char>>,
    line: Seq<char>,
    limit: Option<usize>,
)
    ensures
        samples(Seq::empty(), limit) == Ok::<Seq<Seq<i16>>, RecordingError>(Seq::empty()),
        samples(lines.push(line), limit) == (match samples(lines, limit) {
            Err(e) => Err(e),
            Ok(before) => if crate::text::trimmed(line).len() == 0 {
                Ok(before)
            } else if limit is Some && before.len() >= limit->0 {
                Err(RecordingError::TooManyRows)
            } else {
                match row(line) {
                    Ok(sample) => Ok(before.push(sample)),
                    Err(error) => Err(
                        RecordingError::BadRow { line: (lines.len() + 1) as usize, error },
                    ),
                }
            },
        }),
{
    assert(lines.push(line).drop_last() =~= lines);
}

/// What is read of a stream: the samples on its lines, in order, or the first thing that is wrong.
pub proof fn law_streams_are_their_lines(text: &str, r: Result<Vec<Sample>, RecordingError>)
    requires
        call_ensures(parse_stream, (text,), r),
    ensures
        match samples(crate::text::lines(text@), None) {
            Err(e) => r == Err::<Vec<Sample>, RecordingError>(e),
            Ok(rows) => {
                &&& r matches Ok(v)
                &&& v@.len() == rows.len()
                &&& forall|i: int| 0 <= i < rows.len() ==> (#[trigger] v@[i])@ == rows[i]
            },
        },
{
    if let Ok(v) = r {
        assert forall|i: int| 0 <= i < v@.len() implies (#[trigger] v@[i])@ == unpacked(v@)[i] by {}
        assert(unpacked(v@).len() == v@.len());
    }
}

/// What is read of a window: the samples on its lines where there are 512, the first thing that
/// is wrong on the way, or how many there are where there are fewer.
pub proof fn law_windows_are_their_lines(
    text: &str,
    r: Result<[Sample; WINDOW_LEN], RecordingError>,
)
    requires
        call_ensures(parse_window, (text,), r),
    ensures
        match samples(crate::text::lines(text@), Some(512usize)) {
            Err(e) => r == Err::<[Sample; WINDOW_LEN], RecordingError>(e),
            Ok(rows) => if rows.len() != 512 {
                r == Err::<[Sample; WINDOW_LEN], RecordingError>(
                    RecordingError::TooFewRows { rows: rows.len() as usize },
                )
            } else {
                &&& r matches Ok(w)
                &&& forall|i: int| 0 <= i < 512 ==> (#[trigger] w@[i])@ == rows[i]
            },
        },
{
    if let Ok(w) = r {
        assert forall|i: int| 0 <= i < 512 implies (#[trigger] w@[i])@ == unpacked(w@)[i] by {}
    }
}

/// Every error of a recording has its words, with its numbers in decimal.
pub proof fn law_recording_errors_in_words(e: &RecordingError, n: NumberError, s: String)
    requires
        call_ensures(RecordingError::message, (e,), s),
    ensures
        *e == RecordingError::TooManyRows ==> s@ == "more than 512 sample rows"@,
        *e matches RecordingError::TooFewRows { rows } ==> s@ == "expected 512 sample rows, got "@
            + crate::text::decimal(rows as nat),
        *e matches RecordingError::BadRow { line, error } ==> error == RowError::MissingColumn
            ==> s@ == "line "@ + crate::text::decimal(line as nat) + ": expected 3 columns"@,
        *e matches RecordingError::BadRow { line, error } ==> error == RowError::BadNumber(n)
            ==> s@ == "line "@ + crate::text::decimal(line as nat) + (": "@ + n.words()),
{
}

/// How the log names a state: plainly, or with the class that is latched.
pub proof fn law_states_are_named(s: State, r: String)
    requires
        call_ensures(fmt_state, (s,), r),
    ensures
        s == State::Normal ==> r@ == "NORMAL"@,
        s == (State::Alert { class: Class::Normal }) ==> r@ == "ALERT:"@ + "normal"@,
        s == (State::Alert { class: Class::InnerRace }) ==> r@ == "ALERT:"@ + "inner_race"@,
        s == (State::Alert { class: Class::OuterRace }) ==> r@ == "ALERT:"@ + "outer_race"@,
        s == (State::Alert { class: Class::RollingElement }) ==> r@ == "ALERT:"@
            + "rolling_element"@,
{
}

/// What a history comes to, state by state: a run begins without an alert; one is counted
/// whenever an alert state follows another state, be it normal or an alert of another class; and
/// a change is reported with the state it replaces.
pub proof fn law_histories_grow_state_by_state(history: Seq<State>, s: State)
    ensures
        latest(Seq::empty()) == State::Normal,
        latest(history.push(s)) == s,
        raised(Seq::empty()) == 0,
        raised(history.push(s)) == raised(history) + (if s != State::Normal && s != latest(
            history,
        ) {
            1nat
        } else {
            0
        }),
        s == latest(history) ==> change(history, s) is None,
        s != latest(history) ==> change(history, s) == Some(latest(history)),
{
    assert(history.push(s).drop_last() =~= history);
}

/// What is reported of an outcome: the state of the outcome before it, or the normal state at the
/// beginning, where that is another one.
pub proof fn law_replaced_states_are_those_before(outcomes: Seq<Outcome>, i: int)
    requires
        0 <= i < outcomes.len(),
    ensures
        i == 0 ==> replaced(outcomes, i) == (if outcomes[0].state == State::Normal {
            None
        } else {
            Some(State::Normal)
        }),
        i > 0 ==> replaced(outcomes, i) == (if outcomes[i].state == outcomes[i - 1].state {
            None
        } else {
            Some(outcomes[i - 1].state)
        }),
        states(outcomes).len() == outcomes.len(),
        states(outcomes)[i] == outcomes[i].state,
        probabilities(outcomes).len() == outcomes.len(),
        probabilities(outcomes)[i] == outcomes[i].probs@,
{
    let before = states(outcomes).take(i);
    if i > 0 {
        assert(before.last() == outcomes[i - 1].state);
    }
}

/// What is decided of the last outcome: its class and its confidence are those of the most likely
/// class, and its state is that of a machine which has gone through the probabilities of all.
pub proof fn law_decided_outcomes_follow_the_machine(
    start: Condition,
    seen: Seq<Outcome>,
    last: Outcome,
    top: Class,
    p: F32Bits,
)
    requires
        decided(start, seen.push(last)),
        call_ensures(crate::alert::top_class, (&last.probs,), (top, p)),
    ensures
        last.class == top,
        last.confidence == p,
        last.state == start.after_all(probabilities(seen)).after(last.probs@).state,
{
    let all = seen.push(last);
    assert(all.last() == last);
    assert(probabilities(all).drop_last() =~= probabilities(seen));
    assert(probabilities(all).last() == last.probs@);
}

/// What is classified has been through a forward pass over its own window and features.
pub proof fn law_classified_windows_went_through_a_pass<'buf, 'w, T, X, C, R, P, G, M, A, S>(
    kernels: Kernels<X, C, R, P, G, M, A, S>,
    config: ModelConfig,
    weights: Weights<'w>,
    window: Seq<Sample>,
    out: Outcome,
) -> (r: (Buffers<T>, Buffers<T>)) where
    T: 'buf,
    X: Fn(i16) -> T,
    C: Fn(&'buf mut [T], &[T], &[F32Bits], &[F32Bits], ConvShape) -> &'buf mut [T],
    R: Fn(&'buf mut [T]) -> &'buf mut [T],
    P: Fn(&'buf mut [T], &[T], usize, usize) -> &'buf mut [T],
    G: Fn(F32Bits) -> T,
    M: Fn(&[T], &[F32Bits], usize, usize) -> [F32Bits; N_CLASSES],
    A: Fn([F32Bits; N_CLASSES], &[F32Bits]) -> [F32Bits; N_CLASSES],
    S: Fn([F32Bits; N_CLASSES]) -> [F32Bits; N_CLASSES],

    requires
        classified(kernels, config, weights, window, out),
    ensures
        r.0.x.len() == 1536,
        r.1.x.len() == 1536,
        r.1.fc_in.len() == config.c2 + 24,
        kernels.runs(config, weights, window, out.features@, r.0, r.1, out.probs),
{
    let (before, after) = choose|before: Buffers<T>, after: Buffers<T>|
        before.shaped(config) && after.shaped(config) && #[trigger] kernels.runs(
            config,
            weights,
            window,
            out.features@,
            before,
            after,
            out.probs,
        );
    (before, after)
}

} // verus!
