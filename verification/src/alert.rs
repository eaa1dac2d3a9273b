//! The decision state machine over the model's output.
//!
//! Each window the model yields a probability per [`Class`]. The node enters [`State::Alert`]
//! when the most likely class is a fault and its probability exceeds [`ALERT_CONFIDENCE`] (of a
//! distribution, no other class can exceed it then), and returns to
//! [`State::Normal`] only after [`NORMAL_WINDOWS_TO_CLEAR`] consecutive normal-class windows:
//! hysteresis that keeps a single noisy window from flapping the alert.
use crate::float32::{argmax, exceeds, F32Bits};
use crate::model::{Class, N_CLASSES};
use vstd::prelude::*;

verus! {

/// Fault-class confidence above which the node raises an alert: the bit pattern of `0.80`.
pub const ALERT_CONFIDENCE: F32Bits = 0x3F4C_CCCD;

/// Consecutive normal-class windows required to clear an alert.
pub const NORMAL_WINDOWS_TO_CLEAR: u32 = 3;

/// Whether the node is currently flagging a fault.
#[derive(Clone, Copy, Debug, PartialEq, Eq, Structural)]
pub enum State {
    /// No fault flagged.
    Normal,
    /// A fault class crossed the threshold; `class` is the latched fault.
    Alert {
        /// The fault class that triggered (and sustains) the alert.
        class: Class,
    },
}

/// The class with this model output index.
pub open spec fn class_at(i: int) -> Class {
    if i == 1 {
        Class::InnerRace
    } else if i == 2 {
        Class::OuterRace
    } else if i == 3 {
        Class::RollingElement
    } else {
        Class::Normal
    }
}

/// The most likely class of a window.
pub open spec fn dominant(probs: Seq<F32Bits>) -> Class {
    class_at(crate::float32::argmax_upto(probs, N_CLASSES as int))
}

/// The probability of the most likely class.
pub open spec fn dominant_prob(probs: Seq<F32Bits>) -> F32Bits {
    probs[crate::float32::argmax_upto(probs, N_CLASSES as int)]
}

/// The most likely class for a window and its probability: the argmax, ties broken toward the
/// lower index.
pub fn top_class(probs: &[F32Bits; N_CLASSES]) -> (r: (Class, F32Bits))
    ensures
        r.0 == dominant(probs@),
        r.1 == dominant_prob(probs@),
        r.0.index() == crate::float32::argmax_upto(probs@, N_CLASSES as int),
{
    let (idx, prob) = argmax(probs.as_slice());
    match Class::from_index(idx) {
        Some(class) => (class, prob),
        None => (Class::Normal, prob),
    }
}

/// Everything an [`AlertMachine`] is: its state, the normal windows counted towards clearing,
/// and its threshold.
pub struct Condition {
    /// The current state.
    pub state: State,
    /// Consecutive normal-class windows seen while in [`State::Alert`].
    pub streak: nat,
    /// The confidence a fault must exceed.
    pub confidence: F32Bits,
}

/// Whether a window shows a fault above the threshold.
pub open spec fn crosses(confidence: F32Bits, probs: Seq<F32Bits>) -> bool {
    dominant(probs) != Class::Normal && crate::float32::greater(dominant_prob(probs), confidence)
}

impl Condition {
    /// The conditions a machine can be in: an alert always carries a fault class, and counts
    /// fewer normal windows than it takes to clear; without an alert nothing is counted.
    pub open spec fn valid(self) -> bool {
        match self.state {
            State::Normal => self.streak == 0,
            State::Alert { class } => class != Class::Normal && self.streak
                < NORMAL_WINDOWS_TO_CLEAR,
        }
    }

    /// The condition after one more window.
    pub open spec fn after(self, probs: Seq<F32Bits>) -> Condition {
        if crosses(self.confidence, probs) {
            // A fault above the threshold raises the alert, or re-latches it.
            Condition { state: State::Alert { class: dominant(probs) }, streak: 0, ..self }
        } else if self.state == State::Normal {
            self
        } else if dominant(probs) != Class::Normal {
            // A weaker fault sustains the alert and breaks the streak.
            Condition { streak: 0, ..self }
        } else if self.streak + 1 < NORMAL_WINDOWS_TO_CLEAR {
            Condition { streak: self.streak + 1, ..self }
        } else {
            Condition { state: State::Normal, streak: 0, ..self }
        }
    }

    /// The condition after a run of windows.
    pub open spec fn after_all(self, windows: Seq<Seq<F32Bits>>) -> Condition
        decreases windows.len(),
    {
        if windows.len() == 0 {
            self
        } else {
            self.after_all(windows.drop_last()).after(windows.last())
        }
    }
}

/// The `NORMAL` / `ALERT` decision machine with clear-side hysteresis.
///
/// Fed one window's class probabilities per [`update`](Self::update). It latches into
/// [`State::Alert`] the moment the most likely class is a fault above the threshold, and clears
/// only after
/// [`NORMAL_WINDOWS_TO_CLEAR`] consecutive windows classify as [`Class::Normal`].
#[derive(Clone, Copy, Debug)]
pub struct AlertMachine {
    state: State,
    normal_streak: u32,
    confidence: F32Bits,
}

impl View for AlertMachine {
    type V = Condition;

    closed spec fn view(&self) -> Condition {
        Condition {
            state: self.state,
            streak: self.normal_streak as nat,
            confidence: self.confidence,
        }
    }
}

impl AlertMachine {
    #[verifier::type_invariant]
    spec fn consistent(self) -> bool {
        self@.valid()
    }

    /// A machine in [`State::Normal`] using the default [`ALERT_CONFIDENCE`].
    pub fn new() -> (m: AlertMachine)
        ensures
            m@ == (Condition { state: State::Normal, streak: 0, confidence: ALERT_CONFIDENCE }),
    {
        AlertMachine::with_confidence(ALERT_CONFIDENCE)
    }

    /// Like [`new`](Self::new) but with a custom fault-confidence threshold.
    pub fn with_confidence(confidence: F32Bits) -> (m: AlertMachine)
        ensures
            m@ == (Condition { state: State::Normal, streak: 0, confidence }),
    {
        AlertMachine { state: State::Normal, normal_streak: 0, confidence }
    }

    /// The current state.
    pub fn state(&self) -> (s: State)
        ensures
            s == self@.state,
            self@.valid(),
    {
        proof {
            use_type_invariant(self);
        }
        self.state
    }

    /// Advance the machine by one window's probabilities and return the new state.
    pub fn update(&mut self, probs: &[F32Bits; N_CLASSES]) -> (s: State)
        ensures
            final(self)@ == old(self)@.after(probs@),
            s == final(self)@.state,
            old(self)@.valid(),
            final(self)@.valid(),
    {
        proof {
            use_type_invariant(&*self);
        }
        let (top, conf) = top_class(probs);
        let crossed: bool = top.is_fault() && exceeds(conf, self.confidence);
        let next: AlertMachine = match self.state {
            State::Normal => {
                if crossed {
                    AlertMachine {
                        state: State::Alert { class: top },
                        normal_streak: 0,
                        confidence: self.confidence,
                    }
                } else {
                    *self
                }
            },
            State::Alert { class } => {
                if top == Class::Normal {
                    let streak: u32 = self.normal_streak + 1;
                    if streak >= NORMAL_WINDOWS_TO_CLEAR {
                        AlertMachine {
                            state: State::Normal,
                            normal_streak: 0,
                            confidence: self.confidence,
                        }
                    } else {
                        AlertMachine {
                            state: self.state,
                            normal_streak: streak,
                            confidence: self.confidence,
                        }
                    }
                } else {
                    let latched: Class = if crossed { top } else { class };
                    AlertMachine {
                        state: State::Alert { class: latched },
                        normal_streak: 0,
                        confidence: self.confidence,
                    }
                }
            },
        };
        *self = next;
        next.state
    }
}

impl Default for AlertMachine {
    fn default() -> (m: AlertMachine)
        ensures
            m@ == (Condition { state: State::Normal, streak: 0, confidence: ALERT_CONFIDENCE }),
    {
        AlertMachine::new()
    }
}

/// Without an alert, a window raises one exactly when its most likely class is a fault whose
/// probability exceeds the threshold; the alert latches that class. Any other window changes
/// nothing.
pub proof fn law_only_a_confident_fault_raises(c: Condition, probs: Seq<F32Bits>)
    requires
        c.valid(),
        c.state == State::Normal,
    ensures
        crosses(c.confidence, probs) ==> c.after(probs).state == (State::Alert {
            class: dominant(probs),
        }),
        !crosses(c.confidence, probs) ==> c.after(probs) == c,
        dominant(probs) == Class::Normal ==> c.after(probs) == c,
{
}

/// Under an alert, the latched class follows a fault above the threshold and is otherwise kept
/// for as long as the alert lasts.
pub proof fn law_alert_follows_the_confident_fault(c: Condition, probs: Seq<F32Bits>)
    requires
        c.valid(),
        c.state is Alert,
        c.after(probs).state is Alert,
    ensures
        c.after(probs).state == if crosses(c.confidence, probs) {
            (State::Alert { class: dominant(probs) })
        } else {
            c.state
        },
{
}

/// Over any run of windows the machine stays valid, so an alert always names a fault class, and
/// its threshold never changes.
pub proof fn law_runs_stay_valid(c: Condition, windows: Seq<Seq<F32Bits>>)
    requires
        c.valid(),
    ensures
        c.after_all(windows).valid(),
        c.after_all(windows).confidence == c.confidence,
    decreases windows.len(),
{
    if windows.len() > 0 {
        law_runs_stay_valid(c, windows.drop_last());
    }
}

/// A run that ends in [`NORMAL_WINDOWS_TO_CLEAR`] normal-class windows ends without an alert,
/// whatever came before.
pub proof fn law_consecutive_normals_clear(c: Condition, windows: Seq<Seq<F32Bits>>)
    requires
        c.valid(),
        windows.len() >= NORMAL_WINDOWS_TO_CLEAR,
        forall|i: int|
            windows.len() - NORMAL_WINDOWS_TO_CLEAR <= i < windows.len() ==> dominant(
                #[trigger] windows[i],
            ) == Class::Normal,
    ensures
        c.after_all(windows).state == State::Normal,
{
    let two = windows.drop_last();
    let one = two.drop_last();
    let start = one.drop_last();
    law_runs_stay_valid(c, start);
    assert(c.after_all(two) == c.after_all(one).after(two.last()));
}

/// The streak counts normal-class windows at the end of the run.
proof fn lemma_streak_counts_normals(c: Condition, windows: Seq<Seq<F32Bits>>)
    requires
        c.valid(),
        c.streak == 0,
    ensures
        c.after_all(windows).streak <= windows.len(),
        forall|i: int|
            windows.len() - c.after_all(windows).streak <= i < windows.len() ==> dominant(
                #[trigger] windows[i],
            ) == Class::Normal,
    decreases windows.len(),
{
    if windows.len() > 0 {
        let before = windows.drop_last();
        lemma_streak_counts_normals(c, before);
        law_runs_stay_valid(c, before);
        assert forall|i: int|
            windows.len() - c.after_all(windows).streak <= i < windows.len() implies dominant(
            #[trigger] windows[i],
        ) == Class::Normal by {}
    }
}

/// An alert is cleared only by [`NORMAL_WINDOWS_TO_CLEAR`] consecutive normal-class windows: if
/// the last window of a run takes the machine out of the alert, then it and the ones right
/// before it were all normal.
pub proof fn law_only_consecutive_normals_clear(c: Condition, windows: Seq<Seq<F32Bits>>)
    requires
        c.valid(),
        c.streak == 0,
        windows.len() > 0,
        c.after_all(windows.drop_last()).state is Alert,
        c.after_all(windows).state == State::Normal,
    ensures
        windows.len() >= NORMAL_WINDOWS_TO_CLEAR,
        forall|i: int|
            windows.len() - NORMAL_WINDOWS_TO_CLEAR <= i < windows.len() ==> dominant(
                #[trigger] windows[i],
            ) == Class::Normal,
{
    let before = windows.drop_last();
    lemma_streak_counts_normals(c, before);
    law_runs_stay_valid(c, before);
    assert forall|i: int|
        windows.len() - NORMAL_WINDOWS_TO_CLEAR <= i < windows.len() implies dominant(
        #[trigger] windows[i],
    ) == Class::Normal by {
        if i < windows.len() - 1 {
            assert(before[i] == windows[i]);
        }
    }
}

/// The bit pattern of one half.
pub const HALF: F32Bits = 0x3F00_0000;

/// Which class dominates and which fault crosses the threshold are the same question: where no
/// two probabilities exceed one half and the threshold is at least that, the most likely class
/// is a fault above the threshold exactly when any fault is.
pub proof fn law_dominant_fault_is_the_one_that_crosses(confidence: F32Bits, probs: Seq<F32Bits>)
    requires
        probs.len() == N_CLASSES,
        forall|i: int| 0 <= i < N_CLASSES ==> !crate::float32::is_nan(#[trigger] probs[i]),
        !crate::float32::is_nan(confidence),
        !crate::float32::greater(HALF, confidence),
        forall|i: int, j: int|
            0 <= i < j < N_CLASSES && crate::float32::greater(#[trigger] probs[i], HALF)
                ==> !crate::float32::greater(#[trigger] probs[j], HALF),
    ensures
        crosses(confidence, probs) <==> exists|i: int|
            1 <= i < N_CLASSES && crate::float32::greater(#[trigger] probs[i], confidence),
{
    crate::float32::law_argmax_is_first_maximum(probs, N_CLASSES as int);
    let top = crate::float32::argmax_upto(probs, N_CLASSES as int);
    if crosses(confidence, probs) {
        assert(crate::float32::greater(probs[top], confidence));
    }
    if exists|i: int| 1 <= i < N_CLASSES && crate::float32::greater(#[trigger] probs[i], confidence) {
        let i = choose|i: int|
            1 <= i < N_CLASSES && crate::float32::greater(#[trigger] probs[i], confidence);
        assert(crate::float32::greater(probs[i], HALF));
        assert(crate::float32::greater(probs[top], HALF));
        assert(top == i);
    }
}

/// What the most likely class is: its index is that of a probability which no other exceeds, and
/// which exceeds each before it; that probability is the confidence.
pub proof fn law_top_class_has_the_largest_probability(
    probs: &[F32Bits; N_CLASSES],
    c: Class,
    p: F32Bits,
    j: int,
)
    requires
        call_ensures(top_class, (probs,), (c, p)),
        forall|k: int| 0 <= k < 4 ==> #[trigger] probs@[k] <= 0x7F80_0000,
        0 <= j < 4,
    ensures
        ({
            let i = if c == Class::Normal {
                0int
            } else if c == Class::InnerRace {
                1
            } else if c == Class::OuterRace {
                2
            } else {
                3
            };
            &&& p == probs@[i]
            &&& probs@[j] <= p
            &&& j < i ==> probs@[j] < p
            &&& dominant(probs@) == c
            &&& dominant_prob(probs@) == p
        }),
{
    crate::float32::law_argmax_is_first_maximum(probs@, 4);
    let i = crate::float32::argmax_upto(probs@, 4);
    assert(crate::float32::rank(probs@[j]) <= crate::float32::rank(probs@[i]));
    if j < i {
        assert(crate::float32::rank(probs@[j]) < crate::float32::rank(probs@[i]));
    }
}

/// What a window does to the machine, case by case. A fault that is the most likely class and
/// exceeds the threshold is latched, whatever the state was. Otherwise nothing happens without an
/// alert; under one, a normal window counts, the third in a row clears, and a weaker fault starts
/// the count over.
pub proof fn law_windows_move_the_machine(c: Condition, probs: &[F32Bits; N_CLASSES], top: Class, p: F32Bits)
    requires
        c.valid(),
        call_ensures(top_class, (probs,), (top, p)),
    ensures
        ({
            let next = c.after(probs@);
            let fault = top != Class::Normal;
            let loud = crate::float32::greater(p, c.confidence);
            &&& next.confidence == c.confidence
            &&& fault && loud ==> next.state == (State::Alert { class: top }) && next.streak == 0
            &&& !(fault && loud) && c.state == State::Normal ==> next.state == State::Normal
                && next.streak == 0
            &&& fault && !loud && c.state != State::Normal ==> next.state == c.state && next.streak
                == 0
            &&& !fault && c.state != State::Normal && c.streak < 2 ==> next.state == c.state
                && next.streak == c.streak + 1
            &&& !fault && c.state != State::Normal && c.streak == 2 ==> next.state == State::Normal
                && next.streak == 0
        }),
        c.state == State::Normal ==> c.streak == 0,
        c.state != State::Normal ==> c.streak <= 2,
        c.state != (State::Alert { class: Class::Normal }),
{
}

/// A run of windows moves the machine window by window.
pub proof fn law_runs_go_window_by_window(
    c: Condition,
    windows: Seq<Seq<F32Bits>>,
    probs: Seq<F32Bits>,
)
    ensures
        c.after_all(Seq::empty()) == c,
        c.after_all(windows.push(probs)) == c.after_all(windows).after(probs),
{
    assert(windows.push(probs).drop_last() =~= windows);
}

/// The default threshold is the value nearest to four fifths: its significand, in units of
/// 2^-24, lies within half a unit of it.
pub proof fn law_default_threshold_is_four_fifths(m: AlertMachine)
    requires
        call_ensures(AlertMachine::new, (), m),
    ensures
        m@.state == State::Normal,
        m@.streak == 0,
        ({
            // exponent of the values from one half up to one
            let significand = m@.confidence - 0x3F00_0000 + 0x80_0000;
            &&& 0x3F00_0000 <= m@.confidence < 0x3F80_0000
            &&& -5 <= 10 * significand - 8 * 0x100_0000 <= 5
        }),
{
}

/// A machine is made with its threshold, without an alert.
pub proof fn law_machines_start_out_normal(confidence: F32Bits, m: AlertMachine)
    requires
        call_ensures(AlertMachine::with_confidence, (confidence,), m),
    ensures
        m@.state == State::Normal,
        m@.streak == 0,
        m@.confidence == confidence,
{
}

/// The most likely class is the one at the place that the scan over the probabilities settles on,
/// whatever they are.
pub proof fn law_top_class_is_at_the_argmax(
    probs: &[F32Bits; N_CLASSES],
    values: &[F32Bits],
    c: Class,
    p: F32Bits,
    i: usize,
    v: F32Bits,
)
    requires
        values@ == probs@,
        call_ensures(top_class, (probs,), (c, p)),
        call_ensures(argmax, (values,), (i, v)),
    ensures
        p == v,
        c == Class::Normal <==> i == 0,
        c == Class::InnerRace <==> i == 1,
        c == Class::OuterRace <==> i == 2,
        c == Class::RollingElement <==> i == 3,
{
}

} // verus!
