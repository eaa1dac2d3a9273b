//! Per-window run state: every activation buffer, carved from one block once.
//!
//! A [`RunState`] owns all of the intermediate buffers a forward pass reads and writes, each a
//! disjoint sub-slice of the block behind an [`Arena`]. It is generic over the element type, so
//! the single-precision and the int8 pass share one layout. The buffer sizes come straight from
//! the config and sum to exactly [`ModelConfig::buf_len`], so a forward pass allocates nothing.
use crate::features::{Sample, FEATURE_LEN, N_AXES, WINDOW_LEN};
use crate::float32::F32Bits;
use crate::model::ModelConfig;
use vstd::prelude::*;

verus! {

/// Why a buffer could not be carved.
#[derive(Clone, Copy, Debug, PartialEq, Eq, Structural)]
pub enum EngineError {
    /// The arena holds fewer elements than were asked for.
    ArenaOverflow {
        /// Elements asked for.
        requested: usize,
        /// Elements left.
        available: usize,
    },
}

/// A bump allocator over one caller-provided block.
pub struct Arena<'buf, T> {
    rest: &'buf mut [T],
}

impl<'buf, T> Arena<'buf, T> {
    /// The part of the block that nothing has been carved from yet.
    pub closed spec fn free(&self) -> Seq<T> {
        self.rest@
    }

    /// An arena over the whole of `block`.
    pub fn new(block: &'buf mut [T]) -> (arena: Arena<'buf, T>)
        ensures
            arena.free() == old(block)@,
    {
        Arena { rest: block }
    }

    /// Elements left to carve.
    pub fn remaining(&self) -> (n: usize)
        ensures
            n == self.free().len(),
    {
        self.rest.len()
    }

    /// Carve the next `n` elements off the block. The slice lives as long as the block, not as
    /// long as the borrow of the arena. A request that does not fit leaves the arena as it was.
    pub fn carve(&mut self, n: usize) -> (r: Result<&'buf mut [T], EngineError>)
        ensures
            n <= old(self).free().len() ==> {
                &&& r matches Ok(piece)
                &&& piece@ == old(self).free().take(n as int)
                &&& final(self).free() == old(self).free().skip(n as int)
            },
            n > old(self).free().len() ==> {
                &&& r matches Err(e)
                &&& e == (EngineError::ArenaOverflow {
                    requested: n,
                    available: old(self).free().len() as usize,
                })
                &&& final(self).free() == old(self).free()
            },
    {
        let available: usize = self.rest.len();
        if n > available {
            return Err(EngineError::ArenaOverflow { requested: n, available });
        }
        let mut rest: &'buf mut [T] = &mut [];
        core::mem::swap(&mut rest, &mut self.rest);
        let (piece, tail) = rest.split_at_mut(n);
        self.rest = tail;
        Ok(piece)
    }
}

/// Why a [`RunState`] accessor rejected its arguments.
#[derive(Clone, Copy, Debug, PartialEq, Eq, Structural)]
pub enum RunStateError {
    /// The requested channel index is not below [`N_AXES`].
    BadChannel,
}

/// All mutable activation buffers a single forward pass reads and writes.
pub struct RunState<'buf, T> {
    /// Input, `[N_AXES, WINDOW_LEN]` (channel-major).
    pub x: &'buf mut [T],
    /// conv1 output, `[c1, l1]`.
    pub x_c1: &'buf mut [T],
    /// conv2 output, `[c2, l2]`.
    pub x_c2: &'buf mut [T],
    /// Pooled result with the features appended, `[c2 + FEATURE_LEN]`: the dense input.
    pub fc_in: &'buf mut [T],
}

/// Where the reading of `channel` at time `t` stands in the channel-major input.
pub open spec fn slot(channel: int, t: int) -> int {
    channel * WINDOW_LEN + t
}

/// The buffer sizes of a config, in the order they are carved.
pub open spec fn sizes(config: ModelConfig) -> Seq<int> {
    seq![N_AXES * WINDOW_LEN, config.c1_len(), config.c2_len(), config.fc_in_len()]
}

/// The sum of the first `n` sizes.
pub open spec fn carved_before(config: ModelConfig, n: int) -> int
    decreases n,
{
    if n <= 0 {
        0
    } else {
        carved_before(config, n - 1) + sizes(config)[n - 1]
    }
}

/// Whether every buffer fits into `available` elements, one after the other.
pub open spec fn all_fit(config: ModelConfig, available: int) -> bool {
    &&& carved_before(config, 1) <= available
    &&& carved_before(config, 2) <= available
    &&& carved_before(config, 3) <= available
    &&& carved_before(config, 4) <= available
}

/// Whether the size of each buffer can be computed by the time it is carved: the buffers
/// before it fit into `available` elements, its kernel fits into what it slides over, and a
/// `usize` can hold the size. Where a buffer does not fit, nothing is asked of those after it.
pub open spec fn computable(config: ModelConfig, available: int) -> bool {
    carved_before(config, 1) <= available ==> {
        &&& config.s1 >= 1
        &&& config.k1 <= WINDOW_LEN
        &&& config.c1_len() <= usize::MAX
        &&& carved_before(config, 2) <= available ==> {
            &&& config.convolves()
            &&& config.c2_len() <= usize::MAX
            &&& carved_before(config, 3) <= available ==> config.fc_in_len() <= usize::MAX
        }
    }
}

/// The first buffer that does not fit into `available` elements.
pub open spec fn first_overflow(config: ModelConfig, available: int) -> int {
    if carved_before(config, 1) > available {
        0
    } else if carved_before(config, 2) > available {
        1
    } else if carved_before(config, 3) > available {
        2
    } else {
        3
    }
}

/// Whether buffer `k` is the first that does not fit into `free`, `left` is what the buffers
/// before it leave, and `e` says so.
pub open spec fn overflows_at<T>(
    config: ModelConfig,
    k: int,
    free: Seq<T>,
    left: Seq<T>,
    e: EngineError,
) -> bool {
    &&& 0 <= k < 4
    &&& carved_before(config, k) <= free.len()
    &&& left == free.skip(carved_before(config, k))
    &&& sizes(config)[k] > left.len()
    &&& e == (EngineError::ArenaOverflow {
        requested: sizes(config)[k] as usize,
        available: left.len() as usize,
    })
}

/// The contents of the activation buffers.
pub struct Buffers<T> {
    /// The input.
    pub x: Seq<T>,
    /// The conv1 output.
    pub x_c1: Seq<T>,
    /// The conv2 output.
    pub x_c2: Seq<T>,
    /// The dense input.
    pub fc_in: Seq<T>,
}

impl<T> Buffers<T> {
    /// Whether each buffer has the length the config gives it.
    pub open spec fn shaped(self, config: ModelConfig) -> bool {
        &&& self.x.len() == N_AXES * WINDOW_LEN
        &&& self.x_c1.len() == config.c1_len()
        &&& self.x_c2.len() == config.c2_len()
        &&& self.fc_in.len() == config.fc_in_len()
    }
}

impl<'buf, T> View for RunState<'buf, T> {
    type V = Buffers<T>;

    open spec fn view(&self) -> Buffers<T> {
        Buffers { x: self.x@, x_c1: self.x_c1@, x_c2: self.x_c2@, fc_in: self.fc_in@ }
    }
}

impl<'buf, T> RunState<'buf, T> {
    /// Whether each buffer has the length the config gives it.
    pub open spec fn shaped(&self, config: ModelConfig) -> bool {
        self@.shaped(config)
    }

    /// The input buffer.
    pub open spec fn input(&self) -> Seq<T> {
        self.x@
    }

    /// All buffers, end to end.
    pub open spec fn flat(&self) -> Seq<T> {
        self.x@ + self.x_c1@ + self.x_c2@ + self.fc_in@
    }

    /// Carve every activation buffer out of `arena` for `config`, in a fixed order whose total
    /// is exactly [`ModelConfig::buf_len`].
    ///
    /// Fails when the arena is smaller than that budget, on the first buffer that does not fit;
    /// the buffers before it stay carved.
    pub fn new(arena: &mut Arena<'buf, T>, config: &ModelConfig) -> (r: Result<
        RunState<'buf, T>,
        EngineError,
    >)
        requires
            computable(*config, old(arena).free().len() as int),
        ensures
            r is Ok <==> all_fit(*config, old(arena).free().len() as int),
            config.convolves() ==> (r is Ok <==> config.buffer_total()
                <= old(arena).free().len()),
            r matches Ok(state) ==> {
                &&& state.shaped(*config)
                &&& state.flat() == old(arena).free().take(config.buffer_total())
                &&& final(arena).free() == old(arena).free().skip(config.buffer_total())
            },
            r matches Err(e) ==> overflows_at(
                *config,
                first_overflow(*config, old(arena).free().len() as int),
                old(arena).free(),
                final(arena).free(),
                e,
            ),
    {
        proof {
            reveal_with_fuel(carved_before, 5);
            config.lemma_products();
        }
        let ghost free = arena.free();
        let x: &'buf mut [T] = match arena.carve(N_AXES * WINDOW_LEN) {
            Ok(piece) => piece,
            Err(e) => {
                assert(arena.free() =~= free.skip(0));
                return Err(e);
            },
        };
        let x_c1: &'buf mut [T] = match arena.carve(config.c1 * config.l1()) {
            Ok(piece) => piece,
            Err(e) => return Err(e),
        };
        let x_c2: &'buf mut [T] = match arena.carve(config.c2 * config.l2()) {
            Ok(piece) => piece,
            Err(e) => {
                assert(arena.free() =~= free.skip(carved_before(*config, 2)));
                return Err(e);
            },
        };
        let fc_in: &'buf mut [T] = match arena.carve(config.c2 + FEATURE_LEN) {
            Ok(piece) => piece,
            Err(e) => {
                assert(arena.free() =~= free.skip(carved_before(*config, 3)));
                return Err(e);
            },
        };
        Ok(RunState { x, x_c1, x_c2, fc_in })
    }

    /// De-interleave a window of three-axis samples into the channel-major input, ready for the
    /// first convolution. `convert` turns a raw reading into an element.
    pub fn x_from_window<F: Fn(i16) -> T>(
        &mut self,
        window: &[Sample; WINDOW_LEN],
        convert: &F,
    )
        requires
            old(self).x@.len() >= N_AXES * WINDOW_LEN,
            forall|v: i16| #[trigger] convert.requires((v,)),
        ensures
            final(self).x@.len() == old(self).x@.len(),
            forall|channel: int, t: int|
                0 <= channel < N_AXES && 0 <= t < WINDOW_LEN ==> convert.ensures(
                    (window[t][channel],),
                    #[trigger] final(self).x@[slot(channel, t)],
                ),
            final(self).x@.skip(N_AXES * WINDOW_LEN) == old(self).x@.skip(N_AXES * WINDOW_LEN),
            final(self).x_c1 == old(self).x_c1,
            final(self).x_c2 == old(self).x_c2,
            final(self).fc_in == old(self).fc_in,
    {
        let mut channel: usize = 0;
        while channel < N_AXES
            invariant
                channel <= N_AXES,
                self.x@.len() == old(self).x@.len() && self.x@.len() >= N_AXES * WINDOW_LEN,
                self.x@.skip(N_AXES * WINDOW_LEN) == old(self).x@.skip(N_AXES * WINDOW_LEN),
                forall|v: i16| #[trigger] convert.requires((v,)),
                forall|c: int, t: int|
                    0 <= c < channel && 0 <= t < WINDOW_LEN ==> convert.ensures(
                        (window[t][c],),
                        #[trigger] self.x@[slot(c, t)],
                    ),
                self.x_c1 == old(self).x_c1,
                self.x_c2 == old(self).x_c2,
                self.fc_in == old(self).fc_in,
            decreases N_AXES - channel,
        {
            let mut t: usize = 0;
            while t < WINDOW_LEN
                invariant
                    channel < N_AXES,
                    t <= WINDOW_LEN,
                    self.x@.len() == old(self).x@.len() && self.x@.len() >= N_AXES * WINDOW_LEN,
                    self.x@.skip(N_AXES * WINDOW_LEN) == old(self).x@.skip(N_AXES * WINDOW_LEN),
                    forall|v: i16| #[trigger] convert.requires((v,)),
                    forall|c: int, u: int|
                        0 <= c < N_AXES && 0 <= u < WINDOW_LEN && (c < channel || c == channel && u
                            < t) ==> convert.ensures(
                            (window[u][c],),
                            #[trigger] self.x@[slot(c, u)],
                        ),
                    self.x_c1 == old(self).x_c1,
                    self.x_c2 == old(self).x_c2,
                    self.fc_in == old(self).fc_in,
                decreases WINDOW_LEN - t,
            {
                self.x[channel * WINDOW_LEN + t] = convert(window[t][channel]);
                t += 1;
            }
            channel += 1;
        }
    }

    /// Put the features behind the pooled values of the dense input. `convert` turns a feature
    /// into an element.
    pub fn append_features<F: Fn(F32Bits) -> T>(
        &mut self,
        at: usize,
        features: &[F32Bits; FEATURE_LEN],
        convert: &F,
    )
        requires
            at + FEATURE_LEN <= old(self).fc_in@.len(),
            forall|v: F32Bits| #[trigger] convert.requires((v,)),
        ensures
            final(self).fc_in@.len() == old(self).fc_in@.len(),
            forall|i: int|
                at <= i < at + FEATURE_LEN ==> convert.ensures(
                    (features[i - at],),
                    #[trigger] final(self).fc_in@[i],
                ),
            forall|i: int|
                0 <= i < old(self).fc_in@.len() && !(at <= i < at + FEATURE_LEN)
                    ==> #[trigger] final(self).fc_in@[i] == old(self).fc_in@[i],
            final(self).x == old(self).x,
            final(self).x_c1 == old(self).x_c1,
            final(self).x_c2 == old(self).x_c2,
    {
        let mut i: usize = 0;
        while i < FEATURE_LEN
            invariant
                i <= FEATURE_LEN,
                at + FEATURE_LEN <= self.fc_in@.len(),
                self.fc_in@.len() == old(self).fc_in@.len(),
                forall|v: F32Bits| #[trigger] convert.requires((v,)),
                forall|k: int|
                    at <= k < at + i ==> convert.ensures(
                        (features[k - at],),
                        #[trigger] self.fc_in@[k],
                    ),
                forall|k: int|
                    0 <= k < old(self).fc_in@.len() && !(at <= k < at + i)
                        ==> #[trigger] self.fc_in@[k] == old(self).fc_in@[k],
                self.x == old(self).x,
                self.x_c1 == old(self).x_c1,
                self.x_c2 == old(self).x_c2,
            decreases FEATURE_LEN - i,
        {
            assert(at + i < self.fc_in.len());
            self.fc_in[at + i] = convert(features[i]);
            i += 1;
        }
    }

    /// Borrow one de-interleaved axis of the input buffer.
    pub fn get_channel(&self, channel: usize) -> (r: Result<&[T], RunStateError>)
        requires
            channel < N_AXES ==> (channel + 1) * WINDOW_LEN <= self.input().len(),
        ensures
            channel >= N_AXES ==> r == Err::<&[T], RunStateError>(RunStateError::BadChannel),
            channel < N_AXES ==> {
                &&& r matches Ok(s)
                &&& s@ == self.input().subrange(slot(channel as int, 0), slot(channel + 1, 0))
            },
    {
        if channel >= N_AXES {
            return Err(RunStateError::BadChannel);
        }
        Ok(&self.x[channel * WINDOW_LEN..(channel + 1) * WINDOW_LEN])
    }
}

/// The buffers fill their budget with nothing left over.
pub proof fn law_buffers_sum_to_the_budget(config: ModelConfig)
    ensures
        carved_before(config, 4) == config.buffer_total(),
{
    reveal_with_fuel(carved_before, 5);
}

/// Channel-major order gives each reading of a window a slot of its own, and leaves none over.
pub proof fn law_slots_are_a_bijection(i: int)
    requires
        0 <= i < N_AXES * WINDOW_LEN,
    ensures
        0 <= i / (WINDOW_LEN as int) < N_AXES,
        0 <= i % (WINDOW_LEN as int) < WINDOW_LEN,
        forall|channel: int, t: int|
            0 <= channel < N_AXES && 0 <= t < WINDOW_LEN ==> (#[trigger] slot(channel, t) == i
                <==> channel == i / (WINDOW_LEN as int) && t == i % (WINDOW_LEN as int)),
{
}

/// The channel borrowed from the input buffer is the one whose slots were filled: reading `t`
/// of a channel stands in that channel's slot `t`.
pub proof fn law_channels_hold_their_slots<T>(input: Seq<T>, channel: int, t: int)
    requires
        input.len() == N_AXES * WINDOW_LEN,
        0 <= channel < N_AXES,
        0 <= t < WINDOW_LEN,
    ensures
        input.subrange(slot(channel, 0), slot(channel + 1, 0)).len() == WINDOW_LEN,
        input.subrange(slot(channel, 0), slot(channel + 1, 0))[t] == input[slot(channel, t)],
{
}

/// Where the carved buffers stand in the block: the input first, then the outputs of the two
/// layers, then the dense input, each right behind the one before.
pub proof fn law_buffers_are_ranges_of_the_block<'buf, T>(
    state: RunState<'buf, T>,
    config: ModelConfig,
    block: Seq<T>,
    l1: int,
    l2: int,
)
    requires
        state.shaped(config),
        config.convolves(),
        l1 == (512 - config.k1) / (config.s1 as int) + 1,
        l2 == (l1 - config.k2) / (config.s2 as int) + 1,
        config.buffer_total() <= block.len(),
        state.flat() == block.take(config.buffer_total()),
    ensures
        ({
            let a = 1536 + config.c1 * l1;
            let b = a + config.c2 * l2;
            &&& state@.x == block.subrange(0, 1536)
            &&& state@.x_c1 == block.subrange(1536, a)
            &&& state@.x_c2 == block.subrange(a, b)
            &&& state@.fc_in == block.subrange(b, b + config.c2 + 24)
            &&& config.buffer_total() == b + config.c2 + 24
        }),
{
    config.lemma_products();
    let t = block.take(config.buffer_total());
    let a = 1536 + config.c1 * l1;
    let b = a + config.c2 * l2;
    let v = state@;
    let s2 = v.x + v.x_c1;
    let s3 = s2 + v.x_c2;
    assert(t == s3 + v.fc_in);
    assert(t.subrange(b, b + config.c2 + 24) =~= v.fc_in);
    assert(t.subrange(0, b) =~= s3);
    assert(s3.subrange(a, b) =~= v.x_c2);
    assert(s3.subrange(0, a) =~= s2);
    assert(s2.subrange(1536, a) =~= v.x_c1);
    assert(s2.subrange(0, 1536) =~= v.x);
    assert(block.subrange(0, 1536) =~= s2.subrange(0, 1536));
    assert(block.subrange(1536, a) =~= s2.subrange(1536, a));
    assert(block.subrange(a, b) =~= s3.subrange(a, b));
    assert(block.subrange(b, b + config.c2 + 24) =~= t.subrange(b, b + config.c2 + 24));
}

/// Which buffer does not fit, and what is said of it: the first whose end lies beyond the block,
/// with its size, and with what the buffers before it leave.
pub proof fn law_overflows_name_the_first_buffer_beyond<T>(
    config: ModelConfig,
    free: Seq<T>,
    left: Seq<T>,
    requested: usize,
    available: usize,
    l1: int,
    l2: int,
)
    requires
        l1 == (512 - config.k1) / (config.s1 as int) + 1,
        l2 == (l1 - config.k2) / (config.s2 as int) + 1,
        computable(config, free.len() as int),
        free.len() <= usize::MAX,
        overflows_at(
            config,
            first_overflow(config, free.len() as int),
            free,
            left,
            (EngineError::ArenaOverflow { requested, available }),
        ),
    ensures
        ({
            let n = free.len() as int;
            let a = 1536 + config.c1 * l1;
            let b = a + config.c2 * l2;
            &&& available == left.len()
            &&& n < 1536 ==> requested == 1536 && left == free
            &&& 1536 <= n < a ==> requested == config.c1 * l1 && left == free.subrange(1536, n)
            &&& 1536 <= n && a <= n < b ==> requested == config.c2 * l2 && left == free.subrange(
                a,
                n,
            )
            &&& 1536 <= n && a <= n && b <= n ==> requested == config.c2 + 24 && left
                == free.subrange(b, n)
        }),
        all_fit(config, free.len() as int) <==> 1536 <= free.len() && 1536 + config.c1 * l1
            <= free.len() && 1536 + config.c1 * l1 + config.c2 * l2 <= free.len() && 1536
            + config.c1 * l1 + config.c2 * l2 + config.c2 + 24 <= free.len(),
{
    reveal_with_fuel(carved_before, 5);
    let n = free.len() as int;
    let a = 1536 + config.c1 * l1;
    let b = a + config.c2 * l2;
    assert(free.skip(0) =~= free);
    if n >= 1536 {
        assert(free.skip(1536) =~= free.subrange(1536, n));
    }
    if 0 <= a <= n {
        assert(free.skip(a) =~= free.subrange(a, n));
    }
    if 0 <= b <= n {
        assert(free.skip(b) =~= free.subrange(b, n));
    }
}

/// A channel is 512 readings in a row, channel by channel.
pub proof fn law_channels_are_rows_of_the_input<'buf, 'a, T>(
    state: &'a RunState<'buf, T>,
    channel: usize,
    r: Result<&'a [T], RunStateError>,
)
    requires
        call_ensures(RunState::<'buf, T>::get_channel, (state, channel), r),
        channel < 3 ==> 512 * channel + 512 <= state@.x.len(),
    ensures
        channel >= 3 ==> r == Err::<&[T], RunStateError>(RunStateError::BadChannel),
        channel < 3 ==> {
            &&& r matches Ok(s)
            &&& s@ == state@.x.subrange(512 * channel, 512 * channel + 512)
        },
{
}

/// What is said of a run state is said of its four buffers.
pub proof fn law_run_states_are_their_buffers<'buf, T>(
    state: RunState<'buf, T>,
    x: Seq<T>,
    x_c1: Seq<T>,
    x_c2: Seq<T>,
    fc_in: Seq<T>,
)
    requires
        x == state.x@,
        x_c1 == state.x_c1@,
        x_c2 == state.x_c2@,
        fc_in == state.fc_in@,
    ensures
        state@.x == x,
        state@.x_c1 == x_c1,
        state@.x_c2 == x_c2,
        state@.fc_in == fc_in,
        state.flat() == x + x_c1 + x_c2 + fc_in,
{
}

} // verus!
