//! A baked sample stream in place of a sensor.
//!
//! The stream is raw little-endian `i16`, x, y, z interleaved: six bytes per sample, the order
//! a [`Sample`] has. It lets the whole pipeline run without a sensor.
use crate::bytes::rd_sample;
use crate::features::Sample;
use vstd::prelude::*;

verus! {

/// Bytes per sample.
pub const SAMPLE_BYTES: usize = 6;

/// The samples in a baked stream; bytes after the last whole sample belong to none.
pub open spec fn baked_samples(stream: Seq<u8>) -> Seq<Seq<i16>> {
    Seq::new(
        stream.len() / SAMPLE_BYTES as nat,
        |i: int| crate::bytes::le_sample(stream, SAMPLE_BYTES * i),
    )
}

/// The bytes of a sample in a baked stream.
pub open spec fn sample_bytes(sample: Seq<i16>) -> Seq<u8> {
    crate::bytes::i16_le_bytes(sample[0]) + crate::bytes::i16_le_bytes(sample[1])
        + crate::bytes::i16_le_bytes(sample[2])
}

/// The baked stream of some samples.
pub open spec fn baked(samples: Seq<Seq<i16>>) -> Seq<u8>
    decreases samples.len(),
{
    if samples.len() == 0 {
        seq![]
    } else {
        baked(samples.drop_last()) + sample_bytes(samples.last())
    }
}

/// Sequential reader over a baked stream; hands back one sample per call until exhausted.
pub struct SimSource<'a> {
    stream: &'a [u8],
    pos: usize,
}

impl<'a> SimSource<'a> {
    /// The samples of the stream.
    pub closed spec fn samples(&self) -> Seq<Seq<i16>> {
        baked_samples(self.stream@)
    }

    /// How many of them have been handed back.
    pub closed spec fn position(&self) -> int {
        self.pos as int
    }

    #[verifier::type_invariant]
    spec fn consistent(self) -> bool {
        SAMPLE_BYTES * self.pos <= self.stream@.len()
    }

    /// Start at the beginning of a baked stream.
    pub fn new(stream: &'a [u8]) -> (r: SimSource<'a>)
        ensures
            r.samples() == baked_samples(stream@),
            r.position() == 0,
    {
        SimSource { stream, pos: 0 }
    }

    /// The next sample, or `None` once the stream is exhausted.
    pub fn next_sample(&mut self) -> (r: Option<Sample>)
        ensures
            final(self).samples() == old(self).samples(),
            0 <= old(self).position() <= old(self).samples().len(),
            old(self).position() < old(self).samples().len() ==> {
                &&& r matches Some(s)
                &&& s@ == old(self).samples()[old(self).position()]
                &&& final(self).position() == old(self).position() + 1
            },
            old(self).position() == old(self).samples().len() ==> {
                &&& r is None
                &&& final(self).position() == old(self).position()
            },
    {
        proof {
            use_type_invariant(&*self);
        }
        let len: usize = self.stream.len();
        let base: usize = self.pos * SAMPLE_BYTES;
        if len - base < SAMPLE_BYTES {
            return None;
        }
        self.pos = self.pos + 1;
        Some(rd_sample(self.stream, base))
    }
}

/// A stream that was baked reads back as the samples that went into it.
pub proof fn law_baked_streams_read_back(samples: Seq<Seq<i16>>)
    requires
        forall|i: int| 0 <= i < samples.len() ==> #[trigger] samples[i].len() == 3,
    ensures
        baked_samples(baked(samples)) == samples,
{
    lemma_baked(samples);
}

/// Each sample of a baked stream stands where it is read.
proof fn lemma_baked(samples: Seq<Seq<i16>>)
    requires
        forall|i: int| 0 <= i < samples.len() ==> #[trigger] samples[i].len() == 3,
    ensures
        baked(samples).len() == SAMPLE_BYTES * samples.len(),
        forall|i: int|
            0 <= i < samples.len() ==> crate::bytes::le_sample(baked(samples), SAMPLE_BYTES * i)
                == #[trigger] samples[i],
    decreases samples.len(),
{
    if samples.len() > 0 {
        let before = samples.drop_last();
        lemma_baked(before);
        let stream = baked(samples);
        let n = baked(before).len() as int;
        let last = samples.last();
        assert forall|axis: int| 0 <= axis < 3 implies #[trigger] crate::bytes::le_i16(
            stream,
            n + 2 * axis,
        ) == last[axis] by {
            assert(stream.subrange(n + 2 * axis, n + 2 * axis + 2) =~= crate::bytes::i16_le_bytes(
                last[axis],
            ));
            crate::bytes::law_i16_bytes_read_back(stream, n + 2 * axis, last[axis]);
        }
        assert forall|i: int| 0 <= i < before.len() implies crate::bytes::le_sample(
            stream,
            SAMPLE_BYTES * i,
        ) == #[trigger] samples[i] by {
            assert(before[i] == samples[i]);
            assert(crate::bytes::le_sample(stream, SAMPLE_BYTES * i) =~= crate::bytes::le_sample(
                baked(before),
                SAMPLE_BYTES * i,
            ));
        }
    }
}

/// What a baked stream holds: a sample for every six bytes, each reading the low byte plus 256
/// times the high byte, modulo 2^16.
pub proof fn law_baked_samples_are_pairs_of_bytes(stream: Seq<u8>, i: int, axis: int)
    requires
        0 <= i < stream.len() / 6,
        0 <= axis < 3,
    ensures
        baked_samples(stream).len() == stream.len() / 6,
        baked_samples(stream)[i].len() == 3,
        ({
            let v = baked_samples(stream)[i][axis];
            let sum = stream[6 * i + 2 * axis] + 256 * stream[6 * i + 2 * axis + 1];
            v == sum || v == sum - 65536
        }),
{
}

/// A reader starts at the first sample of its stream.
pub proof fn law_readers_start_at_the_beginning<'a>(stream: &'a [u8], r: SimSource<'a>)
    requires
        call_ensures(SimSource::<'a>::new, (stream,), r),
    ensures
        r.position() == 0,
        r.samples() == baked_samples(stream@),
{
}

} // verus!
