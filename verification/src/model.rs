//! The 1-D CNN bearing-health classifier: classes, dimensions and checkpoints.
//!
//! The convolutional stack runs on the raw window, the pooled result is joined with the
//! feature vector, and a dense layer with a softmax turns both into a probability per class:
//!
//! ```text
//! window[N_AXES, WINDOW_LEN]
//!   -> conv1d -> relu        [c1, l1]
//!   -> conv1d -> relu        [c2, l2]
//!   -> global average pool   [c2]
//!   -> join features         [c2 + FEATURE_LEN]
//!   -> dense (matmul + bias) [N_CLASSES]
//!   -> softmax               [N_CLASSES]
//! ```
//!
//! A checkpoint is a 64-byte header (the `"epm1"` magic, a version, the layer dimensions, all
//! little-endian) followed by the raw weights. Loading one yields a [`ModelConfig`] and, beside
//! it, views of each weight tensor straight into the checkpoint.
use crate::bytes::rd_i32;
use crate::features::{FEATURE_LEN, N_AXES, WINDOW_LEN};
use crate::float32::F32Bits;
use crate::text::{render, render_signed};
use crate::views::{cast_signed, view_ints, view_words};
use vstd::prelude::*;
use vstd::string::StringExecFns;

verus! {

/// Number of bearing-health classes the model discriminates.
pub const N_CLASSES: usize = 4;

/// Magic at the head of a checkpoint: `"epm1"`.
pub const MAGIC: [u8; 4] = [0x65, 0x70, 0x6D, 0x31];

/// Format version of single-precision weights ([`Weights`]).
pub const VERSION_F32: i32 = 1;

/// Format version of int8 quantized weights ([`QuantizedWeights`]).
pub const VERSION_Q8: i32 = 2;

/// Fixed header size in bytes; the weights begin here.
pub const HEADER_BYTES: usize = 64;

/// Bytes of the header that carry fields; those behind them are reserved.
pub const HEADER_FIELDS: usize = 48;

/// Bearing-health classes, in the model's output-index order.
#[derive(Clone, Copy, Debug, PartialEq, Eq, Structural)]
pub enum Class {
    /// Healthy bearing.
    Normal,
    /// Inner-race fault.
    InnerRace,
    /// Outer-race fault.
    OuterRace,
    /// Rolling-element fault.
    RollingElement,
}

impl Class {
    /// The model output index of the class.
    pub open spec fn index(self) -> int {
        match self {
            Class::Normal => 0,
            Class::InnerRace => 1,
            Class::OuterRace => 2,
            Class::RollingElement => 3,
        }
    }

    /// The name of the class as a log shows it.
    pub open spec fn label(self) -> Seq<char> {
        match self {
            Class::Normal => "normal"@,
            Class::InnerRace => "inner_race"@,
            Class::OuterRace => "outer_race"@,
            Class::RollingElement => "rolling_element"@,
        }
    }

    /// The class for a model output index, if in range.
    pub fn from_index(i: usize) -> (r: Option<Class>)
        ensures
            r is Some <==> i < N_CLASSES,
            r matches Some(c) ==> c.index() == i,
    {
        match i {
            0 => Some(Class::Normal),
            1 => Some(Class::InnerRace),
            2 => Some(Class::OuterRace),
            3 => Some(Class::RollingElement),
            _ => None,
        }
    }

    /// Lower-case name used in the alert log (`class=<name>`).
    pub fn name(self) -> (r: &'static str)
        ensures
            r@ == self.label(),
    {
        match self {
            Class::Normal => "normal",
            Class::InnerRace => "inner_race",
            Class::OuterRace => "outer_race",
            Class::RollingElement => "rolling_element",
        }
    }

    /// Whether this class represents a fault (anything but [`Class::Normal`]).
    pub fn is_fault(self) -> (r: bool)
        ensures
            r == (self != Class::Normal),
    {
        self != Class::Normal
    }
}

/// Why loading a model failed.
#[derive(Clone, Copy, Debug, PartialEq, Eq, Structural)]
pub enum ModelError {
    /// Fewer than [`HEADER_BYTES`] of input.
    TooShort,
    /// Leading bytes are not the `"epm1"` magic.
    BadMagic,
    /// Header version this loader does not understand.
    UnsupportedVersion(i32),
    /// A fixed dimension (input channels, window, features, classes) does not match the
    /// compiled pipeline.
    ConfigMismatch,
    /// The length does not equal the header and the weights the config implies.
    SizeMismatch {
        /// Bytes the config implies.
        expected: usize,
        /// Bytes actually present.
        got: usize,
    },
    /// The weight region is not aligned, so it cannot be viewed as words.
    Misaligned,
}

impl ModelError {
    /// The error in words.
    pub open spec fn words(self) -> Seq<char> {
        match self {
            ModelError::TooShort => "model file is too short"@,
            ModelError::BadMagic => "not an edge-pm model (bad magic)"@,
            ModelError::UnsupportedVersion(v) => "unsupported model version "@
                + crate::text::signed_decimal(v as int),
            ModelError::ConfigMismatch => "model dimensions do not match the compiled pipeline"@,
            ModelError::SizeMismatch { expected, got } => "model size mismatch: expected "@
                + crate::text::decimal(expected as nat) + " bytes, got "@ + crate::text::decimal(
                got as nat,
            ),
            ModelError::Misaligned => "model weight region is not 4-byte aligned"@,
        }
    }

    /// The error in words.
    pub fn message(&self) -> (s: String)
        ensures
            s@ == self.words(),
    {
        let mut s: String = String::new();
        match *self {
            ModelError::TooShort => s.append("model file is too short"),
            ModelError::BadMagic => s.append("not an edge-pm model (bad magic)"),
            ModelError::UnsupportedVersion(v) => {
                s.append("unsupported model version ");
                s.append(render_signed(v).as_str());
            },
            ModelError::ConfigMismatch => {
                s.append("model dimensions do not match the compiled pipeline");
            },
            ModelError::SizeMismatch { expected, got } => {
                s.append("model size mismatch: expected ");
                s.append(render(expected as u64).as_str());
                s.append(" bytes, got ");
                s.append(render(got as u64).as_str());
            },
            ModelError::Misaligned => s.append("model weight region is not 4-byte aligned"),
        }
        s
    }
}

/// Output length of a 1-D convolution without padding.
pub open spec fn out_len(len: int, kernel: int, stride: int) -> int {
    (len - kernel) / stride + 1
}

/// Output length of a 1-D convolution without padding: one output for each position at which
/// the kernel fits, `stride` apart.
pub fn conv1d_out_len(len: usize, kernel: usize, stride: usize) -> (r: usize)
    requires
        kernel <= len < usize::MAX,
        stride >= 1,
    ensures
        r == out_len(len as int, kernel as int, stride as int),
        1 <= r <= len - kernel + 1,
{
    proof {
        vstd::arithmetic::div_mod::lemma_div_is_ordered_by_denominator(
            len - kernel,
            1,
            stride as int,
        );
        vstd::arithmetic::div_mod::lemma_div_pos_is_pos(len - kernel, stride as int);
    }
    (len - kernel) / stride + 1
}

/// The dimensions of the two convolutional layers. Everything else is fixed by the pipeline.
#[derive(Clone, Copy, Debug, PartialEq, Eq, Structural)]
pub struct ModelConfig {
    /// conv1 output channels.
    pub c1: usize,
    /// conv1 kernel length.
    pub k1: usize,
    /// conv1 stride.
    pub s1: usize,
    /// conv2 output channels.
    pub c2: usize,
    /// conv2 kernel length.
    pub k2: usize,
    /// conv2 stride.
    pub s2: usize,
}

/// Whether the bytes start with the magic.
pub open spec fn has_magic(bytes: Seq<u8>) -> bool {
    bytes.take(4) == MAGIC@
}

/// The version field of a header.
pub open spec fn version_field(bytes: Seq<u8>) -> i32 {
    crate::bytes::le_i32(bytes, 4) as i32
}

/// Whether the fixed dimensions of a header match the compiled pipeline.
pub open spec fn fixed_dimensions_match(bytes: Seq<u8>) -> bool {
    &&& crate::bytes::le_i32(bytes, 8) == N_AXES
    &&& crate::bytes::le_i32(bytes, 12) == WINDOW_LEN
    &&& crate::bytes::le_i32(bytes, 40) == FEATURE_LEN
    &&& crate::bytes::le_i32(bytes, 44) == N_CLASSES
}

/// A dimension field as a size. A negative field wraps around to a huge size.
pub open spec fn as_size(v: int) -> usize {
    if v >= 0 {
        v as usize
    } else {
        (usize::MAX + 1 + v) as usize
    }
}

/// The layer dimensions a header carries.
pub open spec fn header_config(bytes: Seq<u8>) -> ModelConfig {
    ModelConfig {
        c1: as_size(crate::bytes::le_i32(bytes, 16)),
        k1: as_size(crate::bytes::le_i32(bytes, 20)),
        s1: as_size(crate::bytes::le_i32(bytes, 24)),
        c2: as_size(crate::bytes::le_i32(bytes, 28)),
        k2: as_size(crate::bytes::le_i32(bytes, 32)),
        s2: as_size(crate::bytes::le_i32(bytes, 36)),
    }
}

/// What the front of a header says, read no further than its version.
pub open spec fn peeked(bytes: Seq<u8>) -> Result<i32, ModelError> {
    if bytes.len() < HEADER_BYTES {
        Err(ModelError::TooShort)
    } else if !has_magic(bytes) {
        Err(ModelError::BadMagic)
    } else {
        Ok(version_field(bytes))
    }
}

/// What a header parses to.
pub open spec fn parsed(bytes: Seq<u8>) -> Result<ModelConfig, ModelError> {
    match peeked(bytes) {
        Err(e) => Err(e),
        Ok(v) => if v != VERSION_F32 && v != VERSION_Q8 {
            Err(ModelError::UnsupportedVersion(v))
        } else if !fixed_dimensions_match(bytes) {
            Err(ModelError::ConfigMismatch)
        } else {
            Ok(header_config(bytes))
        },
    }
}

/// Read a dimension field as a size.
fn dimension(bytes: &[u8], off: usize) -> (r: usize)
    requires
        off + 4 <= bytes@.len(),
    ensures
        r == as_size(crate::bytes::le_i32(bytes@, off as int)),
{
    let v: i32 = rd_i32(bytes, off);
    if v >= 0 {
        v as usize
    } else {
        usize::MAX - (-(v + 1)) as usize
    }
}

impl ModelConfig {
    /// Peek the format version (`1`: [`Weights`], `2`: [`QuantizedWeights`]) from the header,
    /// without parsing the rest.
    pub fn version(bytes: &[u8]) -> (r: Result<i32, ModelError>)
        ensures
            r == peeked(bytes@),
    {
        if bytes.len() < HEADER_BYTES {
            return Err(ModelError::TooShort);
        }
        if bytes[0] != MAGIC[0] || bytes[1] != MAGIC[1] || bytes[2] != MAGIC[2] || bytes[3]
            != MAGIC[3] {
            return Err(ModelError::BadMagic);
        }
        assert(bytes@.take(4) =~= MAGIC@);
        Ok(rd_i32(bytes, 4))
    }

    /// Parse and validate the 64-byte header, returning just the layer dimensions.
    ///
    /// Checks the magic, the version, and that the fixed dimensions match the compiled
    /// pipeline. It does not look at the weights.
    pub fn parse(bytes: &[u8]) -> (r: Result<ModelConfig, ModelError>)
        ensures
            r == parsed(bytes@),
    {
        let version: i32 = match ModelConfig::version(bytes) {
            Ok(v) => v,
            Err(e) => return Err(e),
        };
        if version != VERSION_F32 && version != VERSION_Q8 {
            return Err(ModelError::UnsupportedVersion(version));
        }
        if rd_i32(bytes, 8) != N_AXES as i32 || rd_i32(bytes, 12) != WINDOW_LEN as i32 || rd_i32(
            bytes,
            40,
        ) != FEATURE_LEN as i32 || rd_i32(bytes, 44) != N_CLASSES as i32 {
            return Err(ModelError::ConfigMismatch);
        }
        Ok(
            ModelConfig {
                c1: dimension(bytes, 16),
                k1: dimension(bytes, 20),
                s1: dimension(bytes, 24),
                c2: dimension(bytes, 28),
                k2: dimension(bytes, 32),
                s2: dimension(bytes, 36),
            },
        )
    }
}

/// The sizes a configuration implies.
impl ModelConfig {
    /// Whether both kernels fit into what they slide over, and both layers move.
    pub open spec fn convolves(self) -> bool {
        &&& self.s1 >= 1
        &&& self.k1 <= WINDOW_LEN
        &&& self.s2 >= 1
        &&& self.k2 <= self.len1()
    }

    /// conv1 output length.
    pub open spec fn len1(self) -> int {
        out_len(WINDOW_LEN as int, self.k1 as int, self.s1 as int)
    }

    /// conv2 output length.
    pub open spec fn len2(self) -> int {
        out_len(self.len1(), self.k2 as int, self.s2 as int)
    }

    /// Elements of the conv1 output.
    pub open spec fn c1_len(self) -> int {
        self.c1 * self.len1()
    }

    /// Elements of the conv2 output.
    pub open spec fn c2_len(self) -> int {
        self.c2 * self.len2()
    }

    /// Elements of the dense input: one pooled value per channel, then the features.
    pub open spec fn fc_in_len(self) -> int {
        self.c2 + FEATURE_LEN
    }

    /// Elements of all activation buffers together.
    pub open spec fn buffer_total(self) -> int {
        N_AXES * WINDOW_LEN + self.c1_len() + self.c2_len() + self.fc_in_len()
    }

    /// Whether the buffers can be counted by a `usize`.
    pub open spec fn buffers_fit(self) -> bool {
        self.buffer_total() <= usize::MAX
    }

    /// conv1 weights, `[c1, N_AXES, k1]`.
    pub open spec fn conv1_w_len(self) -> int {
        self.c1 * N_AXES * self.k1
    }

    /// conv2 weights, `[c2, c1, k2]`.
    pub open spec fn conv2_w_len(self) -> int {
        self.c2 * self.c1 * self.k2
    }

    /// Dense weights, `[N_CLASSES, c2 + FEATURE_LEN]`.
    pub open spec fn fc_w_len(self) -> int {
        N_CLASSES * self.fc_in_len()
    }

    /// Values of a single-precision checkpoint: the weights and biases of all three layers.
    pub open spec fn weight_total(self) -> int {
        self.conv1_w_len() + self.c1 + self.conv2_w_len() + self.c2 + self.fc_w_len() + N_CLASSES
    }

    /// `i8` values of a quantized checkpoint: the three weight tensors.
    pub open spec fn q_weight_total(self) -> int {
        self.conv1_w_len() + self.conv2_w_len() + self.fc_w_len()
    }

    /// `i32` values of a quantized checkpoint: bias, multiplier and shift of each conv output
    /// channel, then multiplier and shift of the pool.
    pub open spec fn q_i32_total(self) -> int {
        3 * self.c1 + 3 * self.c2 + 2
    }

    /// Single-precision values of a quantized checkpoint: two input scales, then a scale and a
    /// bias per class.
    pub open spec fn q_f32_total(self) -> int {
        2 + 2 * N_CLASSES
    }

    /// Bytes of a single-precision checkpoint.
    pub open spec fn file_len(self) -> int {
        HEADER_BYTES + 4 * self.weight_total()
    }

    /// Bytes of a quantized checkpoint.
    pub open spec fn q_file_len(self) -> int {
        HEADER_BYTES + 4 * self.q_f32_total() + 4 * self.q_i32_total() + self.q_weight_total()
    }

    /// Whether the channel products that every count starts from can be held by a `usize`.
    pub open spec fn channels_fit(self) -> bool {
        &&& self.c1 * N_AXES <= usize::MAX
        &&& self.c2 * self.c1 <= usize::MAX
    }

    /// Whether the size of a single-precision checkpoint can be held by a `usize`.
    pub open spec fn weights_fit(self) -> bool {
        self.channels_fit() && self.file_len() <= usize::MAX
    }

    /// Whether the size of a quantized checkpoint can be held by a `usize`.
    pub open spec fn q_weights_fit(self) -> bool {
        self.channels_fit() && self.q_file_len() <= usize::MAX
    }

    /// The products behind the sizes are not negative.
    pub proof fn lemma_products(self)
        ensures
            self.conv1_w_len() >= 0,
            self.conv2_w_len() >= 0,
            self.c1 * N_AXES >= 0,
            self.c2 * self.c1 >= 0,
            self.convolves() ==> self.len1() >= 1 && self.len2() >= 1 && self.c1_len() >= 0
                && self.c2_len() >= 0,
    {
        assert(self.c2 * self.c1 >= 0) by (nonlinear_arith);
        assert(self.c2 * self.c1 * self.k2 >= 0) by (nonlinear_arith);
        assert(self.c1 * N_AXES * self.k1 >= 0) by (nonlinear_arith);
        if self.convolves() {
            vstd::arithmetic::div_mod::lemma_div_pos_is_pos(WINDOW_LEN - self.k1, self.s1 as int);
            vstd::arithmetic::div_mod::lemma_div_pos_is_pos(
                self.len1() - self.k2,
                self.s2 as int,
            );
            vstd::arithmetic::mul::lemma_mul_nonnegative(self.c1 as int, self.len1());
            vstd::arithmetic::mul::lemma_mul_nonnegative(self.c2 as int, self.len2());
        }
    }

    /// The output lengths of the layers are small enough for any size.
    pub proof fn lemma_lengths(self)
        requires
            self.convolves(),
        ensures
            1 <= self.len1() <= WINDOW_LEN + 1,
            1 <= self.len2() <= WINDOW_LEN + 2,
    {
        vstd::arithmetic::div_mod::lemma_div_is_ordered_by_denominator(
            WINDOW_LEN - self.k1,
            1,
            self.s1 as int,
        );
        vstd::arithmetic::div_mod::lemma_div_is_ordered_by_denominator(
            self.len1() - self.k2,
            1,
            self.s2 as int,
        );
        self.lemma_products();
    }

    /// conv1 output length over the window.
    pub fn l1(&self) -> (r: usize)
        requires
            self.s1 >= 1,
            self.k1 <= WINDOW_LEN,
        ensures
            r == self.len1(),
            1 <= r <= WINDOW_LEN + 1,
    {
        conv1d_out_len(WINDOW_LEN, self.k1, self.s1)
    }

    /// conv2 output length over conv1's output.
    pub fn l2(&self) -> (r: usize)
        requires
            self.convolves(),
        ensures
            r == self.len2(),
            1 <= r <= WINDOW_LEN + 2,
    {
        conv1d_out_len(self.l1(), self.k2, self.s2)
    }

    /// Elements a forward pass carves from its arena: the de-interleaved window, both conv
    /// outputs and the dense input. Counts elements, not bytes, so it sizes the buffers of
    /// either representation.
    pub fn buf_len(&self) -> (r: usize)
        requires
            self.convolves(),
            self.buffers_fit(),
        ensures
            r == self.buffer_total(),
    {
        proof {
            self.lemma_products();
        }
        N_AXES * WINDOW_LEN + self.c1 * self.l1() + self.c2 * self.l2() + self.c2 + FEATURE_LEN
    }

    /// Values a single-precision checkpoint carries.
    pub fn weight_floats(&self) -> (r: usize)
        requires
            self.channels_fit(),
            self.weight_total() <= usize::MAX,
        ensures
            r == self.weight_total(),
    {
        proof {
            self.lemma_products();
        }
        self.c1 * N_AXES * self.k1 + self.c1 + self.c2 * self.c1 * self.k2 + self.c2 + N_CLASSES * (
        self.c2 + FEATURE_LEN) + N_CLASSES
    }

    /// `i8` weights a quantized checkpoint carries.
    pub fn q_weight_i8s(&self) -> (r: usize)
        requires
            self.channels_fit(),
            self.q_weight_total() <= usize::MAX,
        ensures
            r == self.q_weight_total(),
    {
        proof {
            self.lemma_products();
        }
        self.c1 * N_AXES * self.k1 + self.c2 * self.c1 * self.k2 + N_CLASSES * (self.c2
            + FEATURE_LEN)
    }

    /// `i32` values a quantized checkpoint carries.
    pub fn q_i32_count(&self) -> (r: usize)
        requires
            self.q_i32_total() <= usize::MAX,
        ensures
            r == self.q_i32_total(),
    {
        3 * self.c1 + 3 * self.c2 + 2
    }

    /// Lengths of the conv1 and conv2 weight tensors, if a `usize` can hold them.
    fn conv_weights(&self) -> (r: Option<(usize, usize)>)
        ensures
            r is Some <==> self.channels_fit() && self.conv1_w_len() <= usize::MAX
                && self.conv2_w_len() <= usize::MAX,
            r matches Some((a, b)) ==> a == self.conv1_w_len() && b == self.conv2_w_len(),
    {
        let taps: usize = self.c1.checked_mul(N_AXES)?.checked_mul(self.k1)?;
        let mixes: usize = self.c2.checked_mul(self.c1)?.checked_mul(self.k2)?;
        Some((taps, mixes))
    }

    /// Bytes of a single-precision checkpoint, if a `usize` can hold their number.
    pub fn file_bytes(&self) -> (r: Option<usize>)
        ensures
            r is Some <==> self.weights_fit(),
            r matches Some(n) ==> n == self.file_len(),
    {
        proof {
            self.lemma_products();
        }
        let (taps, mixes) = self.conv_weights()?;
        let dense: usize = self.c2.checked_add(FEATURE_LEN)?.checked_mul(N_CLASSES)?;
        let floats: usize = taps.checked_add(self.c1)?.checked_add(mixes)?.checked_add(
            self.c2,
        )?.checked_add(dense)?.checked_add(N_CLASSES)?;
        floats.checked_mul(4)?.checked_add(HEADER_BYTES)
    }

    /// Bytes of a quantized checkpoint, if a `usize` can hold their number.
    pub fn q_file_bytes(&self) -> (r: Option<usize>)
        ensures
            r is Some <==> self.q_weights_fit(),
            r matches Some(n) ==> n == self.q_file_len(),
    {
        proof {
            self.lemma_products();
        }
        let (taps, mixes) = self.conv_weights()?;
        let dense: usize = self.c2.checked_add(FEATURE_LEN)?.checked_mul(N_CLASSES)?;
        let i8s: usize = taps.checked_add(mixes)?.checked_add(dense)?;
        let i32s: usize = self.c1.checked_mul(3)?.checked_add(self.c2.checked_mul(3)?)?.checked_add(
            2,
        )?;
        i32s.checked_mul(4)?.checked_add(4 * self.q_f32_floats())?.checked_add(
            HEADER_BYTES,
        )?.checked_add(i8s)
    }

    /// The buffer budget of [`buf_len`](Self::buf_len), if the kernels fit into what they slide
    /// over and a `usize` can hold the budget.
    pub fn checked_buf_len(&self) -> (r: Option<usize>)
        ensures
            r is Some <==> self.convolves() && self.buffers_fit(),
            r matches Some(n) ==> n == self.buffer_total(),
    {
        proof {
            self.lemma_products();
        }
        if self.s1 < 1 || self.k1 > WINDOW_LEN || self.s2 < 1 || self.k2 > self.l1() {
            return None;
        }
        let first: usize = self.c1.checked_mul(self.l1())?;
        let second: usize = self.c2.checked_mul(self.l2())?;
        first.checked_add(second)?.checked_add(self.c2)?.checked_add(
            N_AXES * WINDOW_LEN + FEATURE_LEN,
        )
    }

    /// Single-precision values a quantized checkpoint carries.
    pub fn q_f32_floats(&self) -> (r: usize)
        ensures
            r == self.q_f32_total(),
    {
        2 + 2 * N_CLASSES
    }
}

/// Zero-copy views of each weight tensor of a single-precision model, as bit patterns.
///
/// Every field borrows a sub-slice of the checkpoint; nothing is copied or reshaped. Holds no
/// [`ModelConfig`]: the config is parsed alongside it.
#[derive(Clone, Copy, Debug)]
pub struct Weights<'w> {
    /// conv1 weight, `[c1, N_AXES, k1]`.
    pub conv1_w: &'w [F32Bits],
    /// conv1 bias, `[c1]`.
    pub conv1_b: &'w [F32Bits],
    /// conv2 weight, `[c2, c1, k2]`.
    pub conv2_w: &'w [F32Bits],
    /// conv2 bias, `[c2]`.
    pub conv2_b: &'w [F32Bits],
    /// Dense weight, `[N_CLASSES, c2 + FEATURE_LEN]`.
    pub fc_w: &'w [F32Bits],
    /// Dense bias, `[N_CLASSES]`.
    pub fc_b: &'w [F32Bits],
}

/// What loading a single-precision checkpoint decides before it looks at alignment.
pub open spec fn checked_f32(bytes: Seq<u8>) -> Result<ModelConfig, ModelError> {
    match parsed(bytes) {
        Err(e) => Err(e),
        Ok(config) => if version_field(bytes) != VERSION_F32 {
            Err(ModelError::UnsupportedVersion(version_field(bytes)))
        } else if bytes.len() != config.file_len() {
            Err(
                ModelError::SizeMismatch {
                    expected: config.file_len() as usize,
                    got: bytes.len() as usize,
                },
            )
        } else {
            Ok(config)
        },
    }
}

impl<'w> Weights<'w> {
    /// Whether each tensor has the length the config gives it.
    pub open spec fn shaped(self, config: ModelConfig) -> bool {
        &&& self.conv1_w@.len() == config.conv1_w_len()
        &&& self.conv1_b@.len() == config.c1
        &&& self.conv2_w@.len() == config.conv2_w_len()
        &&& self.conv2_b@.len() == config.c2
        &&& self.fc_w@.len() == config.fc_w_len()
        &&& self.fc_b@.len() == N_CLASSES
    }

    /// All tensors, end to end in declaration order.
    pub open spec fn flat(self) -> Seq<F32Bits> {
        self.conv1_w@ + self.conv1_b@ + self.conv2_w@ + self.conv2_b@ + self.fc_w@ + self.fc_b@
    }

    /// Whether these are the tensors of a single-precision checkpoint of this config.
    pub open spec fn reads(self, bytes: Seq<u8>, config: ModelConfig) -> bool {
        &&& self.shaped(config)
        &&& self.flat() == crate::views::native_words(bytes.skip(HEADER_BYTES as int))
    }

    /// Carve the six weight tensors out of a checkpoint's values, in declaration order. Values
    /// past the last tensor are ignored.
    pub fn new(floats: &'w [F32Bits], config: &ModelConfig) -> (r: Result<Weights<'w>, ModelError>)
        requires
            config.channels_fit(),
            4 * config.weight_total() <= usize::MAX,
        ensures
            floats@.len() < config.weight_total() ==> r == Err::<Weights<'w>, ModelError>(
                ModelError::SizeMismatch {
                    expected: (4 * config.weight_total()) as usize,
                    got: (4 * floats@.len()) as usize,
                },
            ),
            floats@.len() >= config.weight_total() ==> {
                &&& r matches Ok(w)
                &&& w.shaped(*config)
                &&& w.flat() == floats@.take(config.weight_total())
            },
    {
        proof {
            config.lemma_products();
        }
        let needed: usize = config.weight_floats();
        if floats.len() < needed {
            let got: usize = core::mem::size_of_val(floats);
            proof {
                broadcast use vstd::layout::layout_of_slices;
                broadcast use vstd::layout::layout_of_primitives;

            }
            return Err(ModelError::SizeMismatch { expected: needed * 4, got });
        }
        let (conv1_w, rest) = floats.split_at(config.c1 * N_AXES * config.k1);
        let (conv1_b, rest) = rest.split_at(config.c1);
        let (conv2_w, rest) = rest.split_at(config.c2 * config.c1 * config.k2);
        let (conv2_b, rest) = rest.split_at(config.c2);
        let (fc_w, rest) = rest.split_at(N_CLASSES * (config.c2 + FEATURE_LEN));
        let (fc_b, _) = rest.split_at(N_CLASSES);
        Ok(Weights { conv1_w, conv1_b, conv2_w, conv2_b, fc_w, fc_b })
    }

    /// Validate the header of a single-precision model and check its exact size.
    pub fn check(bytes: &[u8]) -> (r: Result<ModelConfig, ModelError>)
        requires
            parsed(bytes@) matches Ok(config) ==> version_field(bytes@) == VERSION_F32
                ==> config.weights_fit(),
        ensures
            r == checked_f32(bytes@),
    {
        let config: ModelConfig = match ModelConfig::parse(bytes) {
            Ok(c) => c,
            Err(e) => return Err(e),
        };
        let version: i32 = rd_i32(bytes, 4);
        if version != VERSION_F32 {
            return Err(ModelError::UnsupportedVersion(version));
        }
        let expected: usize = HEADER_BYTES + config.weight_floats() * 4;
        if bytes.len() != expected {
            return Err(ModelError::SizeMismatch { expected, got: bytes.len() });
        }
        Ok(config)
    }

    /// Carve the tensors out of the viewed values, or report that they could not be viewed.
    pub fn from_view(view: Option<&'w [F32Bits]>, config: &ModelConfig) -> (r: Result<
        Weights<'w>,
        ModelError,
    >)
        requires
            config.channels_fit(),
            4 * config.weight_total() <= usize::MAX,
            view matches Some(floats) ==> floats@.len() >= config.weight_total(),
        ensures
            view is None ==> r == Err::<Weights<'w>, ModelError>(ModelError::Misaligned),
            view matches Some(floats) ==> {
                &&& r matches Ok(w)
                &&& w.shaped(*config)
                &&& w.flat() == floats@.take(config.weight_total())
            },
    {
        match view {
            Some(floats) => Weights::new(floats, config),
            None => Err(ModelError::Misaligned),
        }
    }

    /// The weight region of a checkpoint: everything behind the header.
    pub fn payload(bytes: &[u8]) -> (r: &[u8])
        requires
            bytes@.len() >= HEADER_BYTES,
        ensures
            r@ == bytes@.skip(HEADER_BYTES as int),
    {
        let (_, payload) = bytes.split_at(HEADER_BYTES);
        payload
    }

    /// Load a single-precision model: validate the header, check the exact size, and view each
    /// weight tensor in place. Returns the config and the views side by side.
    ///
    /// The weights are viewed in the byte order of the machine; the format is little-endian.
    /// [`ModelError::Misaligned`] is returned exactly when the cast refuses the weight region,
    /// which no clause can predict: it depends on the address of `bytes`.
    pub fn load(bytes: &'w [u8]) -> (r: Result<(ModelConfig, Weights<'w>), ModelError>)
        requires
            parsed(bytes@) matches Ok(config) ==> version_field(bytes@) == VERSION_F32
                ==> config.weights_fit(),
        ensures
            match checked_f32(bytes@) {
                Err(e) => r == Err::<(ModelConfig, Weights<'w>), ModelError>(e),
                Ok(config) => match r {
                    Err(e) => e == ModelError::Misaligned && misplaced_f32(bytes@),
                    Ok((c, w)) => c == config && w.reads(bytes@, config),
                },
            },
    {
        let config: ModelConfig = match Weights::check(bytes) {
            Ok(c) => c,
            Err(e) => return Err(e),
        };
        let view: Option<&'w [F32Bits]> = view_words(Weights::payload(bytes));
        assert(view matches Some(floats) ==> floats@.take(config.weight_total()) =~= floats@);
        match Weights::from_view(view, &config) {
            Ok(weights) => Ok((config, weights)),
            Err(e) => Err(e),
        }
    }
}

/// Whether the cast has refused the weight region of this single-precision checkpoint.
pub open spec fn misplaced_f32(bytes: Seq<u8>) -> bool {
    crate::views::refused_words(bytes.skip(HEADER_BYTES as int))
}

/// Whether a cast has refused one of the word blocks of this quantized checkpoint.
pub open spec fn misplaced_q8(bytes: Seq<u8>, config: ModelConfig) -> bool {
    ||| crate::views::refused_words(q_f32_bytes(bytes, config))
    ||| crate::views::refused_ints(q_i32_bytes(bytes, config))
}

/// Zero-copy views of an integer-only int8 model, the quantized twin of [`Weights`].
///
/// Weights and activations are int8, accumulation is `i32`, and each conv output channel is
/// rescaled by a fixed-point multiplier and shift. The single-precision values, kept as bit
/// patterns, belong to the boundaries: the scales that quantize the window and the features,
/// and the scale and bias per class that turn the final sums back into real values.
#[derive(Clone, Copy, Debug)]
pub struct QuantizedWeights<'w> {
    /// conv1 int8 weight, `[c1, N_AXES, k1]`.
    pub conv1_w: &'w [i8],
    /// conv1 bias `[c1]`, pre-scaled to the accumulator domain.
    pub conv1_bias: &'w [i32],
    /// conv1 requantization multiplier per output channel `[c1]`.
    pub conv1_mult: &'w [i32],
    /// conv1 requantization shift per output channel `[c1]`.
    pub conv1_shift: &'w [i32],
    /// conv2 int8 weight, `[c2, c1, k2]`.
    pub conv2_w: &'w [i8],
    /// conv2 bias `[c2]`.
    pub conv2_bias: &'w [i32],
    /// conv2 requantization multiplier per output channel `[c2]`.
    pub conv2_mult: &'w [i32],
    /// conv2 requantization shift per output channel `[c2]`.
    pub conv2_shift: &'w [i32],
    /// Global-average-pool requantization multiplier.
    pub pool_mult: i32,
    /// Global-average-pool requantization shift.
    pub pool_shift: i32,
    /// Dense int8 weight, `[N_CLASSES, c2 + FEATURE_LEN]`.
    pub fc_w: &'w [i8],
    /// Dense bias `[N_CLASSES]`, added after the final rescale.
    pub fc_bias: &'w [F32Bits],
    /// Output scale per class `[N_CLASSES]`.
    pub fc_out_scale: &'w [F32Bits],
    /// Scale that quantizes the raw window.
    pub s_in0: F32Bits,
    /// Scale that quantizes the features.
    pub s_fc_in: F32Bits,
}

/// What loading a quantized checkpoint decides before it looks at alignment.
pub open spec fn checked_q8(bytes: Seq<u8>) -> Result<ModelConfig, ModelError> {
    match parsed(bytes) {
        Err(e) => Err(e),
        Ok(config) => if version_field(bytes) != VERSION_Q8 {
            Err(ModelError::UnsupportedVersion(version_field(bytes)))
        } else if bytes.len() != config.q_file_len() {
            Err(
                ModelError::SizeMismatch {
                    expected: config.q_file_len() as usize,
                    got: bytes.len() as usize,
                },
            )
        } else {
            Ok(config)
        },
    }
}

/// The single-precision block of a quantized checkpoint.
pub open spec fn q_f32_bytes(bytes: Seq<u8>, config: ModelConfig) -> Seq<u8> {
    bytes.subrange(HEADER_BYTES as int, HEADER_BYTES + 4 * config.q_f32_total())
}

/// The `i32` block of a quantized checkpoint.
pub open spec fn q_i32_bytes(bytes: Seq<u8>, config: ModelConfig) -> Seq<u8> {
    bytes.subrange(
        HEADER_BYTES + 4 * config.q_f32_total(),
        HEADER_BYTES + 4 * config.q_f32_total() + 4 * config.q_i32_total(),
    )
}

/// The trailing `i8` block of a quantized checkpoint.
pub open spec fn q_i8_bytes(bytes: Seq<u8>, config: ModelConfig) -> Seq<u8> {
    bytes.skip(HEADER_BYTES + 4 * config.q_f32_total() + 4 * config.q_i32_total())
}

impl<'w> QuantizedWeights<'w> {
    /// Whether each tensor has the length the config gives it.
    pub open spec fn shaped(self, config: ModelConfig) -> bool {
        &&& self.conv1_w@.len() == config.conv1_w_len()
        &&& self.conv1_bias@.len() == config.c1
        &&& self.conv1_mult@.len() == config.c1
        &&& self.conv1_shift@.len() == config.c1
        &&& self.conv2_w@.len() == config.conv2_w_len()
        &&& self.conv2_bias@.len() == config.c2
        &&& self.conv2_mult@.len() == config.c2
        &&& self.conv2_shift@.len() == config.c2
        &&& self.fc_w@.len() == config.fc_w_len()
        &&& self.fc_bias@.len() == N_CLASSES
        &&& self.fc_out_scale@.len() == N_CLASSES
    }

    /// The single-precision values in file order.
    pub open spec fn flat_f32(self) -> Seq<F32Bits> {
        seq![self.s_in0, self.s_fc_in] + self.fc_out_scale@ + self.fc_bias@
    }

    /// The `i32` values in file order.
    pub open spec fn flat_i32(self) -> Seq<i32> {
        self.conv1_bias@ + self.conv1_mult@ + self.conv1_shift@ + self.conv2_bias@
            + self.conv2_mult@ + self.conv2_shift@ + seq![self.pool_mult, self.pool_shift]
    }

    /// The `i8` values in file order.
    pub open spec fn flat_i8(self) -> Seq<i8> {
        self.conv1_w@ + self.conv2_w@ + self.fc_w@
    }

    /// Whether these are the tensors of a quantized checkpoint of this config.
    pub open spec fn reads(self, bytes: Seq<u8>, config: ModelConfig) -> bool {
        &&& self.shaped(config)
        &&& self.flat_f32() == crate::views::native_words(q_f32_bytes(bytes, config))
        &&& self.flat_i32() == crate::views::native_ints(q_i32_bytes(bytes, config))
        &&& self.flat_i8() == crate::views::signed_bytes(q_i8_bytes(bytes, config))
    }

    /// Carve the tensors out of the three blocks of a quantized checkpoint.
    pub fn from_blocks(
        f32_block: &'w [F32Bits],
        i32_block: &'w [i32],
        i8_block: &'w [i8],
        config: &ModelConfig,
    ) -> (w: QuantizedWeights<'w>)
        requires
            config.channels_fit(),
            f32_block@.len() == config.q_f32_total(),
            i32_block@.len() == config.q_i32_total(),
            i8_block@.len() == config.q_weight_total(),
        ensures
            w.shaped(*config),
            w.flat_f32() == f32_block@,
            w.flat_i32() == i32_block@,
            w.flat_i8() == i8_block@,
    {
        proof {
            config.lemma_products();
        }
        assert(i8_block.len() == config.q_weight_total());
        let (scales, rest) = f32_block.split_at(2);
        let (fc_out_scale, fc_bias) = rest.split_at(N_CLASSES);

        let (conv1_bias, rest) = i32_block.split_at(config.c1);
        let (conv1_mult, rest) = rest.split_at(config.c1);
        let (conv1_shift, rest) = rest.split_at(config.c1);
        let (conv2_bias, rest) = rest.split_at(config.c2);
        let (conv2_mult, rest) = rest.split_at(config.c2);
        let (conv2_shift, pool) = rest.split_at(config.c2);

        let (conv1_w, rest) = i8_block.split_at(config.c1 * N_AXES * config.k1);
        let (conv2_w, fc_w) = rest.split_at(config.c2 * config.c1 * config.k2);

        QuantizedWeights {
            conv1_w,
            conv1_bias,
            conv1_mult,
            conv1_shift,
            conv2_w,
            conv2_bias,
            conv2_mult,
            conv2_shift,
            pool_mult: pool[0],
            pool_shift: pool[1],
            fc_w,
            fc_bias,
            fc_out_scale,
            s_in0: scales[0],
            s_fc_in: scales[1],
        }
    }

    /// Validate the header of an int8 model and check its exact size.
    pub fn check(bytes: &[u8]) -> (r: Result<ModelConfig, ModelError>)
        requires
            parsed(bytes@) matches Ok(config) ==> version_field(bytes@) == VERSION_Q8
                ==> config.q_weights_fit(),
        ensures
            r == checked_q8(bytes@),
    {
        let config: ModelConfig = match ModelConfig::parse(bytes) {
            Ok(c) => c,
            Err(e) => return Err(e),
        };
        let version: i32 = rd_i32(bytes, 4);
        if version != VERSION_Q8 {
            return Err(ModelError::UnsupportedVersion(version));
        }
        let expected: usize = HEADER_BYTES + config.q_f32_floats() * 4 + config.q_i32_count() * 4
            + config.q_weight_i8s();
        if bytes.len() != expected {
            return Err(ModelError::SizeMismatch { expected, got: bytes.len() });
        }
        Ok(config)
    }

    /// Carve the tensors out of the viewed blocks, or report that one of the first two could
    /// not be viewed.
    pub fn from_views(
        f32_view: Option<&'w [F32Bits]>,
        i32_view: Option<&'w [i32]>,
        i8_block: &'w [i8],
        config: &ModelConfig,
    ) -> (r: Result<QuantizedWeights<'w>, ModelError>)
        requires
            config.channels_fit(),
            f32_view matches Some(block) ==> block@.len() == config.q_f32_total(),
            i32_view matches Some(block) ==> block@.len() == config.q_i32_total(),
            i8_block@.len() == config.q_weight_total(),
        ensures
            f32_view is None || i32_view is None ==> r == Err::<QuantizedWeights<'w>, ModelError>(
                ModelError::Misaligned,
            ),
            f32_view is Some && i32_view is Some ==> {
                &&& r matches Ok(w)
                &&& w.shaped(*config)
                &&& w.flat_f32() == f32_view->0@
                &&& w.flat_i32() == i32_view->0@
                &&& w.flat_i8() == i8_block@
            },
    {
        match (f32_view, i32_view) {
            (Some(f32_block), Some(i32_block)) => Ok(
                QuantizedWeights::from_blocks(f32_block, i32_block, i8_block, config),
            ),
            _ => Err(ModelError::Misaligned),
        }
    }

    /// The three blocks of a checkpoint behind the header: the single-precision values, the
    /// `i32` values and the `i8` values.
    pub fn blocks<'a>(bytes: &'a [u8], config: &ModelConfig) -> (r: (&'a [u8], &'a [u8], &'a [u8]))
        requires
            config.q_weights_fit(),
            bytes@.len() == config.q_file_len(),
        ensures
            r.0@ == q_f32_bytes(bytes@, *config),
            r.1@ == q_i32_bytes(bytes@, *config),
            r.2@ == q_i8_bytes(bytes@, *config),
    {
        proof {
            config.lemma_products();
        }
        let f32_end: usize = HEADER_BYTES + config.q_f32_floats() * 4;
        let i32_end: usize = f32_end + config.q_i32_count() * 4;
        let (_, tail) = bytes.split_at(i32_end);
        (&bytes[HEADER_BYTES..f32_end], &bytes[f32_end..i32_end], tail)
    }

    /// Load an integer-only int8 model.
    ///
    /// After the shared header come three blocks: the single-precision values (`s_in0`,
    /// `s_fc_in`, `fc_out_scale`, `fc_bias`), the `i32` values (bias, multiplier and shift of
    /// conv1, the same of conv2, the pool's multiplier and shift), and the `i8` weights
    /// (`conv1_w`, `conv2_w`, `fc_w`). The first two are viewed in the byte order of the
    /// machine. [`ModelError::Misaligned`] is returned exactly when a cast refuses one of them,
    /// which no clause can predict: it depends on the address of `bytes`.
    pub fn load(bytes: &'w [u8]) -> (r: Result<(ModelConfig, QuantizedWeights<'w>), ModelError>)
        requires
            parsed(bytes@) matches Ok(config) ==> version_field(bytes@) == VERSION_Q8
                ==> config.q_weights_fit(),
        ensures
            match checked_q8(bytes@) {
                Err(e) => r == Err::<(ModelConfig, QuantizedWeights<'w>), ModelError>(e),
                Ok(config) => match r {
                    Err(e) => e == ModelError::Misaligned && misplaced_q8(bytes@, config),
                    Ok((c, w)) => c == config && w.reads(bytes@, config),
                },
            },
    {
        let config: ModelConfig = match QuantizedWeights::check(bytes) {
            Ok(c) => c,
            Err(e) => return Err(e),
        };
        proof {
            config.lemma_products();
        }
        let (f32_bytes, i32_bytes, i8_bytes) = QuantizedWeights::blocks(bytes, &config);
        let f32_view: Option<&'w [F32Bits]> = view_words(f32_bytes);
        let i32_view: Option<&'w [i32]> = view_ints(i32_bytes);
        match QuantizedWeights::from_views(f32_view, i32_view, cast_signed(i8_bytes), &config) {
            Ok(weights) => Ok((config, weights)),
            Err(e) => Err(e),
        }
    }
}

/// A loaded model's weights in whichever representation the checkpoint carried.
#[derive(Clone, Copy, Debug)]
pub enum ModelWeights<'w> {
    /// Single-precision weights (version 1).
    F32(Weights<'w>),
    /// Integer-only int8 weights (version 2).
    Q8(QuantizedWeights<'w>),
}

/// Whether `r` is what the single-precision loader answers for some bytes, wrapped.
pub open spec fn answers_f32<'w>(
    bytes: &'w [u8],
    r: Result<(ModelConfig, ModelWeights<'w>), ModelError>,
) -> bool {
    exists|o: Result<(ModelConfig, Weights<'w>), ModelError>| #[trigger]
        call_ensures(Weights::<'w>::load, (bytes,), o) && r == (match o {
            Ok((config, w)) => Ok((config, ModelWeights::F32(w))),
            Err(e) => Err(e),
        })
}

/// Whether `r` is what the int8 loader answers for some bytes, wrapped.
pub open spec fn answers_q8<'w>(
    bytes: &'w [u8],
    r: Result<(ModelConfig, ModelWeights<'w>), ModelError>,
) -> bool {
    exists|o: Result<(ModelConfig, QuantizedWeights<'w>), ModelError>| #[trigger]
        call_ensures(QuantizedWeights::<'w>::load, (bytes,), o) && r == (match o {
            Ok((config, w)) => Ok((config, ModelWeights::Q8(w))),
            Err(e) => Err(e),
        })
}

/// Apply a loader.
fn apply<'w, W, F>(loader: F, bytes: &'w [u8]) -> (r: Result<(ModelConfig, W), ModelError>) where
    F: Fn(&'w [u8]) -> Result<(ModelConfig, W), ModelError>,

    requires
        loader.requires((bytes,)),
    ensures
        loader.ensures((bytes,), r),
{
    loader(bytes)
}

impl<'w> ModelWeights<'w> {
    /// Load a checkpoint, choosing the representation by its header version. It answers as the
    /// loader it chooses, [`ModelError::Misaligned`] included.
    pub fn load(bytes: &'w [u8]) -> (r: Result<(ModelConfig, ModelWeights<'w>), ModelError>)
        requires
            parsed(bytes@) matches Ok(config) ==> {
                &&& version_field(bytes@) == VERSION_F32 ==> config.weights_fit()
                &&& version_field(bytes@) == VERSION_Q8 ==> config.q_weights_fit()
            },
        ensures
            match peeked(bytes@) {
                Err(e) => r == Err::<(ModelConfig, ModelWeights<'w>), ModelError>(e),
                Ok(v) => if v == VERSION_F32 {
                    match checked_f32(bytes@) {
                        Err(e) => r == Err::<(ModelConfig, ModelWeights<'w>), ModelError>(e),
                        Ok(config) => match r {
                            Err(e) => e == ModelError::Misaligned && misplaced_f32(bytes@),
                            Ok((c, w)) => {
                                &&& c == config
                                &&& w matches ModelWeights::F32(f)
                                &&& f.reads(bytes@, config)
                            },
                        },
                    }
                } else if v == VERSION_Q8 {
                    match checked_q8(bytes@) {
                        Err(e) => r == Err::<(ModelConfig, ModelWeights<'w>), ModelError>(e),
                        Ok(config) => match r {
                            Err(e) => e == ModelError::Misaligned && misplaced_q8(bytes@, config),
                            Ok((c, w)) => {
                                &&& c == config
                                &&& w matches ModelWeights::Q8(q)
                                &&& q.reads(bytes@, config)
                            },
                        },
                    }
                } else {
                    r == Err::<(ModelConfig, ModelWeights<'w>), ModelError>(
                        ModelError::UnsupportedVersion(v),
                    )
                },
            },
            peeked(bytes@) == Ok::<i32, ModelError>(VERSION_F32) ==> answers_f32(bytes, r),
            peeked(bytes@) == Ok::<i32, ModelError>(VERSION_Q8) ==> answers_q8(bytes, r),
    {
        let version: i32 = match ModelConfig::version(bytes) {
            Ok(v) => v,
            Err(e) => return Err(e),
        };
        if version == VERSION_F32 {
            match apply(Weights::load, bytes) {
                Ok((config, w)) => Ok((config, ModelWeights::F32(w))),
                Err(e) => Err(e),
            }
        } else if version == VERSION_Q8 {
            match apply(QuantizedWeights::load, bytes) {
                Ok((config, w)) => Ok((config, ModelWeights::Q8(w))),
                Err(e) => Err(e),
            }
        } else {
            Err(ModelError::UnsupportedVersion(version))
        }
    }
}

/// The words of a header after the magic, by their place: the version, the fixed dimensions
/// and the layer dimensions.
pub open spec fn header_word(version: i32, config: ModelConfig, k: int) -> i32 {
    if k == 1 {
        version
    } else if k == 2 {
        N_AXES as i32
    } else if k == 3 {
        WINDOW_LEN as i32
    } else if k == 4 {
        config.c1 as i32
    } else if k == 5 {
        config.k1 as i32
    } else if k == 6 {
        config.s1 as i32
    } else if k == 7 {
        config.c2 as i32
    } else if k == 8 {
        config.k2 as i32
    } else if k == 9 {
        config.s2 as i32
    } else if k == 10 {
        FEATURE_LEN as i32
    } else {
        N_CLASSES as i32
    }
}

/// The bytes of a header with these fields, and with any bytes behind them.
pub open spec fn header_bytes(version: i32, config: ModelConfig, reserved: Seq<u8>) -> Seq<u8> {
    Seq::new(
        HEADER_BYTES as nat,
        |i: int|
            if i < 4 {
                MAGIC[i]
            } else if i < HEADER_FIELDS {
                crate::bytes::i32_le_bytes(header_word(version, config, i / 4))[i % 4]
            } else {
                reserved[i - HEADER_FIELDS]
            },
    )
}

/// Whether every dimension can be written into a header field.
pub open spec fn writable(config: ModelConfig) -> bool {
    &&& config.c1 <= i32::MAX
    &&& config.k1 <= i32::MAX
    &&& config.s1 <= i32::MAX
    &&& config.c2 <= i32::MAX
    &&& config.k2 <= i32::MAX
    &&& config.s2 <= i32::MAX
}

/// Word `k` of a written header reads back.
proof fn lemma_header_word(
    version: i32,
    config: ModelConfig,
    reserved: Seq<u8>,
    payload: Seq<u8>,
    k: int,
)
    requires
        1 <= k < 12,
    ensures
        crate::bytes::le_i32(header_bytes(version, config, reserved) + payload, 4 * k) == header_word(
            version,
            config,
            k,
        ),
{
    let file = header_bytes(version, config, reserved) + payload;
    let word = header_word(version, config, k);
    assert(file.subrange(4 * k, 4 * k + 4) =~= crate::bytes::i32_le_bytes(word));
    crate::bytes::law_i32_bytes_read_back(file, 4 * k, word);
}

/// Parsing a written header gives back the dimensions and the version, whatever its reserved
/// bytes hold and whatever follows it.
pub proof fn law_header_parses_back(
    version: i32,
    config: ModelConfig,
    reserved: Seq<u8>,
    payload: Seq<u8>,
)
    requires
        version == VERSION_F32 || version == VERSION_Q8,
        writable(config),
    ensures
        header_bytes(version, config, reserved).len() == HEADER_BYTES,
        parsed(header_bytes(version, config, reserved) + payload) == Ok::<ModelConfig, ModelError>(config),
        peeked(header_bytes(version, config, reserved) + payload) == Ok::<i32, ModelError>(version),
{
    let file = header_bytes(version, config, reserved) + payload;
    assert(file.take(4) =~= MAGIC@);
    lemma_header_word(version, config, reserved, payload, 1);
    lemma_header_word(version, config, reserved, payload, 2);
    lemma_header_word(version, config, reserved, payload, 3);
    lemma_header_word(version, config, reserved, payload, 4);
    lemma_header_word(version, config, reserved, payload, 5);
    lemma_header_word(version, config, reserved, payload, 6);
    lemma_header_word(version, config, reserved, payload, 7);
    lemma_header_word(version, config, reserved, payload, 8);
    lemma_header_word(version, config, reserved, payload, 9);
    lemma_header_word(version, config, reserved, payload, 10);
    lemma_header_word(version, config, reserved, payload, 11);
}

/// A header is its fields: the reserved bytes behind them, and whatever follows the header, do
/// not change what it parses to.
pub proof fn law_reserved_bytes_are_ignored(a: Seq<u8>, b: Seq<u8>)
    requires
        a.len() >= HEADER_BYTES,
        b.len() >= HEADER_BYTES,
        a.take(HEADER_FIELDS as int) == b.take(HEADER_FIELDS as int),
    ensures
        parsed(a) == parsed(b),
        peeked(a) == peeked(b),
        version_field(a) == version_field(b),
{
    assert forall|i: int| 0 <= i < HEADER_FIELDS implies #[trigger] a[i] == b[i] by {
        assert(a.take(HEADER_FIELDS as int)[i] == a[i]);
        assert(b.take(HEADER_FIELDS as int)[i] == b[i]);
    }
    assert(a.take(4) =~= b.take(4));
}

/// A header followed by exactly the weights it implies passes every check of the loader of its
/// version; one byte more or less does not.
pub proof fn law_exact_checkpoint_is_accepted(
    config: ModelConfig,
    reserved: Seq<u8>,
    payload: Seq<u8>,
)
    requires
        writable(config),
    ensures
        checked_f32(header_bytes(VERSION_F32, config, reserved) + payload) is Ok <==> payload.len() == 4
            * config.weight_total(),
        checked_q8(header_bytes(VERSION_Q8, config, reserved) + payload) is Ok <==> payload.len()
            == config.q_file_len() - HEADER_BYTES,
        checked_q8(header_bytes(VERSION_F32, config, reserved) + payload) == Err::<ModelConfig, ModelError>(
            ModelError::UnsupportedVersion(VERSION_F32),
        ),
        checked_f32(header_bytes(VERSION_Q8, config, reserved) + payload) == Err::<ModelConfig, ModelError>(
            ModelError::UnsupportedVersion(VERSION_Q8),
        ),
{
    law_header_parses_back(VERSION_F32, config, reserved, payload);
    law_header_parses_back(VERSION_Q8, config, reserved, payload);
}

/// The int8 checkpoint of a config is smaller than the single-precision one.
pub proof fn law_quantized_checkpoint_is_smaller(config: ModelConfig)
    requires
        config.k1 >= 1,
    ensures
        config.q_file_len() < config.file_len(),
{
    config.lemma_products();
    assert(config.conv1_w_len() >= 3 * config.c1) by (nonlinear_arith)
        requires
            config.k1 >= 1,
            config.conv1_w_len() == config.c1 * N_AXES * config.k1,
            N_AXES == 3,
            config.c1 >= 0,
    ;
}

/// Classes and output indices correspond one to one.
pub proof fn law_class_indices_are_distinct(a: Class, b: Class)
    ensures
        0 <= a.index() < N_CLASSES,
        a.index() == b.index() ==> a == b,
{
}

/// On a little-endian machine the tensors of a single-precision checkpoint are the values that
/// were written into it.
pub proof fn law_checkpoint_reads_back<'w>(
    config: ModelConfig,
    reserved: Seq<u8>,
    values: Seq<F32Bits>,
    weights: Weights<'w>,
)
    requires
        vstd::endian::endianness() == vstd::endian::Endian::Little,
        writable(config),
        weights.reads(
            header_bytes(VERSION_F32, config, reserved) + crate::bytes::words_le_bytes(values),
            config,
        ),
    ensures
        weights.flat() == values,
{
    law_header_parses_back(VERSION_F32, config, reserved, seq![]);
    let payload = crate::bytes::words_le_bytes(values);
    assert((header_bytes(VERSION_F32, config, reserved) + payload).skip(HEADER_BYTES as int) =~= payload);
    crate::views::lemma_native_words(values);
}

/// On a little-endian machine the tensors of a quantized checkpoint are the values that were
/// written into it.
pub proof fn law_quantized_checkpoint_reads_back<'w>(
    config: ModelConfig,
    reserved: Seq<u8>,
    f32_values: Seq<F32Bits>,
    i32_values: Seq<i32>,
    i8_values: Seq<i8>,
    weights: QuantizedWeights<'w>,
)
    requires
        vstd::endian::endianness() == vstd::endian::Endian::Little,
        writable(config),
        f32_values.len() == config.q_f32_total(),
        i32_values.len() == config.q_i32_total(),
        weights.reads(quantized_file(config, reserved, f32_values, i32_values, i8_values), config),
    ensures
        weights.flat_f32() == f32_values,
        weights.flat_i32() == i32_values,
        weights.flat_i8() == i8_values,
{
    crate::bytes::lemma_joined(
        header_bytes(VERSION_Q8, config, reserved),
        crate::bytes::words_le_bytes(f32_values),
        crate::bytes::ints_le_bytes(i32_values),
        crate::bytes::i8_bytes(i8_values),
    );
    crate::views::lemma_native_words(f32_values);
    crate::views::lemma_native_ints(i32_values);
    crate::views::lemma_signed_bytes(i8_values);
}

/// A quantized checkpoint with these values.
pub open spec fn quantized_file(
    config: ModelConfig,
    reserved: Seq<u8>,
    f32_values: Seq<F32Bits>,
    i32_values: Seq<i32>,
    i8_values: Seq<i8>,
) -> Seq<u8> {
    header_bytes(VERSION_Q8, config, reserved) + crate::bytes::words_le_bytes(f32_values)
        + crate::bytes::ints_le_bytes(i32_values) + crate::bytes::i8_bytes(i8_values)
}

/// On a little-endian machine the tensors of a single-precision checkpoint, encoded in order,
/// are its payload: the views partition it without gap or overlap.
pub proof fn law_views_encode_back<'w>(bytes: Seq<u8>, config: ModelConfig, weights: Weights<'w>)
    requires
        vstd::endian::endianness() == vstd::endian::Endian::Little,
        bytes.len() == config.file_len(),
        weights.reads(bytes, config),
    ensures
        crate::bytes::words_le_bytes(weights.flat()) == bytes.skip(HEADER_BYTES as int),
{
    config.lemma_products();
    crate::views::lemma_words_encode_back(bytes.skip(HEADER_BYTES as int));
}

/// On a little-endian machine the tensors of a quantized checkpoint, encoded in order, are its
/// payload: the views partition it without gap or overlap.
pub proof fn law_quantized_views_encode_back<'w>(
    bytes: Seq<u8>,
    config: ModelConfig,
    weights: QuantizedWeights<'w>,
)
    requires
        vstd::endian::endianness() == vstd::endian::Endian::Little,
        bytes.len() == config.q_file_len(),
        weights.reads(bytes, config),
    ensures
        crate::bytes::words_le_bytes(weights.flat_f32()) + crate::bytes::ints_le_bytes(
            weights.flat_i32(),
        ) + crate::bytes::i8_bytes(weights.flat_i8()) == bytes.skip(HEADER_BYTES as int),
{
    config.lemma_products();
    let f32_end = HEADER_BYTES + 4 * config.q_f32_total();
    let i32_end = f32_end + 4 * config.q_i32_total();
    crate::bytes::lemma_cut(bytes, HEADER_BYTES as int, f32_end, i32_end);
    crate::views::lemma_words_encode_back(q_f32_bytes(bytes, config));
    crate::views::lemma_ints_encode_back(q_i32_bytes(bytes, config));
    crate::views::lemma_signed_encode_back(q_i8_bytes(bytes, config));
}

/// Each class has its index, its name and its health: only the first is no fault.
pub proof fn law_classes_are_what_their_names_say(
    i: usize,
    c: Option<Class>,
    d: Class,
    name: &'static str,
    fault: bool,
)
    requires
        call_ensures(Class::from_index, (i,), c),
        call_ensures(Class::name, (d,), name),
        call_ensures(Class::is_fault, (d,), fault),
    ensures
        c == Some(Class::Normal) <==> i == 0,
        c == Some(Class::InnerRace) <==> i == 1,
        c == Some(Class::OuterRace) <==> i == 2,
        c == Some(Class::RollingElement) <==> i == 3,
        c is None <==> i >= 4,
        d == Class::Normal ==> name@ == "normal"@ && !fault,
        d == Class::InnerRace ==> name@ == "inner_race"@ && fault,
        d == Class::OuterRace ==> name@ == "outer_race"@ && fault,
        d == Class::RollingElement ==> name@ == "rolling_element"@ && fault,
{
}

/// What a header says, byte by byte: `epm1`, a version, and ten dimensions, of which four are
/// fixed. The first thing that is wrong is the one that is reported.
pub proof fn law_headers_say_what_their_bytes_say(
    bytes: &[u8],
    v: Result<i32, ModelError>,
    r: Result<ModelConfig, ModelError>,
)
    requires
        call_ensures(ModelConfig::version, (bytes,), v),
        call_ensures(ModelConfig::parse, (bytes,), r),
    ensures
        ({
            let b = bytes@;
            let word = |k: int| crate::bytes::le_i32(b, 4 * k);
            let magic = b[0] == 0x65 && b[1] == 0x70 && b[2] == 0x6d && b[3] == 0x31;
            let fixed = word(2) == 3 && word(3) == 512 && word(10) == 24 && word(11) == 4;
            &&& b.len() < 64 ==> v == Err::<i32, ModelError>(ModelError::TooShort)
            &&& b.len() < 64 ==> r == Err::<ModelConfig, ModelError>(ModelError::TooShort)
            &&& b.len() >= 64 && !magic ==> v == Err::<i32, ModelError>(ModelError::BadMagic)
            &&& b.len() >= 64 && !magic ==> r == Err::<ModelConfig, ModelError>(
                ModelError::BadMagic,
            )
            &&& b.len() >= 64 && magic ==> v == Ok::<i32, ModelError>(word(1) as i32)
            &&& b.len() >= 64 && magic && word(1) != 1 && word(1) != 2 ==> r == Err::<
                ModelConfig,
                ModelError,
            >(ModelError::UnsupportedVersion(word(1) as i32))
            &&& b.len() >= 64 && magic && (word(1) == 1 || word(1) == 2) && !fixed ==> r == Err::<
                ModelConfig,
                ModelError,
            >(ModelError::ConfigMismatch)
            &&& b.len() >= 64 && magic && (word(1) == 1 || word(1) == 2) && fixed ==> {
                &&& r matches Ok(c)
                &&& c.c1 == word(4) || word(4) < 0 && c.c1 == usize::MAX + 1 + word(4)
                &&& c.k1 == word(5) || word(5) < 0 && c.k1 == usize::MAX + 1 + word(5)
                &&& c.s1 == word(6) || word(6) < 0 && c.s1 == usize::MAX + 1 + word(6)
                &&& c.c2 == word(7) || word(7) < 0 && c.c2 == usize::MAX + 1 + word(7)
                &&& c.k2 == word(8) || word(8) < 0 && c.k2 == usize::MAX + 1 + word(8)
                &&& c.s2 == word(9) || word(9) < 0 && c.s2 == usize::MAX + 1 + word(9)
            }
        }),
{
    let b = bytes@;
    if b.len() >= 64 {
        let head = seq![0x65u8, 0x70u8, 0x6du8, 0x31u8];
        assert(MAGIC@ =~= head);
        if b[0] == 0x65 && b[1] == 0x70 && b[2] == 0x6d && b[3] == 0x31 {
            assert(b.take(4) =~= MAGIC@);
        } else {
            assert(b.take(4)[0] == b[0] && b.take(4)[1] == b[1] && b.take(4)[2] == b[2] && b.take(
                4,
            )[3] == b[3]);
            assert(!has_magic(b));
        }
    }
}

/// What the length of a convolution is: the last of the positions `0`, `stride`, `2 stride`, ...
/// still has room for the kernel, and the next one has none.
pub proof fn law_outputs_fill_their_input(len: usize, kernel: usize, stride: usize, r: usize)
    requires
        kernel <= len < usize::MAX,
        stride >= 1,
        call_ensures(conv1d_out_len, (len, kernel, stride), r),
    ensures
        (r - 1) * stride + kernel <= len,
        len < r * stride + kernel,
        r == out_len(len as int, kernel as int, stride as int),
{
    let n = len - kernel;
    let d = n / (stride as int);
    vstd::arithmetic::div_mod::lemma_fundamental_div_mod(n, stride as int);
    assert(0 <= n % (stride as int) < stride);
    assert(r == d + 1);
    assert((r - 1) * stride + kernel <= len && len < r * stride + kernel) by (nonlinear_arith)
        requires
            n == stride * d + n % (stride as int),
            0 <= n % (stride as int) < stride,
            r == d + 1,
            n == len - kernel,
    ;
}

/// The two layer lengths: the first convolution slides over 512 samples, the second over what
/// the first puts out.
pub proof fn law_layers_follow_each_other(config: &ModelConfig, l1: usize, l2: usize)
    requires
        config.s1 >= 1,
        config.s2 >= 1,
        config.k1 <= 512,
        config.k2 <= l1,
        call_ensures(ModelConfig::l1, (config,), l1),
        call_ensures(ModelConfig::l2, (config,), l2),
    ensures
        (l1 - 1) * config.s1 + config.k1 <= 512 < l1 * config.s1 + config.k1,
        (l2 - 1) * config.s2 + config.k2 <= l1 < l2 * config.s2 + config.k2,
        l1 == (512 - config.k1) / (config.s1 as int) + 1,
        l2 == (l1 - config.k2) / (config.s2 as int) + 1,
{
    let n = 512 - config.k1;
    let d = n / (config.s1 as int);
    vstd::arithmetic::div_mod::lemma_fundamental_div_mod(n, config.s1 as int);
    assert((l1 - 1) * config.s1 + config.k1 <= 512 < l1 * config.s1 + config.k1)
        by (nonlinear_arith)
        requires
            n == config.s1 * d + n % (config.s1 as int),
            0 <= n % (config.s1 as int) < config.s1,
            l1 == d + 1,
            n == 512 - config.k1,
    ;
    let m = l1 - config.k2;
    let e = m / (config.s2 as int);
    vstd::arithmetic::div_mod::lemma_fundamental_div_mod(m, config.s2 as int);
    assert((l2 - 1) * config.s2 + config.k2 <= l1 < l2 * config.s2 + config.k2)
        by (nonlinear_arith)
        requires
            m == config.s2 * e + m % (config.s2 as int),
            0 <= m % (config.s2 as int) < config.s2,
            l2 == e + 1,
            m == l1 - config.k2,
    ;
}

/// The sizes, in numbers: three axes, 512 samples, 24 features and four classes.
pub proof fn law_sizes_are_those_of_the_tensors(
    config: &ModelConfig,
    floats: usize,
    i8s: usize,
    i32s: usize,
    f32s: usize,
)
    requires
        call_ensures(ModelConfig::weight_floats, (config,), floats),
        call_ensures(ModelConfig::q_weight_i8s, (config,), i8s),
        call_ensures(ModelConfig::q_i32_count, (config,), i32s),
        call_ensures(ModelConfig::q_f32_floats, (config,), f32s),
    ensures
        floats == config.c1 * 3 * config.k1 + config.c1 + config.c2 * config.c1 * config.k2
            + config.c2 + 4 * (config.c2 + 24) + 4,
        i8s == config.c1 * 3 * config.k1 + config.c2 * config.c1 * config.k2 + 4 * (config.c2 + 24),
        i32s == 3 * config.c1 + 3 * config.c2 + 2,
        f32s == 10,
{
}

/// The working set, in numbers: the window, both layer outputs and the dense input.
pub proof fn law_working_set_is_that_of_the_layers(
    config: &ModelConfig,
    total: usize,
    checked: Option<usize>,
    l1: usize,
    l2: usize,
)
    requires
        config.s1 >= 1,
        config.s2 >= 1,
        config.k1 <= 512,
        config.k2 <= l1,
        call_ensures(ModelConfig::l1, (config,), l1),
        call_ensures(ModelConfig::l2, (config,), l2),
        call_ensures(ModelConfig::buf_len, (config,), total),
        call_ensures(ModelConfig::checked_buf_len, (config,), checked),
    ensures
        total == 1536 + config.c1 * l1 + config.c2 * l2 + config.c2 + 24,
        1536 + config.c1 * l1 + config.c2 * l2 + config.c2 + 24 <= usize::MAX <==> checked is Some,
        checked matches Some(n) ==> n == total,
{
}

/// The files, in numbers: a header of 64 bytes, four bytes for each single-precision and each
/// `i32` value, one for each `i8` value. Their sizes are given exactly when they can be.
pub proof fn law_file_sizes_are_those_of_their_blocks(
    config: &ModelConfig,
    f: Option<usize>,
    q: Option<usize>,
)
    requires
        call_ensures(ModelConfig::file_bytes, (config,), f),
        call_ensures(ModelConfig::q_file_bytes, (config,), q),
    ensures
        ({
            let taps = config.c1 * 3 * config.k1;
            let mixes = config.c2 * config.c1 * config.k2;
            let dense = 4 * (config.c2 + 24);
            &&& f matches Some(n) ==> n == 64 + 4 * (taps + config.c1 + mixes + config.c2 + dense
                + 4)
            &&& q matches Some(n) ==> n == 64 + 40 + 4 * (3 * config.c1 + 3 * config.c2 + 2) + taps
                + mixes + dense
            &&& config.c1 * 3 <= usize::MAX && config.c2 * config.c1 <= usize::MAX && 64 + 4 * (taps
                + config.c1 + mixes + config.c2 + dense + 4) <= usize::MAX <==> f is Some
            &&& config.c1 * 3 <= usize::MAX && config.c2 * config.c1 <= usize::MAX && 64 + 40 + 4
                * (3 * config.c1 + 3 * config.c2 + 2) + taps + mixes + dense <= usize::MAX
                <==> q is Some
        }),
{
}

/// Each single-precision tensor is a stated range of the values: conv1 weights and biases, conv2
/// weights and biases, dense weights and biases, each right behind the one before.
pub proof fn law_tensors_are_ranges<'w>(
    floats: &'w [F32Bits],
    config: &ModelConfig,
    r: Result<Weights<'w>, ModelError>,
)
    requires
        call_ensures(Weights::<'w>::new, (floats, config), r),
        config.c1 * 3 * config.k1 + config.c1 + config.c2 * config.c1 * config.k2 + config.c2 + 4
            * (config.c2 + 24) + 4 <= usize::MAX / 4,
    ensures
        ({
            let a = config.c1 * 3 * config.k1;
            let b = a + config.c1;
            let c = b + config.c2 * config.c1 * config.k2;
            let d = c + config.c2;
            let e = d + 4 * (config.c2 + 24);
            &&& floats@.len() < e + 4 ==> r == Err::<Weights<'w>, ModelError>(
                ModelError::SizeMismatch {
                    expected: (4 * (e + 4)) as usize,
                    got: (4 * floats@.len()) as usize,
                },
            )
            &&& floats@.len() >= e + 4 ==> {
                &&& r matches Ok(w)
                &&& w.conv1_w@ == floats@.subrange(0, a)
                &&& w.conv1_b@ == floats@.subrange(a, b)
                &&& w.conv2_w@ == floats@.subrange(b, c)
                &&& w.conv2_b@ == floats@.subrange(c, d)
                &&& w.fc_w@ == floats@.subrange(d, e)
                &&& w.fc_b@ == floats@.subrange(e, e + 4)
            }
        }),
{
    config.lemma_products();
    if floats@.len() >= config.weight_total() {
        let w = r->Ok_0;
        lemma_weights_are_ranges(w, floats@, *config);
    }
}

/// Tensors that fill a sequence in order are its ranges.
proof fn lemma_weights_are_ranges<'w>(w: Weights<'w>, s: Seq<F32Bits>, config: ModelConfig)
    requires
        w.shaped(config),
        s.len() >= config.weight_total(),
        w.flat() == s.take(config.weight_total()),
    ensures
        ({
            let a = config.c1 * 3 * config.k1;
            let b = a + config.c1;
            let c = b + config.c2 * config.c1 * config.k2;
            let d = c + config.c2;
            let e = d + 4 * (config.c2 + 24);
            &&& 0 <= a
            &&& b <= c
            &&& w.conv1_w@ == s.subrange(0, a)
            &&& w.conv1_b@ == s.subrange(a, b)
            &&& w.conv2_w@ == s.subrange(b, c)
            &&& w.conv2_b@ == s.subrange(c, d)
            &&& w.fc_w@ == s.subrange(d, e)
            &&& w.fc_b@ == s.subrange(e, e + 4)
        }),
{
    config.lemma_products();
    let t = s.take(config.weight_total());
    let s1 = w.conv1_w@ + w.conv1_b@;
    let s2 = s1 + w.conv2_w@;
    let s3 = s2 + w.conv2_b@;
    let s4 = s3 + w.fc_w@;
    let a = config.c1 * 3 * config.k1;
    let b = a + config.c1;
    let c = b + config.c2 * config.c1 * config.k2;
    let d = c + config.c2;
    let e = d + 4 * (config.c2 + 24);
    assert(t == s4 + w.fc_b@);
    assert(t.subrange(e, e + 4) =~= w.fc_b@);
    assert(t.subrange(0, e) =~= s4);
    assert(s4.subrange(d, e) =~= w.fc_w@);
    assert(s4.subrange(0, d) =~= s3);
    assert(s3.subrange(c, d) =~= w.conv2_b@);
    assert(s3.subrange(0, c) =~= s2);
    assert(s2.subrange(b, c) =~= w.conv2_w@);
    assert(s2.subrange(0, b) =~= s1);
    assert(s1.subrange(a, b) =~= w.conv1_b@);
    assert(s1.subrange(0, a) =~= w.conv1_w@);
    assert(s.subrange(0, a) =~= s1.subrange(0, a));
    assert(s.subrange(a, b) =~= s1.subrange(a, b));
    assert(s.subrange(b, c) =~= s2.subrange(b, c));
    assert(s.subrange(c, d) =~= s3.subrange(c, d));
    assert(s.subrange(d, e) =~= s4.subrange(d, e));
    assert(s.subrange(e, e + 4) =~= t.subrange(e, e + 4));
}

/// Each tensor of a quantized model is a stated range of its block: the scales of the window and
/// of the features, the output scales and the biases of the classes; bias, multiplier and shift
/// of conv1, the same of conv2, multiplier and shift of the pool; the weights of conv1, of conv2
/// and of the dense layer.
pub proof fn law_quantized_tensors_are_ranges<'w>(
    f32_block: &'w [F32Bits],
    i32_block: &'w [i32],
    i8_block: &'w [i8],
    config: &ModelConfig,
    w: QuantizedWeights<'w>,
)
    requires
        call_ensures(
            QuantizedWeights::<'w>::from_blocks,
            (f32_block, i32_block, i8_block, config),
            w,
        ),
    ensures
        ({
            let c1 = config.c1 as int;
            let c2 = config.c2 as int;
            let taps = config.c1 * 3 * config.k1;
            let mixes = config.c2 * config.c1 * config.k2;
            &&& w.s_in0 == f32_block@[0]
            &&& w.s_fc_in == f32_block@[1]
            &&& w.fc_out_scale@ == f32_block@.subrange(2, 6)
            &&& w.fc_bias@ == f32_block@.subrange(6, 10)
            &&& w.conv1_bias@ == i32_block@.subrange(0, c1)
            &&& w.conv1_mult@ == i32_block@.subrange(c1, 2 * c1)
            &&& w.conv1_shift@ == i32_block@.subrange(2 * c1, 3 * c1)
            &&& w.conv2_bias@ == i32_block@.subrange(3 * c1, 3 * c1 + c2)
            &&& w.conv2_mult@ == i32_block@.subrange(3 * c1 + c2, 3 * c1 + 2 * c2)
            &&& w.conv2_shift@ == i32_block@.subrange(3 * c1 + 2 * c2, 3 * c1 + 3 * c2)
            &&& w.pool_mult == i32_block@[3 * c1 + 3 * c2]
            &&& w.pool_shift == i32_block@[3 * c1 + 3 * c2 + 1]
            &&& w.conv1_w@ == i8_block@.subrange(0, taps)
            &&& w.conv2_w@ == i8_block@.subrange(taps, taps + mixes)
            &&& w.fc_w@ == i8_block@.subrange(taps + mixes, taps + mixes + 4 * (config.c2 + 24))
        }),
{
    lemma_quantized_ranges(w, *config);
}

/// Tensors that fill the three blocks in order are their ranges.
proof fn lemma_quantized_ranges<'w>(w: QuantizedWeights<'w>, config: ModelConfig)
    requires
        w.shaped(config),
    ensures
        ({
            let c1 = config.c1 as int;
            let c2 = config.c2 as int;
            let taps = config.c1 * 3 * config.k1;
            let mixes = config.c2 * config.c1 * config.k2;
            &&& w.s_in0 == w.flat_f32()[0]
            &&& w.s_fc_in == w.flat_f32()[1]
            &&& w.fc_out_scale@ == w.flat_f32().subrange(2, 6)
            &&& w.fc_bias@ == w.flat_f32().subrange(6, 10)
            &&& w.conv1_bias@ == w.flat_i32().subrange(0, c1)
            &&& w.conv1_mult@ == w.flat_i32().subrange(c1, 2 * c1)
            &&& w.conv1_shift@ == w.flat_i32().subrange(2 * c1, 3 * c1)
            &&& w.conv2_bias@ == w.flat_i32().subrange(3 * c1, 3 * c1 + c2)
            &&& w.conv2_mult@ == w.flat_i32().subrange(3 * c1 + c2, 3 * c1 + 2 * c2)
            &&& w.conv2_shift@ == w.flat_i32().subrange(3 * c1 + 2 * c2, 3 * c1 + 3 * c2)
            &&& w.pool_mult == w.flat_i32()[3 * c1 + 3 * c2]
            &&& w.pool_shift == w.flat_i32()[3 * c1 + 3 * c2 + 1]
            &&& w.conv1_w@ == w.flat_i8().subrange(0, taps)
            &&& w.conv2_w@ == w.flat_i8().subrange(taps, taps + mixes)
            &&& w.fc_w@ == w.flat_i8().subrange(taps + mixes, taps + mixes + 4 * (config.c2 + 24))
        }),
{
    config.lemma_products();
    let f = w.flat_f32();
    assert(f.subrange(2, 6) =~= w.fc_out_scale@);
    assert(f.subrange(6, 10) =~= w.fc_bias@);
    let n = w.flat_i32();
    let c1 = config.c1 as int;
    let c2 = config.c2 as int;
    let n2 = w.conv1_bias@ + w.conv1_mult@;
    let n3 = n2 + w.conv1_shift@;
    let n4 = n3 + w.conv2_bias@;
    let n5 = n4 + w.conv2_mult@;
    let n6 = n5 + w.conv2_shift@;
    assert(n6.len() == 3 * c1 + 3 * c2);
    assert(n.subrange(0, n6.len() as int) =~= n6);
    assert(n6.subrange(n5.len() as int, n6.len() as int) =~= w.conv2_shift@);
    assert(n6.subrange(0, n5.len() as int) =~= n5);
    assert(n5.subrange(n4.len() as int, n5.len() as int) =~= w.conv2_mult@);
    assert(n5.subrange(0, n4.len() as int) =~= n4);
    assert(n4.subrange(n3.len() as int, n4.len() as int) =~= w.conv2_bias@);
    assert(n4.subrange(0, n3.len() as int) =~= n3);
    assert(n3.subrange(n2.len() as int, n3.len() as int) =~= w.conv1_shift@);
    assert(n3.subrange(0, n2.len() as int) =~= n2);
    assert(n2.subrange(c1, 2 * c1) =~= w.conv1_mult@);
    assert(n2.subrange(0, c1) =~= w.conv1_bias@);
    assert(n.subrange(0, c1) =~= n2.subrange(0, c1));
    assert(n.subrange(c1, 2 * c1) =~= n2.subrange(c1, 2 * c1));
    assert(n.subrange(2 * c1, 3 * c1) =~= n3.subrange(2 * c1, 3 * c1));
    assert(n.subrange(3 * c1, 3 * c1 + c2) =~= n4.subrange(3 * c1, 3 * c1 + c2));
    assert(n.subrange(3 * c1 + c2, 3 * c1 + 2 * c2) =~= n5.subrange(
        3 * c1 + c2,
        3 * c1 + 2 * c2,
    ));
    assert(n.subrange(3 * c1 + 2 * c2, 3 * c1 + 3 * c2) =~= n6.subrange(
        3 * c1 + 2 * c2,
        3 * c1 + 3 * c2,
    ));
    let b = w.flat_i8();
    let taps = config.c1 * 3 * config.k1;
    let mixes = config.c2 * config.c1 * config.k2;
    let b2 = w.conv1_w@ + w.conv2_w@;
    assert(b2.subrange(0, taps) =~= w.conv1_w@);
    assert(b2.subrange(taps, taps + mixes) =~= w.conv2_w@);
    assert(b.subrange(0, taps) =~= b2.subrange(0, taps));
    assert(b.subrange(taps, taps + mixes) =~= b2.subrange(taps, taps + mixes));
    assert(b.subrange(taps + mixes, taps + mixes + 4 * (config.c2 + 24)) =~= w.fc_w@);
}

/// What loading a single-precision model gives: the error of its header; else its version, if it
/// is another one; else both sizes, if they differ; else, unless it is misplaced, its dimensions
/// and six tensors, whose values are the words of the file from byte 64 on, one tensor right
/// behind the other.
pub proof fn law_models_are_read_from_their_bytes<'w>(
    bytes: &'w [u8],
    header: Result<ModelConfig, ModelError>,
    r: Result<(ModelConfig, Weights<'w>), ModelError>,
)
    requires
        vstd::endian::endianness() == vstd::endian::Endian::Little,
        call_ensures(ModelConfig::parse, (bytes,), header),
        call_ensures(Weights::<'w>::load, (bytes,), r),
    ensures
        ({
            let version = crate::bytes::le_i32(bytes@, 4);
            match header {
                Err(e) => r == Err::<(ModelConfig, Weights<'w>), ModelError>(e),
                Ok(config) => {
                    let a = config.c1 * 3 * config.k1;
                    let b = a + config.c1;
                    let c = b + config.c2 * config.c1 * config.k2;
                    let d = c + config.c2;
                    let e = d + 4 * (config.c2 + 24);
                    let word = |i: int| crate::bytes::le_u32(bytes@, 64 + 4 * i);
                    if version != 1 {
                        r == Err::<(ModelConfig, Weights<'w>), ModelError>(
                            ModelError::UnsupportedVersion(version as i32),
                        )
                    } else if bytes@.len() != 64 + 4 * (e + 4) {
                        r == Err::<(ModelConfig, Weights<'w>), ModelError>(
                            ModelError::SizeMismatch {
                                expected: (64 + 4 * (e + 4)) as usize,
                                got: bytes@.len() as usize,
                            },
                        )
                    } else {
                        match r {
                            Err(x) => x == ModelError::Misaligned,
                            Ok((k, w)) => {
                                &&& k == config
                                &&& w.conv1_w@ == Seq::new(a as nat, |i: int| word(i) as u32)
                                &&& w.conv1_b@ == Seq::new(
                                    config.c1 as nat,
                                    |i: int| word(a + i) as u32,
                                )
                                &&& w.conv2_w@ == Seq::new(
                                    (c - b) as nat,
                                    |i: int| word(b + i) as u32,
                                )
                                &&& w.conv2_b@ == Seq::new(
                                    config.c2 as nat,
                                    |i: int| word(c + i) as u32,
                                )
                                &&& w.fc_w@ == Seq::new(
                                    (e - d) as nat,
                                    |i: int| word(d + i) as u32,
                                )
                                &&& w.fc_b@ == Seq::new(4, |i: int| word(e + i) as u32)
                            },
                        }
                    }
                },
            }
        }),
{
    if let Ok((config, w)) = r {
        config.lemma_products();
        let s = crate::views::native_words(bytes@.skip(64));
        let payload = bytes@.skip(64);
        assert(s.take(config.weight_total()) =~= s);
        lemma_weights_are_ranges(w, s, config);
        assert forall|i: int| 0 <= i < config.weight_total() implies #[trigger] s[i]
            == crate::bytes::le_u32(bytes@, 64 + 4 * i) as u32 by {
            assert(payload[4 * i] == bytes@[64 + 4 * i]);
            assert(payload[4 * i + 1] == bytes@[64 + 4 * i + 1]);
            assert(payload[4 * i + 2] == bytes@[64 + 4 * i + 2]);
            assert(payload[4 * i + 3] == bytes@[64 + 4 * i + 3]);
        }
        let a = config.c1 * 3 * config.k1;
        let b = a + config.c1;
        let c = b + config.c2 * config.c1 * config.k2;
        let d = c + config.c2;
        let e = d + 4 * (config.c2 + 24);
        let word = |i: int| crate::bytes::le_u32(bytes@, 64 + 4 * i);
        assert(w.conv1_w@ =~= Seq::new(a as nat, |i: int| word(i) as u32));
        assert(w.conv1_b@ =~= Seq::new(config.c1 as nat, |i: int| word(a + i) as u32));
        assert(w.conv2_w@ =~= Seq::new((c - b) as nat, |i: int| word(b + i) as u32));
        assert(w.conv2_b@ =~= Seq::new(config.c2 as nat, |i: int| word(c + i) as u32));
        assert(w.fc_w@ =~= Seq::new((e - d) as nat, |i: int| word(d + i) as u32));
        assert(w.fc_b@ =~= Seq::new(4, |i: int| word(e + i) as u32));
    }
}

/// The weight region of a single-precision model is what stands behind its 64 bytes of header.
pub proof fn law_payload_is_behind_the_header(bytes: &[u8], r: &[u8])
    requires
        bytes@.len() >= 64,
        call_ensures(Weights::payload, (bytes,), r),
    ensures
        r@ == bytes@.subrange(64, bytes@.len() as int),
{
    assert(bytes@.skip(64) =~= bytes@.subrange(64, bytes@.len() as int));
}

/// The blocks of an int8 model: forty bytes of single-precision values behind the header, then
/// the `i32` values, then the rest.
pub proof fn law_blocks_are_ranges_of_the_file<'a>(
    bytes: &'a [u8],
    config: &ModelConfig,
    r: (&'a [u8], &'a [u8], &'a [u8]),
)
    requires
        bytes@.len() >= 104 + 4 * (3 * config.c1 + 3 * config.c2 + 2),
        call_ensures(QuantizedWeights::blocks, (bytes, config), r),
    ensures
        ({
            let end = 104 + 4 * (3 * config.c1 + 3 * config.c2 + 2);
            &&& r.0@ == bytes@.subrange(64, 104)
            &&& r.1@ == bytes@.subrange(104, end)
            &&& r.2@ == bytes@.subrange(end, bytes@.len() as int)
        }),
{
    let end = 104 + 4 * (3 * config.c1 + 3 * config.c2 + 2);
    assert(bytes@.skip(end) =~= bytes@.subrange(end, bytes@.len() as int));
}

/// What loading an int8 model gives: the error of its header; else its version, if it is another
/// one; else both sizes, if they differ; else, unless it is misplaced, its dimensions and its
/// tensors, which are stated ranges of the words, the signed words and the bytes of the file.
pub proof fn law_quantized_models_are_read_from_their_bytes<'w>(
    bytes: &'w [u8],
    header: Result<ModelConfig, ModelError>,
    r: Result<(ModelConfig, QuantizedWeights<'w>), ModelError>,
)
    requires
        vstd::endian::endianness() == vstd::endian::Endian::Little,
        call_ensures(ModelConfig::parse, (bytes,), header),
        call_ensures(QuantizedWeights::<'w>::load, (bytes,), r),
    ensures
        ({
            let version = crate::bytes::le_i32(bytes@, 4);
            match header {
                Err(e) => r == Err::<(ModelConfig, QuantizedWeights<'w>), ModelError>(e),
                Ok(config) => {
                    let c1 = config.c1 as int;
                    let c2 = config.c2 as int;
                    let taps = config.c1 * 3 * config.k1;
                    let mixes = config.c2 * config.c1 * config.k2;
                    let ints = 3 * c1 + 3 * c2 + 2;
                    let size = 104 + 4 * ints + taps + mixes + 4 * (c2 + 24);
                    let word = |i: int| crate::bytes::le_u32(bytes@, 64 + 4 * i) as u32;
                    let number = |i: int| crate::bytes::le_i32(bytes@, 104 + 4 * i) as i32;
                    let byte = |i: int| bytes@[104 + 4 * ints + i] as int;
                    if version != 2 {
                        r == Err::<(ModelConfig, QuantizedWeights<'w>), ModelError>(
                            ModelError::UnsupportedVersion(version as i32),
                        )
                    } else if bytes@.len() != size {
                        r == Err::<(ModelConfig, QuantizedWeights<'w>), ModelError>(
                            ModelError::SizeMismatch {
                                expected: size as usize,
                                got: bytes@.len() as usize,
                            },
                        )
                    } else {
                        match r {
                            Err(x) => x == ModelError::Misaligned,
                            Ok((k, w)) => {
                                &&& k == config
                                &&& w.s_in0 == word(0)
                                &&& w.s_fc_in == word(1)
                                &&& w.fc_out_scale@ == Seq::new(4, |i: int| word(2 + i))
                                &&& w.fc_bias@ == Seq::new(4, |i: int| word(6 + i))
                                &&& w.conv1_bias@ == Seq::new(c1 as nat, |i: int| number(i))
                                &&& w.conv1_mult@ == Seq::new(c1 as nat, |i: int| number(c1 + i))
                                &&& w.conv1_shift@ == Seq::new(c1 as nat, |i: int| number(2 * c1 + i))
                                &&& w.conv2_bias@ == Seq::new(c2 as nat, |i: int| number(3 * c1 + i))
                                &&& w.conv2_mult@ == Seq::new(
                                    c2 as nat,
                                    |i: int| number(3 * c1 + c2 + i),
                                )
                                &&& w.conv2_shift@ == Seq::new(
                                    c2 as nat,
                                    |i: int| number(3 * c1 + 2 * c2 + i),
                                )
                                &&& w.pool_mult == number(3 * c1 + 3 * c2)
                                &&& w.pool_shift == number(3 * c1 + 3 * c2 + 1)
                                &&& w.conv1_w@.len() == taps
                                &&& w.conv2_w@.len() == mixes
                                &&& w.fc_w@.len() == 4 * (c2 + 24)
                                &&& forall|i: int|
                                    0 <= i < taps ==> (#[trigger] w.conv1_w@[i] == byte(i)
                                        || w.conv1_w@[i] == byte(i) - 256)
                                &&& forall|i: int|
                                    0 <= i < mixes ==> (#[trigger] w.conv2_w@[i] == byte(taps + i)
                                        || w.conv2_w@[i] == byte(taps + i) - 256)
                                &&& forall|i: int|
                                    0 <= i < 4 * (c2 + 24) ==> (#[trigger] w.fc_w@[i] == byte(
                                        taps + mixes + i,
                                    ) || w.fc_w@[i] == byte(taps + mixes + i) - 256)
                            },
                        }
                    }
                },
            }
        }),
{
    if let Ok((config, w)) = r {
        config.lemma_products();
        lemma_quantized_ranges(w, config);
        let c1 = config.c1 as int;
        let c2 = config.c2 as int;
        let taps = config.c1 * 3 * config.k1;
        let mixes = config.c2 * config.c1 * config.k2;
        let ints = 3 * c1 + 3 * c2 + 2;
        let word = |i: int| crate::bytes::le_u32(bytes@, 64 + 4 * i) as u32;
        let number = |i: int| crate::bytes::le_i32(bytes@, 104 + 4 * i) as i32;
        let f = w.flat_f32();
        let n = w.flat_i32();
        let b = w.flat_i8();
        lemma_blocks_in_file(bytes@, config);
        assert(forall|i: int| 0 <= i < 10 ==> #[trigger] f[i] == word(i));
        assert(forall|i: int| 0 <= i < ints ==> #[trigger] n[i] == number(i));
        assert(w.fc_out_scale@ =~= Seq::new(4, |i: int| word(2 + i)));
        assert(w.fc_bias@ =~= Seq::new(4, |i: int| word(6 + i)));
        assert(w.conv1_bias@ =~= Seq::new(c1 as nat, |i: int| number(i)));
        assert(w.conv1_mult@ =~= Seq::new(c1 as nat, |i: int| number(c1 + i)));
        assert(w.conv1_shift@ =~= Seq::new(c1 as nat, |i: int| number(2 * c1 + i)));
        assert(w.conv2_bias@ =~= Seq::new(c2 as nat, |i: int| number(3 * c1 + i)));
        assert(w.conv2_mult@ =~= Seq::new(c2 as nat, |i: int| number(3 * c1 + c2 + i)));
        assert(w.conv2_shift@ =~= Seq::new(c2 as nat, |i: int| number(3 * c1 + 2 * c2 + i)));
        assert forall|i: int| 0 <= i < taps implies #[trigger] w.conv1_w@[i] == b[i] by {}
        assert forall|i: int| 0 <= i < mixes implies #[trigger] w.conv2_w@[i] == b[taps + i] by {}
        assert forall|i: int| 0 <= i < 4 * (c2 + 24) implies #[trigger] w.fc_w@[i] == b[taps + mixes
            + i] by {}
    }
}

/// The values of the three blocks of a quantized file, from its bytes.
proof fn lemma_blocks_in_file(bytes: Seq<u8>, config: ModelConfig)
    requires
        vstd::endian::endianness() == vstd::endian::Endian::Little,
        bytes.len() == config.q_file_len(),
        config.conv1_w_len() >= 0,
        config.conv2_w_len() >= 0,
    ensures
        ({
            let ints = 3 * config.c1 + 3 * config.c2 + 2;
            let f = crate::views::native_words(q_f32_bytes(bytes, config));
            let n = crate::views::native_ints(q_i32_bytes(bytes, config));
            let b = crate::views::signed_bytes(q_i8_bytes(bytes, config));
            &&& f.len() == 10
            &&& n.len() == ints
            &&& forall|i: int|
                0 <= i < 10 ==> #[trigger] f[i] == crate::bytes::le_u32(bytes, 64 + 4 * i) as u32
            &&& forall|i: int|
                0 <= i < ints ==> #[trigger] n[i] == crate::bytes::le_i32(
                    bytes,
                    104 + 4 * i,
                ) as i32
            &&& forall|i: int|
                0 <= i < b.len() ==> (#[trigger] b[i] == bytes[104 + 4 * ints + i] || b[i]
                    == bytes[104 + 4 * ints + i] - 256)
        }),
{
    let ints = 3 * config.c1 + 3 * config.c2 + 2;
    let p = q_f32_bytes(bytes, config);
    let q = q_i32_bytes(bytes, config);
    let f = crate::views::native_words(p);
    let n = crate::views::native_ints(q);
    assert forall|i: int| 0 <= i < 10 implies #[trigger] f[i] == crate::bytes::le_u32(
        bytes,
        64 + 4 * i,
    ) as u32 by {
        assert(p[4 * i] == bytes[64 + 4 * i] && p[4 * i + 1] == bytes[64 + 4 * i + 1] && p[4 * i
            + 2] == bytes[64 + 4 * i + 2] && p[4 * i + 3] == bytes[64 + 4 * i + 3]);
    }
    assert forall|i: int| 0 <= i < ints implies #[trigger] n[i] == crate::bytes::le_i32(
        bytes,
        104 + 4 * i,
    ) as i32 by {
        assert(q[4 * i] == bytes[104 + 4 * i] && q[4 * i + 1] == bytes[104 + 4 * i + 1] && q[4 * i
            + 2] == bytes[104 + 4 * i + 2] && q[4 * i + 3] == bytes[104 + 4 * i + 3]);
    }
}

/// A model in either representation is what the loader of its version makes of it.
pub proof fn law_models_load_by_their_version<'w>(
    bytes: &'w [u8],
    version: Result<i32, ModelError>,
    r: Result<(ModelConfig, ModelWeights<'w>), ModelError>,
)
    requires
        call_ensures(ModelConfig::version, (bytes,), version),
        call_ensures(ModelWeights::<'w>::load, (bytes,), r),
    ensures
        version matches Err(e) ==> r == Err::<(ModelConfig, ModelWeights<'w>), ModelError>(e),
        version == Ok::<i32, ModelError>(1) ==> exists|
            o: Result<(ModelConfig, Weights<'w>), ModelError>,
        | #[trigger]
            call_ensures(Weights::<'w>::load, (bytes,), o) && (o matches Ok((c, w)) ==> r == Ok::<
                (ModelConfig, ModelWeights<'w>),
                ModelError,
            >((c, ModelWeights::F32(w)))) && (o matches Err(e) ==> r == Err::<
                (ModelConfig, ModelWeights<'w>),
                ModelError,
            >(e)),
        version == Ok::<i32, ModelError>(2) ==> exists|
            o: Result<(ModelConfig, QuantizedWeights<'w>), ModelError>,
        | #[trigger]
            call_ensures(QuantizedWeights::<'w>::load, (bytes,), o) && (o matches Ok((c, w)) ==> r
                == Ok::<(ModelConfig, ModelWeights<'w>), ModelError>((c, ModelWeights::Q8(w)))) && (
            o matches Err(e) ==> r == Err::<(ModelConfig, ModelWeights<'w>), ModelError>(e)),
        version matches Ok(v) ==> v != 1 && v != 2 ==> r == Err::<
            (ModelConfig, ModelWeights<'w>),
            ModelError,
        >(ModelError::UnsupportedVersion(v)),
{
}

/// Every error has its words, with its numbers in decimal.
pub proof fn law_model_errors_in_words(e: &ModelError, s: String)
    requires
        call_ensures(ModelError::message, (e,), s),
    ensures
        *e == ModelError::TooShort ==> s@ == "model file is too short"@,
        *e == ModelError::BadMagic ==> s@ == "not an edge-pm model (bad magic)"@,
        *e == ModelError::ConfigMismatch ==> s@
            == "model dimensions do not match the compiled pipeline"@,
        *e == ModelError::Misaligned ==> s@ == "model weight region is not 4-byte aligned"@,
        *e matches ModelError::UnsupportedVersion(v) ==> s@ == "unsupported model version "@
            + crate::text::signed_decimal(v as int),
        *e matches ModelError::SizeMismatch { expected, got } ==> s@
            == "model size mismatch: expected "@ + crate::text::decimal(expected as nat)
            + " bytes, got "@ + crate::text::decimal(got as nat),
{
}

/// A model is reported as misplaced only where the cast has refused what stands behind its
/// header, or one of the two word blocks of an int8 model.
pub proof fn law_misplaced_models_were_refused<'w>(
    bytes: &'w [u8],
    config: ModelConfig,
    f: Result<(ModelConfig, Weights<'w>), ModelError>,
    q: Result<(ModelConfig, QuantizedWeights<'w>), ModelError>,
)
    requires
        call_ensures(ModelConfig::parse, (bytes,), Ok::<ModelConfig, ModelError>(config)),
        call_ensures(Weights::<'w>::load, (bytes,), f),
        call_ensures(QuantizedWeights::<'w>::load, (bytes,), q),
    ensures
        f == Err::<(ModelConfig, Weights<'w>), ModelError>(ModelError::Misaligned)
            ==> crate::views::refused_words(bytes@.subrange(64, bytes@.len() as int)),
        q == Err::<(ModelConfig, QuantizedWeights<'w>), ModelError>(ModelError::Misaligned) ==> {
            let end = 104 + 4 * (3 * config.c1 + 3 * config.c2 + 2);
            ||| crate::views::refused_words(bytes@.subrange(64, 104))
            ||| crate::views::refused_ints(bytes@.subrange(104, end))
        },
{
    assert(bytes@.len() >= 64 ==> bytes@.skip(64) =~= bytes@.subrange(64, bytes@.len() as int));
}

/// Viewed values are carved as they are, and values that could not be viewed are reported.
pub proof fn law_views_are_carved_or_reported<'w>(
    floats: &'w [F32Bits],
    config: &ModelConfig,
    none: Result<Weights<'w>, ModelError>,
    some: Result<Weights<'w>, ModelError>,
)
    requires
        call_ensures(Weights::<'w>::from_view, (None::<&'w [F32Bits]>, config), none),
        call_ensures(Weights::<'w>::from_view, (Some(floats), config), some),
        floats@.len() >= config.c1 * 3 * config.k1 + config.c1 + config.c2 * config.c1 * config.k2
            + config.c2 + 4 * (config.c2 + 24) + 4,
    ensures
        none == Err::<Weights<'w>, ModelError>(ModelError::Misaligned),
        ({
            let a = config.c1 * 3 * config.k1;
            let b = a + config.c1;
            let c = b + config.c2 * config.c1 * config.k2;
            let d = c + config.c2;
            let e = d + 4 * (config.c2 + 24);
            &&& some matches Ok(w)
            &&& w.conv1_w@ == floats@.subrange(0, a)
            &&& w.conv1_b@ == floats@.subrange(a, b)
            &&& w.conv2_w@ == floats@.subrange(b, c)
            &&& w.conv2_b@ == floats@.subrange(c, d)
            &&& w.fc_w@ == floats@.subrange(d, e)
            &&& w.fc_b@ == floats@.subrange(e, e + 4)
        }),
{
    lemma_weights_are_ranges(some->Ok_0, floats@, *config);
}

/// A working set is given only where both kernels fit into what they slide over and both layers
/// move.
pub proof fn law_working_sets_are_usable(config: &ModelConfig, checked: Option<usize>)
    requires
        call_ensures(ModelConfig::checked_buf_len, (config,), checked),
    ensures
        checked is Some ==> config.s1 >= 1 && config.k1 <= 512 && config.s2 >= 1 && config.k2 <= (512
            - config.k1) / (config.s1 as int) + 1,
{
}

} // verus!
