//! Tensors viewed in place: a byte slice read as a slice of words, without a copy.
use vstd::prelude::*;

verus! {

/// The bytes as the running machine reads them as 32-bit words.
pub open spec fn native_words(bytes: Seq<u8>) -> Seq<u32> {
    Seq::new(
        (bytes.len() / 4) as nat,
        |i: int| crate::bytes::native_u32(bytes, 4 * i) as u32,
    )
}

/// The bytes as the running machine reads them as signed 32-bit words.
pub open spec fn native_ints(bytes: Seq<u8>) -> Seq<i32> {
    Seq::new(
        (bytes.len() / 4) as nat,
        |i: int| crate::bytes::signed32(crate::bytes::native_u32(bytes, 4 * i)) as i32,
    )
}

/// The bytes read as two's-complement `i8` values.
pub open spec fn signed_bytes(bytes: Seq<u8>) -> Seq<i8> {
    Seq::new(
        bytes.len(),
        |i: int|
            (if bytes[i] >= 0x80 {
                bytes[i] - 0x100
            } else {
                bytes[i] as int
            }) as i8,
    )
}

/// Why `bytemuck` refused a cast.
#[verifier::external_type_specification]
#[verifier::external_body]
pub struct ExPodCastError(bytemuck::PodCastError);

/// `bytemuck::try_cast_slice` from bytes to `u32`.
///
/// A cast that succeeds covers all of the bytes, four to a word, each word in the byte order
/// of the machine; bytes that do not fill whole words are refused. Whether the address of the
/// bytes is aligned for a `u32`, the other condition of success, is left unsaid: it depends on
/// where the caller placed them.
#[verifier::external_body]
fn try_cast_words(bytes: &[u8]) -> (r: Result<&[u32], bytemuck::PodCastError>)
    ensures
        r matches Ok(words) ==> bytes@.len() % 4 == 0 && words@ == native_words(bytes@),
{
    bytemuck::try_cast_slice(bytes)
}

/// `bytemuck::try_cast_slice` from bytes to `i32`, under the same conditions as
/// [`try_cast_words`].
#[verifier::external_body]
fn try_cast_ints(bytes: &[u8]) -> (r: Result<&[i32], bytemuck::PodCastError>)
    ensures
        r matches Ok(ints) ==> bytes@.len() % 4 == 0 && ints@ == native_ints(bytes@),
{
    bytemuck::try_cast_slice(bytes)
}

/// `bytemuck::cast_slice` from bytes to `i8`: element sizes and alignments agree, so the cast
/// cannot fail, and each byte keeps its bits.
#[verifier::external_body]
pub(crate) fn cast_signed(bytes: &[u8]) -> (r: &[i8])
    ensures
        r@ == signed_bytes(bytes@),
{
    bytemuck::cast_slice(bytes)
}

/// Whether the cast to `u32` has refused bytes with these contents, wherever they stood.
pub closed spec fn refused_words(bytes: Seq<u8>) -> bool {
    exists|b: &[u8], e: bytemuck::PodCastError|
        b@ == bytes && #[trigger] call_ensures(
            try_cast_words,
            (b,),
            Err::<&[u32], bytemuck::PodCastError>(e),
        )
}

/// Whether the cast to `i32` has refused bytes with these contents, wherever they stood.
pub closed spec fn refused_ints(bytes: Seq<u8>) -> bool {
    exists|b: &[u8], e: bytemuck::PodCastError|
        b@ == bytes && #[trigger] call_ensures(
            try_cast_ints,
            (b,),
            Err::<&[i32], bytemuck::PodCastError>(e),
        )
}

/// Apply a cast.
fn apply<'a, T, F>(cast: F, bytes: &'a [u8]) -> (r: Result<&'a [T], bytemuck::PodCastError>) where
    F: Fn(&'a [u8]) -> Result<&'a [T], bytemuck::PodCastError>,

    requires
        cast.requires((bytes,)),
    ensures
        cast.ensures((bytes,), r),
{
    cast(bytes)
}

/// View bytes as words, or `None` where the cast refuses them.
pub fn view_words(bytes: &[u8]) -> (r: Option<&[u32]>)
    ensures
        r matches Some(words) ==> bytes@.len() % 4 == 0 && words@ == native_words(bytes@),
        r is None ==> refused_words(bytes@),
{
    match apply(try_cast_words, bytes) {
        Ok(words) => Some(words),
        Err(e) => {
            assert(call_ensures(
                try_cast_words,
                (bytes,),
                Err::<&[u32], bytemuck::PodCastError>(e),
            ));
            None
        },
    }
}

/// View bytes as signed words, or `None` where the cast refuses them.
pub fn view_ints(bytes: &[u8]) -> (r: Option<&[i32]>)
    ensures
        r matches Some(ints) ==> bytes@.len() % 4 == 0 && ints@ == native_ints(bytes@),
        r is None ==> refused_ints(bytes@),
{
    match apply(try_cast_ints, bytes) {
        Ok(ints) => Some(ints),
        Err(e) => {
            assert(call_ensures(
                try_cast_ints,
                (bytes,),
                Err::<&[i32], bytemuck::PodCastError>(e),
            ));
            None
        },
    }
}

/// On a little-endian machine, written words are viewed as themselves.
pub proof fn lemma_native_words(words: Seq<u32>)
    requires
        vstd::endian::endianness() == vstd::endian::Endian::Little,
    ensures
        native_words(crate::bytes::words_le_bytes(words)) == words,
{
    let bytes = crate::bytes::words_le_bytes(words);
    assert forall|i: int| 0 <= i < words.len() implies #[trigger] native_words(bytes)[i]
        == words[i] by {
        let b = crate::bytes::u32_le_bytes(words[i]);
        assert(bytes[4 * i] == b[0] && bytes[4 * i + 1] == b[1] && bytes[4 * i + 2] == b[2]
            && bytes[4 * i + 3] == b[3]);
    }
}

/// On a little-endian machine, written signed words are viewed as themselves.
pub proof fn lemma_native_ints(ints: Seq<i32>)
    requires
        vstd::endian::endianness() == vstd::endian::Endian::Little,
    ensures
        native_ints(crate::bytes::ints_le_bytes(ints)) == ints,
{
    let bytes = crate::bytes::ints_le_bytes(ints);
    assert forall|i: int| 0 <= i < ints.len() implies #[trigger] native_ints(bytes)[i]
        == ints[i] by {
        assert(bytes.subrange(4 * i, 4 * i + 4) =~= crate::bytes::i32_le_bytes(ints[i]));
        crate::bytes::law_i32_bytes_read_back(bytes, 4 * i, ints[i]);
    }
}

/// Written `i8` values are viewed as themselves.
pub proof fn lemma_signed_bytes(values: Seq<i8>)
    ensures
        signed_bytes(crate::bytes::i8_bytes(values)) == values,
{
}

/// On a little-endian machine, viewed words re-encode to the bytes they are viewed in.
pub proof fn lemma_words_encode_back(bytes: Seq<u8>)
    requires
        vstd::endian::endianness() == vstd::endian::Endian::Little,
        bytes.len() % 4 == 0,
    ensures
        crate::bytes::words_le_bytes(native_words(bytes)) == bytes,
{
    let words = native_words(bytes);
    assert forall|i: int| 0 <= i < bytes.len() implies #[trigger] crate::bytes::words_le_bytes(
        words,
    )[i] == bytes[i] by {
        let k = i / 4;
        crate::bytes::lemma_word_encodes_back(
            bytes[4 * k],
            bytes[4 * k + 1],
            bytes[4 * k + 2],
            bytes[4 * k + 3],
        );
        assert(words[k] == crate::bytes::le_u32(bytes, 4 * k));
        let b = crate::bytes::u32_le_bytes(words[k]);
        assert(b[0] == bytes[4 * k] && b[1] == bytes[4 * k + 1] && b[2] == bytes[4 * k + 2]
            && b[3] == bytes[4 * k + 3]);
        assert(i % 4 == 0 || i % 4 == 1 || i % 4 == 2 || i % 4 == 3);
    }
    assert(crate::bytes::words_le_bytes(words) =~= bytes);
}

/// On a little-endian machine, viewed signed words re-encode to the bytes they are viewed in.
pub proof fn lemma_ints_encode_back(bytes: Seq<u8>)
    requires
        vstd::endian::endianness() == vstd::endian::Endian::Little,
        bytes.len() % 4 == 0,
    ensures
        crate::bytes::ints_le_bytes(native_ints(bytes)) == bytes,
{
    let ints = native_ints(bytes);
    assert forall|i: int| 0 <= i < bytes.len() implies #[trigger] crate::bytes::ints_le_bytes(
        ints,
    )[i] == bytes[i] by {
        let k = i / 4;
        crate::bytes::lemma_word_encodes_back(
            bytes[4 * k],
            bytes[4 * k + 1],
            bytes[4 * k + 2],
            bytes[4 * k + 3],
        );
        let w = crate::bytes::le_u32(bytes, 4 * k);
        assert(ints[k] == crate::bytes::signed32(w));
        assert(crate::bytes::i32_le_bytes(ints[k]) =~= crate::bytes::u32_le_bytes(w as u32));
        let b = crate::bytes::u32_le_bytes(w as u32);
        assert(b[0] == bytes[4 * k] && b[1] == bytes[4 * k + 1] && b[2] == bytes[4 * k + 2]
            && b[3] == bytes[4 * k + 3]);
        assert(i % 4 == 0 || i % 4 == 1 || i % 4 == 2 || i % 4 == 3);
    }
    assert(crate::bytes::ints_le_bytes(ints) =~= bytes);
}

/// Viewed `i8` values re-encode to the bytes they are viewed in.
pub proof fn lemma_signed_encode_back(bytes: Seq<u8>)
    ensures
        crate::bytes::i8_bytes(signed_bytes(bytes)) == bytes,
{
    assert(crate::bytes::i8_bytes(signed_bytes(bytes)) =~= bytes);
}

/// What the views show: the word at index `i` is made of the four bytes from `4 i` on, least
/// significant first on a little-endian machine, and a signed view shows the number of its size
/// that agrees with the bytes.
pub proof fn law_views_show_their_bytes(bytes: Seq<u8>, i: int)
    requires
        0 <= i < bytes.len() / 4,
        vstd::endian::endianness() == vstd::endian::Endian::Little,
    ensures
        native_words(bytes).len() == bytes.len() / 4,
        native_ints(bytes).len() == bytes.len() / 4,
        ({
            let sum = bytes[4 * i] + 256 * bytes[4 * i + 1] + 65536 * bytes[4 * i + 2] + 16777216
                * bytes[4 * i + 3];
            &&& native_words(bytes)[i] == sum
            &&& native_ints(bytes)[i] == sum || native_ints(bytes)[i] == sum - 4294967296
        }),
        signed_bytes(bytes).len() == bytes.len(),
        forall|j: int|
            0 <= j < bytes.len() ==> (#[trigger] signed_bytes(bytes)[j] == bytes[j]
                || signed_bytes(bytes)[j] == bytes[j] - 256),
{
}

/// Bytes count as refused only where the cast itself has refused bytes with these contents, and
/// bytes that are not shown are refused; bytes that do not fill whole words never are shown.
proof fn law_refusals_are_those_of_the_cast(bytes: &[u8], w: Option<&[u32]>, n: Option<&[i32]>)
    requires
        call_ensures(view_words, (bytes,), w),
        call_ensures(view_ints, (bytes,), n),
    ensures
        w is None ==> exists|b: &[u8], e: bytemuck::PodCastError|
            b@ == bytes@ && #[trigger] call_ensures(
                try_cast_words,
                (b,),
                Err::<&[u32], bytemuck::PodCastError>(e),
            ),
        n is None ==> exists|b: &[u8], e: bytemuck::PodCastError|
            b@ == bytes@ && #[trigger] call_ensures(
                try_cast_ints,
                (b,),
                Err::<&[i32], bytemuck::PodCastError>(e),
            ),
        w matches Some(words) ==> words@ == native_words(bytes@) && bytes@.len() % 4 == 0,
        n matches Some(ints) ==> ints@ == native_ints(bytes@) && bytes@.len() % 4 == 0,
        refused_words(bytes@) ==> exists|b: &[u8], e: bytemuck::PodCastError|
            b@ == bytes@ && #[trigger] call_ensures(
                try_cast_words,
                (b,),
                Err::<&[u32], bytemuck::PodCastError>(e),
            ),
        refused_ints(bytes@) ==> exists|b: &[u8], e: bytemuck::PodCastError|
            b@ == bytes@ && #[trigger] call_ensures(
                try_cast_ints,
                (b,),
                Err::<&[i32], bytemuck::PodCastError>(e),
            ),
{
}

} // verus!
