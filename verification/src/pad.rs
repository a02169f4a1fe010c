//! Padding codec: reversibly pads plaintext to a fixed block granularity.
//!
//! The scheme appends a single `0x80` marker byte and then fills with zero
//! bytes up to the next block boundary.  A plaintext whose length is already
//! a multiple of the block size still receives a full extra block, so the
//! padded length is always strictly greater than the plaintext length.

use vstd::prelude::*;

use crate::error::Error;

verus! {

/// The padding block granularity, in bytes.  The plaintext secret is padded
/// before encryption so that its length is a multiple of this block size.
pub const PADDING_BLOCK_SIZE: usize = 256;

/// The marker byte that terminates the plaintext inside a padded buffer.
pub const PADDING_MARKER: u8 = 0x80;

/// Length of the padded form of a plaintext of length `len`: the next
/// multiple of the block size strictly above `len`.
pub open spec fn padded_len_spec(len: nat) -> nat {
    (len / (PADDING_BLOCK_SIZE as nat) + 1) * (PADDING_BLOCK_SIZE as nat)
}

/// The padded form of `data`: the data, the marker byte, then zero fill up
/// to the next block boundary.
pub open spec fn pad_spec(data: Seq<u8>) -> Seq<u8> {
    data + seq![PADDING_MARKER] + Seq::new(
        (padded_len_spec(data.len()) - data.len() - 1) as nat,
        |i: int| 0u8,
    )
}

/// What unpadding a buffer yields: scanning backward from the end, trailing
/// zero bytes are discarded; a marker byte must then terminate the data.
/// A buffer with no marker under its zero fill is malformed.
pub open spec fn unpad_spec(padded: Seq<u8>) -> Option<Seq<u8>>
    decreases padded.len(),
{
    if padded.len() == 0 {
        None
    } else if padded.last() == 0u8 {
        unpad_spec(padded.drop_last())
    } else if padded.last() == PADDING_MARKER {
        Some(padded.drop_last())
    } else {
        None
    }
}

/// Zero fill never hides the marker: appending the marker and any amount of
/// zero fill to a buffer unpads back to that buffer.
proof fn lemma_unpad_marker_zeros(data: Seq<u8>, fill: nat)
    ensures
        unpad_spec(data + seq![PADDING_MARKER] + Seq::new(fill, |i: int| 0u8)) == Some(data),
    decreases fill,
{
    let zeros = Seq::new(fill, |i: int| 0u8);
    let whole = data + seq![PADDING_MARKER] + zeros;
    if fill == 0 {
        assert(whole.last() == PADDING_MARKER);
        assert(whole.drop_last() =~= data);
    } else {
        assert(whole.last() == 0u8);
        assert(whole.drop_last() =~= data + seq![PADDING_MARKER] + Seq::new(
            (fill - 1) as nat,
            |i: int| 0u8,
        ));
        lemma_unpad_marker_zeros(data, (fill - 1) as nat);
    }
}

/// Law of the padding codec: unpadding inverts padding, for every plaintext.
pub proof fn lemma_unpad_pad_roundtrip(data: Seq<u8>)
    ensures
        unpad_spec(pad_spec(data)) == Some(data),
{
    lemma_unpad_marker_zeros(data, (padded_len_spec(data.len()) - data.len() - 1) as nat);
}

/// Pads `data` with a marker byte and zero fill to the next block boundary.
///
/// The result is allocated once at its final size, so no intermediate copy
/// of the plaintext is left behind by a reallocation.
pub fn pad(data: &[u8]) -> (out: Vec<u8>)
    requires
        data@.len() + PADDING_BLOCK_SIZE <= usize::MAX,
    ensures
        out@ == pad_spec(data@),
        out@.len() == padded_len_spec(data@.len()),
        data@.len() < out@.len() <= data@.len() + PADDING_BLOCK_SIZE,
        out@.len() % (PADDING_BLOCK_SIZE as nat) == 0,
{
    let total_len = (data.len() / PADDING_BLOCK_SIZE + 1) * PADDING_BLOCK_SIZE;
    let mut out: Vec<u8> = Vec::with_capacity(total_len);
    let mut i: usize = 0;
    while i < data.len()
        invariant
            i <= data@.len(),
            out@ == data@.take(i as int),
        decreases data@.len() - i,
    {
        out.push(data[i]);
        i = i + 1;
    }
    assert(out@ =~= data@);
    out.push(PADDING_MARKER);
    while out.len() < total_len
        invariant
            data@.len() + 1 <= out@.len() <= total_len,
            total_len == padded_len_spec(data@.len()),
            out@ == data@ + seq![PADDING_MARKER] + Seq::new(
                (out@.len() - data@.len() - 1) as nat,
                |j: int| 0u8,
            ),
        decreases total_len - out@.len(),
    {
        out.push(0u8);
        assert(out@ =~= data@ + seq![PADDING_MARKER] + Seq::new(
            (out@.len() - data@.len() - 1) as nat,
            |j: int| 0u8,
        ));
    }
    assert(out@ =~= pad_spec(data@));
    out
}

/// Strips the zero fill and marker byte from a padded buffer, recovering the
/// plaintext.  Fails with [`Error::Unpad`] if no marker byte is found under
/// the trailing zero fill; on authenticated data this indicates corruption.
pub fn unpad(padded: &[u8]) -> (r: Result<Vec<u8>, Error>)
    ensures
        r matches Ok(data) ==> unpad_spec(padded@) == Some(data@),
        r is Err ==> r == Err::<Vec<u8>, Error>(Error::Unpad) && unpad_spec(padded@) is None,
{
    let mut end: usize = padded.len();
    assert(padded@.take(end as int) =~= padded@);
    while end > 0 && padded[end - 1] == 0u8
        invariant
            end <= padded@.len(),
            unpad_spec(padded@) == unpad_spec(padded@.take(end as int)),
        decreases end,
    {
        assert(padded@.take(end as int).last() == 0u8);
        assert(padded@.take(end as int).drop_last() =~= padded@.take(end - 1));
        end = end - 1;
    }
    if end == 0 {
        assert(padded@.take(0) =~= Seq::<u8>::empty());
        return Err(Error::Unpad);
    }
    if padded[end - 1] != PADDING_MARKER {
        assert(padded@.take(end as int).last() != 0u8);
        assert(padded@.take(end as int).last() != PADDING_MARKER);
        return Err(Error::Unpad);
    }
    assert(padded@.take(end as int).last() == PADDING_MARKER);
    assert(padded@.take(end as int).drop_last() =~= padded@.take(end - 1));
    let mut out: Vec<u8> = Vec::with_capacity(end - 1);
    let mut i: usize = 0;
    while i < end - 1
        invariant
            i <= end - 1,
            end - 1 < padded@.len() + 1,
            end <= padded@.len(),
            out@ == padded@.take(i as int),
        decreases end - 1 - i,
    {
        out.push(padded[i]);
        i = i + 1;
    }
    Ok(out)
}

} // verus!
