//! The LZ4 block primitive: what this crate takes on trust from `lz4_flex`.
//!
//! No contract here is proved. Each function below makes one call into
//! `lz4_flex::block`, and its contract says what that call is relied on to do.

use crate::runs::longest_run;
use lz4_flex::block::{CompressError, DecompressError};
use vstd::prelude::*;

verus! {

/// `lz4_flex::block::CompressError`, carried through as it is.
#[verifier::external_type_specification]
#[verifier::external_body]
pub struct ExCompressError(CompressError);

/// `lz4_flex::block::DecompressError`, carried through as it is.
#[verifier::external_type_specification]
#[verifier::external_body]
pub struct ExDecompressError(DecompressError);

/// What `lz4_flex::block::decompress_into` makes of `block` when its
/// destination has room for `capacity` bytes: the decoded bytes, or `None`
/// where it refuses the block (because it is malformed, or because it decodes
/// to more than `capacity` bytes).
pub uninterp spec fn block_decoded(block: Seq<u8>, capacity: nat) -> Option<Seq<u8>>;

/// The most bytes that the block made from `n` bytes can take.
pub open spec fn max_block_len(n: nat) -> nat {
    20 + n * 110 / 100
}

/// Whether the block encoder can be handed `n` bytes: it keeps positions in
/// its input as 32-bit numbers, and it computes the worst-case block length
/// as a `usize`.
pub open spec fn encoder_takes(n: nat) -> bool {
    n <= u32::MAX && max_block_len(n) <= usize::MAX
}

/// Whether the block decoder can be handed `block` and room for `capacity`
/// bytes.
///
/// The one sum in the decoder that can grow with its input is a length: the
/// length bytes after a token, which are a run of bytes `0xFF` and the byte
/// that ends the run, each at most 255, on top of a base of at most 19 and of
/// the decoder's position in the output, which is at most `capacity`. Within
/// this bound no such sum leaves `usize`.
pub open spec fn decoder_takes(block: Seq<u8>, capacity: nat) -> bool {
    capacity + 255 * (longest_run(block) + 1) + 19 <= usize::MAX
}

/// `lz4_flex::block::get_maximum_output_size`: the worst-case length of the
/// block made from `n` bytes, which the outside function computes as
/// `16 + 4 + n * 110 / 100`.
#[verifier::external_body]
pub(crate) fn block_bound(n: usize) -> (bound: usize)
    requires
        encoder_takes(n as nat),
    ensures
        bound == max_block_len(n as nat),
{
    lz4_flex::block::get_maximum_output_size(n)
}

/// `lz4_flex::block::compress_into`, writing into `buffer` from index `at`
/// on.
///
/// The outside function fails if and only if the room it is given is less
/// than `get_maximum_output_size` of the input's length. Otherwise it writes
/// one block of at least one byte (every block ends in a token and its
/// literals) and returns its length. The bytes of `buffer` before `at` are
/// not part of the slice handed over, so they stay.
///
/// The last clause is the round trip that `lz4_flex` documents between
/// `compress_into` and `decompress_into`: the block written decodes, with
/// room for exactly the input's length, to the input. Which bytes the block
/// holds is left open; they may differ from one machine to another.
#[verifier::external_body]
pub(crate) fn compress_block_into(raw: &[u8], buffer: &mut Vec<u8>, at: usize) -> (written:
    Result<usize, CompressError>)
    requires
        encoder_takes(raw@.len()),
        at <= old(buffer)@.len(),
    ensures
        final(buffer)@.len() == old(buffer)@.len(),
        final(buffer)@.subrange(0, at as int) == old(buffer)@.subrange(0, at as int),
        written is Ok <==> old(buffer)@.len() - at >= max_block_len(raw@.len()),
        written matches Ok(n) ==> 1 <= n <= final(buffer)@.len() - at,
        written matches Ok(n) ==> block_decoded(
            final(buffer)@.subrange(at as int, at + n),
            raw@.len(),
        ) == Some(raw@),
{
    lz4_flex::block::compress_into(raw, &mut buffer[at..])
}

/// `lz4_flex::block::decompress_into`, with all of `buffer` as the
/// destination.
///
/// The outside function returns the number of bytes that it decoded into the
/// front of `buffer`, or an error where the block is malformed or decodes to
/// more than `buffer` holds. Which of the two, and the bytes decoded, depend
/// on the block and on the length of `buffer` alone: [`block_decoded`] names
/// that outcome. Neither the count nor the bytes need fill the buffer.
#[verifier::external_body]
pub(crate) fn decompress_block_into(block: &[u8], buffer: &mut Vec<u8>) -> (written: Result<
    usize,
    DecompressError,
>)
    requires
        decoder_takes(block@, old(buffer)@.len()),
    ensures
        final(buffer)@.len() == old(buffer)@.len(),
        written matches Ok(n) ==> n <= final(buffer)@.len(),
        written matches Ok(n) ==> block_decoded(block@, old(buffer)@.len()) == Some(
            final(buffer)@.subrange(0, n as int),
        ),
        written is Err ==> block_decoded(block@, old(buffer)@.len()) is None,
{
    lz4_flex::block::decompress_into(block, buffer.as_mut_slice())
}

} // verus!
