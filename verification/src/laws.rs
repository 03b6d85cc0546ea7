//! What holds of [`compress`](crate::compress) and
//! [`decompress`](crate::decompress) together, stated over the results that
//! their contracts name.

use crate::block::{block_decoded, decoder_takes, max_block_len};
use crate::endian::{lemma_u32_le_bytes_of_value, u32_from_le};
use crate::error::Error;
use crate::format::{
    declared_size, has_header, header, magic, payload, HEADER_LEN, MAGIC_LEN,
};
use crate::runs::{lemma_run_within_len, longest_run};
use crate::{allocatable, decoded, is_container_of, refusal};
use vstd::prelude::*;

verus! {

/// Round trip: a container that `compress` returned for `raw`, and that the
/// block decoder can be handed on this platform, is turned back into `raw`
/// by `decompress`.
pub proof fn lemma_round_trip(raw: Seq<u8>, container: Seq<u8>)
    requires
        refusal(raw.len()) is None,
        is_container_of(container, raw),
        decoder_takes(payload(container), raw.len()),
    ensures
        decoded(container) == Ok::<Seq<u8>, Error>(raw),
{
}

/// Round trip with 64-bit addresses: every container that `compress`
/// returned for `raw` is turned back into `raw` by `decompress`.
pub proof fn lemma_round_trip_with_64_bits(raw: Seq<u8>, container: Seq<u8>)
    requires
        usize::BITS == 64,
        refusal(raw.len()) is None,
        is_container_of(container, raw),
    ensures
        decoded(container) == Ok::<Seq<u8>, Error>(raw),
{
    lemma_run_within_len(payload(container));
}

/// Magic rejection: `decompress` answers `UnrecognizedFormat` for every input
/// shorter than twelve bytes and for every input whose first eight bytes are
/// not the magic tag, and for no other input.
pub proof fn lemma_magic_rejection(input: Seq<u8>)
    ensures
        decoded(input) == Err::<Seq<u8>, Error>(Error::UnrecognizedFormat) <==> (input.len()
            < HEADER_LEN || input.subrange(0, MAGIC_LEN as int) != magic()),
{
}

/// Size field: in a container for `raw`, bytes 8 to 11 read as a
/// little-endian number are the length of `raw`.
pub proof fn lemma_size_field(raw: Seq<u8>, container: Seq<u8>)
    requires
        is_container_of(container, raw),
    ensures
        container.len() >= HEADER_LEN,
        u32_from_le(container.subrange(8, 12)) == raw.len(),
        container[8] + 0x100 * container[9] + 0x1_0000 * container[10] + 0x100_0000
            * container[11] == raw.len(),
{
}

/// Header: a container for `raw` is, byte for byte, the magic tag, the
/// length of `raw` in four little-endian bytes, and the payload.
pub proof fn lemma_container_header(raw: Seq<u8>, container: Seq<u8>)
    requires
        is_container_of(container, raw),
    ensures
        raw.len() <= u32::MAX,
        container == header(raw.len() as u32) + payload(container),
{
    let field = container.subrange(MAGIC_LEN as int, HEADER_LEN as int);
    lemma_u32_le_bytes_of_value(field);
    assert(container =~= header(raw.len() as u32) + payload(container));
}

/// Corrupt payload: where the header is in order, a buffer of the declared
/// size can exist, and the block decoder refuses the payload, `decompress`
/// answers `MalformedPayload`.
pub proof fn lemma_corrupt_payload(container: Seq<u8>)
    requires
        has_header(container),
        allocatable(declared_size(container) as int),
        block_decoded(payload(container), declared_size(container) as nat) is None,
    ensures
        decoded(container) == Err::<Seq<u8>, Error>(Error::MalformedPayload),
{
}

/// Empty input: `compress` does not refuse the empty sequence, and a
/// container for it has more than twelve bytes, declares the size 0 and is
/// turned back into the empty sequence by `decompress`.
pub proof fn lemma_empty_input(container: Seq<u8>)
    requires
        is_container_of(container, Seq::<u8>::empty()),
    ensures
        refusal(0) is None,
        container.len() > HEADER_LEN,
        declared_size(container) == 0,
        decoded(container) == Ok::<Seq<u8>, Error>(Seq::<u8>::empty()),
{
    lemma_run_within_len(payload(container));
}

/// Buffer sizing: a container for `raw` is no longer than the header and the
/// worst-case block for the length of `raw`.
pub proof fn lemma_container_len(raw: Seq<u8>, container: Seq<u8>)
    requires
        is_container_of(container, raw),
    ensures
        container.len() <= HEADER_LEN + max_block_len(raw.len()),
{
}

/// Each failure belongs to one direction: `decompress` never answers
/// `CompressionFailed`, and `compress` never answers `UnrecognizedFormat` or
/// `MalformedPayload`.
pub proof fn lemma_error_kinds(container: Seq<u8>, n: nat)
    ensures
        decoded(container) != Err::<Seq<u8>, Error>(Error::CompressionFailed),
        refusal(n) != Some(Error::UnrecognizedFormat),
        refusal(n) != Some(Error::MalformedPayload),
{
}

/// What `compress` takes: every input whose length the size field can say
/// and for which a buffer of the header and the worst-case block can exist;
/// with 64-bit addresses that is every input of up to `u32::MAX` bytes, with
/// 32-bit addresses every input of up to 1.9 thousand million bytes.
pub proof fn lemma_compress_reach(n: nat)
    ensures
        n <= u32::MAX && allocatable(HEADER_LEN + max_block_len(n)) ==> refusal(n) is None,
        usize::BITS == 64 && n <= u32::MAX ==> refusal(n) is None,
        usize::BITS == 32 && n <= 1_900_000_000 ==> refusal(n) is None,
{
}

/// What `decompress` hands to the block decoder: with 64-bit addresses every
/// payload of up to 2^56 bytes, whatever size is declared; with 32-bit
/// addresses every payload without a run of eight million bytes `0xFF`,
/// under any declared size for which a buffer can exist.
pub proof fn lemma_decompress_reach(block: Seq<u8>, declared: u32)
    ensures
        usize::BITS == 64 && block.len() <= 0x100_0000_0000_0000 ==> allocatable(declared as int)
            && decoder_takes(block, declared as nat),
        usize::BITS == 32 && longest_run(block) < 8_000_000 && allocatable(declared as int)
            ==> decoder_takes(block, declared as nat),
{
    lemma_run_within_len(block);
}

} // verus!
