//! Codec for the `mozLz4` container: an eight-byte magic tag, the length of the
//! uncompressed data as a little-endian `u32`, and one LZ4 block.
//!
//! [`compress`] wraps raw bytes into a container and [`decompress`] unwraps
//! one. Both work on whole buffers and keep no state between calls.
//!
//! Everything here is verified but for two boundaries. The LZ4 block is the
//! work of `lz4_flex`, and the size field is read and written by `byteorder`;
//! [`block`] and [`endian`] say what is taken on trust from each. [`laws`]
//! holds what follows for the two operations together.
//!
//! Two limits come from the platform and not from the format. No buffer
//! holds more than `isize::MAX` bytes, so a size beyond that is answered with
//! [`Error::AllocationFailed`]. And the block decoder adds up length bytes in
//! a `usize`, so [`decompress`] hands it no payload in which a run of bytes
//! `0xFF` is long enough for such a sum to overflow; see
//! [`block::decoder_takes`]. With 64-bit addresses neither limit is within
//! reach of data that fits into memory.

pub mod block;
pub mod endian;
pub mod error;
pub mod format;
pub mod laws;
pub mod runs;

use crate::block::{
    block_bound, block_decoded, compress_block_into, decoder_takes, decompress_block_into,
    max_block_len,
};
use crate::error::Error;
use crate::format::{
    begin_container, declared_size, has_header, header, lemma_header_layout, payload, read_header,
    HEADER_LEN,
};
use crate::runs::{lemma_run_within_len, longest_ff_run};
use vstd::prelude::*;
use vstd::slice::slice_subrange;

verus! {

/// Whether a buffer of `size` bytes can exist on this platform.
pub open spec fn allocatable(size: int) -> bool {
    size <= isize::MAX
}

/// Whether this platform can wrap `n` raw bytes: the container's buffer, the
/// header and the worst-case block, can exist.
pub open spec fn encodable_here(n: nat) -> bool {
    allocatable(HEADER_LEN + max_block_len(n))
}

/// What [`decompress`] returns for `container`.
pub open spec fn decoded(container: Seq<u8>) -> Result<Seq<u8>, Error> {
    if !has_header(container) {
        Err(Error::UnrecognizedFormat)
    } else if !allocatable(declared_size(container) as int) {
        Err(Error::AllocationFailed)
    } else if !decoder_takes(payload(container), declared_size(container) as nat) {
        Err(Error::MalformedPayload)
    } else {
        match block_decoded(payload(container), declared_size(container) as nat) {
            Some(raw) => Ok(raw),
            None => Err(Error::MalformedPayload),
        }
    }
}

/// Why [`compress`] refuses `n` raw bytes, if it does.
pub open spec fn refusal(n: nat) -> Option<Error> {
    if n > u32::MAX {
        Some(Error::CompressionFailed)
    } else if !encodable_here(n) {
        Some(Error::AllocationFailed)
    } else {
        None
    }
}

/// Whether `container` is a container for `raw`: its header declares the
/// length of `raw`, and its payload is a block of at least one byte and at
/// most the worst-case length that decodes to `raw`.
pub open spec fn is_container_of(container: Seq<u8>, raw: Seq<u8>) -> bool {
    &&& has_header(container)
    &&& declared_size(container) == raw.len()
    &&& 1 <= payload(container).len() <= max_block_len(raw.len())
    &&& block_decoded(payload(container), raw.len()) == Some(raw)
}

/// `size` as the length of a buffer.
///
/// Fails with [`Error::AllocationFailed`] exactly when no buffer of `size`
/// bytes can exist on this platform, that is when `size` exceeds
/// `isize::MAX`.
pub fn buffer_len(size: u64) -> (r: Result<usize, Error>)
    ensures
        match r {
            Ok(len) => allocatable(size as int) && len == size,
            Err(e) => !allocatable(size as int) && e == Error::AllocationFailed,
        },
{
    if size > isize::MAX as u64 {
        Err(Error::AllocationFailed)
    } else {
        Ok(size as usize)
    }
}

/// Whether the block decoder can be handed `block` and room for `capacity`
/// bytes: whether no length that it may read from `block` leaves `usize`.
///
/// A block shorter than the run that it would take needs no look inside;
/// only a longer one is searched for its longest run of bytes `0xFF`.
pub fn decoder_can_take(block: &[u8], capacity: usize) -> (yes: bool)
    ensures
        yes == decoder_takes(block@, capacity as nat),
{
    if capacity > usize::MAX - 19 {
        return false;
    }
    let most: usize = (usize::MAX - 19 - capacity) / 255;
    if block.len() < most {
        proof {
            lemma_run_within_len(block@);
        }
        return true;
    }
    longest_ff_run(block) < most
}

/// Turns the block decoder's report into the result of decoding.
///
/// `buffer` is the destination that the decoder was given and `written` what
/// it reported: the number of bytes decoded, or `None` for a failure. A
/// failure, and a count beyond the buffer, give
/// [`Error::MalformedPayload`]; otherwise the first `written` bytes of
/// `buffer` are returned.
pub fn finish_decompress(buffer: Vec<u8>, written: Option<usize>) -> (r: Result<Vec<u8>, Error>)
    ensures
        match r {
            Ok(raw) => written matches Some(n) && n <= buffer@.len() && raw@ == buffer@.subrange(
                0,
                n as int,
            ),
            Err(e) => e == Error::MalformedPayload && !(written matches Some(n) && n
                <= buffer@.len()),
        },
{
    let mut buffer = buffer;
    match written {
        Some(n) => {
            if n > buffer.len() {
                return Err(Error::MalformedPayload);
            }
            buffer.truncate(n);
            Ok(buffer)
        },
        None => Err(Error::MalformedPayload),
    }
}

/// Turns the block encoder's report into the result of encoding.
///
/// `buffer` holds the header and, after it, the room that the encoder was
/// given; `written` is what it reported: the length of the block, or `None`
/// for a failure. A failure, an empty block, and a length beyond the buffer
/// give [`Error::CompressionFailed`]; otherwise the header and the first
/// `written` bytes after it are returned.
pub fn finish_compress(buffer: Vec<u8>, written: Option<usize>) -> (r: Result<Vec<u8>, Error>)
    ensures
        match r {
            Ok(container) => written matches Some(n) && 1 <= n && HEADER_LEN + n <= buffer@.len()
                && container@ == buffer@.subrange(0, HEADER_LEN + n),
            Err(e) => e == Error::CompressionFailed && !(written matches Some(n) && 1 <= n
                && HEADER_LEN + n <= buffer@.len()),
        },
{
    let mut buffer = buffer;
    match written {
        Some(n) => {
            if n == 0 || buffer.len() < HEADER_LEN || n > buffer.len() - HEADER_LEN {
                return Err(Error::CompressionFailed);
            }
            buffer.truncate(HEADER_LEN + n);
            Ok(buffer)
        },
        None => Err(Error::CompressionFailed),
    }
}

/// Unwraps a container: checks its header, decodes its payload into a buffer
/// of the declared size, and returns the bytes decoded.
///
/// The result is [`decoded`] of the input:
/// - [`Error::UnrecognizedFormat`] where the input is shorter than twelve
///   bytes or does not start with the magic tag;
/// - [`Error::AllocationFailed`] where no buffer of the declared size can
///   exist on this platform;
/// - [`Error::MalformedPayload`] where the block decoder refuses the payload,
///   be it malformed or longer, once decoded, than the declared size, and
///   where the payload holds a run of bytes `0xFF` so long that the decoder
///   cannot be handed it on this platform;
/// - otherwise the decoded bytes, which may be fewer than declared.
pub fn decompress(ibuffer: Vec<u8>) -> (r: Result<Vec<u8>, Error>)
    ensures
        match r {
            Ok(raw) => decoded(ibuffer@) == Ok::<Seq<u8>, Error>(raw@),
            Err(e) => decoded(ibuffer@) == Err::<Seq<u8>, Error>(e),
        },
        r matches Ok(raw) ==> raw@.len() <= declared_size(ibuffer@),
{
    let size: u32 = match read_header(ibuffer.as_slice()) {
        Ok(size) => size,
        Err(e) => {
            return Err(e);
        },
    };
    let block: &[u8] = slice_subrange(ibuffer.as_slice(), HEADER_LEN, ibuffer.len());
    let capacity: usize = match buffer_len(size as u64) {
        Ok(capacity) => capacity,
        Err(e) => {
            return Err(e);
        },
    };
    if !decoder_can_take(block, capacity) {
        return Err(Error::MalformedPayload);
    }
    let mut obuffer: Vec<u8> = vec![0u8; capacity];
    let written: Option<usize> = match decompress_block_into(block, &mut obuffer) {
        Ok(n) => Some(n),
        Err(_) => None,
    };
    finish_decompress(obuffer, written)
}

/// The room that [`compress`] gives the block encoder for `n` raw bytes: the
/// worst-case length of their block.
///
/// Fails as [`compress`] does on an input of `n` bytes; see [`refusal`].
pub fn compress_bound(n: usize) -> (r: Result<usize, Error>)
    ensures
        match r {
            Ok(bound) => refusal(n as nat) is None && bound == max_block_len(n as nat),
            Err(e) => refusal(n as nat) == Some(e),
        },
{
    if n > u32::MAX as usize {
        return Err(Error::CompressionFailed);
    }
    let worst: u64 = 20 + n as u64 * 110 / 100;
    match buffer_len(HEADER_LEN as u64 + worst) {
        Ok(_) => Ok(block_bound(n)),
        Err(e) => Err(e),
    }
}

/// Wraps raw bytes into a container: the header with the length of the
/// input, then the input as one LZ4 block.
///
/// Fails with [`Error::CompressionFailed`] exactly when the input is longer
/// than the size field can say, and with [`Error::AllocationFailed`] exactly
/// when no buffer for the header and the worst-case block can exist on this
/// platform; see [`refusal`]. Every other input gives a container for it. Which bytes the payload holds is
/// left to the block encoder; that it decodes to the input is not.
pub fn compress(ibuffer: Vec<u8>) -> (r: Result<Vec<u8>, Error>)
    ensures
        match r {
            Ok(container) => refusal(ibuffer@.len()) is None && is_container_of(
                container@,
                ibuffer@,
            ),
            Err(e) => refusal(ibuffer@.len()) == Some(e),
        },
{
    let bound: usize = match compress_bound(ibuffer.len()) {
        Ok(bound) => bound,
        Err(e) => {
            return Err(e);
        },
    };
    let size: u32 = ibuffer.len() as u32;
    let mut obuffer: Vec<u8> = begin_container(size, bound);
    let written: Option<usize> = match compress_block_into(
        ibuffer.as_slice(),
        &mut obuffer,
        HEADER_LEN,
    ) {
        Ok(n) => Some(n),
        Err(_) => None,
    };
    proof {
        if let Some(n) = written {
            let block = obuffer@.subrange(HEADER_LEN as int, HEADER_LEN + n);
            assert(obuffer@.subrange(0, HEADER_LEN + n) =~= header(size) + block);
            lemma_header_layout(size, block);
        }
    }
    finish_compress(obuffer, written)
}

} // verus!
