//! The layout of a container: the magic tag, the size field, the payload.
//!
//! | offset | length | field                                        |
//! |--------|--------|----------------------------------------------|
//! | 0      | 8      | magic tag, `"mozLz40\0"`                     |
//! | 8      | 4      | length of the uncompressed data, `u32`, LE   |
//! | 12     | rest   | payload: one LZ4 block                       |

use crate::endian::{read_u32_le, u32_from_le, u32_le_bytes, write_u32_le};
use crate::error::Error;
use vstd::prelude::*;
use vstd::slice::slice_subrange;

verus! {

/// Length of the magic tag.
pub const MAGIC_LEN: usize = 8;

/// Length of the header: the magic tag and the size field.
pub const HEADER_LEN: usize = 12;

/// The magic tag: the ASCII characters `mozLz40` and a NUL.
pub const MAGIC_NUMBER: [u8; 8] = [0x6D, 0x6F, 0x7A, 0x4C, 0x7A, 0x34, 0x30, 0x00];

/// The magic tag as a sequence of bytes.
pub open spec fn magic() -> Seq<u8> {
    MAGIC_NUMBER@
}

/// Whether `container` is long enough for a header and starts with the magic
/// tag.
pub open spec fn has_header(container: Seq<u8>) -> bool {
    container.len() >= HEADER_LEN && container.subrange(0, MAGIC_LEN as int) == magic()
}

/// The number in the size field of `container`.
pub open spec fn declared_size(container: Seq<u8>) -> u32
    recommends
        container.len() >= HEADER_LEN,
{
    u32_from_le(container.subrange(MAGIC_LEN as int, HEADER_LEN as int))
}

/// The bytes of `container` after the header.
pub open spec fn payload(container: Seq<u8>) -> Seq<u8>
    recommends
        container.len() >= HEADER_LEN,
{
    container.subrange(HEADER_LEN as int, container.len() as int)
}

/// The header that declares `size` bytes of uncompressed data.
pub open spec fn header(size: u32) -> Seq<u8> {
    magic() + u32_le_bytes(size)
}

/// `n` zero bytes.
pub open spec fn zeros(n: nat) -> Seq<u8> {
    Seq::new(n, |i: int| 0u8)
}

/// A header is twelve bytes, is recognised as one whatever follows it, and
/// declares the size it was made for.
pub proof fn lemma_header_layout(size: u32, rest: Seq<u8>)
    ensures
        header(size).len() == HEADER_LEN,
        has_header(header(size) + rest),
        declared_size(header(size) + rest) == size,
        payload(header(size) + rest) == rest,
{
    let c = header(size) + rest;
    crate::endian::lemma_u32_le_round_trip(size);
    assert(c.subrange(0, MAGIC_LEN as int) =~= magic());
    assert(c.subrange(MAGIC_LEN as int, HEADER_LEN as int) =~= u32_le_bytes(size));
    assert(c.subrange(HEADER_LEN as int, c.len() as int) =~= rest);
}

/// Whether `bytes` starts with the magic tag.
pub fn starts_with_magic(bytes: &[u8]) -> (found: bool)
    ensures
        found == (bytes@.len() >= MAGIC_LEN && bytes@.subrange(0, MAGIC_LEN as int) == magic()),
{
    if bytes.len() < MAGIC_LEN {
        return false;
    }
    let mut i: usize = 0;
    while i < MAGIC_LEN
        invariant
            i <= MAGIC_LEN <= bytes@.len(),
            forall|k: int| 0 <= k < i ==> bytes@[k] == magic()[k],
        decreases MAGIC_LEN - i,
    {
        if bytes[i] != MAGIC_NUMBER[i] {
            return false;
        }
        i += 1;
    }
    assert(bytes@.subrange(0, MAGIC_LEN as int) =~= magic());
    true
}

/// Checks the header of `container` and reads its size field.
///
/// Fails with [`Error::UnrecognizedFormat`] exactly when `container` is
/// shorter than a header or does not start with the magic tag.
pub fn read_header(container: &[u8]) -> (r: Result<u32, Error>)
    ensures
        match r {
            Ok(size) => has_header(container@) && size == declared_size(container@),
            Err(e) => !has_header(container@) && e == Error::UnrecognizedFormat,
        },
{
    if container.len() < HEADER_LEN || !starts_with_magic(container) {
        return Err(Error::UnrecognizedFormat);
    }
    let field: &[u8] = slice_subrange(container, MAGIC_LEN, HEADER_LEN);
    Ok(read_u32_le(field))
}

/// A buffer that holds the header for `size` bytes of uncompressed data and,
/// after it, `room` zero bytes for the payload.
pub fn begin_container(size: u32, room: usize) -> (buffer: Vec<u8>)
    requires
        HEADER_LEN + room <= isize::MAX,
    ensures
        buffer@ == header(size) + zeros(room as nat),
        has_header(buffer@),
        declared_size(buffer@) == size,
{
    let mut buffer: Vec<u8> = vec![0u8; HEADER_LEN + room];
    let mut i: usize = 0;
    while i < MAGIC_LEN
        invariant
            i <= MAGIC_LEN,
            buffer@.len() == HEADER_LEN + room,
            forall|k: int| 0 <= k < i ==> buffer@[k] == magic()[k],
            forall|k: int| i <= k < buffer@.len() ==> buffer@[k] == 0u8,
        decreases MAGIC_LEN - i,
    {
        buffer[i] = MAGIC_NUMBER[i];
        i += 1;
    }
    write_u32_le(&mut buffer, MAGIC_LEN, size);
    proof {
        assert(buffer@ =~= header(size) + zeros(room as nat));
        lemma_header_layout(size, zeros(room as nat));
    }
    buffer
}

} // verus!
