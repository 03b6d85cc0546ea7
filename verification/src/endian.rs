//! Little-endian encoding of the 32-bit size field.

use byteorder::{ByteOrder, LittleEndian};
use vstd::prelude::*;

verus! {

/// The four bytes that hold `n`, least significant byte first.
pub open spec fn u32_le_bytes(n: u32) -> Seq<u8> {
    seq![
        (n % 0x100) as u8,
        (n / 0x100 % 0x100) as u8,
        (n / 0x1_0000 % 0x100) as u8,
        (n / 0x100_0000) as u8,
    ]
}

/// The number that the first four bytes of `bytes` hold, least significant
/// byte first.
pub open spec fn u32_from_le(bytes: Seq<u8>) -> u32
    recommends
        bytes.len() >= 4,
{
    (bytes[0] + 0x100 * bytes[1] + 0x1_0000 * bytes[2] + 0x100_0000 * bytes[3]) as u32
}

/// Reading back the four bytes written for `n` gives `n`.
pub proof fn lemma_u32_le_round_trip(n: u32)
    ensures
        u32_le_bytes(n).len() == 4,
        u32_from_le(u32_le_bytes(n)) == n,
{
}

/// Four bytes are the bytes written for the number that they hold.
pub proof fn lemma_u32_le_bytes_of_value(bytes: Seq<u8>)
    requires
        bytes.len() == 4,
    ensures
        u32_le_bytes(u32_from_le(bytes)) == bytes,
{
    assert(u32_le_bytes(u32_from_le(bytes)) =~= bytes);
}

/// `byteorder::LittleEndian::read_u32`: the first four bytes of `bytes` read
/// as a little-endian number. The outside function panics on fewer than four
/// bytes, which `requires` leaves out.
#[verifier::external_body]
pub(crate) fn read_u32_le(bytes: &[u8]) -> (n: u32)
    requires
        bytes@.len() >= 4,
    ensures
        n == u32_from_le(bytes@),
{
    LittleEndian::read_u32(bytes)
}

/// `byteorder::LittleEndian::write_u32`: the four bytes of `buffer` that
/// start at `at` become the little-endian bytes of `n`, and nothing else in
/// `buffer` changes. The outside function panics where fewer than four bytes
/// are left, which `requires` leaves out.
#[verifier::external_body]
pub(crate) fn write_u32_le(buffer: &mut Vec<u8>, at: usize, n: u32)
    requires
        at + 4 <= old(buffer)@.len(),
    ensures
        final(buffer)@ == old(buffer)@.subrange(0, at as int) + u32_le_bytes(n) + old(
            buffer,
        )@.subrange(at + 4, old(buffer)@.len() as int),
{
    LittleEndian::write_u32(&mut buffer[at..], n);
}

} // verus!
