//! Runs of the byte `0xFF`, by which LZ4 writes a long length: the length
//! bytes after a token are bytes `0xFF` and one byte that ends them.

use vstd::prelude::*;

verus! {

/// The number of bytes `0xFF` at the end of `bytes`.
pub open spec fn trailing_run(bytes: Seq<u8>) -> nat
    decreases bytes.len(),
{
    if bytes.len() == 0 || bytes.last() != 0xFF {
        0
    } else {
        1 + trailing_run(bytes.drop_last())
    }
}

/// The length of the longest run of bytes `0xFF` in `bytes`.
pub open spec fn longest_run(bytes: Seq<u8>) -> nat
    decreases bytes.len(),
{
    if bytes.len() == 0 {
        0
    } else if trailing_run(bytes) > longest_run(bytes.drop_last()) {
        trailing_run(bytes)
    } else {
        longest_run(bytes.drop_last())
    }
}

/// No run is longer than the bytes it lies in.
pub proof fn lemma_run_within_len(bytes: Seq<u8>)
    ensures
        trailing_run(bytes) <= bytes.len(),
        longest_run(bytes) <= bytes.len(),
    decreases bytes.len(),
{
    if bytes.len() > 0 {
        lemma_run_within_len(bytes.drop_last());
    }
}

/// The length of the longest run of bytes `0xFF` in `bytes`.
pub fn longest_ff_run(bytes: &[u8]) -> (longest: usize)
    ensures
        longest == longest_run(bytes@),
{
    let mut longest: usize = 0;
    let mut current: usize = 0;
    let mut i: usize = 0;
    while i < bytes.len()
        invariant
            i <= bytes@.len(),
            current == trailing_run(bytes@.take(i as int)),
            longest == longest_run(bytes@.take(i as int)),
            current <= i,
        decreases bytes.len() - i,
    {
        assert(bytes@.take(i + 1).drop_last() =~= bytes@.take(i as int));
        if bytes[i] == 0xFF {
            current += 1;
        } else {
            current = 0;
        }
        if current > longest {
            longest = current;
        }
        i += 1;
    }
    assert(bytes@.take(i as int) =~= bytes@);
    longest
}

} // verus!
