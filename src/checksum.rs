use vstd::prelude::*;

verus! {

/// The sum of all bytes of `data`, as an unbounded integer.
pub open spec fn byte_sum(data: Seq<u8>) -> nat
    decreases data.len(),
{
    if data.len() == 0 {
        0
    } else {
        byte_sum(data.drop_last()) + data.last() as nat
    }
}

/// The Intel HEX checksum of `data`: the two's complement of the least
/// significant byte of the sum of its bytes.
pub open spec fn checksum_of(data: Seq<u8>) -> u8 {
    ((256 - byte_sum(data) % 256) % 256) as u8
}

/// Computes the Intel HEX checksum of `data`. This is done by summing all the
/// bytes of `data` and taking the two's complement of the least significant
/// byte of the sum.
pub fn checksum(data: &[u8]) -> (r: u8)
    ensures
        r == checksum_of(data@),
{
    let mut acc: u8 = 0;
    let mut i: usize = 0;
    while i < data.len()
        invariant
            i <= data@.len(),
            acc as nat == byte_sum(data@.subrange(0, i as int)) % 256,
        decreases data@.len() - i,
    {
        assert(data@.subrange(0, i + 1).drop_last() == data@.subrange(0, i as int));
        acc = acc.wrapping_add(data[i]);
        i = i + 1;
    }
    assert(data@.subrange(0, i as int) == data@);
    (0u8).wrapping_sub(acc)
}

/// Appending the checksum of a byte sequence to it gives a sequence whose
/// bytes sum to zero modulo 256; this is what a reader checks.
pub proof fn lemma_checksum_closes_sum(data: Seq<u8>)
    ensures
        0 <= checksum_of(data) <= 255,
        byte_sum(data.push(checksum_of(data))) % 256 == 0,
{
    assert(data.push(checksum_of(data)).drop_last() == data);
}

} // verus!
