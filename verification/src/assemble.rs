//! Packing logical bits into bytes, MSB first, and the bit/byte identities
//! the round-trip proof rests on.

use vstd::prelude::*;

verus! {

/// Bit `i` of `byte`, counted from the most significant: bit 0 is the MSB.
pub open spec fn bit_of(byte: u8, i: int) -> u8 {
    (byte >> ((7 - i) as u8)) & 1
}

/// The eight bits of `byte`, most significant first.
pub open spec fn byte_bits(byte: u8) -> Seq<u8> {
    Seq::new(8, |i: int| bit_of(byte, i))
}

/// The bit stream of a byte sequence: each byte expanded MSB first.
pub open spec fn bits_of_bytes(bytes: Seq<u8>) -> Seq<u8>
    decreases bytes.len(),
{
    if bytes.len() == 0 {
        Seq::empty()
    } else {
        byte_bits(bytes.first()) + bits_of_bytes(bytes.drop_first())
    }
}

/// `bits[i]`, or 0 past the end: an underfull chunk contributes nothing to
/// its low-order positions.
pub open spec fn bit_at(bits: Seq<u8>, i: int) -> u8 {
    if 0 <= i < bits.len() {
        bits[i]
    } else {
        0
    }
}

/// The byte assembled from the first `n` positions of a chunk: position `k`
/// lands at bit weight `2^(7-k)`, so the first bit observed becomes the most
/// significant bit.
pub open spec fn spec_pack_prefix(bits: Seq<u8>, n: int) -> u8
    decreases n,
{
    if n <= 0 {
        0
    } else {
        spec_pack_prefix(bits, n - 1) | (bit_at(bits, n - 1) << ((8 - n) as u8))
    }
}

/// The byte assembled from one chunk of at most eight bits, MSB first;
/// missing low-order positions stay 0.
pub open spec fn spec_byte_of(bits: Seq<u8>) -> u8 {
    spec_pack_prefix(bits, 8)
}

/// The byte sequence assembled from a bit stream: chunks of eight, MSB
/// first, a final short chunk padded with zero bits at the low end.
pub open spec fn spec_bytes_of_bits(bits: Seq<u8>) -> Seq<u8>
    decreases bits.len(),
{
    if bits.len() == 0 {
        Seq::empty()
    } else {
        let k: int = if bits.len() < 8 { bits.len() as int } else { 8 };
        seq![spec_byte_of(bits.take(k))] + spec_bytes_of_bits(bits.skip(k))
    }
}

proof fn lemma_or_zero_shift(x: u8, sh: u8)
    by (bit_vector)
    ensures
        x | (0u8 << sh) == x,
{
}

proof fn lemma_pack_prefix_pad(bits: Seq<u8>, n: int)
    requires
        0 <= n <= 8,
        bits.len() <= n,
    ensures
        spec_pack_prefix(bits, 8) == spec_pack_prefix(bits, n),
    decreases 8 - n,
{
    if n < 8 {
        assert(bit_at(bits, n) == 0);
        lemma_or_zero_shift(spec_pack_prefix(bits, n), (7 - n) as u8);
        lemma_pack_prefix_pad(bits, n + 1);
    }
}

/// Packs the bit sequence into bytes: chunks of eight in arrival order, the
/// first bit of each chunk at the most significant position, a final chunk
/// shorter than eight bits padded with zeros at the low end.  The byte count
/// is the bit count divided by eight, rounded up.
pub fn bits_to_bytes(bits: &[u8]) -> (bytes: Vec<u8>)
    ensures
        bytes@ == spec_bytes_of_bits(bits@),
{
    let n: usize = bits.len();
    let mut byte_data: Vec<u8> = Vec::new();
    let mut start: usize = 0;
    proof {
        assert(bits@.skip(0) =~= bits@);
        assert(byte_data@ + spec_bytes_of_bits(bits@) =~= spec_bytes_of_bits(bits@));
    }
    while start < n
        invariant
            n == bits@.len(),
            start <= n,
            spec_bytes_of_bits(bits@) == byte_data@ + spec_bytes_of_bits(bits@.skip(start as int)),
        decreases bits@.len() - start,
    {
        let rem: usize = n - start;
        let chunk_len: usize = if rem < 8 { rem } else { 8 };
        let ghost chunk: Seq<u8> = bits@.subrange(start as int, (start + chunk_len) as int);
        let mut byte: u8 = 0;
        let mut j: usize = 0;
        while j < chunk_len
            invariant
                n == bits@.len(),
                j <= chunk_len,
                chunk_len <= 8,
                start + chunk_len <= n,
                chunk == bits@.subrange(start as int, (start + chunk_len) as int),
                byte == spec_pack_prefix(chunk, j as int),
            decreases chunk_len - j,
        {
            let sh: u8 = (7 - j) as u8;
            byte = byte | (bits[start + j] << sh);
            j += 1;
        }
        proof {
            let tail = bits@.skip(start as int);
            lemma_pack_prefix_pad(chunk, chunk_len as int);
            assert(tail.take(chunk_len as int) =~= chunk);
            assert(tail.skip(chunk_len as int) =~= bits@.skip((start + chunk_len) as int));
            assert(spec_bytes_of_bits(tail)
                == seq![spec_byte_of(chunk)] + spec_bytes_of_bits(bits@.skip((start + chunk_len) as int)));
            assert(byte_data@ + spec_bytes_of_bits(tail)
                =~= byte_data@.push(byte) + spec_bytes_of_bits(bits@.skip((start + chunk_len) as int)));
        }
        byte_data.push(byte);
        start = start + chunk_len;
    }
    proof {
        assert(bits@.skip(start as int) =~= Seq::<u8>::empty());
        assert(byte_data@ + Seq::<u8>::empty() =~= byte_data@);
    }
    byte_data
}

/// Assembly produces one byte per eight bits, the bit count divided by
/// eight rounded up.
pub proof fn lemma_byte_count(bits: Seq<u8>)
    ensures
        spec_bytes_of_bits(bits).len() == (bits.len() + 7) / 8,
    decreases bits.len(),
{
    if bits.len() > 0 {
        let k: int = if bits.len() < 8 { bits.len() as int } else { 8 };
        lemma_byte_count(bits.skip(k));
    }
}

/// Unpacking a byte into its eight bits and packing them again gives the
/// byte back.
pub proof fn lemma_pack_unpack(b: u8)
    ensures
        spec_byte_of(byte_bits(b)) == b,
{
    let s = byte_bits(b);
    reveal_with_fuel(spec_pack_prefix, 9);
    assert(spec_byte_of(s) ==
        ((((((((0u8
            | (((b >> 7u8) & 1) << 7u8))
            | (((b >> 6u8) & 1) << 6u8))
            | (((b >> 5u8) & 1) << 5u8))
            | (((b >> 4u8) & 1) << 4u8))
            | (((b >> 3u8) & 1) << 3u8))
            | (((b >> 2u8) & 1) << 2u8))
            | (((b >> 1u8) & 1) << 1u8))
            | (((b >> 0u8) & 1) << 0u8)));
    assert(((((((((0u8
            | (((b >> 7u8) & 1) << 7u8))
            | (((b >> 6u8) & 1) << 6u8))
            | (((b >> 5u8) & 1) << 5u8))
            | (((b >> 4u8) & 1) << 4u8))
            | (((b >> 3u8) & 1) << 3u8))
            | (((b >> 2u8) & 1) << 2u8))
            | (((b >> 1u8) & 1) << 1u8))
            | (((b >> 0u8) & 1) << 0u8)) == b) by (bit_vector);
}

proof fn lemma_bit_le_one(b: u8, sh: u8)
    by (bit_vector)
    ensures
        ((b >> sh) & 1) <= 1,
{
}

/// The bit stream of a byte sequence is eight bits per byte.
pub proof fn lemma_bits_of_bytes_len(bytes: Seq<u8>)
    ensures
        bits_of_bytes(bytes).len() == 8 * bytes.len(),
    decreases bytes.len(),
{
    if bytes.len() > 0 {
        lemma_bits_of_bytes_len(bytes.drop_first());
    }
}

/// Every value in the bit stream of a byte sequence is 0 or 1.
pub proof fn lemma_bits_of_bytes_values(bytes: Seq<u8>)
    ensures
        forall|i: int| 0 <= i < bits_of_bytes(bytes).len() ==> bits_of_bytes(bytes)[i] <= 1,
    decreases bytes.len(),
{
    if bytes.len() > 0 {
        let head = byte_bits(bytes.first());
        let rest = bits_of_bytes(bytes.drop_first());
        assert forall|i: int| 0 <= i < 8 implies head[i] <= 1 by {
            lemma_bit_le_one(bytes.first(), (7 - i) as u8);
        }
        lemma_bits_of_bytes_values(bytes.drop_first());
        assert forall|i: int| 0 <= i < bits_of_bytes(bytes).len()
            implies bits_of_bytes(bytes)[i] <= 1 by {
            if i < 8 {
                assert(bits_of_bytes(bytes)[i] == head[i]);
            } else {
                assert(bits_of_bytes(bytes)[i] == rest[i - 8]);
            }
        }
    }
}

/// Expanding bytes to bits distributes over concatenation.
pub proof fn lemma_bits_of_bytes_concat(a: Seq<u8>, b: Seq<u8>)
    ensures
        bits_of_bytes(a + b) == bits_of_bytes(a) + bits_of_bytes(b),
    decreases a.len(),
{
    if a.len() == 0 {
        assert(a + b =~= b);
        assert(bits_of_bytes(a) + bits_of_bytes(b) =~= bits_of_bytes(b));
    } else {
        assert((a + b).drop_first() =~= a.drop_first() + b);
        lemma_bits_of_bytes_concat(a.drop_first(), b);
        assert(byte_bits(a.first()) + (bits_of_bytes(a.drop_first()) + bits_of_bytes(b))
            =~= (byte_bits(a.first()) + bits_of_bytes(a.drop_first())) + bits_of_bytes(b));
    }
}

/// Assembling the bit stream of a byte sequence gives the byte sequence
/// back: expansion and assembly are inverse.
pub proof fn lemma_assemble_inverse(bytes: Seq<u8>)
    ensures
        spec_bytes_of_bits(bits_of_bytes(bytes)) == bytes,
    decreases bytes.len(),
{
    if bytes.len() == 0 {
        assert(spec_bytes_of_bits(bits_of_bytes(bytes)) =~= bytes);
    } else {
        let flat = bits_of_bytes(bytes);
        lemma_bits_of_bytes_len(bytes.drop_first());
        assert(flat.len() == 8 + bits_of_bytes(bytes.drop_first()).len());
        assert(flat.take(8) =~= byte_bits(bytes.first()));
        assert(flat.skip(8) =~= bits_of_bytes(bytes.drop_first()));
        lemma_pack_unpack(bytes.first());
        lemma_assemble_inverse(bytes.drop_first());
        assert(seq![bytes.first()] + bytes.drop_first() =~= bytes);
    }
}

} // verus!
