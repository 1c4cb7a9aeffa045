//! The layout of the hidden bit stream, shared by the encoder and the decoder.
//!
//! The stream is a 3-byte magic header, a 16-bit length and then the payload.
//! Every field is written least significant bit first, one bit per pixel.

use vstd::prelude::*;

verus! {

/// The magic bytes that open every hidden stream.
pub const HEADER: [u8; 3] = [0x53, 0x54, 0x47];

/// The longest payload, in bytes, that the 16-bit length field can announce.
pub const MAX_TEXT_LENGTH: usize = 65535;

/// Number of pixels taken by the magic header.
pub const HEADER_BITS: usize = 24;

/// Number of pixels taken by the length field.
pub const LENGTH_BITS: usize = 16;

/// Number of pixels taken by the header and the length field together.
pub const PREFIX_BITS: usize = 40;

/// Bit `i` of `value` as 0 or 1, bit 0 being the least significant.
pub open spec fn bit_of(value: u16, i: int) -> u8 {
    ((value >> (i as u32)) & 1) as u8
}

/// Number of pixels that a payload of `len` bytes needs.
pub open spec fn required_pixels(len: nat) -> nat {
    40 + 8 * len
}

/// Whether every byte is in the ASCII range.
pub open spec fn is_ascii_bytes(bytes: Seq<u8>) -> bool {
    forall|i: int| 0 <= i < bytes.len() ==> bytes[i] < 128
}

/// Bit `k` of the stream that hides `payload`: 24 bits of header, 16 bits of
/// length, then the payload, each field least significant bit first.
pub open spec fn stream_bit(payload: Seq<u8>, k: int) -> u8 {
    if k < 24 {
        bit_of(HEADER[k / 8] as u16, k % 8)
    } else if k < 40 {
        bit_of(payload.len() as u16, k - 24)
    } else {
        bit_of(payload[(k - 40) / 8] as u16, (k - 40) % 8)
    }
}

/// The bit that pixel `k` hides: the least significant bit of its red sample.
/// Past the last pixel every bit reads as 0.
pub open spec fn hidden_bit(samples: Seq<u8>, k: int) -> u8 {
    if 0 <= k < samples.len() / 3 {
        samples[3 * k] & 1
    } else {
        0
    }
}

/// The number whose bits 0 to `count - 1` are hidden in the pixels from
/// `first` on, least significant bit first.
pub open spec fn hidden_value(samples: Seq<u8>, first: int, count: nat) -> u16
    decreases count,
{
    if count == 0 {
        0
    } else {
        hidden_value(samples, first, (count - 1) as nat) | ((hidden_bit(
            samples,
            first + count - 1,
        ) as u16) << ((count - 1) as u32))
    }
}

/// Byte `j` of the hidden stream: the 8 bits hidden in the pixels from `8 * j`
/// on, least significant bit first.
pub open spec fn hidden_byte(samples: Seq<u8>, j: int) -> u8 {
    hidden_value(samples, 8 * j, 8) as u8
}

/// A hidden bit is 0 or 1.
pub proof fn lemma_hidden_bit_is_bit(samples: Seq<u8>, k: int)
    ensures
        hidden_bit(samples, k) <= 1,
{
    if 0 <= k < samples.len() / 3 {
        let red = samples[3 * k];
        assert(red & 1 <= 1) by (bit_vector);
    }
}

/// A value assembled from `count` hidden bits is below `2^count`.
pub proof fn lemma_hidden_value_bound(samples: Seq<u8>, first: int, count: nat)
    requires
        count <= 16,
    ensures
        (hidden_value(samples, first, count) as u32) < (1u32 << (count as u32)),
    decreases count,
{
    if count == 0 {
        assert(0u32 < (1u32 << 0u32)) by (bit_vector);
    } else {
        lemma_hidden_value_bound(samples, first, (count - 1) as nat);
        lemma_hidden_bit_is_bit(samples, first + count - 1);
        let low = hidden_value(samples, first, (count - 1) as nat);
        let bit = hidden_bit(samples, first + count - 1) as u16;
        let i = (count - 1) as u32;
        assert(((low | (bit << i)) as u32) < (1u32 << ((i + 1) as u32))) by (bit_vector)
            requires
                (low as u32) < (1u32 << i),
                bit <= 1,
                i < 16,
        ;
    }
}

/// Eight hidden bits assemble to a value that fits a byte, so that
/// [`hidden_byte`] loses nothing.
pub proof fn lemma_hidden_byte_fits(samples: Seq<u8>, j: int)
    ensures
        hidden_value(samples, 8 * j, 8) == hidden_byte(samples, j) as u16,
        hidden_value(samples, 8 * j, 8) <= 255,
{
    lemma_hidden_value_bound(samples, 8 * j, 8);
    assert((1u32 << 8u32) == 256) by (bit_vector);
}

/// Computes [`required_pixels`], as long as a `usize` can hold it.
pub fn pixels_needed(len: usize) -> (n: usize)
    requires
        40 + 8 * len <= usize::MAX,
    ensures
        n == required_pixels(len as nat),
{
    PREFIX_BITS + 8 * len
}

/// Tells whether every byte is in the ASCII range.
pub fn all_ascii(bytes: &[u8]) -> (r: bool)
    ensures
        r == is_ascii_bytes(bytes@),
{
    let mut i: usize = 0;
    while i < bytes.len()
        invariant
            i <= bytes@.len(),
            forall|j: int| 0 <= j < i ==> bytes@[j] < 128,
        decreases bytes@.len() - i,
    {
        if bytes[i] >= 128 {
            return false;
        }
        i += 1;
    }
    true
}

} // verus!
