//! Hiding a payload in a pixel grid.

use crate::decoder::spec_extract;
use crate::error::{DecodeError, EncodeError};
use crate::format::{
    all_ascii, bit_of, is_ascii_bytes, pixels_needed, required_pixels, stream_bit, HEADER,
    HEADER_BITS, MAX_TEXT_LENGTH, PREFIX_BITS,
};
use crate::grid::{GridView, PixelGrid};
use crate::laws::{lemma_ascii_is_utf8, lemma_round_trip};
use crate::trusted::load_rgb8;
use vstd::prelude::*;
use vstd::utf8::{encode_utf8, encode_utf8_decode_utf8};

verus! {

/// `samples` after the pixels `first` to `first + count - 1` took the bits 0 to
/// `count - 1` of `value` into the least significant bit of their red sample.
spec fn with_bits(samples: Seq<u8>, first: int, value: u16, count: int) -> Seq<u8> {
    Seq::new(
        samples.len(),
        |j: int|
            if j % 3 == 0 && first <= j / 3 < first + count {
                (samples[j] & 0xFE) | bit_of(value, j / 3 - first)
            } else {
                samples[j]
            },
    )
}

/// Writes the low `count` bits of `value`, least significant first, into the
/// red samples of the pixels from `first` on.
fn write_bits(data: &mut Vec<u8>, first: usize, value: u16, count: u32)
    requires
        count <= 16,
        3 * (first + count) <= old(data)@.len(),
    ensures
        final(data)@ == with_bits(old(data)@, first as int, value, count as int),
{
    let total = data.len();
    let mut i: u32 = 0;
    while i < count
        invariant
            i <= count <= 16,
            3 * (first + count) <= data@.len() == total,
            data@ == with_bits(old(data)@, first as int, value, i as int),
        decreases count - i,
    {
        let shifted: u16 = (value >> i) & 1;
        assert(shifted <= 1) by (bit_vector)
            requires
                shifted == (value >> i) & 1,
        ;
        let bit: u8 = shifted as u8;
        let at: usize = 3 * (first + i as usize);
        let red: u8 = data[at];
        data.set(at, (red & 0xFE) | bit);
        assert(data@ =~= with_bits(old(data)@, first as int, value, i + 1));
        i += 1;
    }
}

/// `samples` after the first `bits` bits of the stream that hides `payload`
/// were written: pixel `k < bits` has the least significant bit of its red
/// sample replaced by stream bit `k`, and nothing else differs.
pub open spec fn embedded_prefix(samples: Seq<u8>, payload: Seq<u8>, bits: int) -> Seq<u8> {
    Seq::new(
        samples.len(),
        |j: int|
            if j % 3 == 0 && j / 3 < bits {
                (samples[j] & 0xFE) | stream_bit(payload, j / 3)
            } else {
                samples[j]
            },
    )
}

/// What [`embed`] returns. The payload is checked for its length, then for
/// being ASCII, then against the capacity of the grid; the first failure wins.
pub open spec fn spec_embed(payload: Seq<u8>, grid: GridView) -> Result<GridView, EncodeError> {
    if payload.len() > MAX_TEXT_LENGTH {
        Err(EncodeError::PayloadTooLarge)
    } else if !is_ascii_bytes(payload) {
        Err(EncodeError::NonAsciiPayload)
    } else if grid.pixel_count() < required_pixels(payload.len()) {
        Err(
            EncodeError::InsufficientCapacity {
                pixels: grid.pixel_count() as usize,
                payload_len: payload.len() as usize,
            },
        )
    } else {
        Ok(
            GridView {
                width: grid.width,
                height: grid.height,
                samples: embedded_prefix(
                    grid.samples,
                    payload,
                    required_pixels(payload.len()) as int,
                ),
            },
        )
    }
}

/// Hides `payload` in `grid` and returns the grid, or says why it cannot.
pub fn embed(payload: &[u8], grid: PixelGrid) -> (r: Result<PixelGrid, EncodeError>)
    ensures
        match r {
            Ok(out) => spec_embed(payload@, grid@) == Ok::<GridView, EncodeError>(out@),
            Err(e) => spec_embed(payload@, grid@) == Err::<GridView, EncodeError>(e),
        },
{
    let len = payload.len();
    if len > MAX_TEXT_LENGTH {
        return Err(EncodeError::PayloadTooLarge);
    }
    if !all_ascii(payload) {
        return Err(EncodeError::NonAsciiPayload);
    }
    let pixels = grid.pixel_count();
    let needed = pixels_needed(len);
    if pixels < needed {
        return Err(EncodeError::InsufficientCapacity { pixels, payload_len: len });
    }
    let width = grid.width();
    let height = grid.height();
    let ghost before = grid@.samples;
    let mut data = grid.into_raw();

    let mut j: usize = 0;
    while j < 3
        invariant
            j <= 3,
            len == payload@.len(),
            data@.len() == before.len(),
            3 * required_pixels(len as nat) <= before.len(),
            data@ == embedded_prefix(before, payload@, 8 * j),
        decreases 3 - j,
    {
        write_bits(&mut data, 8 * j, HEADER[j] as u16, 8);
        assert(data@ =~= embedded_prefix(before, payload@, 8 * (j + 1)));
        j += 1;
    }

    write_bits(&mut data, HEADER_BITS, len as u16, 16);
    assert(data@ =~= embedded_prefix(before, payload@, 40));

    let mut j: usize = 0;
    while j < len
        invariant
            j <= len <= MAX_TEXT_LENGTH,
            len == payload@.len(),
            data@.len() == before.len(),
            3 * required_pixels(len as nat) <= before.len(),
            data@ == embedded_prefix(before, payload@, 40 + 8 * j),
        decreases len - j,
    {
        write_bits(&mut data, PREFIX_BITS + 8 * j, payload[j] as u16, 8);
        assert(data@ =~= embedded_prefix(before, payload@, 40 + 8 * (j + 1)));
        j += 1;
    }
    Ok(PixelGrid::from_parts(width, height, data))
}

/// Hides `text` in the encoded image `image_data` and returns the pixels of
/// the result.
///
/// The text is checked before the image is looked at. What the image decodes
/// to is not this crate's to say, so the contract speaks of every grid that it
/// may have decoded to: `InvalidImage` when there was none, otherwise what
/// [`embed`] makes of the text and that grid. Whatever grid it was, the grid
/// that comes back gives the text back.
pub fn encode_lossless(text: &str, image_data: &[u8]) -> (r: Result<PixelGrid, EncodeError>)
    ensures
        encode_utf8(text@).len() > MAX_TEXT_LENGTH ==> r == Err::<PixelGrid, EncodeError>(
            EncodeError::PayloadTooLarge,
        ),
        encode_utf8(text@).len() <= MAX_TEXT_LENGTH && !is_ascii_bytes(encode_utf8(text@)) ==> r
            == Err::<PixelGrid, EncodeError>(EncodeError::NonAsciiPayload),
        encode_utf8(text@).len() <= MAX_TEXT_LENGTH && is_ascii_bytes(encode_utf8(text@))
            ==> match r {
            Ok(out) => {
                &&& exists|grid: GridView|
                    grid.wf() && #[trigger] spec_embed(encode_utf8(text@), grid) == Ok::<
                        GridView,
                        EncodeError,
                    >(out@)
                &&& spec_extract(out@) == Ok::<Seq<char>, DecodeError>(text@)
            },
            Err(e) => e == EncodeError::InvalidImage || exists|grid: GridView|
                grid.wf() && #[trigger] spec_embed(encode_utf8(text@), grid) == Err::<
                    GridView,
                    EncodeError,
                >(e),
        },
{
    let payload = text.as_bytes();
    if payload.len() > MAX_TEXT_LENGTH {
        return Err(EncodeError::PayloadTooLarge);
    }
    if !all_ascii(payload) {
        return Err(EncodeError::NonAsciiPayload);
    }
    match load_rgb8(image_data) {
        Ok((width, height, data)) => match PixelGrid::from_raw(width, height, data) {
            Some(grid) => {
                let r = embed(payload, grid);
                proof {
                    assert(grid@.wf());
                    if r is Ok {
                        lemma_round_trip(payload@, grid@);
                        lemma_ascii_is_utf8(payload@);
                        encode_utf8_decode_utf8(text@);
                    }
                }
                r
            },
            None => Err(EncodeError::InvalidImage),
        },
        Err(_) => Err(EncodeError::InvalidImage),
    }
}

} // verus!
