//! What holds of hiding and recovering taken together, proved over the
//! specifications of [`embed`](crate::encoder::embed) and
//! [`extract`](crate::decoder::extract).

use crate::decoder::{has_header, hidden_bytes, hidden_len, spec_extract};
use crate::encoder::{embedded_prefix, spec_embed};
use crate::error::{DecodeError, EncodeError};
use crate::format::{
    bit_of, hidden_bit, hidden_byte, hidden_value, is_ascii_bytes, required_pixels, stream_bit,
    HEADER, MAX_TEXT_LENGTH,
};
use crate::grid::GridView;
use vstd::prelude::*;
use vstd::utf8::{
    decode_utf8, encode_utf8, encode_utf8_decode_utf8, encode_utf8_valid_utf8, is_ascii_chars,
    is_ascii_chars_encode_utf8, valid_utf8,
};

verus! {

/// The characters that ASCII bytes stand for, one per byte.
pub open spec fn ascii_chars(bytes: Seq<u8>) -> Seq<char> {
    Seq::new(bytes.len(), |i: int| bytes[i] as char)
}

/// `value` with all but its `count` lowest bits cleared.
pub open spec fn low_bits(value: u16, count: nat) -> u16 {
    value & (((1u32 << (count as u32)) - 1) as u16)
}

/// ASCII bytes are valid UTF-8 and decode to one character per byte.
pub proof fn lemma_ascii_is_utf8(bytes: Seq<u8>)
    requires
        is_ascii_bytes(bytes),
    ensures
        valid_utf8(bytes),
        decode_utf8(bytes) == ascii_chars(bytes),
{
    let chars = ascii_chars(bytes);
    assert(is_ascii_chars(chars));
    is_ascii_chars_encode_utf8(chars);
    assert(encode_utf8(chars) =~= bytes);
    encode_utf8_valid_utf8(chars);
    encode_utf8_decode_utf8(chars);
}

/// An ASCII text is encoded as ASCII bytes, one per character.
pub proof fn lemma_ascii_text_bytes(text: Seq<char>)
    requires
        is_ascii_chars(text),
    ensures
        is_ascii_bytes(encode_utf8(text)),
        encode_utf8(text).len() == text.len(),
        ascii_chars(encode_utf8(text)) == text,
{
    is_ascii_chars_encode_utf8(text);
    let bytes = encode_utf8(text);
    assert forall|i: int| 0 <= i < bytes.len() implies bytes[i] < 128 by {
        assert(text[i] as u8 == bytes[i]);
    }
    assert(ascii_chars(bytes) =~= text);
}

/// When the pixels from `first` on hide the bits of `value` in order, the
/// first `count` of them assemble to the `count` lowest bits of `value`.
pub proof fn lemma_hidden_value_of_bits(samples: Seq<u8>, first: int, count: nat, value: u16)
    requires
        count <= 16,
        forall|i: int| 0 <= i < count ==> hidden_bit(samples, first + i) == bit_of(value, i),
    ensures
        hidden_value(samples, first, count) == low_bits(value, count),
    decreases count,
{
    if count == 0 {
        assert(value & (((1u32 << 0u32) - 1) as u16) == 0) by (bit_vector);
    } else {
        lemma_hidden_value_of_bits(samples, first, (count - 1) as nat, value);
        let i = (count - 1) as u32;
        let low = hidden_value(samples, first, (count - 1) as nat);
        let bit = hidden_bit(samples, first + i);
        assert(bit == bit_of(value, i as int));
        assert((low | ((bit as u16) << i)) == value & (((1u32 << ((i + 1) as u32)) - 1) as u16))
            by (bit_vector)
            requires
                i < 16,
                low == value & (((1u32 << i) - 1) as u16),
                bit == ((value >> i) & 1) as u8,
        ;
    }
}

/// A byte is its own eight lowest bits, and a 16-bit number its own sixteen.
pub proof fn lemma_low_bits_whole(byte: u8, word: u16)
    ensures
        low_bits(byte as u16, 8) == byte as u16,
        low_bits(word, 16) == word,
{
    assert((byte as u16) & (((1u32 << 8u32) - 1) as u16) == byte as u16) by (bit_vector);
    assert(word & (((1u32 << 16u32) - 1) as u16) == word) by (bit_vector);
}

/// Once the first `bits` bits of the stream are written, each of the pixels
/// that took one hides exactly that bit.
pub proof fn lemma_embedded_bit(samples: Seq<u8>, payload: Seq<u8>, bits: int, k: int)
    requires
        0 <= k < bits,
        3 * bits <= samples.len(),
    ensures
        hidden_bit(embedded_prefix(samples, payload, bits), k) == stream_bit(payload, k),
{
    let red = samples[3 * k];
    let bit = stream_bit(payload, k);
    let value: u16 = if k < 24 {
        HEADER[k / 8] as u16
    } else if k < 40 {
        payload.len() as u16
    } else {
        payload[(k - 40) / 8] as u16
    };
    let i: u32 = if k < 24 {
        (k % 8) as u32
    } else if k < 40 {
        (k - 24) as u32
    } else {
        ((k - 40) % 8) as u32
    };
    assert(bit == ((value >> i) & 1) as u8);
    assert((((red & 0xFE) | bit) & 1) == bit) by (bit_vector)
        requires
            bit == ((value >> i) & 1) as u8,
    ;
}

/// Hiding a payload and then reading the hidden stream back gives the magic
/// header, the payload's length and the payload's bytes.
pub proof fn lemma_embedded_stream(payload: Seq<u8>, grid: GridView)
    requires
        grid.wf(),
        payload.len() <= MAX_TEXT_LENGTH,
        grid.pixel_count() >= required_pixels(payload.len()),
    ensures
        ({
            let stego = embedded_prefix(
                grid.samples,
                payload,
                required_pixels(payload.len()) as int,
            );
            &&& has_header(stego)
            &&& hidden_len(stego) == payload.len()
            &&& hidden_bytes(stego) == payload
        }),
{
    let bits = required_pixels(payload.len()) as int;
    let stego = embedded_prefix(grid.samples, payload, bits);
    assert(3 * bits <= grid.samples.len());
    assert forall|j: int| 0 <= j < 3 implies #[trigger] hidden_byte(stego, j) == HEADER[j] by {
        let value = HEADER[j] as u16;
        assert forall|i: int| 0 <= i < 8 implies hidden_bit(stego, 8 * j + i) == bit_of(
            value,
            i,
        ) by {
            lemma_embedded_bit(grid.samples, payload, bits, 8 * j + i);
        }
        lemma_hidden_value_of_bits(stego, 8 * j, 8, value);
        lemma_low_bits_whole(HEADER[j], 0);
    }
    let len = payload.len() as u16;
    assert forall|i: int| 0 <= i < 16 implies hidden_bit(stego, 24 + i) == bit_of(len, i) by {
        lemma_embedded_bit(grid.samples, payload, bits, 24 + i);
    }
    lemma_hidden_value_of_bits(stego, 24, 16, len);
    lemma_low_bits_whole(0, len);
    assert(hidden_len(stego) == payload.len());
    assert forall|j: int| 0 <= j < payload.len() implies hidden_byte(stego, 5 + j)
        == payload[j] by {
        let value = payload[j] as u16;
        assert forall|i: int| 0 <= i < 8 implies hidden_bit(stego, 8 * (5 + j) + i) == bit_of(
            value,
            i,
        ) by {
            lemma_embedded_bit(grid.samples, payload, bits, 8 * (5 + j) + i);
        }
        lemma_hidden_value_of_bits(stego, 8 * (5 + j), 8, value);
        lemma_low_bits_whole(payload[j], 0);
    }
    assert(hidden_bytes(stego) =~= payload);
}

/// Round trip, on bytes. Whatever ASCII payload of at most 65535 bytes is
/// hidden in whatever grid is large enough for it, recovering from the result
/// gives the payload back, character for byte.
pub proof fn lemma_round_trip(payload: Seq<u8>, grid: GridView)
    requires
        grid.wf(),
        payload.len() <= MAX_TEXT_LENGTH,
        is_ascii_bytes(payload),
        grid.pixel_count() >= required_pixels(payload.len()),
    ensures
        spec_embed(payload, grid) is Ok,
        spec_extract(spec_embed(payload, grid)->Ok_0) == Ok::<Seq<char>, DecodeError>(
            ascii_chars(payload),
        ),
{
    lemma_embedded_stream(payload, grid);
    lemma_ascii_is_utf8(payload);
}

/// Round trip, on text. Whatever ASCII text of at most 65535 characters is
/// hidden in whatever grid is large enough for it, recovering from the result
/// gives exactly that text.
pub proof fn lemma_round_trip_text(text: Seq<char>, grid: GridView)
    requires
        grid.wf(),
        text.len() <= MAX_TEXT_LENGTH,
        is_ascii_chars(text),
        grid.pixel_count() >= required_pixels(text.len()),
    ensures
        spec_embed(encode_utf8(text), grid) is Ok,
        spec_extract(spec_embed(encode_utf8(text), grid)->Ok_0) == Ok::<Seq<char>, DecodeError>(
            text,
        ),
{
    lemma_ascii_text_bytes(text);
    lemma_round_trip(encode_utf8(text), grid);
}

/// Capacity boundary. A payload that passes the checks on its own fits
/// exactly when the grid has at least `24 + 16 + 8 * len` pixels: with that
/// many it is hidden, with one fewer it is refused for want of capacity.
pub proof fn lemma_capacity_boundary(payload: Seq<u8>, grid: GridView)
    requires
        grid.wf(),
        payload.len() <= MAX_TEXT_LENGTH,
        is_ascii_bytes(payload),
    ensures
        spec_embed(payload, grid) is Ok <==> grid.pixel_count() >= 24 + 16 + 8 * payload.len(),
        grid.pixel_count() == 24 + 16 + 8 * payload.len() ==> spec_embed(payload, grid) is Ok,
        grid.pixel_count() == 24 + 16 + 8 * payload.len() - 1 ==> spec_embed(payload, grid) == Err::<
            GridView,
            EncodeError,
        >(
            EncodeError::InsufficientCapacity {
                pixels: grid.pixel_count() as usize,
                payload_len: payload.len() as usize,
            },
        ),
{
}

/// Length boundary. An ASCII payload of 65535 bytes is hidden in any grid
/// large enough for it; a payload of 65536 bytes or more is refused as too
/// large, whatever it holds and whatever the grid.
pub proof fn lemma_length_boundary(payload: Seq<u8>, grid: GridView)
    requires
        grid.wf(),
    ensures
        payload.len() == 65535 && is_ascii_bytes(payload) && grid.pixel_count() >= required_pixels(
            65535,
        ) ==> spec_embed(payload, grid) is Ok,
        payload.len() >= 65536 ==> spec_embed(payload, grid) == Err::<GridView, EncodeError>(
            EncodeError::PayloadTooLarge,
        ),
{
}

/// ASCII only. A payload of at most 65535 bytes that holds one byte of 128 or
/// more is refused as not ASCII, whatever the grid.
pub proof fn lemma_non_ascii_refused(payload: Seq<u8>, grid: GridView, at: int)
    requires
        payload.len() <= MAX_TEXT_LENGTH,
        0 <= at < payload.len(),
        payload[at] >= 128,
    ensures
        spec_embed(payload, grid) == Err::<GridView, EncodeError>(EncodeError::NonAsciiPayload),
{
}

/// A text with a character beyond ASCII is encoded with a byte of 128 or
/// more, so that it is refused like any other payload that is not ASCII.
pub proof fn lemma_non_ascii_text_refused(text: Seq<char>, grid: GridView)
    requires
        encode_utf8(text).len() <= MAX_TEXT_LENGTH,
        !is_ascii_chars(text),
    ensures
        spec_embed(encode_utf8(text), grid) == Err::<GridView, EncodeError>(
            EncodeError::NonAsciiPayload,
        ),
{
    let bytes = encode_utf8(text);
    if is_ascii_bytes(bytes) {
        lemma_ascii_is_utf8(bytes);
        encode_utf8_decode_utf8(text);
        assert(text == ascii_chars(bytes));
        assert(is_ascii_chars(text));
    }
}

/// No header, no text. From a grid whose first eight pixels all hide a 0,
/// nothing is recovered: the magic header is missing.
pub proof fn lemma_blank_start_has_no_header(grid: GridView)
    requires
        forall|i: int| 0 <= i < 8 ==> hidden_bit(grid.samples, i) == 0,
    ensures
        spec_extract(grid) == Err::<Seq<char>, DecodeError>(DecodeError::MissingOrInvalidHeader),
{
    assert forall|i: int| 0 <= i < 8 implies hidden_bit(grid.samples, 0 + i) == bit_of(0, i) by {
        let shift = i as u32;
        assert((0u16 >> shift) & 1 == 0) by (bit_vector);
    }
    lemma_hidden_value_of_bits(grid.samples, 0, 8, 0);
    lemma_low_bits_whole(0, 0);
    assert(hidden_byte(grid.samples, 0) == 0);
    assert(HEADER[0] == 0x53);
}

/// From a grid that is zero throughout, whatever its dimensions, nothing is
/// recovered: the magic header is missing.
pub proof fn lemma_zero_grid_has_no_header(grid: GridView)
    requires
        forall|j: int| 0 <= j < grid.samples.len() ==> grid.samples[j] == 0,
    ensures
        spec_extract(grid) == Err::<Seq<char>, DecodeError>(DecodeError::MissingOrInvalidHeader),
{
    assert(0u8 & 1 == 0) by (bit_vector);
    lemma_blank_start_has_no_header(grid);
}

/// Hiding leaves the picture alone. The result has the dimensions of the
/// grid that went in; the only samples that may differ are the red samples of
/// the first `24 + 16 + 8 * len` pixels, and in those only the lowest bit.
pub proof fn lemma_embed_touches_only_red_lsbs(payload: Seq<u8>, grid: GridView)
    requires
        grid.wf(),
        spec_embed(payload, grid) is Ok,
    ensures
        ({
            let stego = spec_embed(payload, grid)->Ok_0;
            &&& stego.wf()
            &&& stego.width == grid.width
            &&& stego.height == grid.height
            &&& stego.samples.len() == grid.samples.len()
            &&& forall|j: int|
                0 <= j < grid.samples.len() && !(j % 3 == 0 && j / 3 < 24 + 16 + 8 * payload.len())
                    ==> #[trigger] stego.samples[j] == grid.samples[j]
            &&& forall|j: int|
                0 <= j < grid.samples.len() ==> #[trigger] stego.samples[j] & 0xFE
                    == grid.samples[j] & 0xFE
        }),
{
    let stego = spec_embed(payload, grid)->Ok_0;
    assert forall|j: int| 0 <= j < grid.samples.len() implies #[trigger] stego.samples[j] & 0xFE
        == grid.samples[j] & 0xFE by {
        if j % 3 == 0 && j / 3 < required_pixels(payload.len()) {
            let k = j / 3;
            let red = grid.samples[j];
            let bit = stream_bit(payload, k);
            let value: u16 = if k < 24 {
                HEADER[k / 8] as u16
            } else if k < 40 {
                payload.len() as u16
            } else {
                payload[(k - 40) / 8] as u16
            };
            let i: u32 = if k < 24 {
                (k % 8) as u32
            } else if k < 40 {
                (k - 24) as u32
            } else {
                ((k - 40) % 8) as u32
            };
            assert(bit == ((value >> i) & 1) as u8);
            assert((((red & 0xFE) | bit) & 0xFE) == red & 0xFE) by (bit_vector)
                requires
                    bit == ((value >> i) & 1) as u8,
            ;
        }
    }
}

} // verus!
