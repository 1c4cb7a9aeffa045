//! Recovering a hidden text from a pixel grid.

use crate::error::DecodeError;
use crate::format::{hidden_byte, hidden_value, lemma_hidden_byte_fits, HEADER, HEADER_BITS};
use crate::grid::{GridView, PixelGrid};
use crate::trusted::{load_rgb8, string_from_utf8};
use vstd::prelude::*;
use vstd::utf8::{decode_utf8, encode_utf8_decode_utf8, valid_utf8};

verus! {

/// Whether the first 24 hidden bits of `samples` spell the magic header.
pub open spec fn has_header(samples: Seq<u8>) -> bool {
    forall|j: int| 0 <= j < 3 ==> #[trigger] hidden_byte(samples, j) == HEADER[j]
}

/// The payload length that the 16 hidden bits after the header announce.
pub open spec fn hidden_len(samples: Seq<u8>) -> nat {
    hidden_value(samples, 24, 16) as nat
}

/// The payload bytes hidden after the length field, as many as it announces.
pub open spec fn hidden_bytes(samples: Seq<u8>) -> Seq<u8> {
    Seq::new(hidden_len(samples), |j: int| hidden_byte(samples, 5 + j))
}

/// What [`extract`] returns.
pub open spec fn spec_extract(grid: GridView) -> Result<Seq<char>, DecodeError> {
    if !has_header(grid.samples) {
        Err(DecodeError::MissingOrInvalidHeader)
    } else if !valid_utf8(hidden_bytes(grid.samples)) {
        Err(DecodeError::InvalidPayloadEncoding)
    } else {
        Ok(decode_utf8(hidden_bytes(grid.samples)))
    }
}

/// Reads `count` hidden bits from the pixels from `first` on and assembles
/// them, least significant bit first.
fn read_bits(data: &Vec<u8>, first: usize, count: u32) -> (value: u16)
    requires
        count <= 16,
        first + count <= usize::MAX,
    ensures
        value == hidden_value(data@, first as int, count as nat),
{
    let total = data.len();
    let pixels = total / 3;
    let mut value: u16 = 0;
    let mut i: u32 = 0;
    while i < count
        invariant
            i <= count <= 16,
            first + count <= usize::MAX,
            total == data@.len(),
            pixels == total / 3,
            value == hidden_value(data@, first as int, i as nat),
        decreases count - i,
    {
        let k = first + i as usize;
        let bit: u8 = if k < pixels {
            data[3 * k] & 1
        } else {
            0
        };
        value = value | ((bit as u16) << i);
        i += 1;
    }
    value
}

/// Recovers the text hidden in `grid`, or says why there is none.
///
/// Where the grid ends before the announced payload does, the missing bits
/// read as zeros.
pub fn extract(grid: &PixelGrid) -> (r: Result<String, DecodeError>)
    ensures
        match r {
            Ok(text) => spec_extract(grid@) == Ok::<Seq<char>, DecodeError>(text@),
            Err(e) => spec_extract(grid@) == Err::<Seq<char>, DecodeError>(e),
        },
{
    let data = grid.as_raw();
    let mut j: usize = 0;
    while j < 3
        invariant
            j <= 3,
            data@ == grid@.samples,
            forall|h: int| 0 <= h < j ==> #[trigger] hidden_byte(data@, h) == HEADER[h],
        decreases 3 - j,
    {
        proof {
            lemma_hidden_byte_fits(data@, j as int);
        }
        if read_bits(data, 8 * j, 8) as u8 != HEADER[j] {
            assert(hidden_byte(data@, j as int) != HEADER[j as int]);
            return Err(DecodeError::MissingOrInvalidHeader);
        }
        j += 1;
    }

    let size = read_bits(data, HEADER_BITS, 16) as usize;
    let mut bytes: Vec<u8> = Vec::with_capacity(size);
    let mut j: usize = 0;
    while j < size
        invariant
            j <= size == hidden_len(data@),
            bytes@.len() == j,
            forall|h: int| 0 <= h < j ==> bytes@[h] == hidden_byte(data@, 5 + h),
        decreases size - j,
    {
        proof {
            lemma_hidden_byte_fits(data@, 5 + j);
        }
        bytes.push(read_bits(data, 8 * (5 + j), 8) as u8);
        j += 1;
    }
    assert(bytes@ =~= hidden_bytes(data@));
    match string_from_utf8(bytes) {
        Some(text) => {
            proof {
                encode_utf8_decode_utf8(text@);
            }
            Ok(text)
        },
        None => Err(DecodeError::InvalidPayloadEncoding),
    }
}

/// Recovers the text hidden in the encoded image `image_data`.
///
/// What the image decodes to is not this crate's to say, so the contract
/// speaks of every grid that it may have decoded to: `InvalidImage` when
/// there was none, otherwise what [`extract`] finds in that grid.
pub fn decode_lossless(image_data: &[u8]) -> (r: Result<String, DecodeError>)
    ensures
        match r {
            Ok(text) => exists|grid: GridView|
                grid.wf() && #[trigger] spec_extract(grid) == Ok::<Seq<char>, DecodeError>(text@),
            Err(e) => e == DecodeError::InvalidImage || exists|grid: GridView|
                grid.wf() && #[trigger] spec_extract(grid) == Err::<Seq<char>, DecodeError>(e),
        },
{
    match load_rgb8(image_data) {
        Ok((width, height, data)) => match PixelGrid::from_raw(width, height, data) {
            Some(grid) => {
                let r = extract(&grid);
                proof {
                    assert(grid@.wf());
                }
                r
            },
            None => Err(DecodeError::InvalidImage),
        },
        Err(_) => Err(DecodeError::InvalidImage),
    }
}

} // verus!
