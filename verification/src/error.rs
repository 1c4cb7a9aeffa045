//! The ways in which hiding or recovering a text can fail, and how each is
//! worded for a human reader.

use crate::format::MAX_TEXT_LENGTH;
use vstd::prelude::*;

verus! {

/// Why a text could not be hidden.
#[derive(Clone, Copy, Debug, PartialEq, Eq, Structural)]
pub enum EncodeError {
    /// The payload is longer than the 16-bit length field can announce.
    PayloadTooLarge,
    /// The payload holds a byte outside the ASCII range.
    NonAsciiPayload,
    /// The image has `pixels` pixels, too few for the header, the length field
    /// and a payload of `payload_len` bytes.
    InsufficientCapacity { pixels: usize, payload_len: usize },
    /// The bytes handed in as an encoded image could not be turned into pixels.
    InvalidImage,
}

/// Why no text could be recovered.
#[derive(Clone, Copy, Debug, PartialEq, Eq, Structural)]
pub enum DecodeError {
    /// The first 24 hidden bits are not the magic header: the image carries no
    /// hidden text, or was damaged.
    MissingOrInvalidHeader,
    /// The hidden bytes are not valid UTF-8.
    InvalidPayloadEncoding,
    /// The bytes handed in as an encoded image could not be turned into pixels.
    InvalidImage,
}

/// The character that writes the digit `d`.
pub open spec fn digit_char(d: nat) -> char {
    if d == 0 {
        '0'
    } else if d == 1 {
        '1'
    } else if d == 2 {
        '2'
    } else if d == 3 {
        '3'
    } else if d == 4 {
        '4'
    } else if d == 5 {
        '5'
    } else if d == 6 {
        '6'
    } else if d == 7 {
        '7'
    } else if d == 8 {
        '8'
    } else {
        '9'
    }
}

/// The decimal numeral of `n`, most significant digit first, without leading
/// zeros.
pub open spec fn decimal(n: nat) -> Seq<char>
    decreases n,
{
    if n < 10 {
        seq![digit_char(n)]
    } else {
        decimal(n / 10).push(digit_char(n % 10))
    }
}

/// Appends the character of one decimal digit.
fn push_digit(text: &mut String, d: usize)
    requires
        d < 10,
    ensures
        final(text)@ == old(text)@.push(digit_char(d as nat)),
{
    proof {
        reveal_strlit("0");
        reveal_strlit("1");
        reveal_strlit("2");
        reveal_strlit("3");
        reveal_strlit("4");
        reveal_strlit("5");
        reveal_strlit("6");
        reveal_strlit("7");
        reveal_strlit("8");
        reveal_strlit("9");
    }
    let digit = if d == 0 {
        "0"
    } else if d == 1 {
        "1"
    } else if d == 2 {
        "2"
    } else if d == 3 {
        "3"
    } else if d == 4 {
        "4"
    } else if d == 5 {
        "5"
    } else if d == 6 {
        "6"
    } else if d == 7 {
        "7"
    } else if d == 8 {
        "8"
    } else {
        "9"
    };
    assert(digit@ =~= seq![digit_char(d as nat)]);
    text.append(digit);
    assert(text@ =~= old(text)@.push(digit_char(d as nat)));
}

/// Appends the decimal numeral of `n`.
pub fn push_decimal(text: &mut String, n: usize)
    ensures
        final(text)@ == old(text)@ + decimal(n as nat),
    decreases n,
{
    if n >= 10 {
        push_decimal(text, n / 10);
    }
    push_digit(text, n % 10);
    assert(text@ =~= old(text)@ + decimal(n as nat));
}

impl EncodeError {
    /// What [`EncodeError::message`] returns.
    pub open spec fn spec_message(self) -> Seq<char> {
        match self {
            EncodeError::PayloadTooLarge => "Maximum text length that can be encoded is "@
                + decimal(MAX_TEXT_LENGTH as nat),
            EncodeError::NonAsciiPayload => "Only ASCII characters are supported"@,
            EncodeError::InsufficientCapacity { pixels, payload_len } => "Image size "@ + decimal(
                pixels as nat,
            ) + " cannot fit text size of "@ + decimal(payload_len as nat),
            EncodeError::InvalidImage => "Failed to decode image"@,
        }
    }

    /// The error in words.
    pub fn message(&self) -> (text: String)
        ensures
            text@ == self.spec_message(),
    {
        match self {
            EncodeError::PayloadTooLarge => {
                let mut text = String::from_str("Maximum text length that can be encoded is ");
                push_decimal(&mut text, MAX_TEXT_LENGTH);
                text
            },
            EncodeError::NonAsciiPayload => String::from_str("Only ASCII characters are supported"),
            EncodeError::InsufficientCapacity { pixels, payload_len } => {
                let mut text = String::from_str("Image size ");
                push_decimal(&mut text, *pixels);
                text.append(" cannot fit text size of ");
                push_decimal(&mut text, *payload_len);
                text
            },
            EncodeError::InvalidImage => String::from_str("Failed to decode image"),
        }
    }
}

impl DecodeError {
    /// What [`DecodeError::message`] returns.
    pub open spec fn spec_message(self) -> Seq<char> {
        match self {
            DecodeError::MissingOrInvalidHeader => {
                "Image does not contain steganographic data (invalid header)"@
            },
            DecodeError::InvalidPayloadEncoding => "Decoded text is not valid UTF-8"@,
            DecodeError::InvalidImage => "Failed to decode image"@,
        }
    }

    /// The error in words.
    pub fn message(&self) -> (text: String)
        ensures
            text@ == self.spec_message(),
    {
        match self {
            DecodeError::MissingOrInvalidHeader => String::from_str(
                "Image does not contain steganographic data (invalid header)",
            ),
            DecodeError::InvalidPayloadEncoding => String::from_str(
                "Decoded text is not valid UTF-8",
            ),
            DecodeError::InvalidImage => String::from_str("Failed to decode image"),
        }
    }
}

} // verus!
