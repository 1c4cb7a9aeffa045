//! The calls that leave this crate. Verus takes the contracts in this file on
//! trust: they describe code that it does not read.

use vstd::prelude::*;
use vstd::utf8::{encode_utf8, valid_utf8};

verus! {

/// The error type of the `image` crate, carried but never inspected.
#[verifier::external_type_specification]
#[verifier::external_body]
pub struct ExImageError(image::ImageError);

/// Decodes an encoded image (PNG and the like) with `image::load_from_memory`,
/// converts it to 8-bit RGB with `DynamicImage::to_rgb8`, and hands back the
/// width, the height and the row-major samples of the result.
///
/// Nothing is claimed of what comes back: which bytes decode, and to what,
/// is the `image` crate's business, and it depends on the decoders that the
/// running program has registered with that crate.
#[verifier::external_body]
pub(crate) fn load_rgb8(image_data: &[u8]) -> Result<(u32, u32, Vec<u8>), image::ImageError> {
    let rgb = image::load_from_memory(image_data)?.to_rgb8();
    let (width, height) = rgb.dimensions();
    Ok((width, height, rgb.into_raw()))
}

/// `String::from_utf8`, with the error reduced to `None`.
///
/// The claim: the bytes are accepted exactly when they are valid UTF-8, and
/// the string that comes back is then made of those very bytes.
#[verifier::external_body]
pub(crate) fn string_from_utf8(bytes: Vec<u8>) -> (r: Option<String>)
    ensures
        r is Some <==> valid_utf8(bytes@),
        r matches Some(text) ==> encode_utf8(text@) == bytes@,
{
    String::from_utf8(bytes).ok()
}

} // verus!
