use image::codecs::png::PngEncoder;
use image::ExtendedColorType;
use image::ImageEncoder;
use stegosaur_rs::encoder::{embed, encode_lossless};
use stegosaur_rs::error::EncodeError;
use stegosaur_rs::grid::PixelGrid;

fn create_test_image(width: u32, height: u32) -> Vec<u8> {
    let img = image::RgbImage::new(width, height);
    let mut bytes = Vec::new();
    let encoder = PngEncoder::new(&mut bytes);
    encoder
        .write_image(img.as_raw(), width, height, ExtendedColorType::Rgb8)
        .unwrap();
    bytes
}

fn encode_rgb_to_png_bytes(rgb: &PixelGrid) -> Vec<u8> {
    let (width, height) = (rgb.width(), rgb.height());
    let mut bytes = Vec::new();
    let encoder = PngEncoder::new(&mut bytes);
    encoder
        .write_image(rgb.as_raw(), width, height, ExtendedColorType::Rgb8)
        .unwrap();
    bytes
}

/// The bits that a byte contributes to the stream, lowest first.
fn bits_of(byte: u8) -> Vec<u8> {
    (0..8).map(|i| (byte >> i) & 1).collect()
}

#[test]
fn test_text_too_long() {
    let long_text = "x".repeat(65536);
    let image_data = create_test_image(100, 100);

    let result = encode_lossless(&long_text, &image_data);

    assert!(result.is_err());
    let err = result.unwrap_err();
    assert!(err.message().contains("Maximum text length"));
}

#[test]
fn test_non_ascii_rejected() {
    let image_data = create_test_image(10, 10);

    for non_ascii in ["café", "日本語", "café au lait"] {
        let result = encode_lossless(non_ascii, &image_data);
        assert!(result.is_err(), "Expected error for non-ASCII: {}", non_ascii);
        let err = result.unwrap_err();
        assert!(err.message().contains("Only ASCII"));
    }
}

#[test]
fn test_image_too_small() {
    // "x" needs (1*8) + 16 + 24 = 48 pixels minimum. 1x1 = 1 pixel.
    let image_data = create_test_image(1, 1);

    let result = encode_lossless("x", &image_data);

    assert!(result.is_err());
    let err = result.unwrap_err();
    assert!(err.message().contains("cannot fit text size"));
}

#[test]
fn test_encode_preserves_image_dimensions() {
    let width = 10u32;
    let height = 10u32;
    let image_data = create_test_image(width, height);

    let rgb = encode_lossless("Hi", &image_data).unwrap();
    let output_bytes = encode_rgb_to_png_bytes(&rgb);
    let output_img = image::load_from_memory(&output_bytes).unwrap();
    assert_eq!(output_img.width(), width);
    assert_eq!(output_img.height(), height);
}

#[test]
fn encode_lossless_names_each_error() {
    let long_text = "x".repeat(65536);
    assert_eq!(
        encode_lossless(&long_text, &create_test_image(100, 100)).unwrap_err(),
        EncodeError::PayloadTooLarge
    );
    assert_eq!(
        encode_lossless("café", &create_test_image(10, 10)).unwrap_err(),
        EncodeError::NonAsciiPayload
    );
    assert_eq!(
        encode_lossless("x", &create_test_image(1, 1)).unwrap_err(),
        EncodeError::InsufficientCapacity { pixels: 1, payload_len: 1 }
    );
    assert_eq!(
        encode_lossless("x", b"this is no image").unwrap_err(),
        EncodeError::InvalidImage
    );
    assert_eq!(encode_lossless("x", &[]).unwrap_err(), EncodeError::InvalidImage);
}

#[test]
fn encode_lossless_checks_the_text_before_the_image() {
    let long_text = "x".repeat(65536);
    assert_eq!(
        encode_lossless(&long_text, b"this is no image").unwrap_err(),
        EncodeError::PayloadTooLarge
    );
    assert_eq!(
        encode_lossless("日本語", b"this is no image").unwrap_err(),
        EncodeError::NonAsciiPayload
    );
}

#[test]
fn encode_lossless_writes_the_stream_into_the_decoded_pixels() {
    let grid = encode_lossless("Hi", &create_test_image(10, 10)).unwrap();
    let mut stream = Vec::new();
    for byte in [0x53u8, 0x54, 0x47, 2, 0, b'H', b'i'] {
        stream.extend(bits_of(byte));
    }
    assert_eq!(stream.len(), 56);
    let data = grid.as_raw();
    assert_eq!(data.len(), 300);
    for (j, sample) in data.iter().enumerate() {
        let expected = if j % 3 == 0 && j / 3 < 56 { stream[j / 3] } else { 0 };
        assert_eq!(*sample, expected, "sample {}", j);
    }
}

#[test]
fn encode_lossless_accepts_other_pixel_formats() {
    let img = image::RgbaImage::from_pixel(8, 8, image::Rgba([200, 100, 50, 255]));
    let mut bytes = Vec::new();
    PngEncoder::new(&mut bytes)
        .write_image(img.as_raw(), 8, 8, ExtendedColorType::Rgba8)
        .unwrap();
    let grid = encode_lossless("ok", &bytes).unwrap();
    assert_eq!((grid.width(), grid.height()), (8, 8));
    assert_eq!(grid.as_raw().len(), 192);
    // Pixel 63 is past the 56 bits of the stream: untouched, alpha dropped.
    assert_eq!(&grid.as_raw()[189..192], &[200, 100, 50]);
    // Pixel 0 hides bit 0 of the first header byte, which is 1.
    assert_eq!(&grid.as_raw()[0..3], &[201, 100, 50]);
    // Pixel 2 hides bit 2 of the first header byte, which is 0.
    assert_eq!(&grid.as_raw()[6..9], &[200, 100, 50]);
}

#[test]
fn embed_writes_header_length_and_payload_lsb_first() {
    let grid = PixelGrid::new(48, 1).unwrap();
    let out = embed(b"A", grid).unwrap();
    let reds: Vec<u8> = out.as_raw().iter().step_by(3).copied().collect();
    let expected: Vec<u8> = vec![
        1, 1, 0, 0, 1, 0, 1, 0, // 0x53
        0, 0, 1, 0, 1, 0, 1, 0, // 0x54
        1, 1, 1, 0, 0, 0, 1, 0, // 0x47
        1, 0, 0, 0, 0, 0, 0, 0, // length 1, low byte
        0, 0, 0, 0, 0, 0, 0, 0, // length 1, high byte
        1, 0, 0, 0, 0, 0, 1, 0, // 'A' = 0x41
    ];
    assert_eq!(reds, expected);
}

#[test]
fn embed_writes_a_length_above_255_little_endian() {
    let payload = vec![b'z'; 300];
    let grid = PixelGrid::new(40 + 8 * 300, 1).unwrap();
    let out = embed(&payload, grid).unwrap();
    let reds: Vec<u8> = out.as_raw().iter().step_by(3).copied().collect();
    // 300 = 0x012C: bits 2, 3, 5 and 8 are set.
    let expected: Vec<u8> = vec![0, 0, 1, 1, 0, 1, 0, 0, 1, 0, 0, 0, 0, 0, 0, 0];
    assert_eq!(&reds[24..40], &expected[..]);
}

#[test]
fn embed_changes_nothing_but_the_lowest_bit_of_the_first_red_samples() {
    let width = 10u32;
    let height = 6u32;
    let before: Vec<u8> = (0..180u32).map(|j| (j * 7 + 3) as u8).collect();
    let grid = PixelGrid::from_raw(width, height, before.clone()).unwrap();
    let out = embed(b"ab", grid).unwrap();
    assert_eq!(out.width(), width);
    assert_eq!(out.height(), height);
    let after = out.as_raw();
    assert_eq!(after.len(), before.len());
    let mut stream = Vec::new();
    for byte in [0x53u8, 0x54, 0x47, 2, 0, b'a', b'b'] {
        stream.extend(bits_of(byte));
    }
    for j in 0..before.len() {
        if j % 3 == 0 && j / 3 < 56 {
            assert_eq!(after[j], (before[j] & 0xFE) | stream[j / 3], "red sample {}", j);
        } else {
            assert_eq!(after[j], before[j], "sample {}", j);
        }
    }
}

#[test]
fn embed_clears_set_bits_too() {
    let grid = PixelGrid::from_raw(40, 1, vec![0xFF; 120]).unwrap();
    let out = embed(b"", grid).unwrap();
    let data = out.as_raw();
    // Bit 2 of 0x53 is 0, bit 0 is 1; green and blue stay.
    assert_eq!(&data[0..3], &[0xFF, 0xFF, 0xFF]);
    assert_eq!(&data[6..9], &[0xFE, 0xFF, 0xFF]);
    // The length is 0: all 16 pixels cleared.
    for k in 24..40 {
        assert_eq!(data[3 * k], 0xFE);
    }
}

#[test]
fn embed_capacity_boundary() {
    // "x" needs 24 + 16 + 8 = 48 pixels.
    assert!(embed(b"x", PixelGrid::new(48, 1).unwrap()).is_ok());
    assert!(embed(b"x", PixelGrid::new(8, 6).unwrap()).is_ok());
    assert_eq!(
        embed(b"x", PixelGrid::new(47, 1).unwrap()).unwrap_err(),
        EncodeError::InsufficientCapacity { pixels: 47, payload_len: 1 }
    );
    assert_eq!(
        embed(b"x", PixelGrid::new(1, 1).unwrap()).unwrap_err(),
        EncodeError::InsufficientCapacity { pixels: 1, payload_len: 1 }
    );
    assert_eq!(
        embed(b"x", PixelGrid::new(0, 0).unwrap()).unwrap_err(),
        EncodeError::InsufficientCapacity { pixels: 0, payload_len: 1 }
    );
    // The empty payload needs the 40 pixels of header and length.
    assert!(embed(b"", PixelGrid::new(40, 1).unwrap()).is_ok());
    assert_eq!(
        embed(b"", PixelGrid::new(39, 1).unwrap()).unwrap_err(),
        EncodeError::InsufficientCapacity { pixels: 39, payload_len: 0 }
    );
}

#[test]
fn embed_length_boundary() {
    let longest = vec![b'x'; 65535];
    let too_long = vec![b'x'; 65536];
    let pixels = 24 + 16 + 8 * 65535;
    assert!(embed(&longest, PixelGrid::new(pixels, 1).unwrap()).is_ok());
    assert_eq!(
        embed(&longest, PixelGrid::new(pixels - 1, 1).unwrap()).unwrap_err(),
        EncodeError::InsufficientCapacity { pixels: 524319, payload_len: 65535 }
    );
    assert_eq!(
        embed(&too_long, PixelGrid::new(pixels + 8, 1).unwrap()).unwrap_err(),
        EncodeError::PayloadTooLarge
    );
}

#[test]
fn embed_refuses_bytes_beyond_ascii() {
    let grid = PixelGrid::new(100, 100).unwrap();
    assert_eq!(embed("café".as_bytes(), grid.clone()).unwrap_err(), EncodeError::NonAsciiPayload);
    assert_eq!(embed("日本語".as_bytes(), grid.clone()).unwrap_err(), EncodeError::NonAsciiPayload);
    assert_eq!(embed(&[b'a', 0x80], grid.clone()).unwrap_err(), EncodeError::NonAsciiPayload);
    assert_eq!(embed(&[0xFF], grid.clone()).unwrap_err(), EncodeError::NonAsciiPayload);
    assert!(embed(&[0x7F, 0x00], grid).is_ok());
}

#[test]
fn embed_reports_the_first_failing_check() {
    let mut too_long_and_not_ascii = vec![b'x'; 65536];
    too_long_and_not_ascii[0] = 0xC3;
    assert_eq!(
        embed(&too_long_and_not_ascii, PixelGrid::new(1, 1).unwrap()).unwrap_err(),
        EncodeError::PayloadTooLarge
    );
    assert_eq!(
        embed("é".as_bytes(), PixelGrid::new(1, 1).unwrap()).unwrap_err(),
        EncodeError::NonAsciiPayload
    );
}
