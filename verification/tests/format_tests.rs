use stegosaur_rs::format::{
    all_ascii, pixels_needed, HEADER, HEADER_BITS, LENGTH_BITS, MAX_TEXT_LENGTH, PREFIX_BITS,
};
use stegosaur_rs::grid::PixelGrid;

#[test]
fn constants_of_the_format() {
    assert_eq!(HEADER.len(), 3);
    assert_eq!(HEADER_BITS, 8 * HEADER.len());
    assert_eq!(LENGTH_BITS, 16);
    assert_eq!(PREFIX_BITS, HEADER_BITS + LENGTH_BITS);
    assert_eq!(MAX_TEXT_LENGTH, u16::MAX as usize);
    assert_ne!(HEADER, [0, 0, 0]);
}

#[test]
fn pixels_needed_is_forty_plus_eight_per_byte() {
    assert_eq!(pixels_needed(0), 40);
    assert_eq!(pixels_needed(1), 48);
    assert_eq!(pixels_needed(13), 144);
    assert_eq!(pixels_needed(65535), 524320);
}

#[test]
fn all_ascii_looks_at_every_byte() {
    assert!(all_ascii(b""));
    assert!(all_ascii(b"Hello, world!"));
    assert!(all_ascii(&[0x00, 0x7F]));
    assert!(!all_ascii(&[0x80]));
    assert!(!all_ascii(&[b'a', b'b', 0xFF]));
    assert!(!all_ascii(&[0xC3, b'a']));
    assert!(!all_ascii("café".as_bytes()));
}

#[test]
fn grid_new_is_zero_throughout() {
    let grid = PixelGrid::new(7, 5).unwrap();
    assert_eq!(grid.width(), 7);
    assert_eq!(grid.height(), 5);
    assert_eq!(grid.pixel_count(), 35);
    assert_eq!(grid.as_raw(), &vec![0u8; 105]);
    let empty = PixelGrid::new(0, 9).unwrap();
    assert_eq!(empty.pixel_count(), 0);
    assert!(empty.into_raw().is_empty());
}

#[test]
fn grid_new_refuses_what_cannot_be_held() {
    assert!(PixelGrid::new(u32::MAX, u32::MAX).is_none());
}

#[test]
fn grid_from_raw_wants_three_samples_per_pixel() {
    assert!(PixelGrid::from_raw(2, 2, vec![0; 12]).is_some());
    assert!(PixelGrid::from_raw(2, 2, vec![0; 11]).is_none());
    assert!(PixelGrid::from_raw(2, 2, vec![0; 13]).is_none());
    assert!(PixelGrid::from_raw(0, 0, vec![]).is_some());
    assert!(PixelGrid::from_raw(0, 5, vec![1]).is_none());
    assert!(PixelGrid::from_raw(u32::MAX, u32::MAX, vec![0; 3]).is_none());
}

#[test]
fn grid_keeps_its_samples() {
    let samples: Vec<u8> = (0..24).collect();
    let grid = PixelGrid::from_raw(4, 2, samples.clone()).unwrap();
    assert_eq!(grid.width(), 4);
    assert_eq!(grid.height(), 2);
    assert_eq!(grid.pixel_count(), 8);
    assert_eq!(grid.as_raw(), &samples);
    let copy = grid.clone();
    assert_eq!(copy, grid);
    assert_eq!(copy.into_raw(), samples);
    assert_ne!(grid, PixelGrid::from_raw(2, 4, samples).unwrap());
}
