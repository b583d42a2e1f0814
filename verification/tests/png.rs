//! PNG and DEFLATE decoding, on streams and files zlib wrote.

use prism::inflate::inflate;
use prism::png::{decode, paeth};

const RGBA_PNG: &[u8] = &[
    0x89, 0x50, 0x4e, 0x47, 0x0d, 0x0a, 0x1a, 0x0a, 0x00, 0x00, 0x00, 0x0d, 0x49, 0x48, 0x44, 0x52,
    0x00, 0x00, 0x00, 0x03, 0x00, 0x00, 0x00, 0x05, 0x08, 0x06, 0x00, 0x00, 0x00, 0x80, 0x71, 0x56,
    0xa2, 0x00, 0x00, 0x00, 0x15, 0x49, 0x44, 0x41, 0x54, 0x78, 0xda, 0x63, 0x60, 0x30, 0xcd, 0x9a,
    0xaf, 0x1a, 0xd5, 0x7f, 0xc4, 0xab, 0x7e, 0xcb, 0x4b, 0x46, 0x6e, 0x87, 0xd2, 0x55, 0xab, 0xe7,
    0x72, 0x77, 0x00, 0x00, 0x00, 0x04, 0x74, 0x45, 0x58, 0x74, 0x6e, 0x6f, 0x74, 0x65, 0x59, 0x7d,
    0xf3, 0x40, 0x00, 0x00, 0x00, 0x16, 0x49, 0x44, 0x41, 0x54, 0xaa, 0x50, 0xc0, 0xc4, 0x8d, 0x04,
    0x98, 0xc5, 0x0c, 0xbd, 0xd3, 0x24, 0xa0, 0x80, 0x05, 0x59, 0x06, 0x00, 0xe7, 0xcd, 0x0a, 0xd3,
    0xe2, 0xd7, 0x91, 0x6e, 0x00, 0x00, 0x00, 0x00, 0x49, 0x45, 0x4e, 0x44, 0xae, 0x42, 0x60, 0x82,
];

const RGBA_OUT: &[u8] = &[
    0x00, 0x35, 0x6a, 0x9f, 0x25, 0x5a, 0x8f, 0xc4, 0x4a, 0x7f, 0xb4, 0xe9, 0x0b, 0x40, 0x75, 0xaa,
    0x30, 0x65, 0x9a, 0xcf, 0x55, 0x8a, 0xbf, 0xf4, 0x16, 0x4b, 0x80, 0xb5, 0x3b, 0x70, 0xa5, 0xda,
    0x60, 0x95, 0xca, 0xff, 0x21, 0x56, 0x8b, 0xc0, 0x46, 0x7b, 0xb0, 0xe5, 0x6b, 0xa0, 0xd5, 0x0a,
    0x2c, 0x61, 0x96, 0xcb, 0x51, 0x86, 0xbb, 0xf0, 0x76, 0xab, 0xe0, 0x15,
];

const GRAY_PNG: &[u8] = &[
    0x89, 0x50, 0x4e, 0x47, 0x0d, 0x0a, 0x1a, 0x0a, 0x00, 0x00, 0x00, 0x0d, 0x49, 0x48, 0x44, 0x52,
    0x00, 0x00, 0x00, 0x02, 0x00, 0x00, 0x00, 0x02, 0x08, 0x00, 0x00, 0x00, 0x00, 0x57, 0xdd, 0x52,
    0xf8, 0x00, 0x00, 0x00, 0x07, 0x49, 0x44, 0x41, 0x54, 0x78, 0xda, 0x63, 0xe0, 0x3a, 0xc1, 0x28,
    0xe3, 0x31, 0x18, 0x37, 0x00, 0x00, 0x00, 0x04, 0x74, 0x45, 0x58, 0x74, 0x6e, 0x6f, 0x74, 0x65,
    0x59, 0x7d, 0xf3, 0x40, 0x00, 0x00, 0x00, 0x07, 0x49, 0x44, 0x41, 0x54, 0xc7, 0x05, 0x00, 0x03,
    0xa1, 0x00, 0xfc, 0x6e, 0x25, 0xcd, 0x1c, 0x00, 0x00, 0x00, 0x00, 0x49, 0x45, 0x4e, 0x44, 0xae,
    0x42, 0x60, 0x82,
];

const PAL_PNG: &[u8] = &[
    0x89, 0x50, 0x4e, 0x47, 0x0d, 0x0a, 0x1a, 0x0a, 0x00, 0x00, 0x00, 0x0d, 0x49, 0x48, 0x44, 0x52,
    0x00, 0x00, 0x00, 0x03, 0x00, 0x00, 0x00, 0x01, 0x08, 0x03, 0x00, 0x00, 0x00, 0x2c, 0x3e, 0xe4,
    0x86, 0x00, 0x00, 0x00, 0x09, 0x50, 0x4c, 0x54, 0x45, 0xff, 0x00, 0x00, 0x00, 0xff, 0x00, 0x00,
    0x00, 0xff, 0x2d, 0x4a, 0xcd, 0x8a, 0x00, 0x00, 0x00, 0x01, 0x74, 0x52, 0x4e, 0x53, 0x80, 0xad,
    0x5e, 0x5b, 0x46, 0x00, 0x00, 0x00, 0x06, 0x49, 0x44, 0x41, 0x54, 0x78, 0xda, 0x63, 0x60, 0x60,
    0x64, 0x5a, 0xa4, 0xac, 0xbf, 0x00, 0x00, 0x00, 0x04, 0x74, 0x45, 0x58, 0x74, 0x6e, 0x6f, 0x74,
    0x65, 0x59, 0x7d, 0xf3, 0x40, 0x00, 0x00, 0x00, 0x06, 0x49, 0x44, 0x41, 0x54, 0x06, 0x00, 0x00,
    0x09, 0x00, 0x05, 0x99, 0x14, 0x35, 0xdd, 0x00, 0x00, 0x00, 0x00, 0x49, 0x45, 0x4e, 0x44, 0xae,
    0x42, 0x60, 0x82,
];

const GA_PNG: &[u8] = &[
    0x89, 0x50, 0x4e, 0x47, 0x0d, 0x0a, 0x1a, 0x0a, 0x00, 0x00, 0x00, 0x0d, 0x49, 0x48, 0x44, 0x52,
    0x00, 0x00, 0x00, 0x01, 0x00, 0x00, 0x00, 0x02, 0x08, 0x04, 0x00, 0x00, 0x00, 0x33, 0x88, 0x7e,
    0xac, 0x00, 0x00, 0x00, 0x07, 0x49, 0x44, 0x41, 0x54, 0x78, 0xda, 0x63, 0x62, 0x65, 0x63, 0x60,
    0x27, 0xb7, 0x18, 0xc3, 0x00, 0x00, 0x00, 0x04, 0x74, 0x45, 0x58, 0x74, 0x6e, 0x6f, 0x74, 0x65,
    0x59, 0x7d, 0xf3, 0x40, 0x00, 0x00, 0x00, 0x07, 0x49, 0x44, 0x41, 0x54, 0xe7, 0x00, 0x00, 0x00,
    0x59, 0x00, 0x1d, 0x8f, 0x3a, 0x3a, 0x5b, 0x00, 0x00, 0x00, 0x00, 0x49, 0x45, 0x4e, 0x44, 0xae,
    0x42, 0x60, 0x82,
];

const RGB_PNG: &[u8] = &[
    0x89, 0x50, 0x4e, 0x47, 0x0d, 0x0a, 0x1a, 0x0a, 0x00, 0x00, 0x00, 0x0d, 0x49, 0x48, 0x44, 0x52,
    0x00, 0x00, 0x00, 0x02, 0x00, 0x00, 0x00, 0x01, 0x08, 0x02, 0x00, 0x00, 0x00, 0x7b, 0x40, 0xe8,
    0xdd, 0x00, 0x00, 0x00, 0x06, 0x49, 0x44, 0x41, 0x54, 0x78, 0xda, 0x63, 0x64, 0x64, 0x62, 0xd0,
    0xa2, 0x64, 0x52, 0x00, 0x00, 0x00, 0x04, 0x74, 0x45, 0x58, 0x74, 0x6e, 0x6f, 0x74, 0x65, 0x59,
    0x7d, 0xf3, 0x40, 0x00, 0x00, 0x00, 0x07, 0x49, 0x44, 0x41, 0x54, 0x06, 0x02, 0x00, 0x00, 0x3c,
    0x00, 0x11, 0x20, 0x8f, 0x73, 0x13, 0x00, 0x00, 0x00, 0x00, 0x49, 0x45, 0x4e, 0x44, 0xae, 0x42,
    0x60, 0x82,
];

const STORED_PNG: &[u8] = &[
    0x89, 0x50, 0x4e, 0x47, 0x0d, 0x0a, 0x1a, 0x0a, 0x00, 0x00, 0x00, 0x0d, 0x49, 0x48, 0x44, 0x52,
    0x00, 0x00, 0x00, 0x01, 0x00, 0x00, 0x00, 0x01, 0x08, 0x06, 0x00, 0x00, 0x00, 0x1f, 0x15, 0xc4,
    0x89, 0x00, 0x00, 0x00, 0x08, 0x49, 0x44, 0x41, 0x54, 0x78, 0x01, 0x01, 0x05, 0x00, 0xfa, 0xff,
    0x00, 0x1f, 0x41, 0x8b, 0xb7, 0x00, 0x00, 0x00, 0x04, 0x74, 0x45, 0x58, 0x74, 0x6e, 0x6f, 0x74,
    0x65, 0x59, 0x7d, 0xf3, 0x40, 0x00, 0x00, 0x00, 0x08, 0x49, 0x44, 0x41, 0x54, 0x09, 0x08, 0x07,
    0x06, 0x00, 0x55, 0x00, 0x1f, 0xb7, 0xd2, 0x2c, 0x7d, 0x00, 0x00, 0x00, 0x00, 0x49, 0x45, 0x4e,
    0x44, 0xae, 0x42, 0x60, 0x82,
];

const BAD_FILTER_PNG: &[u8] = &[
    0x89, 0x50, 0x4e, 0x47, 0x0d, 0x0a, 0x1a, 0x0a, 0x00, 0x00, 0x00, 0x0d, 0x49, 0x48, 0x44, 0x52,
    0x00, 0x00, 0x00, 0x01, 0x00, 0x00, 0x00, 0x01, 0x08, 0x06, 0x00, 0x00, 0x00, 0x1f, 0x15, 0xc4,
    0x89, 0x00, 0x00, 0x00, 0x06, 0x49, 0x44, 0x41, 0x54, 0x78, 0xda, 0x63, 0xe5, 0xe4, 0x60, 0xe5,
    0xd8, 0xec, 0x82, 0x00, 0x00, 0x00, 0x04, 0x74, 0x45, 0x58, 0x74, 0x6e, 0x6f, 0x74, 0x65, 0x59,
    0x7d, 0xf3, 0x40, 0x00, 0x00, 0x00, 0x07, 0x49, 0x44, 0x41, 0x54, 0x67, 0x03, 0x00, 0x00, 0x6e,
    0x00, 0x24, 0xff, 0x99, 0xd9, 0x1a, 0x00, 0x00, 0x00, 0x00, 0x49, 0x45, 0x4e, 0x44, 0xae, 0x42,
    0x60, 0x82,
];

const DEEP_PNG: &[u8] = &[
    0x89, 0x50, 0x4e, 0x47, 0x0d, 0x0a, 0x1a, 0x0a, 0x00, 0x00, 0x00, 0x0d, 0x49, 0x48, 0x44, 0x52,
    0x00, 0x00, 0x00, 0x01, 0x00, 0x00, 0x00, 0x01, 0x10, 0x06, 0x00, 0x00, 0x00, 0x4f, 0x85, 0x18,
    0xca, 0x00, 0x00, 0x00, 0x06, 0x49, 0x44, 0x41, 0x54, 0x78, 0xda, 0x63, 0xe0, 0xe4, 0x60, 0xe3,
    0x13, 0x2e, 0x69, 0x00, 0x00, 0x00, 0x04, 0x74, 0x45, 0x58, 0x74, 0x6e, 0x6f, 0x74, 0x65, 0x59,
    0x7d, 0xf3, 0x40, 0x00, 0x00, 0x00, 0x07, 0x49, 0x44, 0x41, 0x54, 0x67, 0x03, 0x00, 0x00, 0x55,
    0x00, 0x1f, 0x66, 0xac, 0x3a, 0x4f, 0x00, 0x00, 0x00, 0x00, 0x49, 0x45, 0x4e, 0x44, 0xae, 0x42,
    0x60, 0x82,
];

const INTERLACED_PNG: &[u8] = &[
    0x89, 0x50, 0x4e, 0x47, 0x0d, 0x0a, 0x1a, 0x0a, 0x00, 0x00, 0x00, 0x0d, 0x49, 0x48, 0x44, 0x52,
    0x00, 0x00, 0x00, 0x01, 0x00, 0x00, 0x00, 0x01, 0x08, 0x06, 0x00, 0x00, 0x01, 0x68, 0x12, 0xf4,
    0x1f, 0x00, 0x00, 0x00, 0x06, 0x49, 0x44, 0x41, 0x54, 0x78, 0xda, 0x63, 0xe0, 0xe4, 0x60, 0xe3,
    0x13, 0x2e, 0x69, 0x00, 0x00, 0x00, 0x04, 0x74, 0x45, 0x58, 0x74, 0x6e, 0x6f, 0x74, 0x65, 0x59,
    0x7d, 0xf3, 0x40, 0x00, 0x00, 0x00, 0x07, 0x49, 0x44, 0x41, 0x54, 0x67, 0x03, 0x00, 0x00, 0x55,
    0x00, 0x1f, 0x66, 0xac, 0x3a, 0x4f, 0x00, 0x00, 0x00, 0x00, 0x49, 0x45, 0x4e, 0x44, 0xae, 0x42,
    0x60, 0x82,
];

const BAD_COLOR_PNG: &[u8] = &[
    0x89, 0x50, 0x4e, 0x47, 0x0d, 0x0a, 0x1a, 0x0a, 0x00, 0x00, 0x00, 0x0d, 0x49, 0x48, 0x44, 0x52,
    0x00, 0x00, 0x00, 0x01, 0x00, 0x00, 0x00, 0x01, 0x08, 0x05, 0x00, 0x00, 0x00, 0x0d, 0xa0, 0x6b,
    0x67, 0x00, 0x00, 0x00, 0x06, 0x49, 0x44, 0x41, 0x54, 0x78, 0xda, 0x63, 0xe0, 0xe4, 0x60, 0xe3,
    0x13, 0x2e, 0x69, 0x00, 0x00, 0x00, 0x04, 0x74, 0x45, 0x58, 0x74, 0x6e, 0x6f, 0x74, 0x65, 0x59,
    0x7d, 0xf3, 0x40, 0x00, 0x00, 0x00, 0x07, 0x49, 0x44, 0x41, 0x54, 0x67, 0x03, 0x00, 0x00, 0x55,
    0x00, 0x1f, 0x66, 0xac, 0x3a, 0x4f, 0x00, 0x00, 0x00, 0x00, 0x49, 0x45, 0x4e, 0x44, 0xae, 0x42,
    0x60, 0x82,
];

const DYN_TEXT: &str = "mesh gamma extrude alpha beta redo beta mesh x alpha redo delta alpha beta extrude extrude beta delta beta redo extrude alpha x beta delta x alpha x x extrude alpha delta alpha redo gamma prism extrude gamma redo beta x prism redo gamma beta x x delta mesh beta redo beta x alpha x delta undo redo extrude mesh undo x undo mesh prism delta gamma delta beta x prism redo undo mesh undo prism x beta beta redo extrude gamma mesh gamma undo extrude alpha beta redo x mesh mesh mesh x undo x undo beta beta prism undo beta alpha prism x undo prism extrude mesh alpha undo mesh gamma x beta undo alpha delta prism gamma";

const DYN_Z: &[u8] = &[
    0x78, 0xda, 0x75, 0x51, 0x41, 0x0e, 0xc3, 0x30, 0x08, 0xfb, 0x0a, 0x5f, 0xcb, 0x14, 0xb4, 0x4e,
    0x2a, 0x5b, 0x95, 0xb6, 0x12, 0xcf, 0x5f, 0x87, 0x49, 0x21, 0x9d, 0x7a, 0x49, 0x22, 0x63, 0x6c,
    0x13, 0x84, 0xd7, 0x89, 0x9e, 0x45, 0xa4, 0x10, 0xeb, 0xd6, 0xf6, 0xca, 0x54, 0xe6, 0x65, 0x2a,
    0xf4, 0xe0, 0xad, 0x50, 0xe3, 0xfa, 0xc1, 0x4b, 0x7e, 0x3c, 0xf5, 0x9a, 0xc1, 0x95, 0xe7, 0x03,
    0x4f, 0xe4, 0xde, 0xdf, 0x6f, 0x03, 0xc1, 0x0a, 0xb1, 0xd1, 0x44, 0x33, 0x49, 0x4f, 0x50, 0x2f,
    0xb4, 0x6c, 0x65, 0x2a, 0x08, 0xbc, 0xb4, 0xd7, 0x2a, 0x27, 0x15, 0x58, 0x24, 0x56, 0xaf, 0xa7,
    0x06, 0xc7, 0xd5, 0x05, 0x6d, 0xa6, 0xcb, 0x9c, 0x11, 0x02, 0x9c, 0xfd, 0x7d, 0x54, 0x86, 0xe4,
    0xd6, 0x65, 0xb0, 0xe2, 0x32, 0x00, 0x5e, 0xe8, 0x81, 0x59, 0x9a, 0x7c, 0x88, 0x12, 0x3d, 0xf6,
    0x42, 0xc5, 0x3f, 0xe2, 0xff, 0x9f, 0xa0, 0x25, 0xb1, 0x25, 0x6b, 0xba, 0x5b, 0x95, 0x82, 0x19,
    0x87, 0x0e, 0x49, 0xc3, 0x03, 0xae, 0x01, 0x42, 0xa8, 0x67, 0x49, 0xc1, 0x86, 0xa9, 0xc1, 0x8a,
    0x01, 0x90, 0xc8, 0xb3, 0x1b, 0x9c, 0xf7, 0x05, 0x01, 0xe3, 0x7c, 0x01, 0x01, 0xa5, 0xdd, 0x85,
];

const FIXED_Z: &[u8] = &[
    0x78, 0xda, 0xcb, 0x48, 0xcd, 0xc9, 0xc9, 0x57, 0xc8, 0x40, 0x27, 0x01, 0x68, 0x03, 0x08, 0xb1,
];

const STORED_Z: &[u8] = &[
    0x78, 0x01, 0x01, 0x07, 0x00, 0xf8, 0xff, 0x73, 0x74, 0x6f, 0x72, 0x65, 0x64, 0x21, 0x0b, 0xef,
    0x02, 0xb3,
];

#[test]
fn inflates_stored_fixed_and_dynamic_blocks() {
    assert_eq!(inflate(STORED_Z, 0).unwrap(), b"stored!".to_vec());
    assert_eq!(inflate(FIXED_Z, 0).unwrap(), b"hello hello hello hello".to_vec());
    assert_eq!(inflate(DYN_Z, 16).unwrap(), DYN_TEXT.as_bytes().to_vec());
}

#[test]
fn inflate_rejects_bad_headers_and_truncation() {
    assert!(inflate(&[], 0).is_none());
    assert!(inflate(&[0x78], 0).is_none());
    // Not DEFLATE (method 15).
    assert!(inflate(&[0x7f, 0x01, 0x01, 0x00, 0x00, 0xff, 0xff], 0).is_none());
    // A preset dictionary is not supported.
    assert!(inflate(&[0x78, 0x20, 0x01, 0x00, 0x00, 0xff, 0xff], 0).is_none());
    // A stored block of seven bytes holding one.
    assert!(inflate(&[0x78, 0x01, 0x01, 0x07, 0x00, 0xf8, 0xff, 0x73], 0).is_none());
    // The one's-complement length is not checked.
    assert_eq!(inflate(&[0x78, 0x01, 0x01, 0x01, 0x00, 0x00, 0x00, 0x73], 0).unwrap(), b"s".to_vec());
    // Cut short.
    assert!(inflate(&DYN_Z[..DYN_Z.len() / 2], 0).is_none());
    // Reserved block type.
    assert!(inflate(&[0x78, 0x01, 0x07, 0x00], 0).is_none());
}

#[test]
fn paeth_picks_the_nearest_neighbour() {
    assert_eq!(paeth(10, 20, 10), 20);
    assert_eq!(paeth(20, 10, 10), 20);
    assert_eq!(paeth(10, 10, 20), 10);
    assert_eq!(paeth(0, 0, 0), 0);
    assert_eq!(paeth(100, 50, 200), 50);
}

#[test]
fn decodes_every_filter_of_an_rgba_image() {
    let img = decode(RGBA_PNG).unwrap();
    assert_eq!((img.width, img.height), (3, 5));
    assert_eq!(img.rgba, RGBA_OUT.to_vec());
}

#[test]
fn decodes_gray_palette_gray_alpha_and_rgb() {
    let g = decode(GRAY_PNG).unwrap();
    assert_eq!(g.rgba, vec![10, 10, 10, 255, 200, 200, 200, 255, 30, 30, 30, 255, 40, 40, 40, 255]);
    // Index 3 is past the palette: black; only index 0 has a tRNS entry.
    let p = decode(PAL_PNG).unwrap();
    assert_eq!(p.rgba, vec![255, 0, 0, 128, 0, 255, 0, 255, 0, 0, 0, 255]);
    let ga = decode(GA_PNG).unwrap();
    assert_eq!(ga.rgba, vec![5, 5, 5, 6, 7, 7, 7, 8]);
    let rgb = decode(RGB_PNG).unwrap();
    assert_eq!(rgb.rgba, vec![1, 2, 3, 255, 4, 5, 6, 255]);
    let s = decode(STORED_PNG).unwrap();
    assert_eq!(s.rgba, vec![9, 8, 7, 6]);
}

#[test]
fn rejects_what_it_does_not_support() {
    assert!(decode(&[]).is_none());
    assert!(decode(&RGBA_PNG[..7]).is_none());
    let mut bad_sig = RGBA_PNG.to_vec();
    bad_sig[1] = b'Q';
    assert!(decode(&bad_sig).is_none());
    assert!(decode(BAD_FILTER_PNG).is_none());
    assert!(decode(DEEP_PNG).is_none());
    assert!(decode(INTERLACED_PNG).is_none());
    assert!(decode(BAD_COLOR_PNG).is_none());
    // The signature alone: no header, so no size.
    assert!(decode(&RGBA_PNG[..8]).is_none());
}
