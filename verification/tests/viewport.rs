use prism::viewport::gpu::{element_flag, pack, wanted_kind, FLAG_ACTIVE, FLAG_HIDDEN, FLAG_SELECTED};
use prism::viewport::request::{Nav, Overlays, PickMode, PickPurpose, Shading};

#[test]
fn every_byte_reads_back_from_its_word() {
    let flags: Vec<u8> = (0..23u8).map(|i| i.wrapping_mul(37)).collect();
    let words = pack(&flags);
    assert_eq!(words.len(), 6);
    for (i, f) in flags.iter().enumerate() {
        assert_eq!((words[i / 4] >> ((i % 4) * 8)) & 0xff, *f as u32);
    }
    assert_eq!(words[5] >> 24, 0, "past the end reads as zero");
    assert_eq!(pack(&[0xff; 4]), vec![0xffff_ffff]);
}

#[test]
fn element_flags_and_pick_kinds() {
    assert_eq!(element_flag(false, false, false), 0);
    assert_eq!(element_flag(true, false, false), FLAG_SELECTED);
    assert_eq!(element_flag(true, true, true), FLAG_SELECTED | FLAG_ACTIVE | FLAG_HIDDEN);
    assert_eq!(element_flag(false, true, false), 4);
    assert_eq!(wanted_kind(PickMode::Object), 0);
    assert_eq!(wanted_kind(PickMode::Face), 1);
    assert_eq!(wanted_kind(PickMode::Edge), 2);
    assert_eq!(wanted_kind(PickMode::Vertex), 3);
}

#[test]
fn request_defaults() {
    assert_eq!(Shading::default(), Shading::Solid);
    assert_eq!(Overlays::default(), Overlays { grid: true, wire: false, verts: true });
    assert_eq!(Nav::default(), Nav::Idle);
    assert_eq!(PickPurpose::default(), PickPurpose::Select);
}
