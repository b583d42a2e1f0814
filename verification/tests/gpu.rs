use prism::viewport::gpu::pack;

#[test]
fn packing() {
    assert_eq!(pack(&[]), vec![0]);
    assert_eq!(pack(&[1, 2, 4, 7, 5]), vec![0x0704_0201, 0x05]);
}
