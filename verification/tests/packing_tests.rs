use bevy_opengl::packing::{
    pack_bits_15_15_2, pack_unorm16x2, pack_unorm8x4, u16x4_to_u32, unpack_bits_15_15_2,
    unpack_unorm16x2, unpack_unorm8x4,
};

#[test]
fn joint_indices_keep_low_bytes() {
    assert_eq!(u16x4_to_u32(&[1, 2, 3, 4]), 0x01020304);
    assert_eq!(u16x4_to_u32(&[0x1FF, 0, 0xAB, 0x100]), 0xFF00AB00);
}

#[test]
fn unorm8x4_roundtrip() {
    let packed = pack_unorm8x4(0x12, 0x34, 0x56, 0x78);
    assert_eq!(packed, 0x12345678);
    assert_eq!(unpack_unorm8x4(packed), (0x12, 0x34, 0x56, 0x78));
    assert_eq!(pack_unorm8x4(255, 0, 255, 0), 0xFF00FF00);
    let (a, b, c, d) = unpack_unorm8x4(0xDEADBEEF);
    assert_eq!(pack_unorm8x4(a, b, c, d), 0xDEADBEEF);
}

#[test]
fn unorm16x2_roundtrip() {
    let packed = pack_unorm16x2(0xABCD, 0x0123);
    assert_eq!(packed, 0xABCD0123);
    assert_eq!(unpack_unorm16x2(packed), (0xABCD, 0x0123));
}

#[test]
fn bits_15_15_2_roundtrip() {
    let packed = pack_bits_15_15_2(0x7FFF, 1, 3);
    assert_eq!(packed, (0x7FFF << 17) | (1 << 2) | 3);
    assert_eq!(unpack_bits_15_15_2(packed), (0x7FFF, 1, 3));
    assert_eq!(unpack_bits_15_15_2(pack_bits_15_15_2(12345, 23456, 2)), (12345, 23456, 2));
}
