use visibuf::id::{
    GeometryId, InstanceId, PackedGeometryId, TriangleId, INSTANCE_BITS, INSTANCE_MASK,
    TRIANGLE_BITS, TRIANGLE_MASK,
};

#[test]
fn pack_unpack_round_trip() {
    let cases: [(u32, u32); 6] =
        [(0, 0), (1, 2), (0xFFF, 0), (0, 0xF_FFFF), (0x7FF, 0x12345), (0xFFF, 0xF_FFFE)];
    for (instance, triangle) in cases {
        let i = InstanceId::new(instance).unwrap();
        let t = TriangleId::new(triangle).unwrap();
        let packed = PackedGeometryId::new(i, t);
        let geo = packed.unpack();
        assert_eq!(geo.instance_id.to_u32(), instance);
        assert_eq!(geo.triangle_id.to_u32(), triangle);
        assert!(!geo.is_clear);
    }
}

#[test]
fn pack_of_both_maxima_is_the_sentinel() {
    // The one pair whose packed form collides with the reserved clear
    // value: both fields all ones.
    let i = InstanceId::new(INSTANCE_MASK).unwrap();
    let t = TriangleId::new(TRIANGLE_MASK).unwrap();
    let packed = PackedGeometryId::new(i, t);
    assert_eq!(packed.to_u32(), u32::MAX);
    assert!(packed.unpack().is_clear);
}

#[test]
fn clear_sentinel_unpacks_as_clear() {
    let clear = PackedGeometryId::clear();
    assert_eq!(clear.to_u32(), u32::MAX);
    let geo = clear.unpack();
    assert!(geo.is_clear);
    assert!(clear.is_clear());
    assert!(!PackedGeometryId::from_u32(0).is_clear());
}

#[test]
fn bit_layout_tiles_the_word() {
    assert_eq!(TRIANGLE_BITS + INSTANCE_BITS, 32);
    assert_eq!(TRIANGLE_MASK, (1u32 << TRIANGLE_BITS) - 1);
    assert_eq!(INSTANCE_MASK, (1u32 << INSTANCE_BITS) - 1);
    assert_eq!(TRIANGLE_MASK | (INSTANCE_MASK << TRIANGLE_BITS), u32::MAX);
    assert_eq!(TRIANGLE_MASK & (INSTANCE_MASK << TRIANGLE_BITS), 0);
}

#[test]
fn packed_word_layout() {
    let i = InstanceId::new(0xABC).unwrap();
    let t = TriangleId::new(0x1_2345).unwrap();
    let packed = GeometryId { instance_id: i, triangle_id: t, is_clear: false }.pack();
    assert_eq!(packed.to_u32(), (0xABCu32 << 20) | 0x1_2345);
}

#[test]
fn instance_id_range_error_not_wrapping() {
    // One past the maximum must be a range error, never a silently
    // truncated value.
    assert!(InstanceId::new(1 << INSTANCE_BITS).is_err());
    assert!(InstanceId::new(u32::MAX).is_err());
    let max = InstanceId::new(INSTANCE_MASK).unwrap();
    assert_eq!(max.to_u32(), INSTANCE_MASK);
}

#[test]
fn triangle_id_range_error_not_wrapping() {
    assert!(TriangleId::new(1 << TRIANGLE_BITS).is_err());
    assert!(TriangleId::new(u32::MAX).is_err());
    let max = TriangleId::new(TRIANGLE_MASK).unwrap();
    assert_eq!(max.to_u32(), TRIANGLE_MASK);
    assert_eq!(max.to_usize(), TRIANGLE_MASK as usize);
}

#[test]
fn unpack_then_repack_is_identity() {
    for word in [0u32, 0xDEAD_BEEF, 0x1234_5678, u32::MAX, 1, 0x8000_0000] {
        let geo = visibuf::id::PackedGeometryId::from_u32(word).unpack();
        let back = visibuf::id::PackedGeometryId::new(geo.instance_id, geo.triangle_id);
        assert_eq!(back.to_u32(), word);
    }
}

#[test]
fn unchecked_construction_from_gpu_indices() {
    let i = InstanceId::new_unchecked(7);
    let t = TriangleId::new_unchecked(9);
    assert_eq!(i.to_u32(), 7);
    assert_eq!(i.to_usize(), 7);
    assert_eq!(t.to_u32(), 9);
    let packed = PackedGeometryId::new(i, t);
    assert_eq!(packed.to_u32(), (7u32 << 20) | 9);
}
