use visibuf::material::{DebugMaterial, DebugSettings, DebugType, DEBUG_TYPE_LEN, FULL_MIX_BITS};
use visibuf::view_range::DebugValueRange;
use visibuf::visibility_debug;

#[test]
fn material_debug_type_round_trips() {
    let all = [
        DebugType::Disabled,
        DebugType::ColorfulIds,
        DebugType::InstanceId,
        DebugType::TriangleId,
        DebugType::Barycentrics,
    ];
    assert_eq!(all.len() as u32, DEBUG_TYPE_LEN);
    for t in all {
        let wire = t.write();
        assert!(wire < DEBUG_TYPE_LEN);
        assert_eq!(DebugType::read(wire), t);
    }
    // Unknown wire values fall back to the default view.
    assert_eq!(DebugType::read(5), DebugType::ColorfulIds);
    assert_eq!(DebugType::read(u32::MAX), DebugType::ColorfulIds);
    assert_eq!(DebugType::default(), DebugType::ColorfulIds);
}

#[test]
fn visibility_debug_type_round_trips() {
    let all = [
        visibility_debug::DebugType::Disabled,
        visibility_debug::DebugType::ColorfulIds,
        visibility_debug::DebugType::InstanceId,
        visibility_debug::DebugType::TriangleId,
    ];
    assert_eq!(all.len() as u32, visibility_debug::VISI_DEBUG_TYPE_LEN);
    for t in all {
        assert_eq!(visibility_debug::DebugType::read(t.write()), t);
    }
    assert_eq!(
        visibility_debug::DebugType::read(4),
        visibility_debug::DebugType::ColorfulIds,
    );
    assert_eq!(visibility_debug::DEBUG_VISI_WG_SIZE, 8);
}

#[test]
fn debug_settings_defaults() {
    let s = DebugSettings::default();
    assert_eq!(s.debug_type, DebugType::ColorfulIds);
    assert_eq!(s.debug_mix_bits, FULL_MIX_BITS);
    assert_eq!(f32::from_bits(s.debug_mix_bits), 1.0);
    assert_eq!(s.view_range, DebugValueRange::default());
    let r = DebugValueRange::default();
    assert_eq!(r.min, 0);
    assert_eq!(r.max, 32);
    assert!(r.wrap);
    let m = DebugMaterial::default();
    assert_eq!(m._dummy, 0);
}
