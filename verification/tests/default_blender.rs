use simplydmx::mixer_utils::default_blender::{blend_fixture, blend_layer, blend_ltp, opacity_modifier};
use simplydmx::mixer_utils::state::{
    AbstractLayerLight, BlenderValue, BlendingData, BlendingScheme, FixtureMixerOutput, FullMixerBlendingData,
    FullMixerOutput, SnapData, SubmasterData,
};
use simplydmx::utils::smallmap::SmallMap;

fn data(scheme: BlendingScheme, snap: SnapData) -> BlendingData {
    BlendingData { scheme, snap, allow_wrap: false, max_value: 65535, min_value: 0 }
}

/// The LTP fade as a floating point computation.
fn ltp_f64(current: u16, new: u16, opacity: u16) -> u16 {
    let start = f64::from(current);
    let end = f64::from(new);
    let faded = (end - start) * (f64::from(opacity) / f64::from(u16::MAX)) + start;
    faded.clamp(0f64, 65535f64).round() as u16
}

fn faded_f64(value: u16, opacity: u16) -> u16 {
    let faded = f64::from(value) * (f64::from(opacity) / f64::from(u16::MAX));
    faded.clamp(0f64, 65535f64).round() as u16
}

fn offset_f64(current: u16, offset: i32, opacity: u16) -> u16 {
    let faded = f64::from(offset) * (f64::from(opacity) / f64::from(u16::MAX));
    (f64::from(current) + faded).clamp(0f64, 65535f64).round() as u16
}

fn one_attribute(current: u16, bd: BlendingData, value: BlenderValue, opacity: u16) -> u16 {
    let mut fixture: FixtureMixerOutput = SmallMap::new();
    fixture.insert(1, current);
    let mut attrs = SmallMap::new();
    attrs.insert(1u32, bd);
    let mut blending: FullMixerBlendingData = SmallMap::new();
    blending.insert(5, attrs);
    let mut sub: AbstractLayerLight = SmallMap::new();
    sub.insert(1, value);
    blend_fixture(5, &mut fixture, &blending, opacity, &sub);
    *fixture.get(&1).unwrap()
}

#[test]
fn ltp_exact_values() {
    assert_eq!(blend_ltp(0, 65535, 32768), 32768);
    assert_eq!(blend_ltp(0, 65535, 0), 0);
    assert_eq!(blend_ltp(100, 5, 65535), 5);
    assert_eq!(blend_ltp(1000, 3000, 32768), 2000);
    assert_eq!(blend_ltp(5000, 11000, 49000), 9486);
}

#[test]
fn ltp_matches_floating_point_fade() {
    let samples: [u16; 9] = [0, 1, 127, 255, 1000, 32767, 32768, 65534, 65535];
    for &a in samples.iter() {
        for &b in samples.iter() {
            for o in (0u32..=65535).step_by(257) {
                let o = o as u16;
                assert_eq!(blend_ltp(a, b, o), ltp_f64(a, b, o), "{} {} {}", a, b, o);
            }
        }
    }
}

#[test]
fn htp_and_offset_match_floating_point_fade() {
    let samples: [u16; 7] = [0, 1, 255, 1000, 32768, 65534, 65535];
    let offsets: [i32; 7] = [-70000, -65535, -1, 0, 1, 300, 70000];
    for o in (0u32..=65535).step_by(1001) {
        let o = o as u16;
        for &v in samples.iter() {
            for &c in samples.iter() {
                let htp = one_attribute(c, data(BlendingScheme::HTP, SnapData::NoSnap), BlenderValue::Static(v), o);
                let faded = faded_f64(v, o);
                assert_eq!(htp, if faded > c { faded } else { c });
            }
            for &off in offsets.iter() {
                let r = one_attribute(v, data(BlendingScheme::LTP, SnapData::NoSnap), BlenderValue::Offset(off), o);
                assert_eq!(r, offset_f64(v, off, o));
            }
        }
    }
}

#[test]
fn snapping_opacity() {
    let bd = data(BlendingScheme::HTP, SnapData::SnapAt(30000));
    assert_eq!(opacity_modifier(30000, &bd), 0);
    assert_eq!(opacity_modifier(30001, &bd), 65535);
    assert_eq!(opacity_modifier(12, &data(BlendingScheme::HTP, SnapData::NoSnap)), 12);
    // Snapping values jump past the threshold, under HTP and LTP alike.
    assert_eq!(one_attribute(10, bd, BlenderValue::Static(500), 20000), 10);
    assert_eq!(one_attribute(10, bd, BlenderValue::Static(500), 40000), 500);
    let ltp = data(BlendingScheme::LTP, SnapData::SnapAt(30000));
    assert_eq!(one_attribute(7, ltp, BlenderValue::Static(65535), 20000), 7);
    assert_eq!(one_attribute(7, ltp, BlenderValue::Static(65535), 30000), 7);
    assert_eq!(one_attribute(7, ltp, BlenderValue::Static(1234), 30001), 1234);
    assert_eq!(one_attribute(9000, ltp, BlenderValue::Static(3), 65535), 3);
}

#[test]
fn transparent_and_missing_values_stay() {
    let bd = data(BlendingScheme::LTP, SnapData::NoSnap);
    assert_eq!(one_attribute(77, bd, BlenderValue::Transparent, 65535), 77);
    let mut fixture: FixtureMixerOutput = SmallMap::new();
    fixture.insert(1, 5);
    fixture.insert(2, 6);
    let mut sub: AbstractLayerLight = SmallMap::new();
    sub.insert(2, BlenderValue::Static(600));
    sub.insert(3, BlenderValue::Static(700));
    // Without blending data for the fixture nothing changes.
    let empty: FullMixerBlendingData = SmallMap::new();
    blend_fixture(9, &mut fixture, &empty, 65535, &sub);
    assert_eq!(fixture.get(&2), Some(&6));
    let mut attrs = SmallMap::new();
    attrs.insert(1u32, bd);
    attrs.insert(2u32, bd);
    attrs.insert(3u32, bd);
    let mut blending: FullMixerBlendingData = SmallMap::new();
    blending.insert(9, attrs);
    blend_fixture(9, &mut fixture, &blending, 65535, &sub);
    assert_eq!(fixture.get(&1), Some(&5));
    assert_eq!(fixture.get(&2), Some(&600));
    assert!(fixture.get(&3).is_none());
}

#[test]
fn blend_layer_touches_only_submaster_fixtures() {
    let bd = data(BlendingScheme::HTP, SnapData::NoSnap);
    let mut layer: FullMixerOutput = SmallMap::new();
    for f in [1u128, 2u128] {
        let mut fixture: FixtureMixerOutput = SmallMap::new();
        fixture.insert(1, 100);
        layer.insert(f, fixture);
    }
    let mut blending: FullMixerBlendingData = SmallMap::new();
    for f in [1u128, 2u128] {
        let mut attrs = SmallMap::new();
        attrs.insert(1u32, bd);
        blending.insert(f, attrs);
    }
    let mut light: AbstractLayerLight = SmallMap::new();
    light.insert(1, BlenderValue::Static(1000));
    let mut sub: SubmasterData = SmallMap::new();
    sub.insert(2, light);
    blend_layer(&mut layer, &blending, 65535, &sub);
    assert_eq!(layer.get(&1).unwrap().get(&1), Some(&100));
    assert_eq!(layer.get(&2).unwrap().get(&1), Some(&1000));
}
