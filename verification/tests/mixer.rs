use simplydmx::mixer_utils::state::{
    AbstractLayerLight, BlenderValue, BlendingData, BlendingScheme, FixtureMixerOutput, FullMixerBlendingData,
    FullMixerOutput, SnapData, SubmasterData,
};
use simplydmx::plugins::mixer::state::{MixerContext, OpacityGroup};
use simplydmx::plugins::mixer::MixerInterface;
use simplydmx::utils::smallmap::SmallMap;

fn light(values: &[(u32, BlenderValue)]) -> AbstractLayerLight {
    let mut l = SmallMap::new();
    for (k, v) in values {
        l.insert(*k, *v);
    }
    l
}

fn delta(fixtures: Vec<(u128, AbstractLayerLight)>) -> SubmasterData {
    let mut d = SmallMap::new();
    for (k, v) in fixtures {
        d.insert(k, v);
    }
    d
}

fn fixture_values(values: &[(u32, u16)]) -> FixtureMixerOutput {
    let mut l = SmallMap::new();
    for (k, v) in values {
        l.insert(*k, *v);
    }
    l
}

fn mixer_with_layers(ids: &[(u128, &str)]) -> MixerInterface {
    let mut m = MixerInterface::new(MixerContext::new());
    for (id, name) in ids {
        m.create_layer_with_id(*id, name.to_string());
    }
    m
}

#[test]
fn opacity_group_prefers_flash() {
    let g = OpacityGroup { opacity: 100, flash_opacity: None };
    assert_eq!(g.get(), 100);
    let g = OpacityGroup { opacity: 100, flash_opacity: Some(65535) };
    assert_eq!(g.get(), 65535);
    let d = OpacityGroup::default();
    assert_eq!(d, OpacityGroup { opacity: 0, flash_opacity: None });
}

#[test]
fn created_layers_are_listed_in_order() {
    let m = mixer_with_layers(&[(7, "Front wash"), (3, "Back light")]);
    assert_eq!(m.list_submasters(), vec![7u128, 3]);
    let names = m.list_submasters_with_names();
    assert_eq!(names, vec![(7u128, "Front wash".to_string()), (3u128, "Back light".to_string())]);
    let layer = m.get_layer_contents(7).unwrap();
    assert_eq!(layer.name, "Front wash");
    assert_eq!(layer.values.len(), 0);
    assert!(m.get_layer_contents(8).is_none());
}

#[test]
fn create_layer_picks_a_fresh_listed_id() {
    let mut m = MixerInterface::new(MixerContext::new());
    let a = m.create_layer("A".to_string());
    let b = m.create_layer("B".to_string());
    assert_ne!(a, b);
    assert_eq!(m.list_submasters(), vec![a, b]);
    assert_eq!(m.get_layer_contents(b).unwrap().name, "B");
}

#[test]
fn broken_reference_is_labelled() {
    let mut m = mixer_with_layers(&[(1, "One")]);
    m.context.default_context.user_submaster_order.push(99);
    let names = m.list_submasters_with_names();
    assert_eq!(names[1], (99u128, "ERROR: Broken submaster reference".to_string()));
}

#[test]
fn set_layer_contents_merges_and_removes() {
    let mut m = mixer_with_layers(&[(1, "One")]);
    let first = delta(vec![
        (10, light(&[(1, BlenderValue::Static(100)), (2, BlenderValue::Offset(-5))])),
        (11, light(&[(1, BlenderValue::Static(7))])),
    ]);
    assert!(m.set_layer_contents(1, first));
    let second = delta(vec![
        (10, light(&[(1, BlenderValue::Transparent), (3, BlenderValue::Static(9))])),
        (12, light(&[(4, BlenderValue::Transparent)])),
    ]);
    assert!(m.set_layer_contents(1, second));
    let layer = m.get_layer_contents(1).unwrap();
    let f10 = layer.values.get(&10).unwrap();
    assert!(f10.get(&1).is_none());
    assert_eq!(f10.get(&2), Some(&BlenderValue::Offset(-5)));
    assert_eq!(f10.get(&3), Some(&BlenderValue::Static(9)));
    assert_eq!(layer.values.get(&11).unwrap().get(&1), Some(&BlenderValue::Static(7)));
    // A fixture named by the delta stays, even with nothing left in it.
    assert_eq!(layer.values.get(&12).unwrap().len(), 0);
}

#[test]
fn set_layer_contents_on_missing_layer_changes_nothing() {
    let mut m = mixer_with_layers(&[(1, "One")]);
    assert!(!m.set_layer_contents(2, delta(vec![(10, light(&[(1, BlenderValue::Static(1))]))])));
    assert_eq!(m.get_layer_contents(1).unwrap().values.len(), 0);
    assert!(m.get_layer_contents(2).is_none());
}

#[test]
fn layer_opacity_auto_insert_and_remove() {
    let mut m = mixer_with_layers(&[(1, "One"), (2, "Two")]);
    assert_eq!(m.get_layer_opacity(1), None);
    assert!(m.set_layer_opacity(1, 30000, true));
    assert!(m.set_layer_opacity(2, 100, true));
    assert_eq!(m.context.default_context.layer_order, vec![1u128, 2]);
    assert_eq!(m.get_layer_opacity(1), Some(30000));
    // Raising it again does not add it twice.
    assert!(m.set_layer_opacity(1, 40000, true));
    assert_eq!(m.context.default_context.layer_order, vec![1u128, 2]);
    assert!(m.layer_is_visible(1));
    // Setting it to 0 takes it out of the stack.
    assert!(m.set_layer_opacity(1, 0, true));
    assert_eq!(m.context.default_context.layer_order, vec![2u128]);
    assert_eq!(m.get_layer_opacity(1), Some(0));
    assert!(!m.layer_is_visible(1));
    // Without auto insertion the stack is left alone.
    assert!(m.set_layer_opacity(1, 500, false));
    assert_eq!(m.context.default_context.layer_order, vec![2u128]);
    // A missing layer is refused.
    assert!(!m.set_layer_opacity(9, 500, true));
    assert_eq!(m.get_layer_opacity(9), None);
}

#[test]
fn layer_opacity_keeps_flash() {
    let mut m = mixer_with_layers(&[(1, "One")]);
    m.context
        .default_context
        .layer_opacities
        .insert(1, OpacityGroup { opacity: 0, flash_opacity: Some(65535) });
    assert!(m.set_layer_opacity(1, 1000, false));
    let g = *m.context.default_context.layer_opacities.get(&1).unwrap();
    assert_eq!(g, OpacityGroup { opacity: 1000, flash_opacity: Some(65535) });
    assert_eq!(m.get_layer_opacity(1), Some(1000));
}

#[test]
fn delete_layer_removes_every_reference() {
    let mut m = mixer_with_layers(&[(1, "One"), (2, "Two")]);
    m.set_layer_opacity(1, 100, true);
    m.set_layer_opacity(2, 100, true);
    assert!(m.delete_layer(1));
    assert_eq!(m.list_submasters(), vec![2u128]);
    assert_eq!(m.context.default_context.layer_order, vec![2u128]);
    assert_eq!(m.get_layer_opacity(1), None);
    assert!(m.get_layer_contents(1).is_none());
    assert!(!m.delete_layer(1));
}

#[test]
fn rename_reaches_both_contexts() {
    let mut m = mixer_with_layers(&[(1, "One")]);
    assert!(m.enter_blind_mode());
    m.rename_layer(1, "Uno".to_string());
    assert_eq!(m.get_layer_contents(1).unwrap().name, "Uno");
    assert!(m.revert_blind());
    assert_eq!(m.get_layer_contents(1).unwrap().name, "Uno");
    // Renaming a missing layer changes nothing.
    m.rename_layer(5, "Five".to_string());
    assert_eq!(m.list_submasters(), vec![1u128]);
}

#[test]
fn blind_mode_revert_restores() {
    let mut m = mixer_with_layers(&[(1, "One")]);
    m.set_layer_opacity(1, 1000, true);
    assert_eq!(m.get_blind_opacity(), None);
    assert!(!m.set_blind_opacity(5));
    assert!(m.enter_blind_mode());
    assert!(!m.enter_blind_mode());
    assert_eq!(m.get_blind_opacity(), Some(0));
    assert!(m.set_blind_opacity(20000));
    assert_eq!(m.get_blind_opacity(), Some(20000));
    m.create_layer_with_id(2, "Two".to_string());
    m.set_layer_opacity(1, 0, true);
    assert!(m.revert_blind());
    assert_eq!(m.get_blind_opacity(), None);
    assert_eq!(m.list_submasters(), vec![1u128]);
    assert_eq!(m.get_layer_opacity(1), Some(1000));
    assert_eq!(m.context.default_context.layer_order, vec![1u128]);
    assert!(!m.revert_blind());
}

#[test]
fn blind_mode_commit_keeps() {
    let mut m = mixer_with_layers(&[(1, "One")]);
    assert!(m.enter_blind_mode());
    m.create_layer_with_id(2, "Two".to_string());
    assert!(m.commit_blind());
    assert_eq!(m.get_blind_opacity(), None);
    assert_eq!(m.list_submasters(), vec![1u128, 2]);
    assert!(!m.commit_blind());
}

#[test]
fn layers_to_blend_skips_hidden_and_missing() {
    let mut m = mixer_with_layers(&[(1, "One"), (2, "Two"), (3, "Three")]);
    m.set_layer_opacity(1, 500, true);
    m.set_layer_opacity(2, 0, false);
    m.context.default_context.layer_order.push(2);
    m.set_layer_opacity(3, 900, true);
    m.context.default_context.layer_order.push(44);
    m.context
        .default_context
        .layer_opacities
        .insert(44, OpacityGroup { opacity: 100, flash_opacity: None });
    assert_eq!(m.layers_to_blend(), vec![(1u128, 500u16), (3u128, 900u16)]);
}

#[test]
fn blend_stack_draws_layers_in_order() {
    let mut m = mixer_with_layers(&[(1, "Low"), (2, "High")]);
    m.set_layer_contents(1, delta(vec![(10, light(&[(1, BlenderValue::Static(1000))]))]));
    m.set_layer_contents(2, delta(vec![(10, light(&[(1, BlenderValue::Static(3000))]))]));
    m.set_layer_opacity(1, 65535, true);
    m.set_layer_opacity(2, 65535, true);
    let mut base: FullMixerOutput = SmallMap::new();
    base.insert(10, fixture_values(&[(1, 0), (2, 5)]));
    let mut attrs = SmallMap::new();
    let ltp = BlendingData {
        scheme: BlendingScheme::LTP,
        snap: SnapData::NoSnap,
        allow_wrap: false,
        max_value: 65535,
        min_value: 0,
    };
    attrs.insert(1u32, ltp);
    attrs.insert(2u32, ltp);
    let mut blending: FullMixerBlendingData = SmallMap::new();
    blending.insert(10, attrs);
    let out = m.blend_stack(&base, &blending);
    assert_eq!(out.get(&10).unwrap().get(&1), Some(&3000));
    assert_eq!(out.get(&10).unwrap().get(&2), Some(&5));
    // With the top layer at half opacity, it takes the value halfway.
    m.set_layer_opacity(2, 32768, true);
    let out = m.blend_stack(&base, &blending);
    assert_eq!(out.get(&10).unwrap().get(&1), Some(&2000));
}

#[test]
fn cleanup_drops_unpatched_values() {
    let mut m = mixer_with_layers(&[(1, "One")]);
    m.set_layer_contents(
        1,
        delta(vec![
            (10, light(&[(1, BlenderValue::Static(1)), (2, BlenderValue::Static(2))])),
            (11, light(&[(1, BlenderValue::Static(3))])),
        ]),
    );
    m.enter_blind_mode();
    let mut base: FullMixerOutput = SmallMap::new();
    base.insert(10, fixture_values(&[(1, 0)]));
    let patch = (base, SmallMap::new());
    m.context.cleanup(&patch);
    let layer = m.get_layer_contents(1).unwrap();
    assert!(layer.values.get(&11).is_none());
    let f10 = layer.values.get(&10).unwrap();
    assert_eq!(f10.get(&1), Some(&BlenderValue::Static(1)));
    assert!(f10.get(&2).is_none());
    let frozen = m.context.frozen_context.as_ref().unwrap();
    assert!(frozen.user_submasters.get(&1).unwrap().values.get(&11).is_none());
}

#[test]
fn mixer_context_from_file_keeps_state() {
    let mut ctx = MixerContext::new();
    ctx.blind_opacity = 7;
    let loaded = MixerContext::from_file(ctx);
    assert_eq!(loaded.blind_opacity, 7);
    assert!(loaded.frozen_context.is_none());
}
