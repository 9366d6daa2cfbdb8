//! The state the mixer blends from: layers, their opacities and blind mode.
use vstd::prelude::*;

use crate::mixer_utils::state::{FullMixerBlendingData, FullMixerOutput, output_view};
use crate::mixer_utils::static_layer::{LayerView, StaticLayer, cleaned};
use crate::utils::id_list::copy_ids;
use crate::utils::smallmap::{SmallMap, lemma_aligned_keys, unique_keys};

verus! {

/// How opaque a layer is drawn.
#[derive(Debug, Clone, Copy, PartialEq, Eq, Structural)]
pub struct OpacityGroup {
    /// The opacity set for the layer
    pub opacity: u16,
    /// While set, the opacity used in place of `opacity`
    pub flash_opacity: Option<u16>,
}

impl OpacityGroup {
    /// The opacity in effect: the flash opacity while one is set.
    pub open spec fn effective(self) -> u16 {
        match self.flash_opacity {
            Some(f) => f,
            None => self.opacity,
        }
    }

    /// The opacity in effect: the flash opacity while one is set.
    pub fn get(&self) -> (r: u16)
        ensures
            r == self.effective(),
    {
        match self.flash_opacity {
            Some(f) => f,
            None => self.opacity,
        }
    }
}

impl Default for OpacityGroup {
    fn default() -> (r: Self)
        ensures
            r == (OpacityGroup { opacity: 0, flash_opacity: None }),
    {
        OpacityGroup { opacity: 0, flash_opacity: None }
    }
}

/// One mixer instance: the layers in the stack and the submasters they draw.
///
/// Two instances are used for blind mode.
pub struct MixingContext {
    /// The layers in the stack, bottom first
    pub layer_order: Vec<u128>,
    /// The opacity of each layer
    pub layer_opacities: SmallMap<u128, OpacityGroup>,
    /// The submasters, in the order they are listed
    pub user_submaster_order: Vec<u128>,
    /// The submasters
    pub user_submasters: SmallMap<u128, StaticLayer>,
}

/// What a mixing context holds.
#[verifier::ext_equal]
pub struct MixingView {
    pub layer_order: Seq<u128>,
    pub layer_opacities: Map<u128, OpacityGroup>,
    pub user_submaster_order: Seq<u128>,
    pub user_submasters: Map<u128, LayerView>,
}

/// What each submaster of `m` holds.
pub open spec fn layers_view(m: SmallMap<u128, StaticLayer>) -> Map<u128, LayerView> {
    m@.map_values(|l: StaticLayer| l@)
}

impl View for MixingContext {
    type V = MixingView;

    open spec fn view(&self) -> MixingView {
        MixingView {
            layer_order: self.layer_order@,
            layer_opacities: self.layer_opacities@,
            user_submaster_order: self.user_submaster_order@,
            user_submasters: layers_view(self.user_submasters),
        }
    }
}

/// A mixing context without layers or submasters.
pub open spec fn empty_mixing_view() -> MixingView {
    MixingView {
        layer_order: Seq::empty(),
        layer_opacities: Map::empty(),
        user_submaster_order: Seq::empty(),
        user_submasters: Map::empty(),
    }
}

/// A layer without the fixtures and attributes that `base` no longer has.
pub open spec fn cleaned_layer(l: LayerView, base: Map<u128, Map<u32, u16>>) -> LayerView {
    LayerView { name: l.name, values: cleaned(l.values, base) }
}

/// A mixing context whose submasters have been cleaned against `base`.
pub open spec fn cleaned_context(c: MixingView, base: Map<u128, Map<u32, u16>>) -> MixingView {
    MixingView {
        layer_order: c.layer_order,
        layer_opacities: c.layer_opacities,
        user_submaster_order: c.user_submaster_order,
        user_submasters: c.user_submasters.map_values(|l: LayerView| cleaned_layer(l, base)),
    }
}

impl Default for MixingContext {
    fn default() -> (r: Self)
        ensures
            r@ == empty_mixing_view(),
    {
        let r = MixingContext {
            layer_order: Vec::new(),
            layer_opacities: SmallMap::new(),
            user_submaster_order: Vec::new(),
            user_submasters: SmallMap::new(),
        };
        assert(layers_view(r.user_submasters) =~= Map::<u128, LayerView>::empty());
        r
    }
}

/// A copy of a set of submasters, in the same order.
fn copy_layers(m: &SmallMap<u128, StaticLayer>) -> (r: SmallMap<u128, StaticLayer>)
    ensures
        layers_view(r) == layers_view(*m),
{
    proof {
        use_type_invariant(m);
    }
    let mut r: SmallMap<u128, StaticLayer> = SmallMap::new();
    let mut i: usize = 0;
    while i < m.len()
        invariant
            i <= m.entries().len(),
            unique_keys(m.entries()),
            r.entries().len() == i,
            forall|a: int|
                0 <= a < i ==> #[trigger] r.entries()[a].0 == m.entries()[a].0
                    && r.entries()[a].1@ == m.entries()[a].1@,
        decreases m.entries().len() - i,
    {
        let k = m.key_at(i);
        let layer = m.value_at(i).duplicate();
        assert(!r@.contains_key(k)) by {
            if r@.contains_key(k) {
                let a = r.index_of(k);
                assert(m.entries()[a].0 == k);
            }
        }
        r.insert(k, layer);
        i = i + 1;
    }
    proof {
        lemma_aligned_keys(*m, r);
        assert(layers_view(r) =~= layers_view(*m));
    }
    r
}

/// The submasters of `m`, each cleaned against the patch.
fn cleanup_layers(m: &SmallMap<u128, StaticLayer>, patcher_data: &(FullMixerOutput, FullMixerBlendingData)) -> (r:
    SmallMap<u128, StaticLayer>)
    ensures
        layers_view(r) == layers_view(*m).map_values(
            |l: LayerView| cleaned_layer(l, output_view(patcher_data.0)),
        ),
{
    proof {
        use_type_invariant(m);
    }
    let ghost base = output_view(patcher_data.0);
    let mut r: SmallMap<u128, StaticLayer> = SmallMap::new();
    let mut i: usize = 0;
    while i < m.len()
        invariant
            i <= m.entries().len(),
            unique_keys(m.entries()),
            base == output_view(patcher_data.0),
            r.entries().len() == i,
            forall|a: int|
                0 <= a < i ==> #[trigger] r.entries()[a].0 == m.entries()[a].0
                    && r.entries()[a].1@ == cleaned_layer(m.entries()[a].1@, base),
        decreases m.entries().len() - i,
    {
        let k = m.key_at(i);
        let mut layer = m.value_at(i).duplicate();
        layer.cleanup(patcher_data);
        assert(!r@.contains_key(k)) by {
            if r@.contains_key(k) {
                let a = r.index_of(k);
                assert(m.entries()[a].0 == k);
            }
        }
        r.insert(k, layer);
        i = i + 1;
    }
    proof {
        lemma_aligned_keys(*m, r);
        assert(layers_view(r) =~= layers_view(*m).map_values(
            |l: LayerView| cleaned_layer(l, base),
        ));
    }
    r
}

impl MixingContext {
    /// A copy of the context.
    pub fn duplicate(&self) -> (r: Self)
        ensures
            r@ == self@,
    {
        MixingContext {
            layer_order: copy_ids(&self.layer_order),
            layer_opacities: self.layer_opacities.copied(),
            user_submaster_order: copy_ids(&self.user_submaster_order),
            user_submasters: copy_layers(&self.user_submasters),
        }
    }

    /// Drops from every submaster the fixtures and attributes that the patch
    /// no longer has.
    pub fn cleanup(&mut self, patcher_data: &(FullMixerOutput, FullMixerBlendingData))
        ensures
            final(self)@ == cleaned_context(old(self)@, output_view(patcher_data.0)),
    {
        let layers = cleanup_layers(&self.user_submasters, patcher_data);
        self.user_submasters = layers;
    }
}

/// The data used by the mixer to blend submasters and produce a result.
pub struct MixerContext {
    /// The default context, where changes are made
    pub default_context: MixingContext,
    /// A frozen copy of the default context, used in blind mode
    pub frozen_context: Option<MixingContext>,
    /// The opacity of `default_context` while `frozen_context` is set
    pub blind_opacity: u16,
}

/// What a mixer holds.
#[verifier::ext_equal]
pub struct MixerView {
    pub default_context: MixingView,
    pub frozen_context: Option<MixingView>,
    pub blind_opacity: u16,
}

/// What an optional mixing context holds.
pub open spec fn frozen_view(c: Option<MixingContext>) -> Option<MixingView> {
    match c {
        Some(f) => Some(f@),
        None => None,
    }
}

impl View for MixerContext {
    type V = MixerView;

    open spec fn view(&self) -> MixerView {
        MixerView {
            default_context: self.default_context@,
            frozen_context: frozen_view(self.frozen_context),
            blind_opacity: self.blind_opacity,
        }
    }
}

/// A mixer with nothing in it, outside blind mode.
pub open spec fn empty_mixer_view() -> MixerView {
    MixerView { default_context: empty_mixing_view(), frozen_context: None, blind_opacity: 0 }
}

impl Default for MixerContext {
    fn default() -> (r: Self)
        ensures
            r@ == empty_mixer_view(),
    {
        MixerContext { default_context: MixingContext::default(), frozen_context: None, blind_opacity: 0 }
    }
}

impl MixerContext {
    /// A mixer with nothing in it, outside blind mode.
    pub fn new() -> (r: Self)
        ensures
            r@ == empty_mixer_view(),
    {
        MixerContext::default()
    }

    /// The mixer as it was loaded from a show file.
    pub fn from_file(mixer_context: MixerContext) -> (r: MixerContext)
        ensures
            r == mixer_context,
    {
        mixer_context
    }

    /// Drops from every submaster, in both contexts, the fixtures and
    /// attributes that the patch no longer has.
    pub fn cleanup(&mut self, patcher_data: &(FullMixerOutput, FullMixerBlendingData))
        ensures
            final(self)@ == (MixerView {
                default_context: cleaned_context(old(self)@.default_context, output_view(patcher_data.0)),
                frozen_context: match old(self)@.frozen_context {
                    Some(f) => Some(cleaned_context(f, output_view(patcher_data.0))),
                    None => None,
                },
                blind_opacity: old(self)@.blind_opacity,
            }),
    {
        self.default_context.cleanup(patcher_data);
        match self.frozen_context.take() {
            Some(mut frozen) => {
                frozen.cleanup(patcher_data);
                self.frozen_context = Some(frozen);
            },
            None => {},
        }
    }
}

} // verus!
