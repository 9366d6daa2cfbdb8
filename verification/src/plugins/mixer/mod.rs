//! The mixer: layers of submasters blended over the patch's defaults, with a
//! blind mode for preparing changes unseen.
pub mod laws;
pub mod state;

use vstd::prelude::*;

use crate::mixer_utils::default_blender::blended_layer;
use crate::mixer_utils::state::{
    AbstractLayerLight, BlenderValue, BlendingData, FixtureMixerOutput, FullMixerBlendingData, FullMixerOutput,
    SubmasterData, blending_view, output_view, submaster_view,
};
use crate::mixer_utils::static_layer::{LayerView, StaticLayer};
use crate::utils::id_list::{contains_id, copy_ids, other_than, without_id};
use crate::utils::random_id::{is_random_id, new_random_id};
use crate::utils::smallmap::{
    SmallMap, lemma_aligned_keys, lemma_prefix_view, lemma_prefix_view_ends, prefix_view, unique_keys,
};
use crate::utils::saved::SavedData;
use self::state::{MixerContext, MixerView, MixingContext, MixingView, OpacityGroup, empty_mixer_view};

verus! {

/// An error that could occur while initializing the mixer plugin.
#[derive(Debug, Clone, Copy, PartialEq, Eq, Structural)]
pub enum MixerInitializationError {
    /// The saved mixer data could not be read
    UnrecognizedData,
}

impl MixerInitializationError {
    /// The message shown for the error.
    pub fn message(&self) -> (r: String)
        ensures
            r@ == "An error occurred while importing mixer data."@,
    {
        "An error occurred while importing mixer data.".to_owned()
    }
}

/// The mixer's state at start-up: unreadable data is an error; without saved
/// data the mixer starts empty, else from what was saved.
pub fn load_mixer(saved: SavedData<MixerContext>) -> (r: Result<MixerContext, MixerInitializationError>)
    ensures
        match saved {
            SavedData::Unreadable => r == Err::<MixerContext, MixerInitializationError>(
                MixerInitializationError::UnrecognizedData,
            ),
            SavedData::NothingSaved => r matches Ok(c) && c@ == empty_mixer_view(),
            SavedData::Saved(data) => r == Ok::<MixerContext, MixerInitializationError>(data),
        },
{
    match saved {
        SavedData::Unreadable => Err(MixerInitializationError::UnrecognizedData),
        SavedData::NothingSaved => Ok(MixerContext::new()),
        SavedData::Saved(data) => Ok(MixerContext::from_file(data)),
    }
}

/// The part of a layer opacity controller link that is saved.
#[derive(Debug, Clone, Copy, PartialEq, Eq, Structural)]
pub struct LayerOpacityLink {
    /// The submaster whose opacity the control sets
    pub submaster: u128,
}

/// The mixer with blind mode entered: the default context is frozen as it
/// is, and further changes are drawn at opacity 0.
pub open spec fn entered_blind(m: MixerView) -> MixerView {
    if m.frozen_context is None {
        MixerView {
            default_context: m.default_context,
            frozen_context: Some(m.default_context),
            blind_opacity: 0,
        }
    } else {
        m
    }
}

/// The mixer with the blind opacity set, in blind mode.
pub open spec fn with_blind_opacity(m: MixerView, opacity: u16) -> MixerView {
    if m.frozen_context is Some {
        MixerView {
            default_context: m.default_context,
            frozen_context: m.frozen_context,
            blind_opacity: opacity,
        }
    } else {
        m
    }
}

/// The mixer with the changes made in blind mode thrown away.
pub open spec fn reverted(m: MixerView) -> MixerView {
    match m.frozen_context {
        Some(f) => MixerView { default_context: f, frozen_context: None, blind_opacity: 0 },
        None => m,
    }
}

/// The mixer with the changes made in blind mode kept.
pub open spec fn committed(m: MixerView) -> MixerView {
    if m.frozen_context is Some {
        MixerView { default_context: m.default_context, frozen_context: None, blind_opacity: 0 }
    } else {
        m
    }
}

/// The mixer with its default context replaced by `c`.
pub open spec fn with_default(m: MixerView, c: MixingView) -> MixerView {
    MixerView { default_context: c, frozen_context: m.frozen_context, blind_opacity: m.blind_opacity }
}

/// The context with an empty submaster named `name` stored under `id`, listed
/// last.
pub open spec fn with_new_layer(c: MixingView, id: u128, name: Seq<char>) -> MixingView {
    MixingView {
        layer_order: c.layer_order,
        layer_opacities: c.layer_opacities,
        user_submaster_order: c.user_submaster_order.push(id),
        user_submasters: c.user_submasters.insert(id, LayerView { name, values: Map::empty() }),
    }
}

/// The context with submaster `id`, if it has one, renamed to `name`.
pub open spec fn renamed(c: MixingView, id: u128, name: Seq<char>) -> MixingView {
    if c.user_submasters.contains_key(id) {
        MixingView {
            layer_order: c.layer_order,
            layer_opacities: c.layer_opacities,
            user_submaster_order: c.user_submaster_order,
            user_submasters: c.user_submasters.insert(
                id,
                LayerView { name, values: c.user_submasters[id].values },
            ),
        }
    } else {
        c
    }
}

/// A light after applying `delta` to it: a transparent value removes the
/// attribute, any other value replaces it.
pub open spec fn merge_light(light: Map<u32, BlenderValue>, delta: Map<u32, BlenderValue>) -> Map<
    u32,
    BlenderValue,
> {
    Map::new(
        |a: u32|
            if delta.contains_key(a) {
                !(delta[a] is Transparent)
            } else {
                light.contains_key(a)
            },
        |a: u32|
            if delta.contains_key(a) {
                delta[a]
            } else {
                light[a]
            },
    )
}

/// Submaster values after applying `delta` to them, fixture by fixture. A
/// fixture named in the delta is kept, even if no attribute is left to it.
pub open spec fn merge_values(
    values: Map<u128, Map<u32, BlenderValue>>,
    delta: Map<u128, Map<u32, BlenderValue>>,
) -> Map<u128, Map<u32, BlenderValue>> {
    Map::new(
        |f: u128| values.contains_key(f) || delta.contains_key(f),
        |f: u128|
            if delta.contains_key(f) {
                merge_light(
                    if values.contains_key(f) {
                        values[f]
                    } else {
                        Map::empty()
                    },
                    delta[f],
                )
            } else {
                values[f]
            },
    )
}

/// The context with `delta` applied to submaster `id`, if it has one.
pub open spec fn with_contents(
    c: MixingView,
    id: u128,
    delta: Map<u128, Map<u32, BlenderValue>>,
) -> MixingView {
    if c.user_submasters.contains_key(id) {
        MixingView {
            layer_order: c.layer_order,
            layer_opacities: c.layer_opacities,
            user_submaster_order: c.user_submaster_order,
            user_submasters: c.user_submasters.insert(
                id,
                LayerView {
                    name: c.user_submasters[id].name,
                    values: merge_values(c.user_submasters[id].values, delta),
                },
            ),
        }
    } else {
        c
    }
}

/// The stack after setting a layer's opacity with automatic insertion: a
/// visible layer missing from the stack goes on top, and a layer set to 0
/// leaves it.
pub open spec fn stack_after_opacity(order: Seq<u128>, id: u128, opacity: u16) -> Seq<u128> {
    if opacity > 0 && !order.contains(id) {
        order.push(id)
    } else if opacity == 0 && order.contains(id) {
        order.filter(other_than(id))
    } else {
        order
    }
}

/// The context with the opacity of submaster `id`, if it has one, set to
/// `opacity`. A flash opacity already set stays.
pub open spec fn with_opacity(c: MixingView, id: u128, opacity: u16, auto_insert: bool) -> MixingView {
    if c.user_submasters.contains_key(id) {
        MixingView {
            layer_order: if auto_insert {
                stack_after_opacity(c.layer_order, id, opacity)
            } else {
                c.layer_order
            },
            layer_opacities: c.layer_opacities.insert(
                id,
                OpacityGroup {
                    opacity,
                    flash_opacity: if c.layer_opacities.contains_key(id) {
                        c.layer_opacities[id].flash_opacity
                    } else {
                        None
                    },
                },
            ),
            user_submaster_order: c.user_submaster_order,
            user_submasters: c.user_submasters,
        }
    } else {
        c
    }
}

/// The context without submaster `id` and every reference to it.
pub open spec fn without_layer(c: MixingView, id: u128) -> MixingView {
    MixingView {
        layer_order: c.layer_order.filter(other_than(id)),
        layer_opacities: c.layer_opacities.remove(id),
        user_submaster_order: c.user_submaster_order.filter(other_than(id)),
        user_submasters: c.user_submasters.remove(id),
    }
}

/// The name listed for submaster `id`.
pub open spec fn submaster_label(c: MixingView, id: u128) -> Seq<char> {
    if c.user_submasters.contains_key(id) {
        c.user_submasters[id].name
    } else {
        "ERROR: Broken submaster reference"@
    }
}

/// The layers of `order` that the blender draws, bottom first, each with the
/// opacity it is drawn at: those with an opacity in effect above 0 and a
/// submaster behind them.
pub open spec fn blend_plan(c: MixingView, order: Seq<u128>) -> Seq<(u128, u16)>
    decreases order.len(),
{
    if order.len() == 0 {
        Seq::empty()
    } else {
        let rest = blend_plan(c, order.drop_last());
        let id = order.last();
        if c.layer_opacities.contains_key(id) && c.layer_opacities[id].effective() != 0
            && c.user_submasters.contains_key(id) {
            rest.push((id, c.layer_opacities[id].effective()))
        } else {
            rest
        }
    }
}

/// The running result after blending the layers of `plan`, bottom first,
/// over `base`.
pub open spec fn stacked(
    c: MixingView,
    plan: Seq<(u128, u16)>,
    base: Map<u128, Map<u32, u16>>,
    blending: Map<u128, Map<u32, BlendingData>>,
) -> Map<u128, Map<u32, u16>>
    decreases plan.len(),
{
    if plan.len() == 0 {
        base
    } else {
        blended_layer(
            stacked(c, plan.drop_last(), base, blending),
            blending,
            c.user_submasters[plan.last().0].values,
            plan.last().1,
        )
    }
}

/// A copy of a mixer output.
fn copy_output(o: &FullMixerOutput) -> (r: FullMixerOutput)
    ensures
        output_view(r) == output_view(*o),
{
    proof {
        use_type_invariant(o);
    }
    let mut r: FullMixerOutput = SmallMap::new();
    let mut i: usize = 0;
    while i < o.len()
        invariant
            i <= o.entries().len(),
            unique_keys(o.entries()),
            r.entries().len() == i,
            forall|a: int|
                0 <= a < i ==> #[trigger] r.entries()[a].0 == o.entries()[a].0 && r.entries()[a].1@
                    == o.entries()[a].1@,
        decreases o.entries().len() - i,
    {
        let k = o.key_at(i);
        let values: FixtureMixerOutput = o.value_at(i).copied();
        assert(!r@.contains_key(k)) by {
            if r@.contains_key(k) {
                let a = r.index_of(k);
                assert(o.entries()[a].0 == k);
            }
        }
        r.insert(k, values);
        i = i + 1;
    }
    proof {
        lemma_aligned_keys(*o, r);
        assert(output_view(r) =~= output_view(*o));
    }
    r
}

/// Applies `delta` to a light.
fn merge_light_into(light: &mut AbstractLayerLight, delta: &AbstractLayerLight)
    ensures
        final(light)@ == merge_light(old(light)@, delta@),
{
    proof {
        use_type_invariant(delta);
        lemma_prefix_view_ends(*delta);
    }
    let ghost start = light@;
    assert(light@ =~= merge_light(start, prefix_view(*delta, 0)));
    let mut j: usize = 0;
    while j < delta.len()
        invariant
            j <= delta.entries().len(),
            unique_keys(delta.entries()),
            light@ == merge_light(start, prefix_view(*delta, j as int)),
        decreases delta.entries().len() - j,
    {
        let a = delta.key_at(j);
        let v = *delta.value_at(j);
        proof {
            lemma_prefix_view(*delta, j as int);
        }
        match v {
            BlenderValue::Transparent => {
                light.remove(&a);
            },
            _ => {
                light.insert(a, v);
            },
        }
        assert(light@ =~= merge_light(start, prefix_view(*delta, j + 1)));
        j = j + 1;
    }
}

/// Applies `delta` to submaster values.
fn merge_values_into(values: &mut SubmasterData, delta: &SubmasterData)
    ensures
        submaster_view(*final(values)) == merge_values(submaster_view(*old(values)), submaster_view(*delta)),
{
    proof {
        use_type_invariant(delta);
        lemma_prefix_view_ends(*delta);
    }
    let ghost start = submaster_view(*values);
    assert(submaster_view(*values) =~= merge_values(
        start,
        prefix_view(*delta, 0).map_values(|l: AbstractLayerLight| l@),
    ));
    let mut i: usize = 0;
    while i < delta.len()
        invariant
            i <= delta.entries().len(),
            unique_keys(delta.entries()),
            submaster_view(*values) == merge_values(
                start,
                prefix_view(*delta, i as int).map_values(|l: AbstractLayerLight| l@),
            ),
        decreases delta.entries().len() - i,
    {
        let f = delta.key_at(i);
        let fixture_delta = delta.value_at(i);
        proof {
            lemma_prefix_view(*delta, i as int);
        }
        let ghost pv = prefix_view(*delta, i as int).map_values(|l: AbstractLayerLight| l@);
        let ghost pv2 = prefix_view(*delta, i + 1).map_values(|l: AbstractLayerLight| l@);
        assert(pv2 =~= pv.insert(f, fixture_delta@));
        assert(!pv.contains_key(f));
        assert(submaster_view(*values).contains_key(f) == start.contains_key(f));
        assert(values@.contains_key(f) == start.contains_key(f));
        assert(values@.contains_key(f) ==> values@[f]@ == submaster_view(*values)[f]);
        assert(values@.contains_key(f) ==> submaster_view(*values)[f] == start[f]);
        let mut light: AbstractLayerLight = match values.get(&f) {
            Some(current) => crate::mixer_utils::static_layer::copy_light(current),
            None => SmallMap::new(),
        };
        assert(light@ == (if start.contains_key(f) {
            start[f]
        } else {
            Map::<u32, BlenderValue>::empty()
        }));
        merge_light_into(&mut light, fixture_delta);
        let ghost before = submaster_view(*values);
        let ghost merged = light@;
        values.insert(f, light);
        assert(submaster_view(*values) =~= before.insert(f, merged));
        assert(before.insert(f, merged) =~= merge_values(start, pv2));
        i = i + 1;
    }
    assert(prefix_view(*delta, delta.entries().len() as int).map_values(|l: AbstractLayerLight| l@)
        =~= submaster_view(*delta));
}

/// Renames submaster `id` of a context, if it has one.
fn rename_in(ctx: &mut MixingContext, id: u128, name: &String)
    ensures
        final(ctx)@ == renamed(old(ctx)@, id, name@),
{
    let found = match ctx.user_submasters.get(&id) {
        Some(layer) => {
            let mut renamed_layer = layer.duplicate();
            renamed_layer.name = name.clone();
            Some(renamed_layer)
        },
        None => None,
    };
    match found {
        Some(layer) => {
            ctx.user_submasters.insert(id, layer);
        },
        None => {},
    }
    assert(ctx@ =~= renamed(old(ctx)@, id, name@));
}

/// The mixer's state together with its operations. Each operation reports
/// what the caller has to do next: whether the result changed and the
/// blender has to run again, or whether an event has to be emitted.
pub struct MixerInterface {
    pub context: MixerContext,
}

impl View for MixerInterface {
    type V = MixerView;

    open spec fn view(&self) -> MixerView {
        self.context@
    }
}

impl MixerInterface {
    /// Wraps the mixer's state.
    pub fn new(mixer_context: MixerContext) -> (r: Self)
        ensures
            r@ == mixer_context@,
    {
        MixerInterface { context: mixer_context }
    }

    /// Freezes a copy of the default context and draws further changes at
    /// opacity 0. Returns whether blind mode was entered, which is not the
    /// case when it was already active; only then is the `mixer.blind` event
    /// emitted.
    pub fn enter_blind_mode(&mut self) -> (entered: bool)
        ensures
            entered == old(self)@.frozen_context is None,
            final(self)@ == entered_blind(old(self)@),
    {
        if self.context.frozen_context.is_none() {
            self.context.blind_opacity = 0;
            self.context.frozen_context = Some(self.context.default_context.duplicate());
            true
        } else {
            false
        }
    }

    /// Sets the opacity of the changes made in blind mode. Returns whether it
    /// was set, which is only the case in blind mode.
    pub fn set_blind_opacity(&mut self, opacity: u16) -> (changed: bool)
        ensures
            changed == old(self)@.frozen_context is Some,
            final(self)@ == with_blind_opacity(old(self)@, opacity),
    {
        if self.context.frozen_context.is_some() {
            self.context.blind_opacity = opacity;
            true
        } else {
            false
        }
    }

    /// The opacity of the changes made in blind mode, or `None` outside blind
    /// mode.
    pub fn get_blind_opacity(&self) -> (r: Option<u16>)
        ensures
            r == (if self@.frozen_context is Some {
                Some(self@.blind_opacity)
            } else {
                None
            }),
    {
        if self.context.frozen_context.is_some() {
            Some(self.context.blind_opacity)
        } else {
            None
        }
    }

    /// Throws away the changes made in blind mode, at once. Returns whether
    /// blind mode was active.
    pub fn revert_blind(&mut self) -> (changed: bool)
        ensures
            changed == old(self)@.frozen_context is Some,
            final(self)@ == reverted(old(self)@),
    {
        match self.context.frozen_context.take() {
            Some(mixing_context) => {
                self.context.default_context = mixing_context;
                self.context.blind_opacity = 0;
                true
            },
            None => false,
        }
    }

    /// Keeps the changes made in blind mode and drops the previous look, at
    /// once. Returns whether blind mode was active.
    pub fn commit_blind(&mut self) -> (changed: bool)
        ensures
            changed == old(self)@.frozen_context is Some,
            final(self)@ == committed(old(self)@),
    {
        if self.context.frozen_context.is_some() {
            self.context.frozen_context = None;
            self.context.blind_opacity = 0;
            true
        } else {
            false
        }
    }

    /// The submasters, in the order they are listed.
    pub fn list_submasters(&self) -> (r: Vec<u128>)
        ensures
            r@ == self@.default_context.user_submaster_order,
    {
        copy_ids(&self.context.default_context.user_submaster_order)
    }

    /// The submasters, in the order they are listed, each with its name.
    pub fn list_submasters_with_names(&self) -> (r: Vec<(u128, String)>)
        ensures
            r@.len() == self@.default_context.user_submaster_order.len(),
            forall|i: int|
                0 <= i < r@.len() ==> #[trigger] r@[i].0 == self@.default_context.user_submaster_order[i]
                    && r@[i].1@ == submaster_label(
                    self@.default_context,
                    self@.default_context.user_submaster_order[i],
                ),
    {
        let ctx = &self.context.default_context;
        let mut r: Vec<(u128, String)> = Vec::new();
        let mut i: usize = 0;
        while i < ctx.user_submaster_order.len()
            invariant
                i <= ctx.user_submaster_order@.len(),
                ctx == &self.context.default_context,
                r@.len() == i,
                forall|j: int|
                    0 <= j < i ==> #[trigger] r@[j].0 == ctx.user_submaster_order@[j] && r@[j].1@
                        == submaster_label(ctx@, ctx.user_submaster_order@[j]),
            decreases ctx.user_submaster_order@.len() - i,
        {
            let id = ctx.user_submaster_order[i];
            let name = match ctx.user_submasters.get(&id) {
                Some(submaster) => {
                    assert(ctx@.user_submasters[id] == submaster@);
                    submaster.name.clone()
                },
                None => "ERROR: Broken submaster reference".to_owned(),
            };
            assert(name@ == submaster_label(ctx@, id));
            r.push((id, name));
            i = i + 1;
        }
        r
    }

    /// Stores an empty submaster named `name` under `submaster_id`, listed
    /// last.
    pub fn create_layer_with_id(&mut self, submaster_id: u128, name: String)
        ensures
            final(self)@ == with_default(
                old(self)@,
                with_new_layer(old(self)@.default_context, submaster_id, name@),
            ),
    {
        let layer = StaticLayer::new(name);
        assert(layer@ == (LayerView { name: name@, values: Map::empty() }));
        self.context.default_context.user_submasters.insert(submaster_id, layer);
        self.context.default_context.user_submaster_order.push(submaster_id);
        assert(self.context.default_context@ =~= with_new_layer(
            old(self)@.default_context,
            submaster_id,
            name@,
        ));
    }

    /// Creates an empty submaster named `name` under a new random id, listed
    /// last, and returns that id.
    pub fn create_layer(&mut self, name: String) -> (submaster_id: u128)
        ensures
            is_random_id(submaster_id),
            final(self)@ == with_default(
                old(self)@,
                with_new_layer(old(self)@.default_context, submaster_id, name@),
            ),
    {
        let submaster_id = new_random_id();
        self.create_layer_with_id(submaster_id, name);
        submaster_id
    }

    /// Renames a submaster, in both contexts.
    pub fn rename_layer(&mut self, submaster_id: u128, new_name: String)
        ensures
            final(self)@ == (MixerView {
                default_context: renamed(old(self)@.default_context, submaster_id, new_name@),
                frozen_context: match old(self)@.frozen_context {
                    Some(f) => Some(renamed(f, submaster_id, new_name@)),
                    None => None,
                },
                blind_opacity: old(self)@.blind_opacity,
            }),
    {
        match self.context.frozen_context.take() {
            Some(mut blind_context) => {
                rename_in(&mut blind_context, submaster_id, &new_name);
                self.context.frozen_context = Some(blind_context);
            },
            None => {},
        }
        rename_in(&mut self.context.default_context, submaster_id, &new_name);
    }

    /// Applies `submaster_delta` to a submaster: a transparent value removes
    /// an attribute, any other value sets it. Returns whether the submaster
    /// exists.
    pub fn set_layer_contents(&mut self, submaster_id: u128, submaster_delta: SubmasterData) -> (r: bool)
        ensures
            r == old(self)@.default_context.user_submasters.contains_key(submaster_id),
            final(self)@ == with_default(
                old(self)@,
                with_contents(old(self)@.default_context, submaster_id, submaster_view(submaster_delta)),
            ),
    {
        let found = match self.context.default_context.user_submasters.get(&submaster_id) {
            Some(layer) => {
                let mut updated = layer.duplicate();
                merge_values_into(&mut updated.values, &submaster_delta);
                Some(updated)
            },
            None => None,
        };
        match found {
            Some(layer) => {
                self.context.default_context.user_submasters.insert(submaster_id, layer);
                assert(self.context.default_context@ =~= with_contents(
                    old(self)@.default_context,
                    submaster_id,
                    submaster_view(submaster_delta),
                ));
                true
            },
            None => false,
        }
    }

    /// Whether submaster `submaster_id` is drawn with an opacity above 0,
    /// so that a change to it shows.
    pub fn layer_is_visible(&self, submaster_id: u128) -> (r: bool)
        ensures
            r == (self@.default_context.layer_opacities.contains_key(submaster_id)
                && self@.default_context.layer_opacities[submaster_id].effective() > 0),
    {
        match self.context.default_context.layer_opacities.get(&submaster_id) {
            Some(opacity) => opacity.get() > 0,
            None => false,
        }
    }

    /// A copy of a submaster, if it exists.
    pub fn get_layer_contents(&self, submaster_id: u128) -> (r: Option<StaticLayer>)
        ensures
            r is Some == self@.default_context.user_submasters.contains_key(submaster_id),
            r matches Some(layer) ==> layer@ == self@.default_context.user_submasters[submaster_id],
    {
        match self.context.default_context.user_submasters.get(&submaster_id) {
            Some(layer) => Some(layer.duplicate()),
            None => None,
        }
    }

    /// Sets the opacity of a submaster. With `auto_insert`, a submaster set
    /// above 0 goes on top of the stack if it is not in it, and one set to 0
    /// leaves it. Returns whether the submaster exists.
    pub fn set_layer_opacity(&mut self, submaster_id: u128, opacity: u16, auto_insert: bool) -> (r: bool)
        ensures
            r == old(self)@.default_context.user_submasters.contains_key(submaster_id),
            final(self)@ == with_default(
                old(self)@,
                with_opacity(old(self)@.default_context, submaster_id, opacity, auto_insert),
            ),
    {
        let ctx = &mut self.context.default_context;
        if ctx.user_submasters.contains_key(&submaster_id) {
            let flash_opacity = match ctx.layer_opacities.get(&submaster_id) {
                Some(group) => group.flash_opacity,
                None => None,
            };
            ctx.layer_opacities.insert(submaster_id, OpacityGroup { opacity, flash_opacity });
            if auto_insert {
                let in_stack = contains_id(&ctx.layer_order, submaster_id);
                if opacity > 0 && !in_stack {
                    ctx.layer_order.push(submaster_id);
                } else if opacity == 0 && in_stack {
                    ctx.layer_order = without_id(&ctx.layer_order, submaster_id);
                }
            }
            true
        } else {
            false
        }
    }

    /// The opacity set for a submaster, or `None` if none was set.
    pub fn get_layer_opacity(&self, submaster_id: u128) -> (r: Option<u16>)
        ensures
            r == (if self@.default_context.layer_opacities.contains_key(submaster_id) {
                Some(self@.default_context.layer_opacities[submaster_id].opacity)
            } else {
                None
            }),
    {
        match self.context.default_context.layer_opacities.get(&submaster_id) {
            Some(group) => Some(group.opacity),
            None => None,
        }
    }

    /// Deletes a submaster and every reference to it. Returns whether it
    /// existed.
    pub fn delete_layer(&mut self, submaster_id: u128) -> (r: bool)
        ensures
            r == old(self)@.default_context.user_submasters.contains_key(submaster_id),
            final(self)@ == with_default(old(self)@, without_layer(old(self)@.default_context, submaster_id)),
    {
        let ctx = &mut self.context.default_context;
        let was_removed = ctx.user_submasters.remove(&submaster_id).is_some();
        ctx.layer_order = without_id(&ctx.layer_order, submaster_id);
        ctx.layer_opacities.remove(&submaster_id);
        ctx.user_submaster_order = without_id(&ctx.user_submaster_order, submaster_id);
        assert(ctx@ =~= without_layer(old(self)@.default_context, submaster_id));
        was_removed
    }

    /// The mixer's result: the layers the blender draws, bottom first, each
    /// blended at its opacity over the background layer `base`.
    pub fn blend_stack(&self, base: &FullMixerOutput, blending_data: &FullMixerBlendingData) -> (r: FullMixerOutput)
        ensures
            output_view(r) == stacked(
                self@.default_context,
                blend_plan(self@.default_context, self@.default_context.layer_order),
                output_view(*base),
                blending_view(*blending_data),
            ),
    {
        let ghost c = self@.default_context;
        let plan = self.layers_to_blend();
        proof {
            self::laws::law_blend_plan_draws_visible_layers(c, c.layer_order);
        }
        let mut result = copy_output(base);
        assert(plan@.take(0) =~= Seq::<(u128, u16)>::empty());
        let mut j: usize = 0;
        while j < plan.len()
            invariant
                j <= plan@.len(),
                c == self@.default_context,
                plan@ == blend_plan(c, c.layer_order),
                forall|i: int|
                    0 <= i < plan@.len() ==> #[trigger] c.user_submasters.contains_key(plan@[i].0),
                output_view(result) == stacked(
                    c,
                    plan@.take(j as int),
                    output_view(*base),
                    blending_view(*blending_data),
                ),
            decreases plan@.len() - j,
        {
            let (id, opacity) = plan[j];
            assert(plan@.take(j + 1).drop_last() =~= plan@.take(j as int));
            assert(plan@.take(j + 1).last() == (id, opacity));
            assert(c.user_submasters.contains_key(plan@[j as int].0));
            match self.context.default_context.user_submasters.get(&id) {
                Some(layer) => {
                    assert(c.user_submasters[id] == layer@);
                    layer.blend(&mut result, blending_data, opacity);
                },
                None => {},
            }
            j = j + 1;
        }
        assert(plan@.take(plan@.len() as int) =~= plan@);
        result
    }

    /// The layers the blender draws, bottom first, each with the opacity it
    /// is drawn at.
    pub fn layers_to_blend(&self) -> (r: Vec<(u128, u16)>)
        ensures
            r@ == blend_plan(self@.default_context, self@.default_context.layer_order),
    {
        let ctx = &self.context.default_context;
        let mut r: Vec<(u128, u16)> = Vec::new();
        let mut i: usize = 0;
        while i < ctx.layer_order.len()
            invariant
                i <= ctx.layer_order@.len(),
                ctx == &self.context.default_context,
                r@ == blend_plan(ctx@, ctx.layer_order@.take(i as int)),
            decreases ctx.layer_order@.len() - i,
        {
            let id = ctx.layer_order[i];
            assert(ctx.layer_order@.take(i + 1).drop_last() =~= ctx.layer_order@.take(i as int));
            match ctx.layer_opacities.get(&id) {
                Some(group) => {
                    let opacity = group.get();
                    if opacity != 0 && ctx.user_submasters.contains_key(&id) {
                        r.push((id, opacity));
                    }
                },
                None => {},
            }
            i = i + 1;
        }
        assert(ctx.layer_order@.take(ctx.layer_order@.len() as int) =~= ctx.layer_order@);
        r
    }
}

} // verus!
