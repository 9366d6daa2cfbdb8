//! A submaster holding static values.
use vstd::prelude::*;

use crate::mixer_utils::default_blender::{blend_layer, blended_layer};
use crate::mixer_utils::state::{
    AbstractLayerLight, BlenderValue, FullMixerBlendingData, FullMixerOutput, SubmasterData,
    blending_view, output_view, submaster_view,
};
use crate::utils::smallmap::{SmallMap, lemma_index_of_unique, unique_keys};

verus! {

/// A static submaster.
pub struct StaticLayer {
    pub name: String,
    pub values: SubmasterData,
}

/// What a static submaster holds: its name and its values.
#[verifier::ext_equal]
pub struct LayerView {
    pub name: Seq<char>,
    pub values: Map<u128, Map<u32, BlenderValue>>,
}

impl View for StaticLayer {
    type V = LayerView;

    open spec fn view(&self) -> LayerView {
        LayerView { name: self.name@, values: submaster_view(self.values) }
    }
}

/// The values that remain after dropping the fixtures and attributes that the
/// patch no longer has.
pub open spec fn cleaned(values: Map<u128, Map<u32, BlenderValue>>, base: Map<u128, Map<u32, u16>>) -> Map<
    u128,
    Map<u32, BlenderValue>,
> {
    Map::new(
        |f: u128| values.contains_key(f) && base.contains_key(f),
        |f: u128| values[f].restrict(base[f].dom()),
    )
}

/// A copy of a light.
pub fn copy_light(light: &AbstractLayerLight) -> (r: AbstractLayerLight)
    ensures
        r@ == light@,
        r.entries() == light.entries(),
{
    proof {
        use_type_invariant(light);
    }
    let mut r: AbstractLayerLight = SmallMap::new();
    let mut i: usize = 0;
    while i < light.len()
        invariant
            i <= light.entries().len(),
            unique_keys(light.entries()),
            r.entries() == light.entries().take(i as int),
        decreases light.entries().len() - i,
    {
        let k = light.key_at(i);
        let v = *light.value_at(i);
        assert(!r@.contains_key(k)) by {
            if r@.contains_key(k) {
                let a = r.index_of(k);
                assert(light.entries()[a].0 == k);
            }
        }
        r.insert(k, v);
        assert(r.entries() =~= light.entries().take(i + 1));
        i = i + 1;
    }
    assert(r.entries() =~= light.entries());
    assert(r@ =~= light@);
    r
}

/// A copy of a submaster's values.
pub fn copy_submaster_data(data: &SubmasterData) -> (r: SubmasterData)
    ensures
        submaster_view(r) == submaster_view(*data),
{
    proof {
        use_type_invariant(data);
    }
    let mut r: SubmasterData = SmallMap::new();
    let mut i: usize = 0;
    while i < data.len()
        invariant
            i <= data.entries().len(),
            unique_keys(data.entries()),
            r.entries().len() == i,
            forall|a: int|
                0 <= a < i ==> #[trigger] r.entries()[a].0 == data.entries()[a].0
                    && r.entries()[a].1@ == data.entries()[a].1@,
        decreases data.entries().len() - i,
    {
        let k = data.key_at(i);
        let light = copy_light(data.value_at(i));
        assert(!r@.contains_key(k)) by {
            if r@.contains_key(k) {
                let a = r.index_of(k);
                assert(data.entries()[a].0 == k);
            }
        }
        r.insert(k, light);
        i = i + 1;
    }
    proof {
        use_type_invariant(&r);
        assert forall|k: u128| #[trigger] r@.contains_key(k) == data@.contains_key(k) by {
            if r@.contains_key(k) {
                let a = r.index_of(k);
                assert(data.entries()[a].0 == k);
            }
            if data@.contains_key(k) {
                let a = data.index_of(k);
                assert(r.entries()[a].0 == k);
            }
        }
        assert forall|k: u128| #[trigger] r@.contains_key(k) implies r@[k]@ == data@[k]@ by {
            let a = r.index_of(k);
            lemma_index_of_unique(r, a);
            lemma_index_of_unique(*data, a);
        }
        assert(submaster_view(r) =~= submaster_view(*data));
    }
    r
}

impl StaticLayer {
    /// An empty static layer.
    pub fn new(name: String) -> (r: StaticLayer)
        ensures
            r.name@ == name@,
            submaster_view(r.values) == Map::<u128, Map<u32, BlenderValue>>::empty(),
    {
        let r = StaticLayer { name, values: SmallMap::new() };
        assert(submaster_view(r.values) =~= Map::<u128, Map<u32, BlenderValue>>::empty());
        r
    }

    /// A copy of the layer.
    pub fn duplicate(&self) -> (r: StaticLayer)
        ensures
            r@ == self@,
    {
        StaticLayer { name: self.name.clone(), values: copy_submaster_data(&self.values) }
    }

    /// Blends the layer's values over the running result at `opacity`.
    pub fn blend(&self, cumulative_layer: &mut FullMixerOutput, blending_data: &FullMixerBlendingData, opacity: u16)
        ensures
            output_view(*final(cumulative_layer)) == blended_layer(
                output_view(*old(cumulative_layer)),
                blending_view(*blending_data),
                submaster_view(self.values),
                opacity,
            ),
    {
        blend_layer(cumulative_layer, blending_data, opacity, &self.values);
    }

    /// A static layer is never animated.
    pub fn animated(&self) -> (r: bool)
        ensures
            !r,
    {
        false
    }

    /// Drops the fixtures that the patch no longer has, and the attributes
    /// that their fixtures no longer have.
    pub fn cleanup(&mut self, patcher_data: &(FullMixerOutput, FullMixerBlendingData))
        ensures
            final(self).name@ == old(self).name@,
            submaster_view(final(self).values) == cleaned(
                submaster_view(old(self).values),
                output_view(patcher_data.0),
            ),
    {
        let base = &patcher_data.0;
        proof {
            use_type_invariant(&self.values);
        }
        let ghost target = cleaned(submaster_view(self.values), output_view(*base));
        let mut kept: SubmasterData = SmallMap::new();
        let mut i: usize = 0;
        while i < self.values.len()
            invariant
                i <= self.values.entries().len(),
                unique_keys(self.values.entries()),
                target == cleaned(submaster_view(self.values), output_view(*base)),
                forall|f: u128|
                    #[trigger] kept@.contains_key(f) == (exists|a: int|
                        0 <= a < i && self.values.entries()[a].0 == f && base@.contains_key(f)),
                forall|f: u128| #[trigger] kept@.contains_key(f) ==> kept@[f]@ == target[f],
            decreases self.values.entries().len() - i,
        {
            let fixture_id = self.values.key_at(i);
            let light = self.values.value_at(i);
            proof {
                lemma_index_of_unique(self.values, i as int);
            }
            match base.get(&fixture_id) {
                Some(fixture_base) => {
                    proof {
                        use_type_invariant(light);
                    }
                    let mut filtered: AbstractLayerLight = SmallMap::new();
                    let mut j: usize = 0;
                    while j < light.len()
                        invariant
                            j <= light.entries().len(),
                            unique_keys(light.entries()),
                            forall|x: u32|
                                #[trigger] filtered@.contains_key(x) == (exists|b: int|
                                    0 <= b < j && light.entries()[b].0 == x
                                        && fixture_base@.contains_key(x)),
                            forall|x: u32| #[trigger]
                                filtered@.contains_key(x) ==> filtered@[x] == light@[x],
                        decreases light.entries().len() - j,
                    {
                        let attribute_id = light.key_at(j);
                        let value = *light.value_at(j);
                        proof {
                            lemma_index_of_unique(*light, j as int);
                        }
                        if fixture_base.contains_key(&attribute_id) {
                            filtered.insert(attribute_id, value);
                        }
                        proof {
                            assert forall|x: u32| #[trigger] filtered@.contains_key(x) == (exists|b: int|
                                0 <= b < j + 1 && light.entries()[b].0 == x
                                    && fixture_base@.contains_key(x)) by {
                                if x == attribute_id && fixture_base@.contains_key(x) {
                                    assert(light.entries()[j as int].0 == x);
                                }
                            }
                        }
                        j = j + 1;
                    }
                    proof {
                        assert forall|x: u32| #[trigger] filtered@.contains_key(x) == light@.restrict(
                            fixture_base@.dom(),
                        ).contains_key(x) by {
                            if light@.contains_key(x) && fixture_base@.contains_key(x) {
                                let b = light.index_of(x);
                                assert(light.entries()[b].0 == x);
                            }
                            if filtered@.contains_key(x) {
                                let b = choose|b: int|
                                    0 <= b < light.entries().len() && light.entries()[b].0 == x
                                        && fixture_base@.contains_key(x);
                                lemma_index_of_unique(*light, b);
                            }
                        }
                        assert(filtered@ =~= light@.restrict(fixture_base@.dom()));
                    }
                    kept.insert(fixture_id, filtered);
                },
                None => {},
            }
            proof {
                assert forall|f: u128| #[trigger] kept@.contains_key(f) == (exists|a: int|
                    0 <= a < i + 1 && self.values.entries()[a].0 == f && base@.contains_key(f)) by {
                    if f == fixture_id && base@.contains_key(f) {
                        assert(self.values.entries()[i as int].0 == f);
                    }
                }
            }
            i = i + 1;
        }
        proof {
            assert forall|f: u128| #[trigger] kept@.contains_key(f) == target.contains_key(f) by {
                if self.values@.contains_key(f) && base@.contains_key(f) {
                    let a = self.values.index_of(f);
                    assert(self.values.entries()[a].0 == f);
                }
                if kept@.contains_key(f) {
                    let a = choose|a: int|
                        0 <= a < self.values.entries().len() && self.values.entries()[a].0 == f
                            && base@.contains_key(f);
                    lemma_index_of_unique(self.values, a);
                }
            }
            assert(submaster_view(kept) =~= target);
        }
        self.values = kept;
    }
}

} // verus!
