//! What the mixer's operations promise together.
use vstd::prelude::*;

use crate::mixer_utils::state::BlenderValue;
use crate::mixer_utils::static_layer::LayerView;
use crate::utils::id_list::lemma_without_id;
use super::state::{MixerView, MixingView};
use super::{
    blend_plan, committed, entered_blind, merge_light, merge_values, renamed, reverted,
    stack_after_opacity, with_blind_opacity, with_contents, with_default, with_new_layer, with_opacity,
    without_layer,
};

verus! {

/// Reverting right after entering blind mode gives back the mixer as it was,
/// outside blind mode.
pub proof fn law_revert_after_enter(m: MixerView)
    requires
        m.frozen_context is None,
    ensures
        reverted(entered_blind(m)) == (MixerView {
            default_context: m.default_context,
            frozen_context: None,
            blind_opacity: 0,
        }),
{
}

/// Whatever is done to the default context in blind mode, reverting brings
/// back the context as it was when blind mode was entered.
pub proof fn law_revert_undoes_blind_changes(m: MixerView, changed: MixingView)
    requires
        m.frozen_context is None,
    ensures
        reverted(with_default(entered_blind(m), changed)).default_context == m.default_context,
        reverted(with_default(entered_blind(m), changed)).frozen_context is None,
{
}

/// Whatever is done to the default context in blind mode, committing keeps
/// it and leaves blind mode.
pub proof fn law_commit_keeps_blind_changes(m: MixerView, changed: MixingView)
    requires
        m.frozen_context is None,
    ensures
        committed(with_default(entered_blind(m), changed)) == (MixerView {
            default_context: changed,
            frozen_context: None,
            blind_opacity: 0,
        }),
{
}

/// An edit made to the mixer in blind mode, other than a rename: the blind
/// opacity set, or the default context changed by creating, filling, fading
/// or deleting a submaster.
pub enum BlindEdit {
    BlindOpacity(u16),
    Default(MixingView),
}

/// The mixer after `edits`, in turn.
pub open spec fn after_edits(m: MixerView, edits: Seq<BlindEdit>) -> MixerView
    decreases edits.len(),
{
    if edits.len() == 0 {
        m
    } else {
        let before = after_edits(m, edits.drop_last());
        match edits.last() {
            BlindEdit::BlindOpacity(o) => with_blind_opacity(before, o),
            BlindEdit::Default(c) => with_default(before, c),
        }
    }
}

/// Edits other than a rename leave the frozen context as it is.
proof fn lemma_edits_keep_frozen(m: MixerView, edits: Seq<BlindEdit>)
    ensures
        after_edits(m, edits).frozen_context == m.frozen_context,
    decreases edits.len(),
{
    if edits.len() > 0 {
        lemma_edits_keep_frozen(m, edits.drop_last());
    }
}

/// Whatever edits other than renames are made in blind mode, the blind
/// opacity included, reverting gives back the mixer as it was before blind
/// mode was entered, outside blind mode and with the blind opacity at 0.
pub proof fn law_revert_after_blind_edits(m: MixerView, edits: Seq<BlindEdit>)
    requires
        m.frozen_context is None,
    ensures
        after_edits(entered_blind(m), edits).frozen_context == Some(m.default_context),
        reverted(after_edits(entered_blind(m), edits)) == (MixerView {
            default_context: m.default_context,
            frozen_context: None,
            blind_opacity: 0,
        }),
{
    lemma_edits_keep_frozen(entered_blind(m), edits);
}

/// A rename made in blind mode is made in the frozen context too, so it
/// survives a revert.
pub proof fn law_rename_survives_revert(m: MixerView, id: u128, name: Seq<char>)
    requires
        m.frozen_context is None,
    ensures
        ({
            let blind = entered_blind(m);
            let after = MixerView {
                default_context: renamed(blind.default_context, id, name),
                frozen_context: Some(renamed(m.default_context, id, name)),
                blind_opacity: blind.blind_opacity,
            };
            reverted(after).default_context == renamed(m.default_context, id, name)
        }),
{
}

/// A created submaster is listed last, empty and under its name.
pub proof fn law_created_layer_listed(c: MixingView, id: u128, name: Seq<char>)
    ensures
        with_new_layer(c, id, name).user_submaster_order.last() == id,
        with_new_layer(c, id, name).user_submasters[id] == (LayerView { name, values: Map::empty() }),
{
}

/// The opacity set for an existing submaster is the one read back.
pub proof fn law_opacity_read_back(c: MixingView, id: u128, opacity: u16, auto_insert: bool)
    requires
        c.user_submasters.contains_key(id),
    ensures
        with_opacity(c, id, opacity, auto_insert).layer_opacities.contains_key(id),
        with_opacity(c, id, opacity, auto_insert).layer_opacities[id].opacity == opacity,
{
}

/// With automatic insertion, a submaster set above 0 is in the stack and one
/// set to 0 is not; the other layers stay, and the stack holds no layer
/// twice if it did not before.
pub proof fn law_auto_insert_stack(order: Seq<u128>, id: u128, opacity: u16)
    ensures
        opacity > 0 ==> stack_after_opacity(order, id, opacity).contains(id),
        opacity == 0 ==> !stack_after_opacity(order, id, opacity).contains(id),
        forall|x: u128|
            x != id ==> (#[trigger] stack_after_opacity(order, id, opacity).contains(x) == order.contains(
                x,
            )),
        order.no_duplicates() ==> stack_after_opacity(order, id, opacity).no_duplicates(),
{
    lemma_without_id(order, id);
    if opacity > 0 && !order.contains(id) {
        let pushed = order.push(id);
        assert(pushed[order.len() as int] == id);
        assert forall|x: u128| x != id implies #[trigger] pushed.contains(x) == order.contains(x) by {
            if pushed.contains(x) {
                let i = choose|i: int| 0 <= i < pushed.len() && pushed[i] == x;
                assert(order[i] == x);
            }
            if order.contains(x) {
                let i = choose|i: int| 0 <= i < order.len() && order[i] == x;
                assert(pushed[i] == x);
            }
        }
        if order.no_duplicates() {
            assert forall|i: int, j: int|
                0 <= i < pushed.len() && 0 <= j < pushed.len() && i != j implies pushed[i] != pushed[j] by {
                if i == order.len() {
                    assert(pushed[j] == order[j]);
                } else if j == order.len() {
                    assert(pushed[i] == order[i]);
                }
            }
        }
    }
}

/// Deleting a submaster leaves no reference to it and keeps every other
/// layer in the stack and in the list.
pub proof fn law_delete_removes_references(c: MixingView, id: u128)
    ensures
        !without_layer(c, id).user_submasters.contains_key(id),
        !without_layer(c, id).layer_opacities.contains_key(id),
        !without_layer(c, id).layer_order.contains(id),
        !without_layer(c, id).user_submaster_order.contains(id),
        forall|x: u128|
            x != id ==> (#[trigger] without_layer(c, id).layer_order.contains(x) == c.layer_order.contains(
                x,
            )),
        forall|x: u128|
            x != id ==> (#[trigger] without_layer(c, id).user_submaster_order.contains(x)
                == c.user_submaster_order.contains(x)),
        c.layer_order.no_duplicates() ==> without_layer(c, id).layer_order.no_duplicates(),
{
    lemma_without_id(c.layer_order, id);
    lemma_without_id(c.user_submaster_order, id);
}

/// What is written into a submaster is read back: each attribute of the
/// delta holds its new value, and a transparent one is gone. Fixtures and
/// attributes the delta does not name are kept as they were.
pub proof fn law_contents_read_back(
    c: MixingView,
    id: u128,
    delta: Map<u128, Map<u32, BlenderValue>>,
    f: u128,
    a: u32,
)
    requires
        c.user_submasters.contains_key(id),
    ensures
        ({
            let before = c.user_submasters[id].values;
            let after = with_contents(c, id, delta).user_submasters[id].values;
            &&& delta.contains_key(f) && delta[f].contains_key(a) && !(delta[f][a] is Transparent)
                ==> after.contains_key(f) && after[f].contains_key(a) && after[f][a] == delta[f][a]
            &&& delta.contains_key(f) && delta[f].contains_key(a) && delta[f][a] is Transparent
                ==> after.contains_key(f) && !after[f].contains_key(a)
            &&& !delta.contains_key(f) ==> after.contains_key(f) == before.contains_key(f) && (
            before.contains_key(f) ==> after[f] == before[f])
            &&& delta.contains_key(f) && !delta[f].contains_key(a) && before.contains_key(f)
                ==> after[f].contains_key(a) == before[f].contains_key(a) && (before[f].contains_key(
                a,
            ) ==> after[f][a] == before[f][a])
        }),
{
    let before = c.user_submasters[id].values;
    let after = merge_values(before, delta);
    assert(with_contents(c, id, delta).user_submasters[id].values == after);
    if delta.contains_key(f) {
        let start = if before.contains_key(f) {
            before[f]
        } else {
            Map::<u32, BlenderValue>::empty()
        };
        assert(after[f] == merge_light(start, delta[f]));
    }
}

/// The blender draws only layers whose submaster exists, each at an opacity
/// above 0 that is the one in effect for it.
pub proof fn law_blend_plan_draws_visible_layers(c: MixingView, order: Seq<u128>)
    ensures
        forall|i: int|
            0 <= i < blend_plan(c, order).len() ==> {
                let (id, opacity) = #[trigger] blend_plan(c, order)[i];
                &&& c.user_submasters.contains_key(id)
                &&& c.layer_opacities.contains_key(id)
                &&& opacity == c.layer_opacities[id].effective()
                &&& opacity != 0
                &&& order.contains(id)
            },
    decreases order.len(),
{
    if order.len() > 0 {
        let rest = order.drop_last();
        law_blend_plan_draws_visible_layers(c, rest);
        assert forall|i: int| 0 <= i < blend_plan(c, order).len() implies {
            let (id, opacity) = #[trigger] blend_plan(c, order)[i];
            &&& c.user_submasters.contains_key(id)
            &&& c.layer_opacities.contains_key(id)
            &&& opacity == c.layer_opacities[id].effective()
            &&& opacity != 0
            &&& order.contains(id)
        } by {
            if i < blend_plan(c, rest).len() {
                assert(blend_plan(c, order)[i] == blend_plan(c, rest)[i]);
                let id = blend_plan(c, rest)[i].0;
                let j = choose|j: int| 0 <= j < rest.len() && rest[j] == id;
                assert(order[j] == id);
            } else {
                assert(order[order.len() - 1] == order.last());
            }
        }
    }
}

} // verus!
