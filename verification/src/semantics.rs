//! What the generated builder functions compute, read off the same
//! descriptions that their text is written from.
//!
//! A builder is a finite map from field names to optional values. The key of
//! a slot is its place among the variants of the key type of its kind.

use vstd::prelude::*;
use crate::manifest::AssetType;
use crate::model::{
    has_kind, inspected, lemma_kinds_partition, load_path, of_kind, rank, variable_of,
};
use crate::naming::SlotView;

verus! {

/// Whether no two slots have the same field name.
pub open spec fn distinct_fields(slots: Seq<SlotView>) -> bool {
    forall|i: int, j: int|
        0 <= i < slots.len() && 0 <= j < slots.len() && i != j ==> slots[i].field != slots[j].field
}

/// Whether no two slots have the same name.
pub open spec fn distinct_names(slots: Seq<SlotView>) -> bool {
    forall|i: int, j: int|
        0 <= i < slots.len() && 0 <= j < slots.len() && i != j ==> slots[i].name != slots[j].name
}

/// Whether `f` is the name of a field of the pack.
pub open spec fn is_field(slots: Seq<SlotView>, f: Seq<char>) -> bool {
    exists|i: int| 0 <= i < slots.len() && #[trigger] slots[i].field == f
}

/// The value of `initialAssetPackBuilder`: every field is absent.
pub open spec fn initial_builder_value<V>(slots: Seq<SlotView>) -> Map<Seq<char>, Option<V>> {
    Map::new(|f: Seq<char>| is_field(slots, f), |f: Seq<char>| None::<V>)
}

/// The value of the insertion function of kind `t` for the key that is
/// variant number `key` of its key type: the branch of that key sets the
/// field of its slot to present and leaves the rest of the builder alone.
pub open spec fn insert_value<V>(
    slots: Seq<SlotView>,
    t: AssetType,
    key: int,
    value: V,
    builder: Map<Seq<char>, Option<V>>,
) -> Map<Seq<char>, Option<V>> {
    builder.insert(of_kind(slots, t)[key].field, Some(value))
}

/// Whether every field that `tryBuildAssetPack` inspects is present.
pub open spec fn all_present<V>(slots: Seq<SlotView>, builder: Map<Seq<char>, Option<V>>) -> bool {
    forall|j: int|
        0 <= j < inspected(slots).len() ==> (#[trigger] builder[inspected(slots)[j].field]) is Some
}

/// The value of `tryBuildAssetPack`: when every inspected field is present,
/// variable number `j` holds the value of the `j`-th inspected field, and the
/// finished record gives the field of slot `i` the variable of that slot. The
/// record is given as the values of its fields in slot order.
pub open spec fn try_build_value<V>(slots: Seq<SlotView>, builder: Map<Seq<char>, Option<V>>) -> Option<
    Seq<V>,
> {
    if all_present(slots, builder) {
        Some(
            Seq::new(
                slots.len(),
                |i: int| builder[inspected(slots)[variable_of(slots, i) as int].field]->0,
            ),
        )
    } else {
        None
    }
}

/// The value of the load list of kind `t`: for each slot of that kind, in
/// order, the path from which it is loaded and its key.
pub open spec fn load_list_value(slots: Seq<SlotView>, t: AssetType) -> Seq<
    (Seq<char>, Seq<char>),
> {
    of_kind(slots, t).map_values(|s: SlotView| (load_path(t, s.path), s.name))
}

/// The builder after the insertions `order[0]`, `order[1]`, ... in turn,
/// starting from the initial builder: step `j` inserts `values[j]` under the
/// key of slot `order[j]`.
pub open spec fn inserted<V>(slots: Seq<SlotView>, order: Seq<int>, values: Seq<V>) -> Map<
    Seq<char>,
    Option<V>,
>
    decreases order.len(),
{
    if order.len() == 0 {
        initial_builder_value(slots)
    } else {
        let i = order.last();
        insert_value(
            slots,
            slots[i].t,
            rank(slots, i) as int,
            values.last(),
            inserted(slots, order.drop_last(), values.drop_last()),
        )
    }
}

/// The key of slot `i` is a variant of the key type of its kind, and the slot
/// found under that key is slot `i`.
pub proof fn lemma_rank(slots: Seq<SlotView>, i: int)
    requires
        0 <= i < slots.len(),
    ensures
        rank(slots, i) < of_kind(slots, slots[i].t).len(),
        of_kind(slots, slots[i].t)[rank(slots, i) as int] == slots[i],
{
    let p = has_kind(slots[i].t);
    let before = slots.take(i);
    let upto = slots.take(i + 1);
    assert(upto =~= before.push(slots[i]));
    before.lemma_filter_push(slots[i], p);
    upto.lemma_filter_monotone(slots, p);
    assert(upto.filter(p)[rank(slots, i) as int] == slots[i]);
}

/// The variable of slot `i` is the place of slot `i` among the inspected slots.
pub proof fn lemma_variable_of(slots: Seq<SlotView>, i: int)
    requires
        0 <= i < slots.len(),
    ensures
        variable_of(slots, i) < inspected(slots).len(),
        inspected(slots).len() == slots.len(),
        inspected(slots)[variable_of(slots, i) as int] == slots[i],
{
    lemma_rank(slots, i);
    lemma_kinds_partition(slots);
}

/// Every inspected slot is a slot.
pub proof fn lemma_inspected_is_slot(slots: Seq<SlotView>, j: int) -> (i: int)
    requires
        0 <= j < inspected(slots).len(),
    ensures
        0 <= i < slots.len(),
        slots[i] == inspected(slots)[j],
{
    let textures = of_kind(slots, AssetType::Texture);
    let sounds = of_kind(slots, AssetType::Sound);
    let s = inspected(slots)[j];
    if j < textures.len() {
        assert(textures[j] == s);
        assert(textures.contains(s));
        slots.lemma_filter_contains_rev(has_kind(AssetType::Texture), s);
    } else {
        assert(sounds[j - textures.len()] == s);
        assert(sounds.contains(s));
        slots.lemma_filter_contains_rev(has_kind(AssetType::Sound), s);
    }
    choose|i: int| 0 <= i < slots.len() && slots[i] == s
}

} // verus!
