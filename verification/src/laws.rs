//! What holds of every generated module.

use vstd::prelude::*;
use crate::manifest::{Asset, AssetType, manifest_view};
use crate::model::{
    builder_pack, complete_pack, field_names, getter_arrow, getter_branches, has_kind,
    insert_branches, insert_closing, insert_opening, inspected, inspected_fields, key_variants,
    lemma_kinds_partition, load_directory, load_entries, load_extension, module_text, of_kind,
    pattern_variables, rank, record_bindings, variable_of,
};
use crate::naming::{SlotView, slots_of};
use crate::semantics::{
    all_present, distinct_fields, distinct_names, initial_builder_value, inserted,
    is_field, lemma_inspected_is_slot, lemma_rank, lemma_variable_of, load_list_value,
    try_build_value,
};

verus! {

/// Whether `order` names slots only.
pub open spec fn in_range(slots: Seq<SlotView>, order: Seq<int>) -> bool {
    forall|j: int| 0 <= j < order.len() ==> 0 <= #[trigger] order[j] < slots.len()
}

/// After a run of insertions, each under the key of another slot, the field
/// of a slot holds the value inserted for it, and is absent if nothing was.
pub proof fn lemma_inserted_field<V>(
    slots: Seq<SlotView>,
    order: Seq<int>,
    values: Seq<V>,
    i: int,
)
    requires
        distinct_fields(slots),
        in_range(slots, order),
        order.no_duplicates(),
        values.len() == order.len(),
        0 <= i < slots.len(),
    ensures
        inserted(slots, order, values).dom().contains(slots[i].field),
        forall|j: int|
            0 <= j < order.len() && order[j] == i ==> inserted(slots, order, values)[slots[i].field]
                == Some(values[j]),
        !order.contains(i) ==> inserted(slots, order, values)[slots[i].field] is None,
    decreases order.len(),
{
    if order.len() == 0 {
        assert(is_field(slots, slots[i].field));
    } else {
        let last = order.last();
        let earlier = order.drop_last();
        let before = inserted(slots, earlier, values.drop_last());
        assert(0 <= last < slots.len());
        assert(in_range(slots, earlier)) by {
            assert forall|j: int| 0 <= j < earlier.len() implies 0 <= #[trigger] earlier[j]
                < slots.len() by {
                assert(earlier[j] == order[j]);
            }
        }
        assert(earlier.no_duplicates());
        lemma_inserted_field(slots, earlier, values.drop_last(), i);
        lemma_rank(slots, last);
        assert(inserted(slots, order, values) == before.insert(
            slots[last].field,
            Some(values.last()),
        ));
        if i == last {
            assert forall|j: int| 0 <= j < order.len() && order[j] == i implies j == order.len()
                - 1 by {}
        } else {
            assert(slots[i].field != slots[last].field);
            assert forall|j: int| 0 <= j < order.len() && order[j] == i implies before[slots[i].field]
                == Some(values[j]) by {
                assert(j < earlier.len());
                assert(earlier[j] == i);
                assert(values.drop_last()[j] == values[j]);
            }
            if !order.contains(i) {
                assert(!earlier.contains(i)) by {
                    if earlier.contains(i) {
                        let j = choose|j: int| 0 <= j < earlier.len() && earlier[j] == i;
                        assert(order[j] == i);
                    }
                }
            }
        }
    }
}

/// Of two slots of one kind, the later one has more slots of that kind
/// before it.
proof fn lemma_rank_grows(slots: Seq<SlotView>, i: int, j: int)
    requires
        0 <= i < j < slots.len(),
        slots[i].t == slots[j].t,
    ensures
        rank(slots, i) < rank(slots, j),
{
    let p = has_kind(slots[i].t);
    let upto = slots.take(i + 1);
    assert(upto =~= slots.take(i).push(slots[i]));
    slots.take(i).lemma_filter_push(slots[i], p);
    assert(upto =~= slots.take(j).take(i + 1));
    slots.take(j).lemma_filter_take_len(p, i + 1);
}

/// The completion check fits together: its pattern has one variable for
/// each field that it inspects, textures first, numbered from zero without a
/// gap; the finished record has one field per slot; and no two of its fields
/// are bound to the same variable.
pub proof fn lemma_one_variable_per_slot(slots: Seq<SlotView>)
    ensures
        pattern_variables(0, of_kind(slots, AssetType::Texture).len()).len() == inspected_fields(
            slots,
            AssetType::Texture,
        ).len(),
        pattern_variables(
            of_kind(slots, AssetType::Texture).len(),
            of_kind(slots, AssetType::Texture).len() + of_kind(slots, AssetType::Sound).len(),
        ).len() == inspected_fields(slots, AssetType::Sound).len(),
        record_bindings(slots).len() == slots.len(),
        inspected(slots).len() == slots.len(),
        forall|i: int| 0 <= i < slots.len() ==> #[trigger] variable_of(slots, i) < slots.len(),
        forall|i: int, j: int|
            0 <= i < slots.len() && 0 <= j < slots.len() && i != j ==> variable_of(slots, i)
                != variable_of(slots, j),
{
    lemma_kinds_partition(slots);
    assert forall|i: int| 0 <= i < slots.len() implies #[trigger] variable_of(slots, i)
        < slots.len() by {
        lemma_variable_of(slots, i);
    }
    assert forall|i: int, j: int|
        0 <= i < slots.len() && 0 <= j < slots.len() && i != j implies variable_of(slots, i)
        != variable_of(slots, j) by {
        lemma_rank(slots, i);
        lemma_rank(slots, j);
        if slots[i].t == slots[j].t {
            if i < j {
                lemma_rank_grows(slots, i, j);
            } else {
                lemma_rank_grows(slots, j, i);
            }
        }
    }
}

/// Starting from the initial builder, inserting a value under the key of
/// every slot, each once and in any order, gives a builder from which the
/// completion check builds the pack, and every field of that pack holds the
/// value that was inserted for it.
pub proof fn lemma_complete_after_every_insertion<V>(
    slots: Seq<SlotView>,
    order: Seq<int>,
    values: Seq<V>,
)
    requires
        distinct_fields(slots),
        in_range(slots, order),
        order.no_duplicates(),
        forall|i: int| 0 <= i < slots.len() ==> order.contains(i),
        values.len() == order.len(),
    ensures
        try_build_value(slots, inserted(slots, order, values)) is Some,
        try_build_value(slots, inserted(slots, order, values))->0.len() == slots.len(),
        forall|j: int|
            0 <= j < order.len() ==> try_build_value(slots, inserted(slots, order, values))->0[order[j]]
                == values[j],
{
    let builder = inserted(slots, order, values);
    assert forall|j: int| 0 <= j < inspected(slots).len() implies (#[trigger] builder[inspected(
        slots,
    )[j].field]) is Some by {
        let i = lemma_inspected_is_slot(slots, j);
        lemma_inserted_field(slots, order, values, i);
        assert(order.contains(i));
        let step = choose|step: int| 0 <= step < order.len() && order[step] == i;
        assert(builder[slots[i].field] == Some(values[step]));
    }
    assert(all_present(slots, builder));
    let pack = try_build_value(slots, builder)->0;
    assert forall|j: int| 0 <= j < order.len() implies pack[order[j]] == values[j] by {
        let i = order[j];
        lemma_variable_of(slots, i);
        lemma_inserted_field(slots, order, values, i);
    }
}

/// Where the insertion for one slot is left out, the completion check gives
/// nothing, whatever was inserted for the other slots.
pub proof fn lemma_incomplete_without_one_insertion<V>(
    slots: Seq<SlotView>,
    order: Seq<int>,
    values: Seq<V>,
    missing: int,
)
    requires
        distinct_fields(slots),
        in_range(slots, order),
        order.no_duplicates(),
        values.len() == order.len(),
        0 <= missing < slots.len(),
        !order.contains(missing),
    ensures
        try_build_value(slots, inserted(slots, order, values)) is None,
{
    let builder = inserted(slots, order, values);
    lemma_inserted_field(slots, order, values, missing);
    lemma_variable_of(slots, missing);
    let j = variable_of(slots, missing) as int;
    assert(builder[inspected(slots)[j].field] is None);
}

/// Each of the key type, the insertion function, the getter and the load list
/// of a kind has as many entries as there are slots of that kind, and its
/// entries are written from those slots in order, one from each.
pub proof fn lemma_one_entry_per_slot(slots: Seq<SlotView>, t: AssetType)
    ensures
        key_variants(slots, t).len() == of_kind(slots, t).len(),
        insert_branches(slots, t).len() == of_kind(slots, t).len(),
        getter_branches(slots, t).len() == of_kind(slots, t).len(),
        load_entries(slots, t).len() == of_kind(slots, t).len(),
        forall|k: int|
            0 <= k < of_kind(slots, t).len() ==> {
                let s = #[trigger] of_kind(slots, t)[k];
                &&& s.t == t
                &&& key_variants(slots, t)[k] == s.name
                &&& insert_branches(slots, t)[k] == s.name + insert_opening(t) + s.field
                    + insert_closing(t)
                &&& getter_branches(slots, t)[k] == s.name + getter_arrow(t) + s.field
                &&& load_entries(slots, t)[k] == match t {
                    AssetType::Texture => "(\""@ + s.path + "\","@ + s.name + ")"@,
                    AssetType::Sound => "("@ + s.name + ",\""@ + s.path + "\")"@,
                }
            },
{
    assert forall|k: int| 0 <= k < of_kind(slots, t).len() implies (#[trigger] of_kind(
        slots,
        t,
    )[k]).t == t by {
        slots.lemma_filter_pred(has_kind(t), k);
    }
}

/// Every slot has its entry in the key type, the insertion function, the
/// getter and the load list of its kind: the entry whose number is the
/// number of slots of that kind before it.
pub proof fn lemma_entry_of_slot(slots: Seq<SlotView>, i: int)
    requires
        0 <= i < slots.len(),
    ensures
        rank(slots, i) < of_kind(slots, slots[i].t).len(),
        of_kind(slots, slots[i].t)[rank(slots, i) as int] == slots[i],
        key_variants(slots, slots[i].t)[rank(slots, i) as int] == slots[i].name,
        insert_branches(slots, slots[i].t)[rank(slots, i) as int] == slots[i].name
            + insert_opening(slots[i].t) + slots[i].field + insert_closing(slots[i].t),
        getter_branches(slots, slots[i].t)[rank(slots, i) as int] == slots[i].name + getter_arrow(
            slots[i].t,
        ) + slots[i].field,
{
    lemma_rank(slots, i);
}

/// Every slot is loaded under its key from its stored path, put between the
/// directory and the extension of its kind.
pub proof fn lemma_load_path_of_slot(slots: Seq<SlotView>, i: int)
    requires
        0 <= i < slots.len(),
    ensures
        rank(slots, i) < load_list_value(slots, slots[i].t).len(),
        load_list_value(slots, slots[i].t)[rank(slots, i) as int] == (
            load_directory(slots[i].t) + slots[i].path + load_extension(slots[i].t),
            slots[i].name,
        ),
{
    lemma_rank(slots, i);
}

/// Where no two slots have the same name, no two variants of a key type are
/// the same, so that a key has one entry only.
pub proof fn lemma_keys_distinct(slots: Seq<SlotView>, t: AssetType)
    requires
        distinct_names(slots),
    ensures
        key_variants(slots, t).no_duplicates(),
    decreases slots.len(),
{
    reveal(Seq::filter);
    if slots.len() > 0 {
        let rest = slots.drop_last();
        let last = slots.last();
        assert(distinct_names(rest)) by {
            assert forall|i: int, j: int|
                0 <= i < rest.len() && 0 <= j < rest.len() && i != j implies rest[i].name
                != rest[j].name by {
                assert(rest[i] == slots[i] && rest[j] == slots[j]);
            }
        }
        lemma_keys_distinct(rest, t);
        if last.t == t {
            let kept = of_kind(rest, t);
            assert(of_kind(slots, t) == kept.push(last));
            assert forall|k: int| 0 <= k < kept.len() implies kept[k].name != last.name by {
                assert(kept.contains(kept[k]));
                rest.lemma_filter_contains_rev(has_kind(t), kept[k]);
                let i = choose|i: int| 0 <= i < rest.len() && rest[i] == kept[k];
                assert(slots[i] == rest[i]);
                assert(slots[slots.len() - 1] == last);
            }
            assert forall|a: int, b: int|
                0 <= a < key_variants(slots, t).len() && 0 <= b < key_variants(slots, t).len() && a
                    != b implies key_variants(slots, t)[a] != key_variants(slots, t)[b] by {
                if a < kept.len() && b < kept.len() {
                    assert(key_variants(rest, t)[a] != key_variants(rest, t)[b]);
                }
            }
        } else {
            assert(of_kind(slots, t) == of_kind(rest, t));
        }
    }
}

/// The builder pack and the finished pack have the same fields, in the same
/// order: those of the slots. The initial builder has exactly these fields.
pub proof fn lemma_field_parity(slots: Seq<SlotView>)
    ensures
        field_names(builder_pack(slots)) == field_names(complete_pack(slots)),
        field_names(builder_pack(slots)).to_set() == field_names(complete_pack(slots)).to_set(),
        field_names(complete_pack(slots)) == slots.map_values(|s: SlotView| s.field),
        initial_builder_value::<int>(slots).dom() == field_names(builder_pack(slots)).to_set(),
{
    let names = slots.map_values(|s: SlotView| s.field);
    assert(field_names(builder_pack(slots)) =~= names);
    assert(field_names(complete_pack(slots)) =~= names);
    assert forall|f: Seq<char>| is_field(slots, f) <==> names.to_set().contains(f) by {
        if is_field(slots, f) {
            let i = choose|i: int| 0 <= i < slots.len() && #[trigger] slots[i].field == f;
            assert(names[i] == f);
        }
        if names.to_set().contains(f) {
            let i = choose|i: int| 0 <= i < names.len() && names[i] == f;
            assert(slots[i].field == f);
        }
    }
    assert(initial_builder_value::<int>(slots).dom() =~= names.to_set());
}

/// The module is a function of the manifest: manifests that list the same
/// assets in the same order give the same text.
pub proof fn lemma_same_manifest_same_module(first: Seq<Asset>, second: Seq<Asset>)
    requires
        manifest_view(first) == manifest_view(second),
    ensures
        module_text(slots_of(manifest_view(first))) == module_text(
            slots_of(manifest_view(second)),
        ),
{
}

/// Whether the slots list every texture before every sound.
pub open spec fn textures_first(slots: Seq<SlotView>) -> bool {
    forall|i: int, j: int|
        0 <= i < j < slots.len() && slots[i].t == AssetType::Sound ==> slots[j].t
            == AssetType::Sound
}

/// A sequence whose slots are all of kind `t` is kept whole by the selection
/// of that kind, and wholly dropped by the selection of the other kind.
proof fn lemma_single_kind(slots: Seq<SlotView>, t: AssetType, other: AssetType)
    requires
        forall|i: int| 0 <= i < slots.len() ==> (#[trigger] slots[i]).t == t,
        other != t,
    ensures
        of_kind(slots, t) == slots,
        of_kind(slots, other).len() == 0,
    decreases slots.len(),
{
    reveal(Seq::filter);
    if slots.len() > 0 {
        let rest = slots.drop_last();
        assert forall|i: int| 0 <= i < rest.len() implies (#[trigger] rest[i]).t == t by {
            assert(rest[i] == slots[i]);
        }
        lemma_single_kind(rest, t, other);
        assert(slots.last() == slots[slots.len() - 1]);
        assert(rest.push(slots.last()) =~= slots);
    } else {
        assert(of_kind(slots, t) =~= slots);
    }
}

/// Where every texture is listed before every sound, the variable of a slot
/// has the number of the slot's place in the list.
pub proof fn lemma_variable_is_place(slots: Seq<SlotView>, i: int)
    requires
        textures_first(slots),
        0 <= i < slots.len(),
    ensures
        variable_of(slots, i) == i,
{
    let before = slots.take(i);
    let after = slots.skip(i);
    assert(before + after =~= slots);
    Seq::filter_distributes_over_add(before, after, has_kind(AssetType::Texture));
    crate::model::lemma_kinds_partition(before);
    match slots[i].t {
        AssetType::Texture => {
            assert forall|k: int| 0 <= k < before.len() implies (#[trigger] before[k]).t
                == AssetType::Texture by {
                assert(before[k] == slots[k]);
            }
            lemma_single_kind(before, AssetType::Texture, AssetType::Sound);
        },
        AssetType::Sound => {
            assert forall|k: int| 0 <= k < after.len() implies (#[trigger] after[k]).t
                == AssetType::Sound by {
                assert(after[k] == slots[i + k]);
            }
            lemma_single_kind(after, AssetType::Sound, AssetType::Texture);
        },
    }
}

} // verus!
