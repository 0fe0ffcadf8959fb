//! From asset names to record field names.
//!
//! The key of an asset is its name as written in the manifest; the field that
//! holds it in the pack is the same name in camel case. The conversion is the
//! `inflector` crate's, so the field names agree with what that crate gives
//! every other user of it.

use vstd::prelude::*;
use crate::manifest::{Asset, AssetType, AssetView, Input, manifest_view};

verus! {

/// The camel-case form that `inflector` gives a name.
pub uninterp spec fn camel_case_of(name: Seq<char>) -> Seq<char>;

/// Whether a name is short enough to be converted on this machine: the
/// conversion reserves twice the name's length in bytes, and a character
/// takes at most four bytes.
pub open spec fn name_fits(name: Seq<char>) -> bool {
    name.len() * 8 <= isize::MAX
}

/// Whether every name of the manifest is short enough to be converted.
pub open spec fn names_fit(manifest: Seq<AssetView>) -> bool {
    forall|i: int| 0 <= i < manifest.len() ==> name_fits(#[trigger] manifest[i].name)
}

/// Tells whether every name of the manifest is short enough to be converted.
pub fn names_short_enough(input: &Input) -> (ok: bool)
    ensures
        ok == names_fit(manifest_view(input@)),
{
    let limit: usize = (isize::MAX as usize) / 8;
    let mut i: usize = 0;
    while i < input.len()
        invariant
            i <= input.len(),
            limit == (isize::MAX as usize) / 8,
            forall|k: int| 0 <= k < i ==> name_fits(#[trigger] manifest_view(input@)[k].name),
        decreases input.len() - i,
    {
        if input[i].name.as_str().unicode_len() > limit {
            assert(!name_fits(manifest_view(input@)[i as int].name));
            return false;
        }
        i += 1;
    }
    true
}

/// Calls `inflector::cases::camelcase::to_camel_case`, which is what
/// `Inflector::to_camel_case` does for `str` and `String`.
///
/// Trusted: the result is a function of the name's characters alone, named
/// `camel_case_of`. The only failure in the crate's source is the allocation
/// of twice the name's byte length, which `name_fits` rules out.
#[verifier::external_body]
pub(crate) fn to_camel_case(name: &str) -> (field: String)
    requires
        name_fits(name@),
    ensures
        field@ == camel_case_of(name@),
{
    inflector::cases::camelcase::to_camel_case(name)
}

/// One asset with the name of the record field that holds it.
#[derive(Debug)]
pub struct Slot {
    pub t: AssetType,
    pub name: String,
    pub path: String,
    pub field: String,
}

/// What a slot is, as plain values.
pub struct SlotView {
    pub t: AssetType,
    pub name: Seq<char>,
    pub path: Seq<char>,
    pub field: Seq<char>,
}

impl View for Slot {
    type V = SlotView;

    open spec fn view(&self) -> SlotView {
        SlotView { t: self.t, name: self.name@, path: self.path@, field: self.field@ }
    }
}

/// The slots as a sequence of slot views, in order.
pub open spec fn slots_view(slots: Seq<Slot>) -> Seq<SlotView> {
    Seq::new(slots.len(), |i: int| slots[i]@)
}

/// The slot of an asset whose field has the given name.
pub open spec fn slot_with_field(asset: AssetView, field: Seq<char>) -> SlotView {
    SlotView { t: asset.t, name: asset.name, path: asset.path, field: field }
}

/// The slot of an asset: its field is named by the asset's name in camel case.
pub open spec fn slot_of(asset: AssetView) -> SlotView {
    slot_with_field(asset, camel_case_of(asset.name))
}

/// The slots of a manifest, one per asset, in manifest order.
pub open spec fn slots_of(manifest: Seq<AssetView>) -> Seq<SlotView> {
    Seq::new(manifest.len(), |i: int| slot_of(manifest[i]))
}

/// Pairs an asset with the name of its field.
pub fn make_slot(asset: &Asset, field: String) -> (slot: Slot)
    ensures
        slot@ == slot_with_field(asset@, field@),
{
    Slot { t: asset.t, name: asset.name.clone(), path: asset.path.clone(), field }
}

/// Gives every asset of the manifest its slot.
pub fn resolve(input: &Input) -> (slots: Vec<Slot>)
    requires
        names_fit(manifest_view(input@)),
    ensures
        slots_view(slots@) == slots_of(manifest_view(input@)),
{
    let mut slots: Vec<Slot> = Vec::new();
    let mut i: usize = 0;
    while i < input.len()
        invariant
            i <= input.len(),
            names_fit(manifest_view(input@)),
            slots@.len() == i,
            forall|k: int| 0 <= k < i ==> (#[trigger] slots@[k])@ == slot_of(input@[k]@),
        decreases input.len() - i,
    {
        let asset = &input[i];
        assert(name_fits(manifest_view(input@)[i as int].name));
        let field = to_camel_case(asset.name.as_str());
        slots.push(make_slot(asset, field));
        i += 1;
    }
    assert(slots_view(slots@) =~= slots_of(manifest_view(input@)));
    slots
}

} // verus!
