//! Finding assets that cannot share a module: two with the same name, or two
//! whose names give the same field.
//!
//! The generator writes a module for any slots. For slots that fail here the
//! module declares a key or a field twice.

use vstd::prelude::*;
use crate::naming::{Slot, SlotView, slots_view};
use crate::semantics::{distinct_fields, distinct_names};

verus! {

/// Why slots cannot share a module. `first` and `second` are the places of
/// the two slots that collide.
#[derive(Clone, Copy, Debug, PartialEq, Eq, Structural)]
pub enum ManifestError {
    /// The two slots have the same name.
    DuplicateName { first: usize, second: usize },
    /// The two slots have different names and the same field.
    DuplicateField { first: usize, second: usize },
}

/// Whether slots `i` and `j` have the same name or the same field.
pub open spec fn clash(slots: Seq<SlotView>, i: int, j: int) -> bool {
    slots[i].name == slots[j].name || slots[i].field == slots[j].field
}

/// Whether `second` is the first slot that collides with a slot before it,
/// and `first` is the first slot that it collides with.
pub open spec fn first_clash(slots: Seq<SlotView>, first: int, second: int) -> bool {
    &&& 0 <= first < second < slots.len()
    &&& clash(slots, first, second)
    &&& forall|i: int, j: int|
        0 <= i < j < slots.len() && (j < second || (j == second && i < first)) ==> !clash(
            slots,
            i,
            j,
        )
}

/// Accepts the slots if no two have the same name and no two have the same
/// field, and otherwise reports the first collision.
pub fn validate(slots: &Vec<Slot>) -> (result: Result<(), ManifestError>)
    ensures
        result is Ok <==> distinct_names(slots_view(slots@)) && distinct_fields(slots_view(slots@)),
        match result {
            Ok(_) => true,
            Err(ManifestError::DuplicateName { first, second }) => {
                &&& first_clash(slots_view(slots@), first as int, second as int)
                &&& slots@[first as int]@.name == slots@[second as int]@.name
            },
            Err(ManifestError::DuplicateField { first, second }) => {
                &&& first_clash(slots_view(slots@), first as int, second as int)
                &&& slots@[first as int]@.name != slots@[second as int]@.name
            },
        },
{
    let ghost all = slots_view(slots@);
    let mut j: usize = 0;
    while j < slots.len()
        invariant
            j <= slots.len(),
            all == slots_view(slots@),
            forall|a: int, b: int| 0 <= a < b < j ==> !clash(all, a, b),
        decreases slots.len() - j,
    {
        let mut i: usize = 0;
        while i < j
            invariant
                i <= j < slots.len(),
                all == slots_view(slots@),
                forall|a: int, b: int| 0 <= a < b < j ==> !clash(all, a, b),
                forall|a: int| 0 <= a < i ==> !clash(all, a, j as int),
            decreases j - i,
        {
            if slots[i].name == slots[j].name {
                assert(clash(all, i as int, j as int));
                return Err(ManifestError::DuplicateName { first: i, second: j });
            }
            if slots[i].field == slots[j].field {
                assert(clash(all, i as int, j as int));
                return Err(ManifestError::DuplicateField { first: i, second: j });
            }
            i += 1;
        }
        j += 1;
    }
    assert forall|a: int, b: int| 0 <= a < all.len() && 0 <= b < all.len() && a != b implies all[a].name
        != all[b].name && all[a].field != all[b].field by {
        if a < b {
            assert(!clash(all, a, b));
        } else {
            assert(!clash(all, b, a));
        }
    }
    Ok(())
}

} // verus!
