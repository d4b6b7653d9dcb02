//! The mathematical content of a component register and the facts about it that the
//! register's operations rely on.

use std::any::TypeId;
use vstd::prelude::*;

verus! {

/// One registered slot: the key's bytes and the Rust type registered under it.
pub type Slot = (Seq<u8>, TypeId);

/// What a register holds: its slots in registration order, and the component id that the
/// slot at the same position was given.
pub struct RegisterModel {
    pub slots: Seq<Slot>,
    pub ids: Seq<usize>,
}

/// The ids of the slots whose type is `ty`, in registration order.
pub open spec fn ids_of_type_in(slots: Seq<Slot>, ids: Seq<usize>, ty: TypeId) -> Seq<usize>
    decreases slots.len(),
{
    if slots.len() == 0 || ids.len() == 0 {
        Seq::empty()
    } else {
        let rest = ids_of_type_in(slots.drop_last(), ids.drop_last(), ty);
        if slots.last().1 == ty {
            rest.push(ids.last())
        } else {
            rest
        }
    }
}

impl RegisterModel {
    /// The empty register.
    pub open spec fn empty() -> Self {
        RegisterModel { slots: Seq::empty(), ids: Seq::empty() }
    }

    /// Every slot has one id, no slot is registered twice, and no id is given twice.
    pub open spec fn wf(self) -> bool {
        &&& self.slots.len() == self.ids.len()
        &&& self.slots.no_duplicates()
        &&& self.ids.no_duplicates()
    }

    pub open spec fn contains_slot(self, key: Seq<u8>, ty: TypeId) -> bool {
        self.slots.contains((key, ty))
    }

    /// The id registered for the slot `(key, ty)` (meaningful when the slot is present).
    pub open spec fn slot_id(self, key: Seq<u8>, ty: TypeId) -> usize {
        self.ids[self.slots.index_of((key, ty))]
    }

    pub open spec fn contains_id(self, id: usize) -> bool {
        self.ids.contains(id)
    }

    /// The slot that was given `id` (meaningful when the id is present).
    pub open spec fn slot_of(self, id: usize) -> Slot {
        self.slots[self.ids.index_of(id)]
    }

    /// Some slot of type `ty` is registered.
    pub open spec fn has_type(self, ty: TypeId) -> bool {
        exists|i: int| 0 <= i < self.slots.len() && #[trigger] self.slots[i].1 == ty
    }

    /// The ids registered for type `ty`, in registration order.
    pub open spec fn ids_of_type(self, ty: TypeId) -> Seq<usize> {
        ids_of_type_in(self.slots, self.ids, ty)
    }

    /// The register after asking for the slot `(key, ty)` when a new slot would be given
    /// `id`: unchanged if the slot is present, else with the slot and `id` appended.
    pub open spec fn register(self, key: Seq<u8>, ty: TypeId, id: usize) -> Self {
        if self.contains_slot(key, ty) {
            self
        } else {
            RegisterModel { slots: self.slots.push((key, ty)), ids: self.ids.push(id) }
        }
    }
}

/// In a sequence without duplicates, an element's position is the one `index_of` names.
pub proof fn lemma_index_of_unique<A>(s: Seq<A>, i: int)
    requires
        s.no_duplicates(),
        0 <= i < s.len(),
    ensures
        s.contains(s[i]),
        s.index_of(s[i]) == i,
{
    assert(s.contains(s[i]));
    let j = s.index_of(s[i]);
    assert(0 <= j < s.len() && s[j] == s[i]);
}

/// Appending an element that is not yet present keeps a sequence free of duplicates.
pub proof fn lemma_push_no_duplicates<A>(s: Seq<A>, x: A)
    requires
        s.no_duplicates(),
        !s.contains(x),
    ensures
        s.push(x).no_duplicates(),
{
    let t = s.push(x);
    assert forall|i: int, j: int| 0 <= i < t.len() && 0 <= j < t.len() && i != j implies t[i]
        != t[j] by {
        if i == s.len() {
            assert(t[j] == s[j]);
        } else if j == s.len() {
            assert(t[i] == s[i]);
        }
    }
}

/// An id lies in the per-type list of `ty` exactly when it was given to a slot of type `ty`.
pub proof fn lemma_ids_of_type_members(slots: Seq<Slot>, ids: Seq<usize>, ty: TypeId, id: usize)
    requires
        slots.len() == ids.len(),
    ensures
        ids_of_type_in(slots, ids, ty).contains(id) <==> exists|i: int|
            0 <= i < slots.len() && #[trigger] ids[i] == id && slots[i].1 == ty,
    decreases slots.len(),
{
    if slots.len() == 0 {
    } else {
        let rest = ids_of_type_in(slots.drop_last(), ids.drop_last(), ty);
        lemma_ids_of_type_members(slots.drop_last(), ids.drop_last(), ty, id);
        let n = slots.len() - 1;
        if exists|i: int| 0 <= i < slots.len() && #[trigger] ids[i] == id && slots[i].1 == ty {
            let i = choose|i: int| 0 <= i < slots.len() && #[trigger] ids[i] == id && slots[i].1 == ty;
            if i < n {
                assert(ids.drop_last()[i] == id && slots.drop_last()[i].1 == ty);
                assert(rest.contains(id));
                if slots.last().1 == ty {
                    let k = rest.index_of(id);
                    assert(rest.push(ids.last())[k] == id);
                }
            } else {
                assert(slots.last().1 == ty);
                assert(rest.push(ids.last())[rest.len() as int] == id);
            }
        }
        if ids_of_type_in(slots, ids, ty).contains(id) {
            if slots.last().1 == ty {
                let full = rest.push(ids.last());
                let k = full.index_of(id);
                if k < rest.len() {
                    assert(rest[k] == id);
                    assert(rest.contains(id));
                    let i = choose|i: int| 0 <= i < n && #[trigger] ids.drop_last()[i] == id && slots.drop_last()[i].1 == ty;
                    assert(ids[i] == id && slots[i].1 == ty);
                } else {
                    assert(ids[n] == id && slots[n].1 == ty);
                }
            } else {
                let i = choose|i: int| 0 <= i < n && #[trigger] ids.drop_last()[i] == id && slots.drop_last()[i].1 == ty;
                assert(ids[i] == id && slots[i].1 == ty);
            }
        }
    }
}

/// Appending a slot extends the list of its type by its id and leaves the other lists alone.
pub proof fn lemma_ids_of_type_push(
    slots: Seq<Slot>,
    ids: Seq<usize>,
    slot: Slot,
    id: usize,
    ty: TypeId,
)
    requires
        slots.len() == ids.len(),
    ensures
        ids_of_type_in(slots.push(slot), ids.push(id), ty) == (if slot.1 == ty {
            ids_of_type_in(slots, ids, ty).push(id)
        } else {
            ids_of_type_in(slots, ids, ty)
        }),
{
    assert(slots.push(slot).drop_last() =~= slots);
    assert(ids.push(id).drop_last() =~= ids);
}

} // verus!
