//! What holds of a register across calls: asking twice for a slot changes nothing the
//! second time, a slot's id leads back to the slot, other slots are untouched, and the
//! per-type lists grow in registration order.

use crate::model::{
    lemma_ids_of_type_members, lemma_ids_of_type_push, lemma_index_of_unique,
    lemma_push_no_duplicates, RegisterModel,
};
use std::any::TypeId;
use vstd::prelude::*;

verus! {

/// Asking for a slot a second time returns the register unchanged, whatever id a new slot
/// would have been given.
pub proof fn law_register_idempotent(m: RegisterModel, key: Seq<u8>, ty: TypeId, id1: usize, id2: usize)
    ensures
        m.register(key, ty, id1).register(key, ty, id2) == m.register(key, ty, id1),
{
    let m1 = m.register(key, ty, id1);
    if !m.contains_slot(key, ty) {
        assert(m1.slots[m.slots.len() as int] == (key, ty));
        assert(m1.contains_slot(key, ty));
    }
}

/// After asking for a slot with a fresh id, the register is still well formed, the slot is
/// present, its id is the old one or else the fresh one, and that id leads back to the slot.
pub proof fn law_register_then_lookup(m: RegisterModel, key: Seq<u8>, ty: TypeId, id: usize)
    requires
        m.wf(),
        !m.contains_id(id),
    ensures
        ({
            let m1 = m.register(key, ty, id);
            let got = if m.contains_slot(key, ty) {
                m.slot_id(key, ty)
            } else {
                id
            };
            &&& m1.wf()
            &&& m1.contains_slot(key, ty)
            &&& m1.slot_id(key, ty) == got
            &&& m1.contains_id(got)
            &&& m1.slot_of(got) == (key, ty)
        }),
{
    let m1 = m.register(key, ty, id);
    if m.contains_slot(key, ty) {
        let i = m.slots.index_of((key, ty));
        lemma_index_of_unique(m.ids, i);
    } else {
        lemma_push_no_duplicates(m.slots, (key, ty));
        lemma_push_no_duplicates(m.ids, id);
        let n = m.slots.len() as int;
        assert(m1.slots[n] == (key, ty));
        lemma_index_of_unique(m1.slots, n);
        assert(m1.ids[n] == id);
        lemma_index_of_unique(m1.ids, n);
    }
}

/// Asking for one slot leaves every other slot, and the id it has, as it was.
pub proof fn law_register_keeps_other_slots(
    m: RegisterModel,
    key: Seq<u8>,
    ty: TypeId,
    id: usize,
    other_key: Seq<u8>,
    other_ty: TypeId,
)
    requires
        m.wf(),
        (other_key, other_ty) != (key, ty),
    ensures
        m.register(key, ty, id).contains_slot(other_key, other_ty) == m.contains_slot(
            other_key,
            other_ty,
        ),
        m.contains_slot(other_key, other_ty) ==> m.register(key, ty, id).slot_id(other_key, other_ty)
            == m.slot_id(other_key, other_ty),
{
    let m1 = m.register(key, ty, id);
    if !m.contains_slot(key, ty) {
        let n = m.slots.len() as int;
        if m1.contains_slot(other_key, other_ty) {
            let i = m1.slots.index_of((other_key, other_ty));
            assert(i != n);
            assert(m.slots[i] == (other_key, other_ty));
        }
        if m.contains_slot(other_key, other_ty) {
            let i = m.slots.index_of((other_key, other_ty));
            assert(m1.slots[i] == (other_key, other_ty));
            lemma_push_no_duplicates(m.slots, (key, ty));
            lemma_index_of_unique(m1.slots, i);
        }
    }
}

/// The list of a type grows by the new id when a new slot of that type is registered, and
/// stays as it was otherwise: ids of a type are listed in registration order.
pub proof fn law_type_list_in_registration_order(
    m: RegisterModel,
    key: Seq<u8>,
    ty: TypeId,
    id: usize,
    list_ty: TypeId,
)
    requires
        m.wf(),
    ensures
        m.register(key, ty, id).ids_of_type(list_ty) == (if !m.contains_slot(key, ty) && ty
            == list_ty {
            m.ids_of_type(list_ty).push(id)
        } else {
            m.ids_of_type(list_ty)
        }),
{
    if !m.contains_slot(key, ty) {
        lemma_ids_of_type_push(m.slots, m.ids, (key, ty), id, list_ty);
    }
}

/// An id is listed under a type exactly when it was given to a slot of that type.
pub proof fn law_type_list_members(m: RegisterModel, ty: TypeId, id: usize)
    requires
        m.wf(),
    ensures
        m.ids_of_type(ty).contains(id) <==> (m.contains_id(id) && m.slot_of(id).1 == ty),
{
    lemma_ids_of_type_members(m.slots, m.ids, ty, id);
    if m.contains_id(id) {
        let i = m.ids.index_of(id);
        lemma_index_of_unique(m.ids, i);
    }
    if exists|i: int| 0 <= i < m.slots.len() && #[trigger] m.ids[i] == id && m.slots[i].1 == ty {
        let i = choose|i: int| 0 <= i < m.slots.len() && #[trigger] m.ids[i] == id && m.slots[i].1 == ty;
        lemma_index_of_unique(m.ids, i);
    }
}

/// Two different registered slots have different ids.
pub proof fn law_distinct_slots_distinct_ids(
    m: RegisterModel,
    key1: Seq<u8>,
    ty1: TypeId,
    key2: Seq<u8>,
    ty2: TypeId,
)
    requires
        m.wf(),
        m.contains_slot(key1, ty1),
        m.contains_slot(key2, ty2),
        (key1, ty1) != (key2, ty2),
    ensures
        m.slot_id(key1, ty1) != m.slot_id(key2, ty2),
{
    let i = m.slots.index_of((key1, ty1));
    let j = m.slots.index_of((key2, ty2));
    assert(i != j);
}

/// A type has a list of ids exactly when some slot of that type is registered, which is
/// exactly when that list is not empty.
pub proof fn law_has_type_iff_registered(m: RegisterModel, ty: TypeId)
    requires
        m.wf(),
    ensures
        m.has_type(ty) <==> exists|k: Seq<u8>| #[trigger] m.contains_slot(k, ty),
        m.has_type(ty) <==> m.ids_of_type(ty).len() > 0,
{
    if m.has_type(ty) {
        let i = choose|i: int| 0 <= i < m.slots.len() && #[trigger] m.slots[i].1 == ty;
        let k = m.slots[i].0;
        assert(m.slots[i] == (k, ty));
        assert(m.contains_slot(k, ty));
        let id = m.ids[i];
        lemma_index_of_unique(m.ids, i);
        law_type_list_members(m, ty, id);
        assert(m.ids_of_type(ty).contains(id));
    }
    if exists|k: Seq<u8>| #[trigger] m.contains_slot(k, ty) {
        let k = choose|k: Seq<u8>| #[trigger] m.contains_slot(k, ty);
        let i = m.slots.index_of((k, ty));
        assert(m.slots[i].1 == ty);
    }
    if m.ids_of_type(ty).len() > 0 {
        let x = m.ids_of_type(ty)[0];
        assert(m.ids_of_type(ty).contains(x));
        law_type_list_members(m, ty, x);
        let i = m.ids.index_of(x);
        assert(m.slots[i].1 == ty);
    }
}

/// After a slot of type `ty` is asked for, `ty` has a list of ids, and the slot's id is on it,
/// even when the slot is the only one of its type.
pub proof fn law_register_lists_the_type(m: RegisterModel, key: Seq<u8>, ty: TypeId, id: usize)
    requires
        m.wf(),
        !m.contains_id(id),
    ensures
        ({
            let m1 = m.register(key, ty, id);
            let got = if m.contains_slot(key, ty) {
                m.slot_id(key, ty)
            } else {
                id
            };
            &&& m1.has_type(ty)
            &&& m1.ids_of_type(ty).contains(got)
            &&& m1.ids_of_type(ty).len() > 0
        }),
{
    let m1 = m.register(key, ty, id);
    let got = if m.contains_slot(key, ty) {
        m.slot_id(key, ty)
    } else {
        id
    };
    law_register_then_lookup(m, key, ty, id);
    law_type_list_members(m1, ty, got);
    law_has_type_iff_registered(m1, ty);
}

} // verus!
