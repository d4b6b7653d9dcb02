//! The register of keyed component slots: which `(key, type)` pairs have been given a
//! component id, and which ids each type has.

use crate::key::{DefKey, Key};
use crate::model::{
    lemma_ids_of_type_members, lemma_ids_of_type_push, lemma_index_of_unique,
    lemma_push_no_duplicates, RegisterModel, Slot,
};
use crate::register_laws::{
    law_distinct_slots_distinct_ids, law_has_type_iff_registered, law_type_list_members, law_register_keeps_other_slots, law_register_then_lookup,
};
use crate::std_calls::boxed_bytes;
use crate::type_ids::same_type;
use std::any::TypeId;
use vstd::prelude::*;

verus! {

/// Byte-wise equality of two byte strings.
pub fn bytes_eq(a: &[u8], b: &[u8]) -> (res: bool)
    ensures
        res == (a@ == b@),
{
    if a.len() != b.len() {
        return false;
    }
    let mut i: usize = 0;
    while i < a.len()
        invariant
            a@.len() == b@.len(),
            0 <= i <= a@.len(),
            forall|j: int| 0 <= j < i ==> a@[j] == b@[j],
        decreases a@.len() - i,
    {
        if a[i] != b[i] {
            return false;
        }
        i = i + 1;
    }
    assert(a@ =~= b@);
    true
}

/// The register of keyed component slots.
///
/// Each `(key, type)` pair is given one component id the first time it is asked for; the
/// register remembers the pair, the id, and, per type, the ids of that type in the order
/// they were given.
pub struct DefineRegister {
    slots: Vec<(Key, TypeId)>,
    ids: Vec<usize>,
    type_tags: Vec<TypeId>,
    type_lists: Vec<Vec<usize>>,
}

/// A stored slot as the model sees it: the key's bytes and the type.
pub open spec fn slot_view(entry: (Key, TypeId)) -> Slot {
    (entry.0@, entry.1)
}

/// The model that stored slots and ids stand for.
spec fn model_of(slots: Seq<(Key, TypeId)>, ids: Seq<usize>) -> RegisterModel {
    RegisterModel { slots: slots.map_values(|e: (Key, TypeId)| slot_view(e)), ids }
}

/// The per-type lists agree with the slots and ids they were built from: one list per type
/// that has a slot, holding that type's ids in registration order.
spec fn parts_wf(
    slots: Seq<(Key, TypeId)>,
    ids: Seq<usize>,
    tags: Seq<TypeId>,
    lists: Seq<Vec<usize>>,
) -> bool {
    &&& model_of(slots, ids).wf()
    &&& tags.len() == lists.len()
    &&& tags.no_duplicates()
    &&& forall|j: int|
        0 <= j < tags.len() ==> #[trigger] lists[j]@ == model_of(slots, ids).ids_of_type(tags[j])
    &&& forall|ty: TypeId| #[trigger] model_of(slots, ids).has_type(ty) <==> tags.contains(ty)
}

impl View for DefineRegister {
    type V = RegisterModel;

    closed spec fn view(&self) -> RegisterModel {
        model_of(self.slots@, self.ids@)
    }
}

impl DefineRegister {
    /// The register's own bookkeeping agrees with what it holds.
    #[verifier::type_invariant]
    spec fn wf(&self) -> bool {
        parts_wf(self.slots@, self.ids@, self.type_tags@, self.type_lists@)
    }

    proof fn lemma_view_slot(&self, i: int)
        requires
            0 <= i < self.slots@.len(),
        ensures
            self@.slots[i] == (self.slots@[i].0@, self.slots@[i].1),
            self@.slots.len() == self.slots@.len(),
    {
    }

    /// An empty register.
    pub fn new() -> (res: Self)
        ensures
            res@.wf(),
            res@ == RegisterModel::empty(),
    {
        let res = DefineRegister {
            slots: Vec::new(),
            ids: Vec::new(),
            type_tags: Vec::new(),
            type_lists: Vec::new(),
        };
        assert(res@.slots =~= Seq::<Slot>::empty());
        res
    }

    /// The position of the slot `(key, ty)`, if it is registered.
    fn position(&self, key: &[u8], ty: &TypeId) -> (res: Option<usize>)
        requires
            self.wf(),
        ensures
            match res {
                Some(i) => i < self.slots@.len() && self@.contains_slot(key@, *ty)
                    && self@.slots.index_of((key@, *ty)) == i,
                None => !self@.contains_slot(key@, *ty),
            },
    {
        let mut i: usize = 0;
        while i < self.slots.len()
            invariant
                self.wf(),
                0 <= i <= self.slots@.len(),
                forall|j: int| 0 <= j < i ==> #[trigger] self@.slots[j] != (key@, *ty),
            decreases self.slots@.len() - i,
        {
            proof {
                self.lemma_view_slot(i as int);
            }
            if bytes_eq(&self.slots[i].0, key) && same_type(&self.slots[i].1, ty) {
                proof {
                    lemma_index_of_unique(self@.slots, i as int);
                }
                return Some(i);
            }
            i = i + 1;
        }
        None
    }

    /// The position of `id` among the given ids, if it was given.
    fn id_position(&self, id: usize) -> (res: Option<usize>)
        requires
            self.wf(),
        ensures
            match res {
                Some(i) => i < self.ids@.len() && self@.contains_id(id) && self@.ids.index_of(id)
                    == i,
                None => !self@.contains_id(id),
            },
    {
        let mut i: usize = 0;
        while i < self.ids.len()
            invariant
                self.wf(),
                0 <= i <= self.ids@.len(),
                forall|j: int| 0 <= j < i ==> #[trigger] self@.ids[j] != id,
            decreases self.ids@.len() - i,
        {
            if self.ids[i] == id {
                proof {
                    lemma_index_of_unique(self@.ids, i as int);
                }
                return Some(i);
            }
            i = i + 1;
        }
        None
    }

    /// The position of `ty` among the types that have a list.
    fn type_position(&self, ty: &TypeId) -> (res: Option<usize>)
        requires
            self.wf(),
        ensures
            match res {
                Some(j) => j < self.type_tags@.len() && self.type_tags@[j as int] == *ty,
                None => !self@.has_type(*ty),
            },
    {
        let mut j: usize = 0;
        while j < self.type_tags.len()
            invariant
                self.wf(),
                0 <= j <= self.type_tags@.len(),
                forall|k: int| 0 <= k < j ==> #[trigger] self.type_tags@[k] != *ty,
            decreases self.type_tags@.len() - j,
        {
            if same_type(&self.type_tags[j], ty) {
                return Some(j);
            }
            j = j + 1;
        }
        None
    }

    /// The component id registered for the slot `(key, type_id)`, if there is one.
    pub fn slot(&self, key: &[u8], type_id: TypeId) -> (res: Option<usize>)
        ensures
            self@.wf(),
            match res {
                Some(id) => self@.contains_slot(key@, type_id) && id == self@.slot_id(
                    key@,
                    type_id,
                ),
                None => !self@.contains_slot(key@, type_id),
            },
    {
        proof {
            use_type_invariant(self);
        }
        match self.position(key, &type_id) {
            Some(i) => Some(self.ids[i]),
            None => None,
        }
    }

    /// The key and type that were given the component id `id`, if any.
    pub fn find(&self, id: usize) -> (res: Option<(DefKey<0>, TypeId)>)
        ensures
            self@.wf(),
            match res {
                Some((key, ty)) => self@.contains_id(id) && self@.slot_of(id) == (key@, ty),
                None => !self@.contains_id(id),
            },
    {
        proof {
            use_type_invariant(self);
        }
        match self.id_position(id) {
            Some(i) => {
                proof {
                    self.lemma_view_slot(i as int);
                }
                let key = DefKey(boxed_bytes(&self.slots[i].0));
                Some((key, self.slots[i].1))
            },
            None => None,
        }
    }

    /// All registered slots, in registration order.
    pub fn keys(&self) -> (res: &[(Key, TypeId)])
        ensures
            self@.wf(),
            res@.map_values(|e: (Key, TypeId)| slot_view(e)) == self@.slots,
    {
        proof {
            use_type_invariant(self);
        }
        self.slots.as_slice()
    }

    /// The component ids registered for type `type_id`, in registration order, if any.
    pub fn type_ids(&self, type_id: TypeId) -> (res: Option<&Vec<usize>>)
        ensures
            self@.wf(),
            match res {
                Some(list) => self@.has_type(type_id) && list@ == self@.ids_of_type(type_id),
                None => !self@.has_type(type_id),
            },
    {
        proof {
            use_type_invariant(self);
        }
        match self.type_position(&type_id) {
            Some(j) => Some(&self.type_lists[j]),
            None => None,
        }
    }

    /// The component ids registered for type `type_id`, in registration order.
    pub fn types(&self, type_id: TypeId) -> (res: &Vec<usize>)
        requires
            self@.has_type(type_id),
        ensures
            self@.wf(),
            res@ == self@.ids_of_type(type_id),
    {
        proof {
            use_type_invariant(self);
        }
        let j: usize = self.type_position(&type_id).unwrap();
        &self.type_lists[j]
    }

    /// The component id of the slot `(key, type_id)`, registering the slot first if it is
    /// new.
    ///
    /// A new slot gets the id that `register` returns; `register` is called with the key
    /// only in that case, and is where the component is created in the world. The ids it
    /// can return must be new to this register.
    pub fn component(
        &mut self,
        key: Key,
        type_id: TypeId,
        register: impl FnOnce(&Key) -> usize,
    ) -> (res: (usize, TypeId))
        requires
            !old(self)@.contains_slot(key@, type_id) ==> call_requires(register, (&key,)),
            !old(self)@.contains_slot(key@, type_id) ==> forall|k: &Key, id: usize| #[trigger]
                call_ensures(register, (k,), id) ==> !old(self)@.contains_id(id),
        ensures
            final(self)@.wf(),
            res.1 == type_id,
            final(self)@.contains_slot(key@, type_id),
            final(self)@.slot_id(key@, type_id) == res.0,
            final(self)@.contains_id(res.0),
            final(self)@.slot_of(res.0) == (key@, type_id),
            final(self)@.has_type(type_id),
            final(self)@.ids_of_type(type_id).contains(res.0),
            forall|k: Seq<u8>, t: TypeId| #[trigger]
                old(self)@.contains_slot(k, t) ==> final(self)@.contains_slot(k, t)
                    && final(self)@.slot_id(k, t) == old(self)@.slot_id(k, t),
            forall|k: Seq<u8>, t: TypeId| #[trigger]
                final(self)@.contains_slot(k, t) && (k, t) != (key@, type_id)
                    ==> final(self)@.slot_id(k, t) != res.0,
            final(self)@ == old(self)@.register(key@, type_id, res.0),
            old(self)@.contains_slot(key@, type_id) ==> res.0 == old(self)@.slot_id(
                key@,
                type_id,
            ),
            !old(self)@.contains_slot(key@, type_id) ==> call_ensures(register, (&key,), res.0),
    {
        proof {
            use_type_invariant(&*self);
        }
        let ghost before = self@;
        let ghost k0 = key@;
        if let Some(i) = self.position(&key, &type_id) {
            let id: usize = self.ids[i];
            proof {
                self.lemma_after_register(before, k0, type_id, id);
            }
            return (id, type_id);
        }
        let id: usize = register(&key);
        self.insert_new(key, type_id, id);
        proof {
            self.lemma_after_register(before, k0, type_id, id);
        }
        (id, type_id)
    }

    /// What holds of the register after the slot `(key, ty)` was asked for and `id` came back.
    proof fn lemma_after_register(&self, before: RegisterModel, key: Seq<u8>, ty: TypeId, id: usize)
        requires
            before.wf(),
            self@ == before.register(key, ty, id),
            before.contains_slot(key, ty) ==> id == before.slot_id(key, ty),
            !before.contains_slot(key, ty) ==> !before.contains_id(id),
        ensures
            self@.wf(),
            self@.contains_slot(key, ty),
            self@.slot_id(key, ty) == id,
            self@.contains_id(id),
            self@.slot_of(id) == (key, ty),
            self@.has_type(ty),
            self@.ids_of_type(ty).contains(id),
            forall|k: Seq<u8>, t: TypeId| #[trigger]
                before.contains_slot(k, t) ==> self@.contains_slot(k, t) && self@.slot_id(k, t)
                    == before.slot_id(k, t),
            forall|k: Seq<u8>, t: TypeId| #[trigger]
                self@.contains_slot(k, t) && (k, t) != (key, ty) ==> self@.slot_id(k, t) != id,
    {
        if before.contains_slot(key, ty) {
            let i = before.slots.index_of((key, ty));
            lemma_index_of_unique(before.ids, i);
            lemma_index_of_unique(before.slots, i);
        } else {
            law_register_then_lookup(before, key, ty, id);
        }
        assert forall|k: Seq<u8>, t: TypeId| #[trigger]
            before.contains_slot(k, t) implies self@.contains_slot(k, t) && self@.slot_id(k, t)
                == before.slot_id(k, t) by {
            if (k, t) != (key, ty) {
                law_register_keeps_other_slots(before, key, ty, id, k, t);
            }
        }
        law_type_list_members(self@, ty, id);
        law_has_type_iff_registered(self@, ty);
        assert forall|k: Seq<u8>, t: TypeId| #[trigger]
            self@.contains_slot(k, t) && (k, t) != (key, ty) implies self@.slot_id(k, t) != id by {
            law_distinct_slots_distinct_ids(self@, k, t, key, ty);
        }
    }

    /// Appends the new slot `(key, type_id)` with the new id `id`.
    ///
    /// The fields are taken out of the register, extended, and put back as a whole, so the
    /// register is never seen half updated.
    fn insert_new(&mut self, key: Key, type_id: TypeId, id: usize)
        requires
            !old(self)@.contains_slot(key@, type_id),
            !old(self)@.contains_id(id),
        ensures
            final(self)@ == old(self)@.register(key@, type_id, id),
    {
        proof {
            use_type_invariant(&*self);
        }
        let ghost old_model = self@;
        let pos = self.type_position(&type_id);
        let mut taken = DefineRegister::new();
        core::mem::swap(self, &mut taken);
        proof {
            use_type_invariant(&taken);
        }
        let DefineRegister { mut slots, mut ids, mut type_tags, mut type_lists } = taken;
        slots.push((key, type_id));
        ids.push(id);
        let ghost new_model = old_model.register(key@, type_id, id);
        assert(model_of(slots@, ids@).slots =~= new_model.slots);
        assert(model_of(slots@, ids@).ids =~= new_model.ids);
        assert(model_of(slots@, ids@) == new_model);
        proof {
            lemma_push_no_duplicates(old_model.slots, (key@, type_id));
            lemma_push_no_duplicates(old_model.ids, id);
            assert forall|ty: TypeId| #[trigger] new_model.ids_of_type(ty) == (if ty == type_id {
                old_model.ids_of_type(ty).push(id)
            } else {
                old_model.ids_of_type(ty)
            }) by {
                lemma_ids_of_type_push(old_model.slots, old_model.ids, (key@, type_id), id, ty);
            }
            assert forall|ty: TypeId| #[trigger] new_model.has_type(ty) <==> (old_model.has_type(ty)
                || ty == type_id) by {
                if ty == type_id {
                    assert(new_model.slots[old_model.slots.len() as int].1 == ty);
                }
                if new_model.has_type(ty) && ty != type_id {
                    let i = choose|i: int| 0 <= i < new_model.slots.len() && #[trigger] new_model.slots[i].1 == ty;
                    assert(old_model.slots[i].1 == ty);
                }
                if old_model.has_type(ty) {
                    let i = choose|i: int| 0 <= i < old_model.slots.len() && #[trigger] old_model.slots[i].1 == ty;
                    assert(new_model.slots[i].1 == ty);
                }
            }
        }
        let ghost old_tags = type_tags@;
        let ghost old_lists = type_lists@;
        match pos {
            Some(j) => {
                type_lists[j].push(id);
                assert forall|k: int| 0 <= k < type_tags@.len() implies #[trigger] type_lists@[k]@
                    == new_model.ids_of_type(type_tags@[k]) by {
                    if k != j {
                        assert(type_lists@[k] == old_lists[k]);
                        assert(type_tags@[k] != type_id);
                    }
                }
                assert forall|ty: TypeId| #[trigger] new_model.has_type(ty) <==> type_tags@.contains(ty) by {
                    if ty == type_id {
                        assert(type_tags@[j as int] == ty);
                    }
                }
            },
            None => {
                let mut list: Vec<usize> = Vec::new();
                list.push(id);
                proof {
                    assert(old_model.ids_of_type(type_id) =~= Seq::<usize>::empty()) by {
                        if old_model.ids_of_type(type_id).len() > 0 {
                            let x = old_model.ids_of_type(type_id)[0];
                            assert(old_model.ids_of_type(type_id).contains(x));
                            lemma_ids_of_type_members(old_model.slots, old_model.ids, type_id, x);
                        }
                    }
                    assert(list@ =~= new_model.ids_of_type(type_id));
                }
                type_tags.push(type_id);
                type_lists.push(list);
                proof {
                    lemma_push_no_duplicates(old_tags, type_id);
                    assert forall|k: int| 0 <= k < type_tags@.len() implies #[trigger] type_lists@[k]@
                        == new_model.ids_of_type(type_tags@[k]) by {
                        if k < old_tags.len() {
                            assert(type_lists@[k] == old_lists[k]);
                            assert(type_tags@[k] == old_tags[k]);
                            assert(old_tags.contains(old_tags[k]));
                        }
                    }
                    assert forall|ty: TypeId| #[trigger] new_model.has_type(ty) <==> type_tags@.contains(ty) by {
                        if ty == type_id {
                            assert(type_tags@[old_tags.len() as int] == ty);
                        } else if type_tags@.contains(ty) {
                            let k = type_tags@.index_of(ty);
                            assert(old_tags[k] == ty);
                        } else if old_tags.contains(ty) {
                            let k = old_tags.index_of(ty);
                            assert(type_tags@[k] == ty);
                        }
                    }
                }
            },
        }
        *self = DefineRegister { slots, ids, type_tags, type_lists };
    }
}

impl Default for DefineRegister {
    /// An empty register.
    fn default() -> (res: Self)
        ensures
            res@.wf(),
            res@ == RegisterModel::empty(),
    {
        DefineRegister::new()
    }
}

} // verus!
