//! The state of a query over every keyed variant of one component type.

use crate::access::{
    access_add_read, access_add_write, access_filters, access_reads, access_required,
    access_writes, add_read, add_write, and_with, append_or, clone_access, extend_access,
    has_write, lemma_with_all_concat, lemma_with_all_empty, lemma_with_all_twice, with_all,
};
use crate::register::DefineRegister;
use bevy_ecs::query::FilteredAccess;
use std::any::TypeId;
use vstd::prelude::*;

verus! {

/// The component ids a query over all keyed variants of one type reads, in registration
/// order, as the register listed them when the query was set up.
pub struct AnyQueryState {
    components: Vec<usize>,
}

impl View for AnyQueryState {
    type V = Seq<usize>;

    closed spec fn view(&self) -> Seq<usize> {
        self.components@
    }
}

impl AnyQueryState {
    /// The state for type `type_id`: a copy of the register's list for that type.
    pub fn init(registry: &DefineRegister, type_id: TypeId) -> (res: Self)
        requires
            registry@.has_type(type_id),
        ensures
            res@ == registry@.ids_of_type(type_id),
    {
        let list = registry.types(type_id);
        let mut components: Vec<usize> = Vec::new();
        let mut i: usize = 0;
        while i < list.len()
            invariant
                0 <= i <= list@.len(),
                components@ == list@.take(i as int),
            decreases list@.len() - i,
        {
            components.push(list[i]);
            i = i + 1;
            assert(components@ =~= list@.take(i as int));
        }
        assert(list@.take(list@.len() as int) =~= list@);
        AnyQueryState { components }
    }

    /// The component ids the query reads.
    pub fn components(&self) -> (res: &[usize])
        ensures
            res@ == self@,
    {
        self.components.as_slice()
    }

    /// Whether some component of this state lies in a set, asked of `set_contains_id`
    /// one id at a time in order, stopping at the first yes.
    pub fn matches(&self, set_contains_id: impl Fn(usize) -> bool) -> (res: bool)
        requires
            forall|c: usize| call_requires(set_contains_id, (c,)),
        ensures
            res ==> exists|j: int|
                0 <= j < self@.len() && call_ensures(set_contains_id, (#[trigger] self@[j],), true)
                    && forall|i: int|
                    0 <= i < j ==> call_ensures(set_contains_id, (#[trigger] self@[i],), false),
            !res ==> forall|j: int|
                0 <= j < self@.len() ==> call_ensures(set_contains_id, (#[trigger] self@[j],), false),
    {
        let mut i: usize = 0;
        while i < self.components.len()
            invariant
                0 <= i <= self@.len(),
                forall|c: usize| call_requires(set_contains_id, (c,)),
                forall|j: int|
                    0 <= j < i ==> call_ensures(set_contains_id, (#[trigger] self@[j],), false),
            decreases self@.len() - i,
        {
            if set_contains_id(self.components[i]) {
                return true;
            }
            i = i + 1;
        }
        false
    }
}

/// The elements of `s` at positions `lo` up to, not including, `hi`.
pub open spec fn range_set(s: Seq<usize>, lo: int, hi: int) -> Set<usize> {
    Set::new(|x: usize| exists|j: int| lo <= j < hi && s[j] == x)
}

/// The set of positions `lo` up to `hi` of a sequence holds exactly the elements of that
/// stretch of the sequence, however short it is.
pub proof fn law_range_set_is_segment(s: Seq<usize>, lo: int, hi: int)
    requires
        0 <= lo <= hi <= s.len(),
    ensures
        range_set(s, lo, hi) == s.subrange(lo, hi).to_set(),
        forall|j: int| lo <= j < hi ==> #[trigger] range_set(s, lo, hi).contains(s[j]),
{
    let sub = s.subrange(lo, hi);
    assert forall|x: usize| range_set(s, lo, hi).contains(x) <==> sub.to_set().contains(x) by {
        if range_set(s, lo, hi).contains(x) {
            let j = choose|j: int| lo <= j < hi && s[j] == x;
            assert(sub[j - lo] == x);
        }
        if sub.to_set().contains(x) {
            let k = choose|k: int| 0 <= k < sub.len() && sub[k] == x;
            assert(s[k + lo] == x);
        }
    }
    assert(range_set(s, lo, hi) =~= sub.to_set());
    assert forall|j: int| lo <= j < hi implies #[trigger] range_set(s, lo, hi).contains(s[j]) by {
        assert(sub[j - lo] == s[j]);
    }
}

/// After a query over components `s` (at least one) is added to filter sets `filters`,
/// every alternative of the first half requires each component but the first, and every
/// alternative of the second half requires every component; each keeps what it required and
/// excluded before.
pub proof fn law_update_filters_require_variants(
    filters: Seq<(Set<usize>, Set<usize>)>,
    s: Seq<usize>,
    k: int,
    j: int,
)
    requires
        0 < s.len(),
        0 <= k < filters.len(),
        0 <= j < s.len(),
    ensures
        ({
            let out = with_all(filters, range_set(s, 1, s.len() as int)) + with_all(
                filters,
                s.to_set(),
            );
            &&& out.len() == 2 * filters.len()
            &&& 1 <= j ==> out[k].0.contains(s[j])
            &&& out[k].0 == filters[k].0.union(s.subrange(1, s.len() as int).to_set())
            &&& out[k].1 == filters[k].1
            &&& out[filters.len() + k].0.contains(s[j])
            &&& out[filters.len() + k].0 == filters[k].0.union(s.to_set())
            &&& out[filters.len() + k].1 == filters[k].1
        }),
{
    law_range_set_is_segment(s, 1, s.len() as int);
    assert(s.to_set().contains(s[j]));
}

impl AnyQueryState {
    /// Adds to `access` the access of a query over every keyed variant: read access (or,
    /// with `write`, write access) to each of the state's components, matching an entity
    /// that has any one of them.
    ///
    /// The filter sets become two lists of alternatives: the old ones, each also requiring
    /// every component but the first, and the old ones, each also requiring every component.
    /// The required components stay as they were. With no components, nothing changes.
    ///
    /// If `access` already writes one of the components, the first such component (in the
    /// state's order) is returned as the conflict and `access` is left as it was.
    pub fn update_access(&self, write: bool, access: &mut FilteredAccess) -> (res: Result<
        (),
        usize,
    >)
        ensures
            (res is Err) <==> exists|j: int|
                0 <= j < self@.len() && access_writes(*old(access)).contains(#[trigger] self@[j]),
            res matches Err(c) ==> {
                &&& exists|j: int|
                    0 <= j < self@.len() && self@[j] == c && forall|i: int|
                        0 <= i < j ==> !access_writes(*old(access)).contains(#[trigger] self@[i])
                &&& access_writes(*old(access)).contains(c)
                &&& *final(access) == *old(access)
            },
            res is Ok ==> {
                &&& access_reads(*final(access)) == access_reads(*old(access)).union(
                    self@.to_set(),
                )
                &&& access_writes(*final(access)) == (if write {
                    access_writes(*old(access)).union(self@.to_set())
                } else {
                    access_writes(*old(access))
                })
                &&& access_required(*final(access)) == access_required(*old(access))
                &&& self@.len() == 0 ==> *final(access) == *old(access)
                &&& self@.len() > 0 ==> access_filters(*final(access)) == with_all(
                    access_filters(*old(access)),
                    range_set(self@, 1, self@.len() as int),
                ) + with_all(access_filters(*old(access)), self@.to_set())
                &&& self@.len() > 0 ==> access_filters(*final(access)) == with_all(
                    access_filters(*old(access)),
                    self@.subrange(1, self@.len() as int).to_set(),
                ) + with_all(access_filters(*old(access)), self@.to_set())
            },
    {
        let ghost reads0 = access_reads(*access);
        let ghost writes0 = access_writes(*access);
        let ghost required0 = access_required(*access);
        let ghost filters0 = access_filters(*access);
        let n: usize = self.components.len();
        if n == 0 {
            assert(reads0.union(self@.to_set()) =~= reads0);
            assert(writes0.union(self@.to_set()) =~= writes0);
            return Ok(());
        }
        let c0: usize = self.components[0];
        if has_write(access, c0) {
            assert(self@[0] == c0);
            return Err(c0);
        }
        let mut new_access = clone_access(access);
        let mut intermediate = clone_access(access);
        if write {
            add_write(&mut intermediate, c0);
        } else {
            add_read(&mut intermediate, c0);
        }
        append_or(&mut new_access, &intermediate);
        extend_access(&mut new_access, &intermediate);
        proof {
            assert(access_reads(new_access) =~= reads0.union(range_set(self@, 0, 1)));
            assert(access_writes(new_access) =~= (if write {
                writes0.union(range_set(self@, 0, 1))
            } else {
                writes0
            }));
            lemma_with_all_empty(filters0);
            assert(range_set(self@, 1, 1) =~= Set::<usize>::empty());
            assert(range_set(self@, 0, 1) =~= Set::<usize>::empty().insert(c0));
        }
        let mut i: usize = 1;
        while i < n
            invariant
                n == self@.len(),
                1 <= i <= n,
                *access == *old(access),
                reads0 == access_reads(*access),
                writes0 == access_writes(*access),
                required0 == access_required(*access),
                filters0 == access_filters(*access),
                forall|j: int| 0 <= j < i ==> !writes0.contains(#[trigger] self@[j]),
                access_reads(new_access) == reads0.union(range_set(self@, 0, i as int)),
                access_writes(new_access) == (if write {
                    writes0.union(range_set(self@, 0, i as int))
                } else {
                    writes0
                }),
                access_required(new_access) == required0,
                access_filters(new_access) == with_all(filters0, range_set(self@, 1, i as int))
                    + with_all(filters0, range_set(self@, 0, i as int)),
            decreases n - i,
        {
            let c: usize = self.components[i];
            if has_write(access, c) {
                assert(self@[i as int] == c);
                return Err(c);
            }
            let ghost before = access_filters(new_access);
            and_with(&mut new_access, c);
            if write {
                access_add_write(&mut new_access, c);
            } else {
                access_add_read(&mut new_access, c);
            }
            proof {
                let one = Set::<usize>::empty().insert(c);
                lemma_with_all_concat(
                    with_all(filters0, range_set(self@, 1, i as int)),
                    with_all(filters0, range_set(self@, 0, i as int)),
                    one,
                );
                lemma_with_all_twice(filters0, range_set(self@, 1, i as int), one);
                lemma_with_all_twice(filters0, range_set(self@, 0, i as int), one);
                assert(range_set(self@, 1, i + 1) =~= range_set(self@, 1, i as int).union(one));
                assert(range_set(self@, 0, i + 1) =~= range_set(self@, 0, i as int).union(one));
                assert(range_set(self@, 0, i + 1) =~= range_set(self@, 0, i as int).insert(c));
            }
            i = i + 1;
            assert(access_reads(new_access) =~= reads0.union(range_set(self@, 0, i as int)));
            assert(access_writes(new_access) =~= (if write {
                writes0.union(range_set(self@, 0, i as int))
            } else {
                writes0
            }));
        }
        assert(range_set(self@, 0, n as int) =~= self@.to_set());
        proof {
            law_range_set_is_segment(self@, 1, n as int);
        }
        *access = new_access;
        Ok(())
    }
}

} // verus!
