//! bevy_ecs's `FilteredAccess`: the components a query reads and writes, with the filters
//! that say which archetypes it matches.

use bevy_ecs::component::ComponentId;
use bevy_ecs::query::FilteredAccess;
use vstd::prelude::*;

verus! {

#[verifier::external_type_specification]
#[verifier::external_body]
pub struct ExFilteredAccess(FilteredAccess);

/// The indices of the components that a filtered access reads (writes included).
pub uninterp spec fn access_reads(access: FilteredAccess) -> Set<usize>;

/// The indices of the components that a filtered access writes.
pub uninterp spec fn access_writes(access: FilteredAccess) -> Set<usize>;

/// The indices of the components a filtered access requires an entity to have.
pub uninterp spec fn access_required(access: FilteredAccess) -> Set<usize>;

/// The filter sets of a filtered access, alternatives of which an entity must meet one: each
/// is the indices the entity must have (`With`) and those it must not have (`Without`).
pub uninterp spec fn access_filters(access: FilteredAccess) -> Seq<(Set<usize>, Set<usize>)>;

/// Every filter set of `filters`, with `ids` added to what it requires an entity to have.
pub open spec fn with_all(filters: Seq<(Set<usize>, Set<usize>)>, ids: Set<usize>) -> Seq<
    (Set<usize>, Set<usize>),
> {
    filters.map_values(|f: (Set<usize>, Set<usize>)| (f.0.union(ids), f.1))
}

/// Adding nothing changes no filter set.
pub proof fn lemma_with_all_empty(filters: Seq<(Set<usize>, Set<usize>)>)
    ensures
        with_all(filters, Set::empty()) == filters,
{
    assert forall|i: int| 0 <= i < filters.len() implies #[trigger] with_all(filters, Set::empty())[i]
        == filters[i] by {
        assert(filters[i].0.union(Set::empty()) =~= filters[i].0);
    }
    assert(with_all(filters, Set::empty()) =~= filters);
}

/// Adding two sets one after the other adds their union.
pub proof fn lemma_with_all_twice(
    filters: Seq<(Set<usize>, Set<usize>)>,
    ids1: Set<usize>,
    ids2: Set<usize>,
)
    ensures
        with_all(with_all(filters, ids1), ids2) == with_all(filters, ids1.union(ids2)),
{
    assert forall|i: int| 0 <= i < filters.len() implies #[trigger] with_all(
        with_all(filters, ids1),
        ids2,
    )[i] == with_all(filters, ids1.union(ids2))[i] by {
        assert(filters[i].0.union(ids1).union(ids2) =~= filters[i].0.union(ids1.union(ids2)));
    }
    assert(with_all(with_all(filters, ids1), ids2) =~= with_all(filters, ids1.union(ids2)));
}

/// Adding to the filter sets of two lists one after the other adds to each.
pub proof fn lemma_with_all_concat(
    a: Seq<(Set<usize>, Set<usize>)>,
    b: Seq<(Set<usize>, Set<usize>)>,
    ids: Set<usize>,
)
    ensures
        with_all(a + b, ids) == with_all(a, ids) + with_all(b, ids),
{
    assert(with_all(a + b, ids) =~= with_all(a, ids) + with_all(b, ids));
}

/// `FilteredAccess::clone`: the copy reads, writes, requires and filters what the original
/// does.
#[verifier::external_body]
pub(crate) fn clone_access(access: &FilteredAccess) -> (res: FilteredAccess)
    ensures
        access_reads(res) == access_reads(*access),
        access_writes(res) == access_writes(*access),
        access_required(res) == access_required(*access),
        access_filters(res) == access_filters(*access),
{
    access.clone()
}

/// `Access::has_write` on `FilteredAccess::access`: whether the component is written.
#[verifier::external_body]
pub(crate) fn has_write(access: &FilteredAccess, component: usize) -> (res: bool)
    ensures
        res == access_writes(*access).contains(component),
{
    access.access().has_write(ComponentId::new(component))
}

/// `FilteredAccess::add_read`: adds the component to the reads, to the required components
/// and to every filter set's `With`; the writes are unchanged.
#[verifier::external_body]
pub(crate) fn add_read(access: &mut FilteredAccess, component: usize)
    ensures
        access_reads(*final(access)) == access_reads(*old(access)).insert(component),
        access_writes(*final(access)) == access_writes(*old(access)),
        access_required(*final(access)) == access_required(*old(access)).insert(component),
        access_filters(*final(access)) == with_all(
            access_filters(*old(access)),
            Set::empty().insert(component),
        ),
{
    access.add_read(ComponentId::new(component))
}

/// `FilteredAccess::add_write`: adds the component to the reads and the writes, to the
/// required components and to every filter set's `With`.
#[verifier::external_body]
pub(crate) fn add_write(access: &mut FilteredAccess, component: usize)
    ensures
        access_reads(*final(access)) == access_reads(*old(access)).insert(component),
        access_writes(*final(access)) == access_writes(*old(access)).insert(component),
        access_required(*final(access)) == access_required(*old(access)).insert(component),
        access_filters(*final(access)) == with_all(
            access_filters(*old(access)),
            Set::empty().insert(component),
        ),
{
    access.add_write(ComponentId::new(component))
}

/// `Access::add_read` on `FilteredAccess::access_mut`: adds the component to the reads only,
/// leaving the filters alone.
#[verifier::external_body]
pub(crate) fn access_add_read(access: &mut FilteredAccess, component: usize)
    ensures
        access_reads(*final(access)) == access_reads(*old(access)).insert(component),
        access_writes(*final(access)) == access_writes(*old(access)),
        access_required(*final(access)) == access_required(*old(access)),
        access_filters(*final(access)) == access_filters(*old(access)),
{
    access.access_mut().add_read(ComponentId::new(component))
}

/// `Access::add_write` on `FilteredAccess::access_mut`: adds the component to the reads and
/// the writes, leaving the filters alone.
#[verifier::external_body]
pub(crate) fn access_add_write(access: &mut FilteredAccess, component: usize)
    ensures
        access_reads(*final(access)) == access_reads(*old(access)).insert(component),
        access_writes(*final(access)) == access_writes(*old(access)).insert(component),
        access_required(*final(access)) == access_required(*old(access)),
        access_filters(*final(access)) == access_filters(*old(access)),
{
    access.access_mut().add_write(ComponentId::new(component))
}

/// `FilteredAccess::and_with`: adds the component to every filter set's `With`; reads,
/// writes and required components are unchanged.
#[verifier::external_body]
pub(crate) fn and_with(access: &mut FilteredAccess, component: usize)
    ensures
        access_reads(*final(access)) == access_reads(*old(access)),
        access_writes(*final(access)) == access_writes(*old(access)),
        access_required(*final(access)) == access_required(*old(access)),
        access_filters(*final(access)) == with_all(
            access_filters(*old(access)),
            Set::empty().insert(component),
        ),
{
    access.and_with(ComponentId::new(component))
}

/// `FilteredAccess::append_or`: appends the other access's filter sets as alternatives;
/// reads, writes and required components are unchanged.
#[verifier::external_body]
pub(crate) fn append_or(access: &mut FilteredAccess, other: &FilteredAccess)
    ensures
        access_reads(*final(access)) == access_reads(*old(access)),
        access_writes(*final(access)) == access_writes(*old(access)),
        access_required(*final(access)) == access_required(*old(access)),
        access_filters(*final(access)) == access_filters(*old(access)) + access_filters(*other),
{
    access.append_or(other)
}

/// `FilteredAccess::extend_access`: unites the reads and the writes with the other access's;
/// required components and filter sets are unchanged.
#[verifier::external_body]
pub(crate) fn extend_access(access: &mut FilteredAccess, other: &FilteredAccess)
    ensures
        access_required(*final(access)) == access_required(*old(access)),
        access_filters(*final(access)) == access_filters(*old(access)),
        access_reads(*final(access)) == access_reads(*old(access)).union(access_reads(*other)),
        access_writes(*final(access)) == access_writes(*old(access)).union(
            access_writes(*other),
        ),
{
    access.extend_access(other)
}

} // verus!
