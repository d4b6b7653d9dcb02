//! Where a component's values live, and a value that differs with that place.

use vstd::prelude::*;

verus! {

/// The two places a component's values can be stored in: dense tables, or sparse sets.
#[derive(Clone, Copy, Debug, PartialEq, Eq, Structural)]
pub enum StorageKind {
    Table,
    SparseSet,
}

impl StorageKind {
    /// Whether a query over a component stored this way can walk whole tables.
    pub fn is_dense(&self) -> (res: bool)
        ensures
            res == (*self == StorageKind::Table),
    {
        match self {
            StorageKind::Table => true,
            StorageKind::SparseSet => false,
        }
    }
}

/// One of two values, chosen by the storage kind of a component: `T` for table storage,
/// `S` for sparse-set storage.
#[derive(Clone, Copy)]
pub enum StorageSwitch<T, S> {
    Table(T),
    SparseSet(S),
}

impl<T, S> StorageSwitch<T, S> {
    /// The storage kind this value was made for.
    pub open spec fn kind(&self) -> StorageKind {
        match self {
            StorageSwitch::Table(_) => StorageKind::Table,
            StorageSwitch::SparseSet(_) => StorageKind::SparseSet,
        }
    }

    /// Makes the value for `kind`, calling only the closure that belongs to it.
    pub fn new(kind: StorageKind, table: impl FnOnce() -> T, sparse_set: impl FnOnce() -> S) -> (res:
        Self)
        requires
            kind == StorageKind::Table ==> call_requires(table, ()),
            kind == StorageKind::SparseSet ==> call_requires(sparse_set, ()),
        ensures
            res.kind() == kind,
            match res {
                StorageSwitch::Table(t) => call_ensures(table, (), t),
                StorageSwitch::SparseSet(s) => call_ensures(sparse_set, (), s),
            },
    {
        match kind {
            StorageKind::Table => StorageSwitch::Table(table()),
            StorageKind::SparseSet => StorageSwitch::SparseSet(sparse_set()),
        }
    }

    /// Replaces the table value; only a value made for table storage has one.
    pub fn set_table(&mut self, table: T)
        requires
            old(self).kind() == StorageKind::Table,
        ensures
            *final(self) == StorageSwitch::<T, S>::Table(table),
    {
        *self = StorageSwitch::Table(table);
    }

    /// Hands the held value to the closure that belongs to its storage kind.
    pub fn extract<R>(&self, table: impl FnOnce(T) -> R, sparse_set: impl FnOnce(S) -> R) -> (res:
        R) where T: Copy, S: Copy
        requires
            match *self {
                StorageSwitch::Table(t) => call_requires(table, (t,)),
                StorageSwitch::SparseSet(s) => call_requires(sparse_set, (s,)),
            },
        ensures
            match *self {
                StorageSwitch::Table(t) => call_ensures(table, (t,), res),
                StorageSwitch::SparseSet(s) => call_ensures(sparse_set, (s,), res),
            },
    {
        match *self {
            StorageSwitch::Table(t) => table(t),
            StorageSwitch::SparseSet(s) => sparse_set(s),
        }
    }
}

} // verus!
