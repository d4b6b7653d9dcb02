use bevy_define::{StorageKind, StorageSwitch};

#[test]
fn dense_only_for_tables() {
    assert!(StorageKind::Table.is_dense());
    assert!(!StorageKind::SparseSet.is_dense());
}

#[test]
fn new_calls_only_the_matching_closure() {
    let mut table_calls = 0;
    let s: StorageSwitch<u32, char> = StorageSwitch::new(
        StorageKind::Table,
        || {
            table_calls += 1;
            7
        },
        || panic!("sparse-set closure called for a table component"),
    );
    assert_eq!(table_calls, 1);
    assert!(matches!(s, StorageSwitch::Table(7)));

    let s: StorageSwitch<u32, char> = StorageSwitch::new(
        StorageKind::SparseSet,
        || panic!("table closure called for a sparse-set component"),
        || 'x',
    );
    assert!(matches!(s, StorageSwitch::SparseSet('x')));
}

#[test]
fn set_table_replaces_value() {
    let mut s: StorageSwitch<Option<u8>, ()> =
        StorageSwitch::new(StorageKind::Table, || None, || ());
    s.set_table(Some(3));
    assert!(matches!(s, StorageSwitch::Table(Some(3))));
}

#[test]
fn extract_uses_the_held_value() {
    let t: StorageSwitch<u32, u64> = StorageSwitch::Table(5);
    assert_eq!(t.extract(|x| x as u64 + 1, |y| y * 100), 6);
    let s: StorageSwitch<u32, u64> = StorageSwitch::SparseSet(5);
    assert_eq!(s.extract(|x| x as u64 + 1, |y| y * 100), 500);
}
