use bevy_define::{AnyQueryState, DefineRegister};
use bevy_ecs::component::ComponentId;
use bevy_ecs::query::FilteredAccess;
use std::any::TypeId;

struct A;

fn state(ids: &[usize]) -> AnyQueryState {
    let mut reg = DefineRegister::new();
    for (n, &id) in ids.iter().enumerate() {
        let key: Box<[u8]> = vec![n as u8].into();
        reg.component(key, TypeId::of::<A>(), |_| id);
    }
    AnyQueryState::init(&reg, TypeId::of::<A>())
}

#[test]
fn read_access_to_every_variant() {
    let s = state(&[10, 11, 12]);
    let mut access = FilteredAccess::default();
    assert_eq!(s.update_access(false, &mut access), Ok(()));
    for id in [10, 11, 12] {
        assert!(access.access().has_read(ComponentId::new(id)));
        assert!(!access.access().has_write(ComponentId::new(id)));
    }
    assert!(!access.access().has_read(ComponentId::new(13)));
}

#[test]
fn write_access_to_every_variant() {
    let s = state(&[20, 21]);
    let mut access = FilteredAccess::default();
    access.add_read(ComponentId::new(5));
    assert_eq!(s.update_access(true, &mut access), Ok(()));
    assert!(access.access().has_write(ComponentId::new(20)));
    assert!(access.access().has_write(ComponentId::new(21)));
    assert!(access.access().has_read(ComponentId::new(5)));
    assert!(!access.access().has_write(ComponentId::new(5)));
}

#[test]
fn conflict_with_earlier_write_is_reported_and_access_kept() {
    let s = state(&[30, 31, 32]);
    let mut access = FilteredAccess::default();
    access.add_write(ComponentId::new(32));
    access.add_write(ComponentId::new(31));
    assert_eq!(s.update_access(false, &mut access), Err(31));
    assert!(!access.access().has_read(ComponentId::new(30)));
}

#[test]
fn filters_match_any_variant() {
    let s = state(&[10, 11, 12]);
    let mut access = FilteredAccess::default();
    assert_eq!(s.update_access(false, &mut access), Ok(()));
    let sets = access.filter_sets();
    assert_eq!(sets.len(), 2);
    let with = |i: usize, id: usize| sets[i].with().contains(ComponentId::new(id));
    // the first alternative requires every variant but the first
    assert!(!with(0, 10) && with(0, 11) && with(0, 12));
    // the second requires every variant
    assert!(with(1, 10) && with(1, 11) && with(1, 12));
    // nothing becomes required
    assert!(!access.required().contains(ComponentId::new(10)));
}
