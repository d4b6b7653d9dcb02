use bevy_define::{AnyQueryState, ComponentCursor, DefineRegister};
use std::any::TypeId;

struct A;

#[test]
fn find_map_returns_first_present_and_moves_past_it() {
    let ids = [3usize, 5, 8, 13];
    let mut cursor = ComponentCursor::new(&ids);
    let present = |c: usize| if c % 2 == 1 { Some(c * 10) } else { None };
    assert_eq!(cursor.find_map(present), Some((3, 30)));
    assert_eq!(cursor.find_map(present), Some((5, 50)));
    assert_eq!(cursor.find_map(present), Some((13, 130)));
    assert_eq!(cursor.find_map(present), None);
    assert_eq!(cursor.find_map(|c| Some(c)), None);
}

#[test]
fn find_map_on_nothing_present() {
    let ids = [2usize, 4];
    let mut cursor = ComponentCursor::new(&ids);
    assert_eq!(cursor.find_map(|_| None::<u8>), None);
}

#[test]
fn query_state_copies_type_list_and_matches() {
    let mut reg = DefineRegister::new();
    reg.component(b"health"[..].into(), TypeId::of::<A>(), |_| 40);
    reg.component(b"stamina"[..].into(), TypeId::of::<A>(), |_| 41);
    let state = AnyQueryState::init(&reg, TypeId::of::<A>());
    assert_eq!(state.components(), &[40, 41]);
    assert!(state.matches(|c| c == 41));
    assert!(!state.matches(|c| c == 42));
    let mut asked = Vec::new();
    let cell = std::cell::RefCell::new(&mut asked);
    assert!(state.matches(|c| {
        cell.borrow_mut().push(c);
        true
    }));
    assert_eq!(asked, vec![40]);
}
