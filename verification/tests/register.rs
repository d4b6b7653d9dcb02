use bevy_define::register::bytes_eq;
use bevy_define::DefineRegister;
use std::any::TypeId;

struct A;
struct B;

fn key(bytes: &[u8]) -> Box<[u8]> {
    bytes.into()
}

#[test]
fn new_slot_takes_the_registered_id() {
    let mut reg = DefineRegister::new();
    let (id, ty) = reg.component(key(b"health"), TypeId::of::<A>(), |_| 10);
    assert_eq!(id, 10);
    assert_eq!(ty, TypeId::of::<A>());
    assert_eq!(reg.slot(b"health", TypeId::of::<A>()), Some(10));
}

#[test]
fn asking_twice_registers_once() {
    let mut reg = DefineRegister::new();
    let mut calls = 0;
    let (first, _) = reg.component(key(b"health"), TypeId::of::<A>(), |_| {
        calls += 1;
        10
    });
    let (second, _) = reg.component(key(b"health"), TypeId::of::<A>(), |_| {
        calls += 1;
        11
    });
    assert_eq!(first, 10);
    assert_eq!(second, 10);
    assert_eq!(calls, 1);
    assert_eq!(reg.keys().len(), 1);
}

#[test]
fn register_closure_sees_the_key() {
    let mut reg = DefineRegister::new();
    let mut seen = Vec::new();
    reg.component(key(b"stamina"), TypeId::of::<B>(), |k| {
        seen.extend_from_slice(k);
        3
    });
    assert_eq!(seen, b"stamina");
}

#[test]
fn same_key_other_type_is_another_slot() {
    let mut reg = DefineRegister::new();
    let (a, _) = reg.component(key(b"health"), TypeId::of::<A>(), |_| 1);
    let (b, _) = reg.component(key(b"health"), TypeId::of::<B>(), |_| 2);
    assert_ne!(a, b);
    assert_eq!(reg.slot(b"health", TypeId::of::<A>()), Some(1));
    assert_eq!(reg.slot(b"health", TypeId::of::<B>()), Some(2));
    assert_eq!(reg.slot(b"stamina", TypeId::of::<A>()), None);
}

#[test]
fn find_leads_back_to_the_slot() {
    let mut reg = DefineRegister::new();
    reg.component(key(b"health"), TypeId::of::<A>(), |_| 4);
    reg.component(key(b"stamina"), TypeId::of::<B>(), |_| 9);
    let (k, ty) = reg.find(9).unwrap();
    assert_eq!(&*k.0, b"stamina");
    assert_eq!(ty, TypeId::of::<B>());
    let (k, ty) = reg.find(4).unwrap();
    assert_eq!(&*k.0, b"health");
    assert_eq!(ty, TypeId::of::<A>());
    assert!(reg.find(5).is_none());
}

#[test]
fn types_list_ids_in_registration_order() {
    let mut reg = DefineRegister::new();
    reg.component(key(b"health"), TypeId::of::<A>(), |_| 20);
    reg.component(key(b"health"), TypeId::of::<B>(), |_| 21);
    reg.component(key(b"stamina"), TypeId::of::<A>(), |_| 22);
    reg.component(key(b"stamina"), TypeId::of::<B>(), |_| 23);
    reg.component(key(b"health"), TypeId::of::<A>(), |_| 99);
    assert_eq!(reg.types(TypeId::of::<A>()), &vec![20, 22]);
    assert_eq!(reg.types(TypeId::of::<B>()), &vec![21, 23]);
    assert!(reg.type_ids(TypeId::of::<u8>()).is_none());
    assert_eq!(reg.type_ids(TypeId::of::<A>()), Some(&vec![20, 22]));
}

#[test]
fn keys_in_registration_order() {
    let mut reg = DefineRegister::default();
    assert!(reg.keys().is_empty());
    reg.component(key(b"b"), TypeId::of::<A>(), |_| 0);
    reg.component(key(b"a"), TypeId::of::<A>(), |_| 1);
    let keys: Vec<(&[u8], TypeId)> = reg.keys().iter().map(|(k, t)| (&**k, *t)).collect();
    assert_eq!(keys, vec![(&b"b"[..], TypeId::of::<A>()), (&b"a"[..], TypeId::of::<A>())]);
}

#[test]
fn byte_strings_compare_by_content() {
    assert!(bytes_eq(b"health", b"health"));
    assert!(!bytes_eq(b"health", b"healt"));
    assert!(!bytes_eq(b"health", b"hEalth"));
    assert!(bytes_eq(b"", b""));
}
