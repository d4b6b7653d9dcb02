use bevy_define::{DefKey, KeyDisplay};
use std::str::FromStr;

#[test]
fn from_bytes_keeps_bytes() {
    let key = DefKey::<0>::from_bytes(b"health");
    assert_eq!(&*key.key(), b"health");
    assert_eq!(&*key.0, b"health");
}

#[test]
fn from_str_takes_utf8_bytes() {
    let key = DefKey::<0>::from_str("stamina").unwrap();
    assert_eq!(&*key.0, b"stamina");
    let key = DefKey::<0>::from_str("h\u{e9}").unwrap();
    assert_eq!(&*key.0, &[b'h', 0xc3, 0xa9]);
}

#[test]
fn arg_retags_same_bytes() {
    let key = DefKey::<0>::from_bytes(b"health");
    let moved: DefKey<1> = key.arg::<1>();
    assert_eq!(&*moved.0, b"health");
    let back: DefKey<0> = moved.arg::<0>();
    assert_eq!(&*back.0, &*key.0);
}

#[test]
fn clone_and_deref() {
    let key = DefKey::<3>::from_bytes(&[1, 2, 3]);
    let copy = key.clone();
    assert_eq!(&*copy.0, &[1, 2, 3]);
    let inner: &Box<[u8]> = &*key;
    assert_eq!(&**inner, &[1, 2, 3]);
}

#[test]
fn key_as_text() {
    let key = DefKey::<0>::from_bytes(b"health");
    assert_eq!(key.to_string(), "health");
    assert_eq!(KeyDisplay(b"stamina").to_string(), "stamina");
}

#[test]
fn key_as_text_replaces_invalid_utf8() {
    let key = DefKey::<0>::from_bytes(&[b'a', 0xff, b'b']);
    assert_eq!(key.to_string(), "a\u{FFFD}b");
    assert_eq!(KeyDisplay(&[0xc3]).to_string(), "\u{FFFD}");
}

#[test]
fn empty_key() {
    let key = DefKey::<0>::from_bytes(&[]);
    assert!(key.key().is_empty());
    assert_eq!(key.to_string(), "");
}
