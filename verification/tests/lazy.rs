use std::collections::BTreeMap;

use borink::lazy::Lazy;

fn claims() -> BTreeMap<String, String> {
    let mut m = BTreeMap::new();
    m.insert("my_claim".to_owned(), "hi".to_owned());
    m
}

fn claims_bytes() -> Vec<u8> {
    rmp_serde::encode::to_vec_named(&claims()).unwrap()
}

#[test]
fn lazy_text_form() {
    let lazy = Lazy::from_inner(claims());
    assert_eq!(lazy.to_text().unwrap(), "gahteV9jbGFpbaJoaQ");
    let read: Lazy<BTreeMap<String, String>> = Lazy::from_text("gahteV9jbGFpbaJoaQ").unwrap();
    assert!(!read.is_deserialized());
    assert_eq!(read.wire_bytes().unwrap(), claims_bytes());
    assert_eq!(read.to_text().unwrap(), "gahteV9jbGFpbaJoaQ");
    match Lazy::<BTreeMap<String, String>>::from_text("not base64!") {
        Err(m) => assert_eq!(m, "not valid base64url without padding"),
        Ok(_) => panic!("invalid text must be refused"),
    }
}

#[test]
fn lazy_switches_between_bytes_and_value() {
    let mut lazy = Lazy::from_inner(claims());
    assert!(lazy.is_deserialized());
    assert_eq!(lazy.bytes().unwrap(), claims_bytes().as_slice());
    assert!(!lazy.is_deserialized());
    assert_eq!(lazy.try_inner().unwrap(), &claims());
    assert!(lazy.is_deserialized());
    assert_eq!(lazy.inner().unwrap(), &claims());
    assert_eq!(lazy.take().unwrap(), claims());

    assert_eq!(Lazy::from_inner(claims()).take_bytes().unwrap(), claims_bytes());
    assert_eq!(Lazy::<BTreeMap<String, String>>::from_bytes(claims_bytes()).take_bytes().unwrap(), claims_bytes());
    assert_eq!(Lazy::<BTreeMap<String, String>>::from_bytes(claims_bytes()).try_take().unwrap(), claims());
}

#[test]
fn undecodable_bytes_are_kept() {
    let mut lazy: Lazy<BTreeMap<String, String>> = Lazy::from_bytes(vec![0xc1]);
    assert!(lazy.try_inner().is_err());
    assert!(!lazy.is_deserialized());
    assert_eq!(lazy.wire_bytes().unwrap(), vec![0xc1]);
    assert!(lazy.try_take().is_err());
}
