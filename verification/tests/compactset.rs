use borink::compactset::{AtomicBitSet, AtomicDynamicBitSet, CompactSet};

#[test]
fn dynamic_set_grows_as_asked() {
    let mut set = AtomicDynamicBitSet::new();
    assert_eq!(set.max_n(), u64::MAX);
    for n in [0u64, 63, 64, 127, 128, 10_000] {
        assert!(!CompactSet::exists_or_add(&mut set, n));
        assert!(CompactSet::exists_or_add(&mut set, n));
    }
    assert!(!CompactSet::exists_or_add(&mut set, 9_999));
    set.reset();
    for n in [0u64, 64, 10_000] {
        assert!(!CompactSet::exists_or_add(&mut set, n));
    }
}

#[test]
fn dynamic_set_direct_use() {
    let mut set = AtomicDynamicBitSet::new();
    set.create_up_to(300);
    assert!(!AtomicBitSet::exists_or_add(&mut set, 300));
    assert!(AtomicBitSet::exists_or_add(&mut set, 300));
    assert!(!AtomicBitSet::exists_or_add(&mut set, 299));
    assert!(!AtomicBitSet::exists_or_add(&mut set, 5));
}
