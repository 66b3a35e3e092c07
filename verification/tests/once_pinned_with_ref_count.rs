use events::once::pinned_with_ref_count::PinnedWithRefCount;

#[test]
fn pinned_with_ref_count_with_ref_count_basic() {
    let mut wrapper = PinnedWithRefCount::new(42);
    assert_eq!(*wrapper.get(), 42);
    assert_eq!(wrapper.ref_count(), 0);
    assert!(!wrapper.is_referenced());
    wrapper.inc_ref();
    assert_eq!(wrapper.ref_count(), 1);
    assert!(wrapper.is_referenced());
    wrapper.dec_ref();
    assert_eq!(wrapper.ref_count(), 0);
    assert!(!wrapper.is_referenced());
}

#[test]
fn ref_count_tracking_works() {
    let mut wrapper = PinnedWithRefCount::new(String::from("test"));
    // One reference for the sender, one for the receiver.
    wrapper.inc_ref();
    wrapper.inc_ref();
    assert_eq!(wrapper.ref_count(), 2);
    wrapper.dec_ref();
    assert_eq!(wrapper.ref_count(), 1);
    assert!(wrapper.is_referenced());
    wrapper.dec_ref();
    assert_eq!(wrapper.ref_count(), 0);
    assert!(!wrapper.is_referenced());
}

#[test]
fn pinned_with_ref_count_default_wraps_the_default_value() {
    let wrapper: PinnedWithRefCount<u32> = PinnedWithRefCount::default();
    assert_eq!(*wrapper.get(), 0);
}
