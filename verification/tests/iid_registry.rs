use shieldtank::iid_registry::IidRegistry;

#[test]
fn registry_starts_empty() {
    let r = IidRegistry::new();
    assert_eq!(r.get(7), None);
}

#[test]
fn registry_lookup_after_register() {
    let mut r = IidRegistry::new();
    r.register(0xdead_beef_u128 << 64, 42);
    assert_eq!(r.get(0xdead_beef_u128 << 64), Some(42));
    r.register(0xdead_beef_u128 << 64, 43);
    assert_eq!(r.get(0xdead_beef_u128 << 64), Some(43));
}

#[test]
fn registry_unregister_forgets_only_that_entity() {
    let mut r = IidRegistry::new();
    r.iid_added(&[(1, 100), (2, 200), (1, 300)]);
    assert_eq!(r.get(100), Some(1));
    assert_eq!(r.get(200), Some(2));
    assert_eq!(r.get(300), Some(1));
    r.iid_removed(&[1]);
    assert_eq!(r.get(100), None);
    assert_eq!(r.get(300), None);
    assert_eq!(r.get(200), Some(2));
    r.unregister_entity(2);
    assert_eq!(r.get(200), None);
}

#[test]
fn registry_unregister_undoes_register() {
    let mut r = IidRegistry::new();
    r.register(5, 50);
    r.register(6, 60);
    r.unregister_entity(60);
    assert_eq!(r.get(5), Some(50));
    assert_eq!(r.get(6), None);
}
