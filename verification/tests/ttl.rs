use malstrom::ttl::TtlValue;

#[test]
fn value_expires_at_its_ttl() {
    let mut v: TtlValue<&str, u64> = TtlValue::new();
    assert!(v.is_empty());
    v.set("x", 10);
    assert_eq!(v.get(), Some(&"x"));
    v.expire(&9);
    assert_eq!(v.get(), Some(&"x"));
    v.expire(&10);
    assert!(v.is_empty());
    assert_eq!(v.get(), None);
}
