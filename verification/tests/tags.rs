use shieldtank::tags::LdtkTags;

#[test]
fn tags_contains_listed_tags() {
    let tags = LdtkTags::new(&["enemy".to_string(), "boss".to_string()]);
    assert!(tags.contains("enemy"));
    assert!(tags.contains("boss"));
    assert!(!tags.contains("player"));
    assert!(!tags.contains("Enemy"));
}
