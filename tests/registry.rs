use webgl_renderer::Registry;

#[test]
fn registry_starts_empty() {
    let r: Registry<u32> = Registry::new();
    assert_eq!(r.len(), 0);
    assert_eq!(r.get("a"), None);
}

#[test]
fn registry_finds_what_was_inserted() {
    let mut r: Registry<u32> = Registry::new();
    r.insert("a", 1);
    r.insert("b", 2);
    assert_eq!(r.get("a"), Some(&1));
    assert_eq!(r.get("b"), Some(&2));
    assert_eq!(r.get("c"), None);
    assert_eq!(r.len(), 2);
}

#[test]
fn registry_insert_replaces_same_name() {
    let mut r: Registry<u32> = Registry::new();
    r.insert("a", 1);
    r.insert("a", 7);
    assert_eq!(r.get("a"), Some(&7));
    assert_eq!(r.len(), 1);
}
