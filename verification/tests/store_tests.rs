use asset_extension::asset::EmissiveColor;
use asset_extension::store::{Material, MaterialStore};

fn color(r: u64, g: u64, b: u64) -> EmissiveColor {
    EmissiveColor { r, g, b }
}

#[test]
fn new_store_is_empty() {
    let store = MaterialStore::new();
    assert_eq!(store.len(), 0);
    assert!(!store.contains(1));
    assert_eq!(store.emissive_of(1), None);
}

#[test]
fn insert_under_same_identity_replaces() {
    let mut store = MaterialStore::new();
    store.insert(3, Material { emissive: color(1, 1, 1) });
    store.insert(3, Material { emissive: color(2, 2, 2) });
    assert_eq!(store.len(), 1);
    assert_eq!(store.emissive_of(3), Some(color(2, 2, 2)));
}

#[test]
fn set_emissive_reports_whether_identity_resolves() {
    let mut store = MaterialStore::new();
    store.insert(3, Material { emissive: color(0, 0, 0) });
    assert!(store.set_emissive(3, color(9, 9, 9)));
    assert!(!store.set_emissive(4, color(1, 1, 1)));
    assert_eq!(store.emissive_of(3), Some(color(9, 9, 9)));
    assert_eq!(store.emissive_of(4), None);
    assert_eq!(store.len(), 1);
}
