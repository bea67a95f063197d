use asset_extension::apply::apply;
use asset_extension::asset::{EmissiveColor, ExtensionRecord};
use asset_extension::store::{Material, MaterialStore};

fn color(r: u64, g: u64, b: u64) -> EmissiveColor {
    EmissiveColor { r, g, b }
}

#[test]
fn apply_overwrites_emissive_of_live_material() {
    let mut store = MaterialStore::new();
    store.insert(11, Material { emissive: color(0, 0, 0) });
    apply(vec![ExtensionRecord { identity: 11, color: color(200_000, 400_000, 600_000) }], &mut store);
    assert_eq!(store.emissive_of(11), Some(color(200_000, 400_000, 600_000)));
    assert_eq!(store.len(), 1);
}

#[test]
fn record_for_absent_identity_is_silently_dropped() {
    let mut store = MaterialStore::new();
    store.insert(11, Material { emissive: color(1, 2, 3) });
    apply(vec![ExtensionRecord { identity: 99, color: color(7, 7, 7) }], &mut store);
    assert_eq!(store.len(), 1);
    assert_eq!(store.emissive_of(11), Some(color(1, 2, 3)));
    assert_eq!(store.emissive_of(99), None);
}

#[test]
fn apply_on_empty_store_changes_nothing() {
    let mut store = MaterialStore::new();
    apply(vec![ExtensionRecord { identity: 1, color: color(5, 5, 5) }], &mut store);
    assert_eq!(store.len(), 0);
    assert_eq!(store.emissive_of(1), None);
}

#[test]
fn later_record_for_same_identity_wins() {
    let mut store = MaterialStore::new();
    store.insert(4, Material { emissive: color(0, 0, 0) });
    apply(
        vec![
            ExtensionRecord { identity: 4, color: color(1, 1, 1) },
            ExtensionRecord { identity: 4, color: color(2, 2, 2) },
        ],
        &mut store,
    );
    assert_eq!(store.emissive_of(4), Some(color(2, 2, 2)));
}

#[test]
fn one_pass_applies_each_record_once() {
    let mut store = MaterialStore::new();
    store.insert(6, Material { emissive: color(0, 0, 0) });
    // A second pass over the same batch is impossible: the pass consumes the
    // records. A fresh, empty batch leaves the store as the first pass did.
    apply(vec![ExtensionRecord { identity: 6, color: color(9, 9, 9) }], &mut store);
    apply(vec![], &mut store);
    assert_eq!(store.emissive_of(6), Some(color(9, 9, 9)));
    assert_eq!(store.len(), 1);
}

#[test]
fn mixed_batch_applies_only_resolving_identities() {
    let mut store = MaterialStore::new();
    store.insert(1, Material { emissive: color(0, 0, 0) });
    store.insert(2, Material { emissive: color(0, 0, 0) });
    apply(
        vec![
            ExtensionRecord { identity: 1, color: color(10, 0, 0) },
            ExtensionRecord { identity: 3, color: color(30, 0, 0) },
            ExtensionRecord { identity: 2, color: color(20, 0, 0) },
        ],
        &mut store,
    );
    assert_eq!(store.len(), 2);
    assert_eq!(store.emissive_of(1), Some(color(10, 0, 0)));
    assert_eq!(store.emissive_of(2), Some(color(20, 0, 0)));
    assert_eq!(store.emissive_of(3), None);
}
