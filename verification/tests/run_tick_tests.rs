use asset_extension::asset::{EmissiveColor, EmissiveFactor, LoadState, LoadedAsset, NamedMaterial,
    RawMaterialEntry};
use asset_extension::registry::{LoaderPoll, SpawnRequestRegistry, TickEvent};
use asset_extension::store::{Material, MaterialStore};

fn one_material_asset(name: &str, identity: u64, strength: Option<u32>) -> LoadedAsset {
    LoadedAsset {
        scenes: vec![5],
        named_materials: vec![NamedMaterial { name: name.to_owned(), identity }],
        raw_materials: vec![RawMaterialEntry {
            name: Some(name.to_owned()),
            emissive_factor: EmissiveFactor { r: 3, g: 4, b: 5 },
            emissive_strength: strength,
        }],
    }
}

fn dark(store: &mut MaterialStore, identity: u64) {
    store.insert(identity, Material { emissive: EmissiveColor { r: 0, g: 0, b: 0 } });
}

#[test]
fn run_tick_applies_extracted_records_in_the_same_tick() {
    let mut registry = SpawnRequestRegistry::new();
    registry.register(1);
    let mut store = MaterialStore::new();
    dark(&mut store, 21);

    let events = registry.run_tick(
        &vec![LoaderPoll {
            state: LoadState::Loaded,
            asset: Some(one_material_asset("Hull", 21, Some(2))),
        }],
        &mut store,
    );

    assert_eq!(events.len(), 1);
    match events[0] {
        TickEvent::Spawned { spawn } => assert_eq!(spawn.scene, 5),
        _ => panic!("expected a spawned event"),
    }
    assert_eq!(registry.len(), 0);
    let emissive = store.emissive_of(21).expect("material is live");
    assert_eq!((emissive.r, emissive.g, emissive.b), (6, 8, 10));
}

#[test]
fn run_tick_reports_each_request_separately() {
    let mut registry = SpawnRequestRegistry::new();
    registry.register(1);
    registry.register(2);
    registry.register(3);
    let mut store = MaterialStore::new();
    dark(&mut store, 31);

    let events = registry.run_tick(
        &vec![
            LoaderPoll { state: LoadState::Pending, asset: None },
            LoaderPoll { state: LoadState::Failed, asset: None },
            LoaderPoll {
                state: LoadState::Loaded,
                asset: Some(one_material_asset("Mast", 31, Some(10))),
            },
        ],
        &mut store,
    );

    assert_eq!(
        events[0],
        TickEvent::StillPending { handle: 1 }
    );
    assert_eq!(events[1], TickEvent::LoadFailed);
    assert!(matches!(events[2], TickEvent::Spawned { .. }));
    assert_eq!(registry.len(), 1);
    let emissive = store.emissive_of(31).expect("material is live");
    assert_eq!((emissive.r, emissive.g, emissive.b), (30, 40, 50));
}

#[test]
fn run_tick_without_strength_touches_nothing() {
    let mut registry = SpawnRequestRegistry::new();
    registry.register(1);
    let mut store = MaterialStore::new();
    dark(&mut store, 41);

    registry.run_tick(
        &vec![LoaderPoll {
            state: LoadState::Loaded,
            asset: Some(one_material_asset("Glass", 41, None)),
        }],
        &mut store,
    );

    assert_eq!(store.emissive_of(41), Some(EmissiveColor { r: 0, g: 0, b: 0 }));
}

#[test]
fn run_tick_on_sceneless_asset_reports_and_still_applies() {
    let mut registry = SpawnRequestRegistry::new();
    registry.register(1);
    let mut store = MaterialStore::new();
    dark(&mut store, 51);

    let mut asset = one_material_asset("Hull", 51, Some(100));
    asset.scenes = vec![];
    let events = registry.run_tick(
        &vec![LoaderPoll { state: LoadState::Loaded, asset: Some(asset) }],
        &mut store,
    );

    assert_eq!(events[0], TickEvent::SceneMissing);
    let emissive = store.emissive_of(51).expect("material is live");
    assert_eq!((emissive.r, emissive.g, emissive.b), (300, 400, 500));
}
