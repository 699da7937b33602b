use geospatial::cache::Cache;
use geospatial::kv::{KvStore, StoredValue};
use geospatial::models::{Feature, Geometry, GeometryKind};

fn test_feature(feature_id: &str) -> Feature {
    Feature {
        id: 11,
        dataset_id: 22,
        feature_id: String::from(feature_id),
        geometry: Some(Geometry {
            kind: GeometryKind::Point,
            geojson: String::from("{\"type\":\"Point\",\"coordinates\":[0.0,0.0]}"),
        }),
        attributes: String::from("{\"name\":\"test point\"}"),
        input_srid: 4326,
        api_key: String::from("key"),
    }
}

#[test]
fn test_cache_operations() {
    let mut store = KvStore::new();
    let dataset_name = String::from("test_dataset");
    let feature_id = String::from("test_feature");
    let now: u64 = 1000;

    let feature = test_feature("test_feature");

    Cache::set_feature(&mut store, &dataset_name, &feature, now).expect("Failed to cache feature");

    let cached = Cache::get_feature(&store, &dataset_name, &feature_id, now)
        .expect("Failed to get cached feature")
        .expect("Feature not found in cache");

    assert_eq!(cached.id, feature.id);
    assert_eq!(cached.feature_id, feature.feature_id);

    Cache::invalidate_feature(&mut store, &dataset_name, &feature_id)
        .expect("Failed to invalidate cache");

    let invalid = Cache::get_feature(&store, &dataset_name, &feature_id, now)
        .expect("Failed to check cache");
    assert!(invalid.is_none());
}

#[test]
fn test_cache_expiry() {
    let mut store = KvStore::new();
    let now: u64 = 5000;

    let feature = test_feature("test_feature");
    let key = String::from("test_key");

    store.set_ex(&key, StoredValue::Record(feature), 1, now);

    let exists = store.exists_key(&key, now);
    assert!(exists);

    let exists = store.exists_key(&key, now + 2);
    assert!(!exists);
}

#[test]
fn test_cached_value_expires_after_one_hour() {
    let mut store = KvStore::new();
    let dataset_name = String::from("d");
    let feature_id = String::from("f");
    let now: u64 = 0;
    let feature = test_feature("f");

    Cache::set_feature(&mut store, &dataset_name, &feature, now).unwrap();
    assert!(Cache::get_feature(&store, &dataset_name, &feature_id, 3599)
        .unwrap()
        .is_some());
    assert!(Cache::get_feature(&store, &dataset_name, &feature_id, 3600)
        .unwrap()
        .is_none());
}

#[test]
fn test_cache_keys_are_scoped_per_dataset() {
    let mut store = KvStore::new();
    let now: u64 = 0;
    let feature = test_feature("shared_id");

    Cache::set_feature(&mut store, &String::from("dataset_a"), &feature, now).unwrap();

    let other = Cache::get_feature(&store, &String::from("dataset_b"), &String::from("shared_id"), now)
        .unwrap();
    assert!(other.is_none());

    let same = Cache::get_feature(&store, &String::from("dataset_a"), &String::from("shared_id"), now)
        .unwrap();
    assert!(same.is_some());
}
