use geospatial::db::Database;
use geospatial::error::ApiError;
use geospatial::kv::KvStore;
use geospatial::models::{Dataset, Feature, Geometry, GeometryKind};
use geospatial::rate_limit::RateLimiter;
use geospatial::service::GeoService;

const MASTER: &str = "MASTER_API_KEY";

fn setup_service(requests_per_minute: u32) -> GeoService {
    let mut db = Database::new(String::from(MASTER));
    db.initialize(0).unwrap();
    GeoService {
        db,
        store: KvStore::new(),
        limiter: RateLimiter::new(requests_per_minute),
    }
}

fn point_feature(dataset_id: u128, feature_id: &str, attributes: &str) -> Feature {
    Feature {
        id: 0,
        dataset_id,
        feature_id: String::from(feature_id),
        geometry: Some(Geometry {
            kind: GeometryKind::Point,
            geojson: String::from("{\"type\":\"Point\",\"coordinates\":[0.0,0.0]}"),
        }),
        attributes: String::from(attributes),
        input_srid: 4326,
        api_key: String::from("user_key"),
    }
}

#[test]
fn test_gate_order_quota_before_key_validation() {
    // An unknown key is turned away as unauthorized while quota remains,
    // but once the window is spent the quota error wins: the limiter
    // gate runs first.
    let mut service = setup_service(2);
    let bad_key = String::from("unknown");
    let now: u64 = 0;

    let first = service.create_dataset_flow(
        &bad_key,
        &Dataset { id: 1, name: String::from("d"), api_key: bad_key.clone() },
        now,
    );
    assert!(matches!(first, Err(ApiError::InvalidApiKey)));

    let second = service.list_datasets_flow(&bad_key, now);
    assert!(matches!(second, Err(ApiError::InvalidApiKey)));

    let third = service.list_datasets_flow(&bad_key, now);
    assert!(matches!(third, Err(ApiError::RateLimitExceeded)));
}

#[test]
fn test_create_api_key_flow_idempotent_by_rejection() {
    let mut service = setup_service(100);
    let master = String::from(MASTER);
    let key = String::from("minted");

    service
        .create_api_key_flow(&key, 3600, 3600, &master, 0)
        .expect("creation should succeed");

    let again = service.create_api_key_flow(&key, 1, 1, &master, 1);
    assert!(matches!(again, Err(ApiError::Database(_))));

    // The first row stands: the key still validates long after the
    // second request's one-second expiry would have ended it.
    assert!(service.db.validate_api_key(&key, 1000).unwrap());
}

#[test]
fn test_feature_write_then_cached_read() {
    let mut service = setup_service(100);
    let master = String::from(MASTER);
    let user = String::from("user_key");
    service.create_api_key_flow(&user, 7776000, 3600, &master, 0).unwrap();

    let dataset = Dataset { id: 42, name: String::from("parks"), api_key: user.clone() };
    service.create_dataset_flow(&user, &dataset, 1).unwrap();

    let feature = point_feature(dataset.id, "p1", "{\"name\":\"Point 1\"}");
    service
        .store_feature_flow(&user, &String::from("parks"), &feature, 2)
        .expect("store should succeed");

    // The create path populated the cache; a read serves it.
    let read = service
        .get_feature_flow(&user, &String::from("parks"), &String::from("p1"), 3)
        .expect("read should succeed");
    assert_eq!(read.feature_id, "p1");
    assert_eq!(read.attributes, "{\"name\":\"Point 1\"}");
}

#[test]
fn test_update_invalidates_cache_and_read_repopulates() {
    let mut service = setup_service(100);
    let master = String::from(MASTER);
    let user = String::from("user_key");
    service.create_api_key_flow(&user, 7776000, 3600, &master, 0).unwrap();

    let dataset = Dataset { id: 43, name: String::from("parks"), api_key: user.clone() };
    service.create_dataset_flow(&user, &dataset, 1).unwrap();
    let feature = point_feature(dataset.id, "p1", "{\"v\":1}");
    service.store_feature_flow(&user, &String::from("parks"), &feature, 2).unwrap();

    let updated = point_feature(dataset.id, "p1", "{\"v\":2}");
    service
        .update_feature_flow(&user, &String::from("parks"), &String::from("p1"), &updated, 3)
        .expect("update should succeed");

    // The stale cache entry was invalidated, not rewritten in place;
    // the next read falls through to the store and sees the new value.
    let read = service
        .get_feature_flow(&user, &String::from("parks"), &String::from("p1"), 4)
        .unwrap();
    assert_eq!(read.attributes, "{\"v\":2}");
}

#[test]
fn test_read_miss_populates_cache_from_store() {
    let mut service = setup_service(100);
    let master = String::from(MASTER);
    let user = String::from("user_key");
    service.create_api_key_flow(&user, 7776000, 3600, &master, 0).unwrap();
    let dataset = Dataset { id: 44, name: String::from("parks"), api_key: user.clone() };
    service.create_dataset_flow(&user, &dataset, 1).unwrap();
    let feature = point_feature(dataset.id, "p2", "{\"n\":\"x\"}");
    // Write directly to the durable store, bypassing the cache.
    service.db.store_feature(feature, &String::from("parks"), &user, 4326).unwrap();

    let read = service
        .get_feature_flow(&user, &String::from("parks"), &String::from("p2"), 10)
        .expect("read-through should succeed");
    assert_eq!(read.feature_id, "p2");

    // A second read at the same instant is served from the cache even
    // if the store row disappears meanwhile.
    service.db = {
        let mut fresh = Database::new(String::from(MASTER));
        fresh.initialize(0).unwrap();
        fresh.create_api_key(&user, 7776000, 3600, &String::from(MASTER), 0).unwrap();
        fresh
    };
    let cached = service
        .get_feature_flow(&user, &String::from("parks"), &String::from("p2"), 11)
        .expect("cached read should succeed");
    assert_eq!(cached.feature_id, "p2");
}

#[test]
fn test_missing_feature_reports_not_found() {
    let mut service = setup_service(100);
    let master = String::from(MASTER);
    let user = String::from("user_key");
    service.create_api_key_flow(&user, 7776000, 3600, &master, 0).unwrap();

    let result = service.get_feature_flow(&user, &String::from("nowhere"), &String::from("123"), 1);
    assert!(matches!(result, Err(ApiError::FeatureNotFound(_))));
}

#[test]
fn test_store_flow_hands_the_store_the_arrival_srid() {
    // A feature arriving in Web Mercator reaches the store under that
    // system (the store persists it canonically); retrieval reports the
    // canonical system.
    let mut service = setup_service(100);
    let master = String::from(MASTER);
    let user = String::from("user_key");
    service.create_api_key_flow(&user, 7776000, 3600, &master, 0).unwrap();
    let dataset = Dataset { id: 45, name: String::from("mercator"), api_key: user.clone() };
    service.create_dataset_flow(&user, &dataset, 1).unwrap();

    let feature = Feature {
        id: 0,
        dataset_id: dataset.id,
        feature_id: String::from("web"),
        geometry: Some(Geometry {
            kind: GeometryKind::Point,
            geojson: String::from("{\"type\":\"Point\",\"coordinates\":[-13580978.0,5621521.0]}"),
        }),
        attributes: String::from("{}"),
        input_srid: 3857,
        api_key: user.clone(),
    };
    service
        .store_feature_flow(&user, &String::from("mercator"), &feature, 2)
        .expect("a supported arrival system should be accepted");

    let read = service
        .get_feature_flow(&user, &String::from("mercator"), &String::from("web"), 3)
        .unwrap();
    assert_eq!(read.input_srid, 4326);

    let unsupported = Feature { input_srid: 9999, ..feature };
    match service.store_feature_flow(&user, &String::from("mercator"), &unsupported, 4) {
        Err(ApiError::InvalidCoordinateSystem { srid, supported_systems, .. }) => {
            assert_eq!(srid, 9999);
            assert!(supported_systems.contains(&4326));
        }
        _ => panic!("expected an unsupported-coordinate-system rejection"),
    }
}

#[test]
fn test_store_flow_caches_the_stored_record() {
    let mut service = setup_service(100);
    let master = String::from(MASTER);
    let user = String::from("user_key");
    service.create_api_key_flow(&user, 7776000, 3600, &master, 0).unwrap();
    let dataset = Dataset { id: 46, name: String::from("parks"), api_key: user.clone() };
    service.create_dataset_flow(&user, &dataset, 1).unwrap();

    let feature = point_feature(dataset.id, "p9", "{}");
    let id = service
        .store_feature_flow(&user, &String::from("parks"), &feature, 2)
        .unwrap();

    // The cached record is the stored row: fresh id, canonical system —
    // not the request body with its placeholder id and arrival system.
    let read = service
        .get_feature_flow(&user, &String::from("parks"), &String::from("p9"), 3)
        .unwrap();
    assert_eq!(read.id, id);
    assert_eq!(read.input_srid, 4326);
}
