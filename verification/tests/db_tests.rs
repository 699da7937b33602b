use geospatial::db::{Database, SpatialPredicate};
use geospatial::error::ApiError;
use geospatial::models::{Dataset, Feature, GeoJson, Geometry, GeometryKind, SpatialQuery};

const MASTER: &str = "MASTER_API_KEY";

fn setup_test_db() -> Database {
    let mut db = Database::new(String::from(MASTER));
    db.initialize(0).expect("Failed to initialize database");
    db
}

fn point_geometry(geojson: &str) -> Geometry {
    Geometry {
        kind: GeometryKind::Point,
        geojson: String::from(geojson),
    }
}

fn create_test_geometry() -> Geometry {
    point_geometry("{\"type\":\"Point\",\"coordinates\":[0.0,0.0]}")
}

fn feature_with(dataset_id: u128, feature_id: &str, geometry: Geometry, attributes: &str) -> Feature {
    Feature {
        id: 0,
        dataset_id,
        feature_id: String::from(feature_id),
        geometry: Some(geometry),
        attributes: String::from(attributes),
        input_srid: 4326,
        api_key: String::from("test-key"),
    }
}

#[test]
fn test_api_key_management() {
    let mut db = setup_test_db();
    let test_key = String::from("test_key_1");
    let now: u64 = 100;

    db.create_api_key(&test_key, 3600, 3600, &String::from(MASTER), now)
        .expect("Failed to create API key");

    assert!(db.validate_api_key(&test_key, now).unwrap());

    assert!(!db.validate_api_key(&String::from("invalid_key"), now).unwrap());
}

#[test]
fn test_dataset_operations() {
    let mut db = setup_test_db();
    let api_key = String::from("test_key_2");

    let dataset = Dataset {
        id: 7,
        name: String::from("test_dataset"),
        api_key: api_key.clone(),
    };

    db.create_dataset(&dataset).expect("Failed to create dataset");

    let datasets = db.get_datasets(&api_key).expect("Failed to list datasets");
    assert_eq!(datasets.len(), 1);
    assert_eq!(datasets[0].name, "test_dataset");

    let found = db
        .get_dataset_by_name(&String::from("test_dataset"), &api_key)
        .expect("Failed to get dataset")
        .expect("Dataset not found");
    assert_eq!(found.id, dataset.id);
}

#[test]
fn test_feature_operations() {
    let mut db = setup_test_db();
    let api_key = String::from("test_key_3");

    let dataset = Dataset {
        id: 8,
        name: String::from("test_dataset"),
        api_key: api_key.clone(),
    };
    db.create_dataset(&dataset).expect("Failed to create dataset");

    let feature = feature_with(
        dataset.id,
        "test_feature",
        create_test_geometry(),
        "{\"name\":\"test point\"}",
    );

    db.store_feature(feature.clone(), &dataset.name, &api_key, 4326)
        .expect("Failed to store feature");

    let retrieved = db
        .get_feature(&dataset.name, &feature.feature_id)
        .expect("Failed to get feature")
        .expect("Feature not found");
    assert_eq!(retrieved.feature_id, feature.feature_id);
}

#[test]
fn test_spatial_query() {
    let mut db = setup_test_db();
    let api_key = String::from("test_key_4");

    let dataset = Dataset {
        id: 9,
        name: String::from("test_dataset"),
        api_key: api_key.clone(),
    };
    db.create_dataset(&dataset).expect("Failed to create dataset");

    let feature = feature_with(
        dataset.id,
        "test_feature",
        point_geometry("{\"type\":\"Point\",\"coordinates\":[1.0,1.0]}"),
        "{\"name\":\"test point\"}",
    );
    db.store_feature(feature, &dataset.name, &api_key, 4326)
        .expect("Failed to store feature");

    let query = SpatialQuery {
        operation: String::from("intersects"),
        dataset_name: String::from("test_dataset"),
        geometry: GeoJson::Geometry(Geometry {
            kind: GeometryKind::Polygon,
            geojson: String::from(
                "{\"type\":\"Polygon\",\"coordinates\":[[[0.0,0.0],[0.0,2.0],[2.0,2.0],[2.0,0.0],[0.0,0.0]]]}",
            ),
        }),
        api_key: api_key.clone(),
        input_srid: 4326,
        output_srid: 4326,
    };

    let plan = db.spatial_query(&query).expect("Failed to execute spatial query");
    assert_eq!(plan.predicate, SpatialPredicate::Intersects);
    assert_eq!(plan.candidates.len(), 1);
    let results = plan.select_results(&vec![true]);
    assert_eq!(results.len(), 1);
}

#[test]
fn test_store_feature_with_invalid_srid() {
    let mut db = setup_test_db();
    let feature = Feature {
        id: 0,
        dataset_id: 0,
        feature_id: String::from("test"),
        geometry: Some(create_test_geometry()),
        attributes: String::from("{}"),
        input_srid: 1234, // Invalid SRID
        api_key: String::from("test-key"),
    };

    let result = db.store_feature(feature, &String::from("test-dataset"), &String::from("test-key"), 1234);
    match result {
        Err(ApiError::InvalidCoordinateSystem { srid, .. }) => {
            assert_eq!(srid, 1234);
        }
        _ => panic!("Expected InvalidCoordinateSystem error"),
    }
}

#[test]
fn test_store_feature_with_valid_srid() {
    let mut db = setup_test_db();
    let dataset = Dataset {
        id: 10,
        name: String::from("test-dataset"),
        api_key: String::from("test-key"),
    };
    db.create_dataset(&dataset).expect("Failed to create dataset");
    let feature = Feature {
        id: 0,
        dataset_id: 0,
        feature_id: String::from("test"),
        geometry: Some(create_test_geometry()),
        attributes: String::from("{}"),
        input_srid: 3005, // BC Albers
        api_key: String::from("test-key"),
    };

    let result = db.store_feature(feature, &String::from("test-dataset"), &String::from("test-key"), 3005);
    assert!(result.is_ok());
}

#[test]
fn test_store_feature_records_source_srid() {
    // A feature arriving in Web Mercator is persisted canonically: the
    // row records its source system, and retrieval reports the
    // canonical system. The reprojection arithmetic itself belongs to
    // the geometry store.
    let mut db = setup_test_db();
    let api_key = String::from("test_key_5");
    let dataset = Dataset {
        id: 12,
        name: String::from("test_dataset"),
        api_key: api_key.clone(),
    };
    db.create_dataset(&dataset).unwrap();

    let feature = Feature {
        id: 0,
        dataset_id: dataset.id,
        feature_id: String::from("test_feature"),
        geometry: Some(point_geometry(
            "{\"type\":\"Point\",\"coordinates\":[-13580978.0,5621521.0]}",
        )),
        attributes: String::from("{\"name\":\"Portland\"}"),
        input_srid: 3857,
        api_key: api_key.clone(),
    };
    db.store_feature(feature, &dataset.name, &api_key, 3857)
        .expect("Failed to store feature");

    let retrieved = db
        .get_feature(&dataset.name, &String::from("test_feature"))
        .expect("Failed to get feature")
        .expect("Feature not found");
    assert_eq!(retrieved.input_srid, 4326);
}

#[test]
fn test_duplicate_feature_conflict_preserves_record() {
    let mut db = setup_test_db();
    let api_key = String::from("test_key_6");
    let dataset = Dataset {
        id: 13,
        name: String::from("test_dataset"),
        api_key: api_key.clone(),
    };
    db.create_dataset(&dataset).unwrap();

    let original = feature_with(
        dataset.id,
        "duplicate_me",
        create_test_geometry(),
        "{\"name\":\"first\"}",
    );
    db.store_feature(original, &dataset.name, &api_key, 4326).unwrap();

    let replacement = feature_with(
        dataset.id,
        "duplicate_me",
        point_geometry("{\"type\":\"Point\",\"coordinates\":[9.0,9.0]}"),
        "{\"name\":\"second\"}",
    );
    let result = db.store_feature(replacement, &dataset.name, &api_key, 4326);
    match result {
        Err(ApiError::FeatureExists(id)) => assert_eq!(id, "duplicate_me"),
        _ => panic!("expected a feature-exists conflict"),
    }

    let kept = db
        .get_feature(&dataset.name, &String::from("duplicate_me"))
        .unwrap()
        .unwrap();
    assert_eq!(kept.attributes, "{\"name\":\"first\"}");
}

#[test]
fn test_create_api_key_rejects_duplicate() {
    let mut db = setup_test_db();
    let now: u64 = 0;
    let key = String::from("twice");

    db.create_api_key(&key, 7776000, 3600, &String::from(MASTER), now)
        .unwrap();
    let second = db.create_api_key(&key, 1, 1, &String::from(MASTER), now);
    assert!(matches!(second, Err(ApiError::Database(_))));

    // The original row survived untouched: were it overwritten with a
    // one-second expiry, this validation would fail.
    assert!(db.validate_api_key(&key, now + 1000).unwrap());
}

#[test]
fn test_create_api_key_requires_master() {
    let mut db = setup_test_db();
    let result = db.create_api_key(
        &String::from("new_key"),
        3600,
        3600,
        &String::from("not_the_master"),
        0,
    );
    assert!(matches!(result, Err(ApiError::InvalidApiKey)));
}

#[test]
fn test_key_expiry_and_sweep() {
    let mut db = setup_test_db();
    let key = String::from("short_lived");
    db.create_api_key(&key, 10, 10, &String::from(MASTER), 100).unwrap();

    // Within the window the key validates and its last use refreshes.
    assert!(db.validate_api_key(&key, 105).unwrap());
    // Past the refreshed window it no longer validates.
    assert!(!db.validate_api_key(&key, 200).unwrap());

    let dataset = Dataset {
        id: 30,
        name: String::from("doomed"),
        api_key: key.clone(),
    };
    db.create_dataset(&dataset).unwrap();
    let feature = feature_with(dataset.id, "f", create_test_geometry(), "{}");
    db.store_feature(feature, &dataset.name, &key, 4326).unwrap();

    db.cleanup_expired_keys(500).unwrap();

    // The expired key, its dataset, and its feature are gone.
    assert!(!db.validate_api_key(&key, 500).unwrap());
    assert!(db.get_dataset_by_name(&String::from("doomed"), &key).unwrap().is_none());
    assert!(db.get_feature(&String::from("doomed"), &String::from("f")).unwrap().is_none());

    // The master key survives the sweep.
    assert!(db.validate_api_key(&String::from(MASTER), 500).unwrap());
}

#[test]
fn test_update_feature_rewrites_row() {
    let mut db = setup_test_db();
    let api_key = String::from("test_key_7");
    let dataset = Dataset {
        id: 14,
        name: String::from("test_dataset"),
        api_key: api_key.clone(),
    };
    db.create_dataset(&dataset).unwrap();
    let feature = feature_with(dataset.id, "f", create_test_geometry(), "{\"v\":1}");
    db.store_feature(feature, &dataset.name, &api_key, 4326).unwrap();

    let updated = feature_with(
        dataset.id,
        "f",
        point_geometry("{\"type\":\"Point\",\"coordinates\":[5.0,5.0]}"),
        "{\"v\":2}",
    );
    db.update_feature(updated, &dataset.name, &api_key, 4326)
        .expect("update should succeed");

    let kept = db.get_feature(&dataset.name, &String::from("f")).unwrap().unwrap();
    assert_eq!(kept.attributes, "{\"v\":2}");

    let missing = feature_with(dataset.id, "absent", create_test_geometry(), "{}");
    assert!(matches!(
        db.update_feature(missing, &dataset.name, &api_key, 4326),
        Err(ApiError::FeatureNotFound(_))
    ));
}

#[test]
fn test_spatial_query_rejects_bad_operation_and_srid() {
    let db = setup_test_db();
    let query = SpatialQuery {
        operation: String::from("invalid_op"),
        dataset_name: String::from("test"),
        geometry: GeoJson::Geometry(create_test_geometry()),
        api_key: String::from("k"),
        input_srid: 4326,
        output_srid: 4326,
    };
    match db.spatial_query(&query) {
        Err(ApiError::InvalidGeometry(message)) => {
            assert_eq!(message, "Invalid spatial operation")
        }
        _ => panic!("expected an invalid-operation error"),
    }

    let query = SpatialQuery {
        operation: String::from("intersects"),
        dataset_name: String::from("test"),
        geometry: GeoJson::Geometry(create_test_geometry()),
        api_key: String::from("k"),
        input_srid: 9999,
        output_srid: 4326,
    };
    assert!(matches!(
        db.spatial_query(&query),
        Err(ApiError::InvalidCoordinateSystem { srid: 9999, .. })
    ));
}

#[test]
fn test_spatial_query_rejects_geometry_collection() {
    let db = setup_test_db();
    let query = SpatialQuery {
        operation: String::from("intersects"),
        dataset_name: String::from("test"),
        geometry: GeoJson::Geometry(Geometry {
            kind: GeometryKind::GeometryCollection,
            geojson: String::from("{\"type\":\"GeometryCollection\",\"geometries\":[]}"),
        }),
        api_key: String::from("k"),
        input_srid: 4326,
        output_srid: 4326,
    };
    match db.spatial_query(&query) {
        Err(ApiError::InvalidGeometry(message)) => {
            assert_eq!(message, "GeometryCollection is not supported")
        }
        _ => panic!("expected a geometry-collection rejection"),
    }
}

#[test]
fn test_spatial_plan_reprojection_instructions() {
    let mut db = setup_test_db();
    let api_key = String::from("test_key_8");
    let dataset = Dataset {
        id: 15,
        name: String::from("test_dataset"),
        api_key: api_key.clone(),
    };
    db.create_dataset(&dataset).unwrap();

    let query = SpatialQuery {
        operation: String::from("within"),
        dataset_name: String::from("test_dataset"),
        geometry: GeoJson::Geometry(create_test_geometry()),
        api_key: api_key.clone(),
        input_srid: 3857,
        output_srid: 3005,
    };
    let plan = db.spatial_query(&query).unwrap();
    assert_eq!(plan.predicate, SpatialPredicate::Within);
    assert_eq!(plan.geometry_srid, 3857);
    assert_eq!(plan.evaluate_in_srid, 4326);
    assert_eq!(plan.output_srid, 3005);

    // Selected results carry the requested output system.
    let results = plan.select_results(&vec![]);
    assert!(results.is_empty());
}

#[test]
fn test_select_results_follows_verdicts() {
    let mut db = setup_test_db();
    let api_key = String::from("test_key_9");
    let dataset = Dataset {
        id: 16,
        name: String::from("test_dataset"),
        api_key: api_key.clone(),
    };
    db.create_dataset(&dataset).unwrap();
    for (feature_id, x) in [("a", "1.0"), ("b", "2.0"), ("c", "3.0")] {
        let geojson = format!("{{\"type\":\"Point\",\"coordinates\":[{},0.0]}}", x);
        let feature = feature_with(dataset.id, feature_id, point_geometry(&geojson), "{}");
        db.store_feature(feature, &dataset.name, &api_key, 4326).unwrap();
    }

    let query = SpatialQuery {
        operation: String::from("contains"),
        dataset_name: String::from("test_dataset"),
        geometry: GeoJson::Geometry(create_test_geometry()),
        api_key: api_key.clone(),
        input_srid: 4326,
        output_srid: 3857,
    };
    let plan = db.spatial_query(&query).unwrap();
    assert_eq!(plan.candidates.len(), 3);

    let results = plan.select_results(&vec![true, false, true]);
    assert_eq!(results.len(), 2);
    assert_eq!(results[0].feature_id, "a");
    assert_eq!(results[1].feature_id, "c");
    assert_eq!(results[0].input_srid, 3857);
}

#[test]
fn test_create_dataset_rejects_colon_in_name() {
    // A ':' inside a dataset name would collide with the cache key
    // composition, so creation turns it away.
    let mut db = setup_test_db();
    let dataset = Dataset {
        id: 50,
        name: String::from("bad:name"),
        api_key: String::from("k"),
    };
    assert!(matches!(db.create_dataset(&dataset), Err(ApiError::InvalidQuery(_))));
    assert!(db.get_datasets(&String::from("k")).unwrap().is_empty());
}

#[test]
fn test_get_feature_searches_all_same_named_datasets() {
    // Dataset names are scoped per key, so two keys may own the same
    // name; a feature under either is found.
    let mut db = setup_test_db();
    let first = Dataset {
        id: 60,
        name: String::from("shared"),
        api_key: String::from("key_one"),
    };
    let second = Dataset {
        id: 61,
        name: String::from("shared"),
        api_key: String::from("key_two"),
    };
    db.create_dataset(&first).unwrap();
    db.create_dataset(&second).unwrap();

    let feature = Feature {
        id: 0,
        dataset_id: second.id,
        feature_id: String::from("under_second"),
        geometry: Some(create_test_geometry()),
        attributes: String::from("{}"),
        input_srid: 4326,
        api_key: String::from("key_two"),
    };
    db.store_feature(feature, &String::from("shared"), &String::from("key_two"), 4326)
        .unwrap();

    let found = db
        .get_feature(&String::from("shared"), &String::from("under_second"))
        .unwrap()
        .expect("feature under the second same-named dataset should be found");
    assert_eq!(found.dataset_id, second.id);
    assert_eq!(found.api_key, "key_two");
}

#[test]
fn test_invalid_srid_error_enumerates_supported_list() {
    let mut db = setup_test_db();
    let feature = Feature {
        id: 0,
        dataset_id: 0,
        feature_id: String::from("f"),
        geometry: Some(create_test_geometry()),
        attributes: String::from("{}"),
        input_srid: 9999,
        api_key: String::from("k"),
    };
    match db.store_feature(feature, &String::from("d"), &String::from("k"), 9999) {
        Err(ApiError::InvalidCoordinateSystem { srid, message, supported_systems }) => {
            assert_eq!(srid, 9999);
            assert_eq!(message, "Unsupported coordinate system");
            assert_eq!(supported_systems.len(), 17);
            assert!(supported_systems.contains(&4326));
            assert!(supported_systems.contains(&3857));
        }
        _ => panic!("Expected InvalidCoordinateSystem error"),
    }
}
