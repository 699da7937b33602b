use geospatial::error::ApiError;
use geospatial::models::{Feature, Geometry, GeometryKind};
use geospatial::projection::ProjectionTransformer;

#[test]
fn test_validate_valid_srids() {
    let valid_srids = vec![
        4326,  // WGS84
        3857,  // Web Mercator
        2163,  // US National Atlas Equal Area
        3005,  // BC Albers
        26907, // UTM Zone 7N NAD83
        26908, // UTM Zone 8N NAD83
        26909, // UTM Zone 9N NAD83
        26910, // UTM Zone 10N NAD83
        26911, // UTM Zone 11N NAD83
        3157,  // NAD83(CSRS) / BC Albers
        4269,  // NAD83 Geographic
        4617,  // NAD83(CSRS) Geographic
        3155,  // NAD83(CSRS) / UTM Zone 7N
        3156,  // NAD83(CSRS) / UTM Zone 8N
        2955,  // NAD83(CSRS) / UTM Zone 9N
        3158,  // NAD83(CSRS) / UTM Zone 10N
        3159,  // NAD83(CSRS) / UTM Zone 11N
    ];

    for srid in valid_srids {
        assert!(ProjectionTransformer::validate_srid(srid).is_ok());
    }
}

#[test]
fn test_validate_invalid_srid() {
    let result = ProjectionTransformer::validate_srid(1234);
    match result {
        Err(ApiError::InvalidCoordinateSystem { srid, message, supported_systems }) => {
            assert_eq!(srid, 1234);
            assert_eq!(message, "Unsupported coordinate system");
            assert!(supported_systems.contains(&4326));
            assert!(supported_systems.contains(&3857));
        }
        _ => panic!("Expected InvalidCoordinateSystem error"),
    }
}

fn point_feature(feature_id: &str, geojson: &str) -> Feature {
    Feature {
        id: 1,
        dataset_id: 2,
        feature_id: String::from(feature_id),
        geometry: Some(Geometry {
            kind: GeometryKind::Point,
            geojson: String::from(geojson),
        }),
        attributes: String::from("{}"),
        input_srid: 4326,
        api_key: String::from("key"),
    }
}

#[test]
fn test_transform_feature_wgs84_passthrough() {
    let feature = point_feature("f1", "{\"type\":\"Point\",\"coordinates\":[1.0,2.0]}");
    let out = ProjectionTransformer::transform_feature(&feature, 4326).unwrap();
    assert_eq!(out.feature_id, feature.feature_id);
    assert_eq!(
        out.geometry.as_ref().unwrap().geojson,
        feature.geometry.as_ref().unwrap().geojson
    );
}

#[test]
fn test_transform_feature_rejects_unsupported_srid() {
    let feature = point_feature("f1", "{\"type\":\"Point\",\"coordinates\":[1.0,2.0]}");
    let result = ProjectionTransformer::transform_feature(&feature, 9999);
    assert!(matches!(
        result,
        Err(ApiError::InvalidCoordinateSystem { srid: 9999, .. })
    ));
}

#[test]
fn test_transform_feature_rejects_missing_geometry() {
    let mut feature = point_feature("f1", "{}");
    feature.geometry = None;
    let result = ProjectionTransformer::transform_feature(&feature, 3005);
    match result {
        Err(ApiError::InvalidGeometry(message)) => assert_eq!(message, "Missing geometry"),
        _ => panic!("expected an invalid-geometry error"),
    }
}

#[test]
fn test_supported_srids_enumeration() {
    let supported = ProjectionTransformer::supported_srids();
    assert_eq!(supported.len(), 17);
    assert_eq!(supported[0], 4326);
    assert_eq!(supported[1], 3857);
}
