use geospatial::error::ApiError;

#[test]
fn test_invalid_coordinate_system_error() {
    let error = ApiError::InvalidCoordinateSystem {
        srid: 1234,
        message: String::from("Unsupported coordinate system"),
        supported_systems: vec![4326, 3857],
    };

    let response = error.error_response();
    assert_eq!(response.status, 400);
    assert!(response.error.contains("Invalid SRID 1234"));
    assert!(response.supported_systems.as_ref().unwrap().contains(&4326));
    assert_eq!(
        response.documentation_url.as_deref().unwrap(),
        "https://api.yourdomain.com/docs/coordinate-systems"
    );
}

#[test]
fn test_coordinate_transform_error() {
    let error = ApiError::CoordinateTransformError(String::from("Failed to transform"));
    let response = error.error_response();

    assert_eq!(response.status, 400);
    assert!(response.error.contains("Failed to transform"));
}

#[test]
fn test_status_codes_by_kind() {
    assert_eq!(ApiError::InvalidApiKey.status_code(), 401);
    assert_eq!(
        ApiError::DatasetNotFound(String::from("d")).status_code(),
        404
    );
    assert_eq!(
        ApiError::FeatureNotFound(String::from("f")).status_code(),
        404
    );
    assert_eq!(ApiError::RateLimitExceeded.status_code(), 429);
    assert_eq!(ApiError::CircuitOpen.status_code(), 503);
    assert_eq!(
        ApiError::DatasetExists(String::from("d")).status_code(),
        409
    );
    assert_eq!(
        ApiError::FeatureExists(String::from("f")).status_code(),
        409
    );
    assert_eq!(
        ApiError::InvalidGeometry(String::from("g")).status_code(),
        400
    );
    assert_eq!(ApiError::Database(String::from("e")).status_code(), 500);
    assert_eq!(ApiError::Cache(String::from("e")).status_code(), 500);
}

#[test]
fn test_messages_by_kind() {
    assert_eq!(
        ApiError::Database(String::from("boom")).message(),
        "Database error: boom"
    );
    assert_eq!(ApiError::InvalidApiKey.message(), "Invalid API key");
    assert_eq!(ApiError::RateLimitExceeded.message(), "Rate limit exceeded");
    assert_eq!(
        ApiError::DatasetNotFound(String::from("roads")).message(),
        "Dataset not found: roads"
    );
    assert_eq!(
        ApiError::FeatureExists(String::from("f9")).message(),
        "Feature ID already exists in dataset: f9"
    );
    let message = ApiError::InvalidCoordinateSystem {
        srid: -7,
        message: String::from("Unsupported coordinate system"),
        supported_systems: vec![4326],
    }
    .message();
    assert_eq!(message, "Invalid coordinate system -7: Unsupported coordinate system");
}

#[test]
fn test_rate_limit_response_hints() {
    let response = ApiError::RateLimitExceeded.error_response();
    assert_eq!(response.status, 429);
    assert_eq!(response.rate_limit_limit, Some(100));
    assert_eq!(response.retry_after_seconds, Some(60));
    assert!(response.supported_systems.is_none());
}

#[test]
fn test_decimal_rendering() {
    assert_eq!(geospatial::text::u32_to_string(0), "0");
    assert_eq!(geospatial::text::u32_to_string(90210), "90210");
    assert_eq!(geospatial::text::i32_to_string(-2147483648), "-2147483648");
    assert_eq!(geospatial::text::i32_to_string(4326), "4326");
}
