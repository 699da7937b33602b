//! The error taxonomy of the service, with the HTTP status each kind maps
//! to and the response body each kind produces.

use vstd::prelude::*;
use crate::text::{spec_decimal_i32, i32_to_string};

verus! {

/// Every error kind this layer can surface. Each variant keeps the
/// underlying message as text; callers branch on the kind alone.
#[derive(Debug)]
pub enum ApiError {
    /// The durable store failed while executing a statement.
    Database(String),
    /// The durable store's connection pool failed.
    Pool(String),
    /// The durable store's connection pool could not be created.
    CreatePool(String),
    /// The key-value backend failed.
    Cache(String),
    /// The API key is missing, unknown, or expired.
    InvalidApiKey,
    /// The identity's request quota for the current window is spent.
    RateLimitExceeded,
    /// The circuit breaker declined the call without attempting it.
    CircuitOpen,
    /// No dataset with this name is owned by the key.
    DatasetNotFound(String),
    /// No feature with this identifier exists in the dataset.
    FeatureNotFound(String),
    /// A dataset with this name already exists for the key.
    DatasetExists(String),
    /// A feature with this identifier already exists in the dataset.
    FeatureExists(String),
    /// The geometry is missing or of an unsupported kind.
    InvalidGeometry(String),
    /// The coordinate system identifier is not in the supported list.
    InvalidCoordinateSystem { srid: i32, message: String, supported_systems: Vec<i32> },
    /// The geometry could not be carried across coordinate systems.
    CoordinateTransformError(String),
    /// A value could not be serialized or parsed as JSON.
    Json(String),
    /// The query request is malformed.
    InvalidQuery(String),
}

/// The HTTP status that an error kind surfaces as: authorization failures
/// as 401, not-found as 404, conflicts as 409, validation failures as 400,
/// quota exhaustion as 429, a declined call as 503, and dependency
/// failures as 500.
pub open spec fn spec_status_code(e: ApiError) -> u16 {
    match e {
        ApiError::Database(_) => 500,
        ApiError::Pool(_) => 500,
        ApiError::CreatePool(_) => 500,
        ApiError::Cache(_) => 500,
        ApiError::InvalidApiKey => 401,
        ApiError::RateLimitExceeded => 429,
        ApiError::CircuitOpen => 503,
        ApiError::DatasetNotFound(_) => 404,
        ApiError::FeatureNotFound(_) => 404,
        ApiError::DatasetExists(_) => 409,
        ApiError::FeatureExists(_) => 409,
        ApiError::InvalidGeometry(_) => 400,
        ApiError::InvalidCoordinateSystem { .. } => 400,
        ApiError::CoordinateTransformError(_) => 400,
        ApiError::Json(_) => 500,
        ApiError::InvalidQuery(_) => 400,
    }
}

/// The one-line description of an error.
pub open spec fn spec_message(e: ApiError) -> Seq<char> {
    match e {
        ApiError::Database(s) => "Database error: "@ + s@,
        ApiError::Pool(s) => "Pool error: "@ + s@,
        ApiError::CreatePool(s) => "Failed to create connection pool: "@ + s@,
        ApiError::Cache(s) => "Cache error: "@ + s@,
        ApiError::InvalidApiKey => "Invalid API key"@,
        ApiError::RateLimitExceeded => "Rate limit exceeded"@,
        ApiError::CircuitOpen => "Circuit breaker is open"@,
        ApiError::DatasetNotFound(s) => "Dataset not found: "@ + s@,
        ApiError::FeatureNotFound(s) => "Feature not found: "@ + s@,
        ApiError::DatasetExists(s) => "Dataset already exists: "@ + s@,
        ApiError::FeatureExists(s) => "Feature ID already exists in dataset: "@ + s@,
        ApiError::InvalidGeometry(s) => "Invalid geometry: "@ + s@,
        ApiError::InvalidCoordinateSystem { srid, message, .. } => "Invalid coordinate system "@
            + spec_decimal_i32(srid as int) + ": "@ + message@,
        ApiError::CoordinateTransformError(s) => "Coordinate transformation error: "@ + s@,
        ApiError::Json(s) => "JSON error: "@ + s@,
        ApiError::InvalidQuery(s) => "Invalid query: "@ + s@,
    }
}

/// The text of the `error` field of a response body. It differs from the
/// one-line description for the two coordinate-system kinds.
pub open spec fn spec_body_error(e: ApiError) -> Seq<char> {
    match e {
        ApiError::InvalidCoordinateSystem { srid, message, .. } => "Invalid SRID "@
            + spec_decimal_i32(srid as int) + ": "@ + message@,
        ApiError::CoordinateTransformError(s) => "Coordinate transformation failed: "@ + s@,
        _ => spec_message(e),
    }
}

/// The structured response that an error surfaces as. The supported-system
/// enumeration and the documentation link accompany only the
/// unsupported-coordinate-system kind; the retry hint accompanies only the
/// quota kind.
#[derive(Debug)]
pub struct ErrorBody {
    pub status: u16,
    pub error: String,
    pub supported_systems: Option<Vec<i32>>,
    pub documentation_url: Option<String>,
    pub rate_limit_limit: Option<u32>,
    pub retry_after_seconds: Option<u32>,
}

impl ApiError {
    /// The HTTP status this error surfaces as.
    pub fn status_code(&self) -> (code: u16)
        ensures
            code == spec_status_code(*self),
    {
        match self {
            ApiError::Database(_) => 500,
            ApiError::Pool(_) => 500,
            ApiError::CreatePool(_) => 500,
            ApiError::Cache(_) => 500,
            ApiError::InvalidApiKey => 401,
            ApiError::RateLimitExceeded => 429,
            ApiError::CircuitOpen => 503,
            ApiError::DatasetNotFound(_) => 404,
            ApiError::FeatureNotFound(_) => 404,
            ApiError::DatasetExists(_) => 409,
            ApiError::FeatureExists(_) => 409,
            ApiError::InvalidGeometry(_) => 400,
            ApiError::InvalidCoordinateSystem { .. } => 400,
            ApiError::CoordinateTransformError(_) => 400,
            ApiError::Json(_) => 500,
            ApiError::InvalidQuery(_) => 400,
        }
    }

    /// The one-line description of this error.
    pub fn message(&self) -> (m: String)
        ensures
            m@ == spec_message(*self),
    {
        match self {
            ApiError::Database(s) => {
                let mut m = String::from_str("Database error: ");
                m.append(s.as_str());
                m
            },
            ApiError::Pool(s) => {
                let mut m = String::from_str("Pool error: ");
                m.append(s.as_str());
                m
            },
            ApiError::CreatePool(s) => {
                let mut m = String::from_str("Failed to create connection pool: ");
                m.append(s.as_str());
                m
            },
            ApiError::Cache(s) => {
                let mut m = String::from_str("Cache error: ");
                m.append(s.as_str());
                m
            },
            ApiError::InvalidApiKey => String::from_str("Invalid API key"),
            ApiError::RateLimitExceeded => String::from_str("Rate limit exceeded"),
            ApiError::CircuitOpen => String::from_str("Circuit breaker is open"),
            ApiError::DatasetNotFound(s) => {
                let mut m = String::from_str("Dataset not found: ");
                m.append(s.as_str());
                m
            },
            ApiError::FeatureNotFound(s) => {
                let mut m = String::from_str("Feature not found: ");
                m.append(s.as_str());
                m
            },
            ApiError::DatasetExists(s) => {
                let mut m = String::from_str("Dataset already exists: ");
                m.append(s.as_str());
                m
            },
            ApiError::FeatureExists(s) => {
                let mut m = String::from_str("Feature ID already exists in dataset: ");
                m.append(s.as_str());
                m
            },
            ApiError::InvalidGeometry(s) => {
                let mut m = String::from_str("Invalid geometry: ");
                m.append(s.as_str());
                m
            },
            ApiError::InvalidCoordinateSystem { srid, message, .. } => {
                let mut m = String::from_str("Invalid coordinate system ");
                let digits = i32_to_string(*srid);
                m.append(digits.as_str());
                m.append(": ");
                m.append(message.as_str());
                m
            },
            ApiError::CoordinateTransformError(s) => {
                let mut m = String::from_str("Coordinate transformation error: ");
                m.append(s.as_str());
                m
            },
            ApiError::Json(s) => {
                let mut m = String::from_str("JSON error: ");
                m.append(s.as_str());
                m
            },
            ApiError::InvalidQuery(s) => {
                let mut m = String::from_str("Invalid query: ");
                m.append(s.as_str());
                m
            },
        }
    }

    /// The structured response this error surfaces as: the status from
    /// `spec_status_code`, the body text from `spec_body_error`, the
    /// supported-system list and documentation link for the
    /// unsupported-coordinate-system kind, and the quota hints for the
    /// rate-limit kind.
    pub fn error_response(&self) -> (body: ErrorBody)
        ensures
            body.status == spec_status_code(*self),
            body.error@ == spec_body_error(*self),
            match *self {
                ApiError::InvalidCoordinateSystem { supported_systems, .. } => {
                    &&& body.supported_systems matches Some(v) && v@ == supported_systems@
                    &&& body.documentation_url matches Some(u) && u@
                        == "https://api.yourdomain.com/docs/coordinate-systems"@
                },
                _ => body.supported_systems is None && body.documentation_url is None,
            },
            match *self {
                ApiError::RateLimitExceeded => body.rate_limit_limit == Some(100u32)
                    && body.retry_after_seconds == Some(60u32),
                _ => body.rate_limit_limit is None && body.retry_after_seconds is None,
            },
    {
        let status = self.status_code();
        match self {
            ApiError::InvalidCoordinateSystem { srid, message, supported_systems } => {
                let mut m = String::from_str("Invalid SRID ");
                let digits = i32_to_string(*srid);
                m.append(digits.as_str());
                m.append(": ");
                m.append(message.as_str());
                let mut systems: Vec<i32> = Vec::new();
                let mut i: usize = 0;
                while i < supported_systems.len()
                    invariant
                        i <= supported_systems.len(),
                        systems@ == supported_systems@.subrange(0, i as int),
                    decreases supported_systems.len() - i,
                {
                    systems.push(supported_systems[i]);
                    i = i + 1;
                    assert(systems@ =~= supported_systems@.subrange(0, i as int));
                }
                assert(systems@ =~= supported_systems@);
                ErrorBody {
                    status,
                    error: m,
                    supported_systems: Some(systems),
                    documentation_url: Some(
                        String::from_str("https://api.yourdomain.com/docs/coordinate-systems"),
                    ),
                    rate_limit_limit: None,
                    retry_after_seconds: None,
                }
            },
            ApiError::CoordinateTransformError(s) => {
                let mut m = String::from_str("Coordinate transformation failed: ");
                m.append(s.as_str());
                ErrorBody {
                    status,
                    error: m,
                    supported_systems: None,
                    documentation_url: None,
                    rate_limit_limit: None,
                    retry_after_seconds: None,
                }
            },
            ApiError::RateLimitExceeded => {
                ErrorBody {
                    status,
                    error: self.message(),
                    supported_systems: None,
                    documentation_url: None,
                    rate_limit_limit: Some(100),
                    retry_after_seconds: Some(60),
                }
            },
            _ => {
                ErrorBody {
                    status,
                    error: self.message(),
                    supported_systems: None,
                    documentation_url: None,
                    rate_limit_limit: None,
                    retry_after_seconds: None,
                }
            },
        }
    }
}

} // verus!
