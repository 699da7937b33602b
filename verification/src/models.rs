//! Data model of the service: datasets, features, geometries, and the
//! request shapes that the service accepts.
//!
//! Geometry coordinates are never interpreted by this layer: a geometry is
//! carried as its serialized GeoJSON text plus the kind tag that validation
//! reads. Reprojection arithmetic belongs to the backing geometry store.

use vstd::prelude::*;

verus! {

/// The kind tag of a GeoJSON geometry.
#[derive(Clone, Copy, PartialEq, Eq, Structural, Debug)]
pub enum GeometryKind {
    Point,
    MultiPoint,
    LineString,
    MultiLineString,
    Polygon,
    MultiPolygon,
    GeometryCollection,
}

/// A geometry as this layer sees it: the kind tag that validation reads and
/// the serialized GeoJSON text that is handed through to the geometry store.
#[derive(Debug)]
pub struct Geometry {
    pub kind: GeometryKind,
    pub geojson: String,
}

/// Mathematical image of a `Geometry`.
pub struct GeometryView {
    pub kind: GeometryKind,
    pub geojson: Seq<char>,
}

impl View for Geometry {
    type V = GeometryView;

    open spec fn view(&self) -> GeometryView {
        GeometryView { kind: self.kind, geojson: self.geojson@ }
    }
}

impl Clone for Geometry {
    fn clone(&self) -> (r: Self)
        ensures
            r@ == self@,
    {
        Geometry { kind: self.kind, geojson: self.geojson.clone() }
    }
}

/// A top-level GeoJSON value, as far as this layer distinguishes them.
#[derive(Debug)]
pub enum GeoJson {
    Geometry(Geometry),
    Feature,
    FeatureCollection,
}

/// Mathematical image of a `GeoJson`.
pub enum GeoJsonView {
    Geometry(GeometryView),
    Feature,
    FeatureCollection,
}

impl View for GeoJson {
    type V = GeoJsonView;

    open spec fn view(&self) -> GeoJsonView {
        match self {
            GeoJson::Geometry(g) => GeoJsonView::Geometry(g@),
            GeoJson::Feature => GeoJsonView::Feature,
            GeoJson::FeatureCollection => GeoJsonView::FeatureCollection,
        }
    }
}

impl Clone for GeoJson {
    fn clone(&self) -> (r: Self)
        ensures
            r@ == self@,
    {
        match self {
            GeoJson::Geometry(g) => GeoJson::Geometry(g.clone()),
            GeoJson::Feature => GeoJson::Feature,
            GeoJson::FeatureCollection => GeoJson::FeatureCollection,
        }
    }
}

/// A named collection of features, owned by one API key.
/// Names are scoped per key: `(name, api_key)` is unique, not `name` alone.
#[derive(Debug)]
pub struct Dataset {
    pub id: u128,
    pub name: String,
    pub api_key: String,
}

/// Mathematical image of a `Dataset`.
pub struct DatasetView {
    pub id: u128,
    pub name: Seq<char>,
    pub api_key: Seq<char>,
}

impl View for Dataset {
    type V = DatasetView;

    open spec fn view(&self) -> DatasetView {
        DatasetView { id: self.id, name: self.name@, api_key: self.api_key@ }
    }
}

impl Clone for Dataset {
    fn clone(&self) -> (r: Self)
        ensures
            r@ == self@,
    {
        Dataset { id: self.id, name: self.name.clone(), api_key: self.api_key.clone() }
    }
}

/// A stored geospatial feature. `attributes` carries the feature's custom
/// properties as JSON text; this layer never looks inside it.
#[derive(Debug)]
pub struct Feature {
    pub id: u128,
    pub dataset_id: u128,
    pub feature_id: String,
    pub geometry: Option<Geometry>,
    pub attributes: String,
    pub input_srid: i32,
    pub api_key: String,
}

/// Mathematical image of a `Feature`.
pub struct FeatureView {
    pub id: u128,
    pub dataset_id: u128,
    pub feature_id: Seq<char>,
    pub geometry: Option<GeometryView>,
    pub attributes: Seq<char>,
    pub input_srid: i32,
    pub api_key: Seq<char>,
}

impl View for Feature {
    type V = FeatureView;

    open spec fn view(&self) -> FeatureView {
        FeatureView {
            id: self.id,
            dataset_id: self.dataset_id,
            feature_id: self.feature_id@,
            geometry: match self.geometry {
                Option::Some(g) => Option::Some(g@),
                Option::None => Option::None,
            },
            attributes: self.attributes@,
            input_srid: self.input_srid,
            api_key: self.api_key@,
        }
    }
}

impl Clone for Feature {
    fn clone(&self) -> (r: Self)
        ensures
            r@ == self@,
    {
        Feature {
            id: self.id,
            dataset_id: self.dataset_id,
            feature_id: self.feature_id.clone(),
            geometry: match &self.geometry {
                Option::Some(g) => Option::Some(g.clone()),
                Option::None => Option::None,
            },
            attributes: self.attributes.clone(),
            input_srid: self.input_srid,
            api_key: self.api_key.clone(),
        }
    }
}

/// A spatial query request: a logical predicate name, a query geometry, the
/// dataset to search, and the coordinate systems of the input geometry and
/// of the requested output.
#[derive(Debug)]
pub struct SpatialQuery {
    pub operation: String,
    pub geometry: GeoJson,
    pub dataset_name: String,
    pub api_key: String,
    pub input_srid: i32,
    pub output_srid: i32,
}

/// Mathematical image of a `SpatialQuery`.
pub struct SpatialQueryView {
    pub operation: Seq<char>,
    pub geometry: GeoJsonView,
    pub dataset_name: Seq<char>,
    pub api_key: Seq<char>,
    pub input_srid: i32,
    pub output_srid: i32,
}

impl View for SpatialQuery {
    type V = SpatialQueryView;

    open spec fn view(&self) -> SpatialQueryView {
        SpatialQueryView {
            operation: self.operation@,
            geometry: self.geometry@,
            dataset_name: self.dataset_name@,
            api_key: self.api_key@,
            input_srid: self.input_srid,
            output_srid: self.output_srid,
        }
    }
}

/// An attribute query request. The conditions are carried as JSON text;
/// their evaluation belongs to the backing store.
#[derive(Debug)]
pub struct AttributeQuery {
    pub dataset_name: String,
    pub conditions: String,
}

/// A request to mint a new API key, authenticated by the master key.
#[derive(Debug)]
pub struct CreateApiKeyRequest {
    pub new_key: String,
    pub key_expires_in_seconds: i32,
    pub data_expires_in_seconds: i32,
}

/// Default expiry for API keys: 90 days, in seconds.
pub fn default_key_expiry() -> (n: i32)
    ensures
        n == 7776000,
{
    7776000
}

/// Default expiry for cached data: one hour, in seconds.
pub fn default_data_expiry() -> (n: i32)
    ensures
        n == 3600,
{
    3600
}

/// Default coordinate system: WGS84.
pub fn default_srid() -> (n: i32)
    ensures
        n == 4326,
{
    4326
}

} // verus!
