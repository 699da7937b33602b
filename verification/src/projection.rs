//! Coordinate-system validation and feature transformation.
//!
//! A fixed allow-list of coordinate reference system identifiers (SRIDs) is
//! accepted; anything else is rejected with an error that enumerates the
//! full supported list. The transformation arithmetic itself is the
//! geometry store's job: this layer only validates and delegates.

use vstd::prelude::*;
use crate::error::ApiError;
use crate::models::Feature;

verus! {

/// The supported coordinate system identifiers: WGS84, Web Mercator, the
/// US National Atlas Equal Area, BC Albers, the NAD83 UTM zones 7N-11N,
/// the NAD83 and NAD83(CSRS) geographic systems, and the NAD83(CSRS)
/// BC Albers and UTM zones 7N-11N.
pub open spec fn spec_supported_srids() -> Seq<i32> {
    seq![
        4326i32,
        3857i32,
        2163i32,
        3005i32,
        26907i32,
        26908i32,
        26909i32,
        26910i32,
        26911i32,
        3157i32,
        4269i32,
        4617i32,
        3155i32,
        3156i32,
        2955i32,
        3158i32,
        3159i32,
    ]
}

/// Whether a coordinate system identifier is in the supported list.
pub open spec fn is_supported_srid(srid: i32) -> bool {
    spec_supported_srids().contains(srid)
}

/// Validates coordinate systems and carries features between them by
/// delegating to the geometry store.
pub struct ProjectionTransformer;

impl ProjectionTransformer {
    /// The supported coordinate system identifiers, in the order they are
    /// enumerated to clients.
    pub fn supported_srids() -> (v: Vec<i32>)
        ensures
            v@ == spec_supported_srids(),
    {
        let mut v: Vec<i32> = Vec::new();
        v.push(4326);
        v.push(3857);
        v.push(2163);
        v.push(3005);
        v.push(26907);
        v.push(26908);
        v.push(26909);
        v.push(26910);
        v.push(26911);
        v.push(3157);
        v.push(4269);
        v.push(4617);
        v.push(3155);
        v.push(3156);
        v.push(2955);
        v.push(3158);
        v.push(3159);
        assert(v@ =~= spec_supported_srids());
        v
    }

    /// Accepts exactly the supported coordinate system identifiers. A
    /// rejection carries the offending identifier and enumerates the full
    /// supported list.
    pub fn validate_srid(srid: i32) -> (r: Result<(), ApiError>)
        ensures
            r is Ok <==> is_supported_srid(srid),
            r matches Err(e) ==> e matches ApiError::InvalidCoordinateSystem {
                srid: bad,
                message,
                supported_systems,
            } && bad == srid && message@ == "Unsupported coordinate system"@
                && supported_systems@ == spec_supported_srids(),
    {
        let supported = Self::supported_srids();
        let mut i: usize = 0;
        while i < supported.len()
            invariant
                i <= supported.len(),
                supported@ == spec_supported_srids(),
                forall|j: int| 0 <= j < i ==> supported@[j] != srid,
            decreases supported.len() - i,
        {
            if supported[i] == srid {
                return Ok(());
            }
            i = i + 1;
        }
        Err(ApiError::InvalidCoordinateSystem {
            srid,
            message: String::from_str("Unsupported coordinate system"),
            supported_systems: supported,
        })
    }

    /// Readies a feature that arrived in `input_srid` for storage in the
    /// canonical system. Geometry already in WGS84 passes through
    /// unchanged; any other supported system is accepted and handed on for
    /// the store to reproject, provided a geometry is present; an
    /// unsupported system or a missing geometry is rejected.
    pub fn transform_feature(feature: &Feature, input_srid: i32) -> (r: Result<Feature, ApiError>)
        ensures
            r is Ok <==> input_srid == 4326 || (is_supported_srid(input_srid)
                && feature.geometry is Some),
            r matches Ok(f) ==> f@ == feature@,
            r matches Err(e) ==> if !is_supported_srid(input_srid) {
                e matches ApiError::InvalidCoordinateSystem { srid: bad, message, supported_systems }
                    && bad == input_srid && message@ == "Unsupported coordinate system"@
                    && supported_systems@ == spec_supported_srids()
            } else {
                e matches ApiError::InvalidGeometry(m) && m@ == "Missing geometry"@
            },
    {
        if input_srid == 4326 {
            return Ok(feature.clone());
        }
        match Self::validate_srid(input_srid) {
            Ok(_) => {},
            Err(e) => {
                return Err(e);
            },
        }
        match &feature.geometry {
            Some(_) => Ok(feature.clone()),
            None => Err(ApiError::InvalidGeometry(String::from_str("Missing geometry"))),
        }
    }
}

} // verus!
