//! The per-operation control flow of the service: the rate-limit check,
//! then key validation, then the store or cache work, in that order for
//! every incoming operation.
//!
//! Readers follow the cache-aside policy: consult the cache first and
//! populate it on miss. Writers update the store first, then populate the
//! cache on create and explicitly invalidate on update — the cache is
//! never updated in place for a mutation.

use vstd::prelude::*;
use crate::cache::{spec_cache_key, Cache};
use crate::db::{
    spec_dataset_features,
    spec_datasets_of,
    spec_find_dataset,
    spec_find_dataset_by_id,
    spec_find_feature,
    spec_find_key,
    spec_find_named_feature,
    lemma_find_dataset_fields,
    lemma_find_named_feature_fields,
    spec_operation_predicate,
    spec_update_features,
    ApiKeyRecordView,
    Database,
    SpatialPlan,
};
use crate::error::ApiError;
use crate::kv::{map_live_value, KvCell, KvStore, StoredValueView};
use crate::models::{
    Dataset,
    Feature,
    FeatureView,
    GeometryKind,
    GeoJsonView,
    SpatialQuery,
};
use crate::projection::{is_supported_srid, spec_supported_srids};
use crate::rate_limit::{spec_rate_limit_key, RateLimiter};

verus! {

/// The calls an identity has already made in its current window, as the
/// quota check reads them: a live counter, or zero.
pub open spec fn spec_counted(m: Map<Seq<char>, KvCell>, k: Seq<char>, now: u64) -> nat {
    match map_live_value(m, k, now) {
        Some(StoredValueView::Count(n)) => n as nat,
        _ => 0,
    }
}

/// The backend after one call was admitted: the identity's counter
/// advanced and its window slid out to sixty seconds.
pub open spec fn spec_after_admission(m: Map<Seq<char>, KvCell>, k: Seq<char>, now: u64) -> Map<
    Seq<char>,
    KvCell,
> {
    m.insert(
        k,
        KvCell {
            value: StoredValueView::Count((spec_counted(m, k, now) + 1) as u64),
            expires_at: Some((now + 60) as u64),
        },
    )
}

/// Law: the rate-limit and cache key spaces are disjoint — bumping a
/// window counter can never touch a cached feature, nor the reverse.
pub proof fn lemma_distinct_key_spaces(identity: Seq<char>, d: Seq<char>, f: Seq<char>)
    ensures
        spec_rate_limit_key(identity) != spec_cache_key(d, f),
{
    reveal_strlit("rate_limit:");
    reveal_strlit("feature:");
    assert(spec_rate_limit_key(identity)[0] == 'r');
    assert(spec_cache_key(d, f)[0] == 'f');
}

/// The service: the durable store, the shared key-value backend, and the
/// rate limiter, threaded their configuration at construction.
pub struct GeoService {
    pub db: Database,
    pub store: KvStore,
    pub limiter: RateLimiter,
}

impl GeoService {
    /// Both backing states are well-formed.
    pub open spec fn wf(self) -> bool {
        self.db.wf() && self.store.wf()
    }

    /// Whether the admission checks turn `api_key` away at `now`: a malformed
    /// counter cell, a spent window, or a key that does not validate.
    pub open spec fn spec_request_denied(self, api_key: Seq<char>, now: u64) -> bool {
        let m0 = self.store.contents();
        let rk = spec_rate_limit_key(api_key);
        ||| map_live_value(m0, rk, now) matches Some(StoredValueView::Record(_))
        ||| spec_counted(m0, rk, now) >= self.limiter.requests_per_minute
        ||| !self.db.spec_key_validates(api_key, now)
    }

    /// The error kind a denied request surfaces as, per the cause: a
    /// malformed counter cell as a backend failure, a spent window as the
    /// quota kind, and a key that does not validate as unauthorized.
    pub open spec fn spec_denial_error(self, api_key: Seq<char>, now: u64, e: ApiError) -> bool {
        let m0 = self.store.contents();
        let rk = spec_rate_limit_key(api_key);
        if map_live_value(m0, rk, now) matches Some(StoredValueView::Record(_)) {
            e is Cache
        } else if spec_counted(m0, rk, now) >= self.limiter.requests_per_minute {
            e is RateLimitExceeded
        } else {
            e is InvalidApiKey
        }
    }

    /// The admission checks run before any protected work: the rate limiter first,
    /// then key validation. A denial reports which check failed and, when
    /// the quota denies, mutates nothing; an admitted call has its window
    /// counter advanced and, for an ordinary key, its last use refreshed.
    fn admit_request(&mut self, api_key: &String, now: u64) -> (r: Result<(), ApiError>)
        requires
            old(self).wf(),
            now + 60 <= u64::MAX,
        ensures
            final(self).wf(),
            final(self).limiter == old(self).limiter,
            final(self).db.master() == old(self).db.master(),
            final(self).db.datasets() == old(self).db.datasets(),
            final(self).db.features() == old(self).db.features(),
            r is Ok <==> !old(self).spec_request_denied(api_key@, now),
            ({
                let m0 = old(self).store.contents();
                let rk = spec_rate_limit_key(api_key@);
                match map_live_value(m0, rk, now) {
                    Some(StoredValueView::Record(_)) => (r matches Err(e) && e is Cache) && final(self).store.contents() == m0 && final(self).db.keys() == old(self).db.keys(),
                    _ => if spec_counted(m0, rk, now) >= old(self).limiter.requests_per_minute {
                        (r matches Err(e) && e is RateLimitExceeded) && final(self).store.contents()
                            == m0 && final(self).db.keys() == old(self).db.keys()
                    } else {
                        final(self).store.contents() == spec_after_admission(m0, rk, now) && if old(self).db.spec_key_validates(api_key@, now) {
                            r is Ok && final(self).db.keys() == old(self).db.spec_keys_after_validate(
                                api_key@,
                                now,
                            )
                        } else {
                            (r matches Err(e) && e is InvalidApiKey) && final(self).db.keys()
                                == old(self).db.keys()
                        }
                    },
                }
            }),
    {
        let limiter = RateLimiter { requests_per_minute: self.limiter.requests_per_minute };
        match limiter.check_rate_limit(&mut self.store, api_key, now) {
            Err(e) => {
                return Err(e);
            },
            Ok(_) => {},
        }
        let valid = match self.db.validate_api_key(api_key, now) {
            Ok(v) => v,
            Err(e) => {
                return Err(e);
            },
        };
        if valid {
            Ok(())
        } else {
            Err(ApiError::InvalidApiKey)
        }
    }

    /// Mints a new API key, throttled by the rate limiter on the requesting
    /// (master) key; only the master key may create, and a duplicate is
    /// rejected, never overwritten.
    pub fn create_api_key_flow(
        &mut self,
        new_key: &String,
        key_expires_in_seconds: i32,
        data_expires_in_seconds: i32,
        master_key: &String,
        now: u64,
    ) -> (r: Result<(), ApiError>)
        requires
            old(self).wf(),
            now + 60 <= u64::MAX,
        ensures
            final(self).wf(),
            final(self).limiter == old(self).limiter,
            final(self).db.master() == old(self).db.master(),
            final(self).db.datasets() == old(self).db.datasets(),
            final(self).db.features() == old(self).db.features(),
            ({
                let m0 = old(self).store.contents();
                let rk = spec_rate_limit_key(master_key@);
                match map_live_value(m0, rk, now) {
                    Some(StoredValueView::Record(_)) => (r matches Err(e) && e is Cache) && final(self).store.contents() == m0 && final(self).db.keys() == old(self).db.keys(),
                    _ => if spec_counted(m0, rk, now) >= old(self).limiter.requests_per_minute {
                        (r matches Err(e) && e is RateLimitExceeded) && final(self).store.contents()
                            == m0 && final(self).db.keys() == old(self).db.keys()
                    } else {
                        final(self).store.contents() == spec_after_admission(m0, rk, now) && if master_key@
                            != old(self).db.master() {
                            (r matches Err(e) && e is InvalidApiKey) && final(self).db.keys()
                                == old(self).db.keys()
                        } else if spec_find_key(old(self).db.keys(), new_key@) is Some {
                            (r matches Err(e) && e is Database) && final(self).db.keys() == old(self).db.keys()
                        } else {
                            r is Ok && final(self).db.keys() == old(self).db.keys().push(
                                ApiKeyRecordView {
                                    key: new_key@,
                                    created_at: now,
                                    last_used_at: now,
                                    key_expires_in_seconds,
                                    data_expires_in_seconds,
                                },
                            )
                        }
                    },
                }
            }),
    {
        let limiter = RateLimiter { requests_per_minute: self.limiter.requests_per_minute };
        match limiter.check_rate_limit(&mut self.store, master_key, now) {
            Err(e) => {
                return Err(e);
            },
            Ok(_) => {},
        }
        self.db.create_api_key(
            new_key,
            key_expires_in_seconds,
            data_expires_in_seconds,
            master_key,
            now,
        )
    }

    /// Creates a dataset behind both admission checks.
    pub fn create_dataset_flow(&mut self, api_key: &String, dataset: &Dataset, now: u64) -> (r:
        Result<(), ApiError>)
        requires
            old(self).wf(),
            now + 60 <= u64::MAX,
        ensures
            final(self).wf(),
            final(self).limiter == old(self).limiter,
            final(self).db.master() == old(self).db.master(),
            final(self).db.features() == old(self).db.features(),
            old(self).spec_request_denied(api_key@, now) ==> (r matches Err(e) && old(self).spec_denial_error(api_key@, now, e)) && final(self).db.datasets() == old(self).db.datasets(),
            !old(self).spec_request_denied(api_key@, now) ==> ({
                if dataset.name@.contains(':') {
                    (r matches Err(e) && e is InvalidQuery) && final(self).db.datasets() == old(self).db.datasets()
                } else if spec_find_dataset(old(self).db.datasets(), dataset.name@, dataset.api_key@)
                    is Some {
                    (r matches Err(e) && e is DatasetExists) && final(self).db.datasets() == old(self).db.datasets()
                } else if spec_find_dataset_by_id(old(self).db.datasets(), dataset.id)
                    is Some {
                    (r matches Err(e) && e is Database) && final(self).db.datasets() == old(self).db.datasets()
                } else {
                    r is Ok && final(self).db.datasets() == old(self).db.datasets().push(dataset@)
                }
            }),
    {
        match self.admit_request(api_key, now) {
            Err(e) => {
                return Err(e);
            },
            Ok(_) => {},
        }
        self.db.create_dataset(dataset)
    }

    /// Lists the requesting key's datasets behind both admission checks.
    pub fn list_datasets_flow(&mut self, api_key: &String, now: u64) -> (r: Result<
        Vec<Dataset>,
        ApiError,
    >)
        requires
            old(self).wf(),
            now + 60 <= u64::MAX,
        ensures
            final(self).wf(),
            final(self).limiter == old(self).limiter,
            final(self).db.master() == old(self).db.master(),
            final(self).db.datasets() == old(self).db.datasets(),
            final(self).db.features() == old(self).db.features(),
            old(self).spec_request_denied(api_key@, now) ==> (r matches Err(e) && old(self).spec_denial_error(api_key@, now, e)),
            !old(self).spec_request_denied(api_key@, now) ==> (r matches Ok(v) && v@.map_values(
                |d: Dataset| d@,
            ) == spec_datasets_of(old(self).db.datasets(), api_key@)),
    {
        match self.admit_request(api_key, now) {
            Err(e) => {
                return Err(e);
            },
            Ok(_) => {},
        }
        self.db.get_datasets(api_key)
    }

    /// Stores a feature behind both admission checks, handing the store
    /// the coordinate system the feature arrived in (the store persists
    /// it canonically), then populates the cache with the stored record
    /// as a reader would see it (the create path of the write-aside
    /// policy).
    pub fn store_feature_flow(
        &mut self,
        api_key: &String,
        dataset_name: &String,
        feature: &Feature,
        now: u64,
    ) -> (r: Result<u128, ApiError>)
        requires
            old(self).wf(),
            now + 3600 <= u64::MAX,
        ensures
            final(self).wf(),
            final(self).limiter == old(self).limiter,
            final(self).db.master() == old(self).db.master(),
            final(self).db.datasets() == old(self).db.datasets(),
            old(self).spec_request_denied(api_key@, now) ==> (r matches Err(e) && old(self).spec_denial_error(api_key@, now, e)) && final(self).db.features() == old(self).db.features(),
            !old(self).spec_request_denied(api_key@, now) ==> ({
                let ds = spec_find_dataset(old(self).db.datasets(), dataset_name@, api_key@);
                if feature@.geometry is None || feature@.geometry->Some_0.kind
                    == GeometryKind::GeometryCollection {
                    (r matches Err(e) && e is InvalidGeometry) && final(self).db.features() == old(self).db.features()
                } else if !is_supported_srid(feature.input_srid) {
                    (r matches Err(e) && e matches ApiError::InvalidCoordinateSystem {
                        srid: bad,
                        message,
                        supported_systems,
                    } && bad == feature.input_srid && message@ == "Unsupported coordinate system"@
                        && supported_systems@ == spec_supported_srids()) && final(self).db.features() == old(self).db.features()
                } else if ds is None {
                    (r matches Err(e) && e is DatasetNotFound) && final(self).db.features() == old(self).db.features()
                } else if spec_find_feature(
                    old(self).db.features(),
                    ds->Some_0.id,
                    feature.feature_id@,
                ) is Some {
                    (r matches Err(e) && e is FeatureExists) && final(self).db.features() == old(self).db.features()
                } else {
                    let id = r->Ok_0;
                    &&& r is Ok
                    &&& final(self).db.features() == old(self).db.features().push(
                        FeatureView {
                            id: id,
                            dataset_id: ds->Some_0.id,
                            feature_id: feature.feature_id@,
                            geometry: feature@.geometry,
                            attributes: feature@.attributes,
                            input_srid: feature.input_srid,
                            api_key: api_key@,
                        },
                    )
                    &&& map_live_value(
                        final(self).store.contents(),
                        spec_cache_key(dataset_name@, feature.feature_id@),
                        now,
                    ) == Some(
                        StoredValueView::Record(
                            FeatureView {
                                id: id,
                                dataset_id: ds->Some_0.id,
                                feature_id: feature.feature_id@,
                                geometry: feature@.geometry,
                                attributes: feature@.attributes,
                                input_srid: 4326,
                                api_key: api_key@,
                            },
                        ),
                    )
                }
            }),
    {
        match self.admit_request(api_key, now) {
            Err(e) => {
                return Err(e);
            },
            Ok(_) => {},
        }
        let id = match self.db.store_feature(
            feature.clone(),
            dataset_name,
            api_key,
            feature.input_srid,
        ) {
            Err(e) => {
                return Err(e);
            },
            Ok(id) => id,
        };
        let dataset = match self.db.get_dataset_by_name(dataset_name, api_key) {
            Ok(Some(d)) => d,
            // A successful store implies the dataset exists, so this arm
            // is unreachable.
            _ => {
                return Err(ApiError::DatasetNotFound(dataset_name.clone()));
            },
        };
        proof {
            lemma_find_dataset_fields(self.db.datasets(), dataset_name@, api_key@);
        }
        // Populate the cache with the stored record as a reader would see
        // it — fresh id, canonical coordinate system — not with the
        // request body.
        let stored = Feature {
            id,
            dataset_id: dataset.id,
            feature_id: feature.feature_id.clone(),
            geometry: match &feature.geometry {
                Some(g) => Some(g.clone()),
                None => None,
            },
            attributes: feature.attributes.clone(),
            input_srid: 4326,
            api_key: dataset.api_key.clone(),
        };
        match Cache::set_feature(&mut self.store, dataset_name, &stored, now) {
            Err(e) => {
                return Err(e);
            },
            Ok(_) => {},
        }
        Ok(id)
    }

    /// Updates a feature behind both admission checks, then explicitly invalidates
    /// its cache entry rather than updating it in place, so that no
    /// partially applied write is ever served.
    pub fn update_feature_flow(
        &mut self,
        api_key: &String,
        dataset_name: &String,
        feature_id: &String,
        feature: &Feature,
        now: u64,
    ) -> (r: Result<(), ApiError>)
        requires
            old(self).wf(),
            now + 60 <= u64::MAX,
        ensures
            final(self).wf(),
            final(self).limiter == old(self).limiter,
            final(self).db.master() == old(self).db.master(),
            final(self).db.datasets() == old(self).db.datasets(),
            old(self).spec_request_denied(api_key@, now) ==> (r matches Err(e) && old(self).spec_denial_error(api_key@, now, e)) && final(self).db.features() == old(self).db.features(),
            !old(self).spec_request_denied(api_key@, now) ==> ({
                let ds = spec_find_dataset(old(self).db.datasets(), dataset_name@, api_key@);
                if feature@.geometry is None || feature@.geometry->Some_0.kind
                    == GeometryKind::GeometryCollection {
                    (r matches Err(e) && e is InvalidGeometry) && final(self).db.features() == old(self).db.features()
                } else if ds is None {
                    (r matches Err(e) && e is DatasetNotFound) && final(self).db.features() == old(self).db.features()
                } else if spec_find_feature(
                    old(self).db.features(),
                    ds->Some_0.id,
                    feature.feature_id@,
                ) is None {
                    (r matches Err(e) && e is FeatureNotFound) && final(self).db.features() == old(self).db.features()
                } else {
                    &&& r is Ok
                    &&& final(self).db.features() == spec_update_features(
                        old(self).db.features(),
                        ds->Some_0.id,
                        feature.feature_id@,
                        feature@.geometry,
                        feature@.attributes,
                        feature.input_srid,
                    )
                    &&& map_live_value(
                        final(self).store.contents(),
                        spec_cache_key(dataset_name@, feature_id@),
                        now,
                    ) is None
                }
            }),
    {
        match self.admit_request(api_key, now) {
            Err(e) => {
                return Err(e);
            },
            Ok(_) => {},
        }
        match self.db.update_feature(feature.clone(), dataset_name, api_key, feature.input_srid) {
            Err(e) => {
                return Err(e);
            },
            Ok(_) => {},
        }
        match Cache::invalidate_feature(&mut self.store, dataset_name, feature_id) {
            Err(e) => {
                return Err(e);
            },
            Ok(_) => {},
        }
        Ok(())
    }

    /// Reads a feature behind both admission checks, cache first: a live cached
    /// record is served as-is; on miss the authoritative store is read
    /// and the cache populated with what it returned.
    pub fn get_feature_flow(
        &mut self,
        api_key: &String,
        dataset_name: &String,
        feature_id: &String,
        now: u64,
    ) -> (r: Result<Feature, ApiError>)
        requires
            old(self).wf(),
            now + 3600 <= u64::MAX,
        ensures
            final(self).wf(),
            final(self).limiter == old(self).limiter,
            final(self).db.master() == old(self).db.master(),
            final(self).db.datasets() == old(self).db.datasets(),
            final(self).db.features() == old(self).db.features(),
            old(self).spec_request_denied(api_key@, now) ==> (r matches Err(e) && old(self).spec_denial_error(api_key@, now, e)),
            !old(self).spec_request_denied(api_key@, now) ==> ({
                let m1 = spec_after_admission(
                    old(self).store.contents(),
                    spec_rate_limit_key(api_key@),
                    now,
                );
                let ck = spec_cache_key(dataset_name@, feature_id@);
                let stored = spec_find_named_feature(
                    old(self).db.features(),
                    old(self).db.datasets(),
                    dataset_name@,
                    feature_id@,
                );
                match map_live_value(m1, ck, now) {
                    Some(StoredValueView::Record(fv)) => (r matches Ok(f) && f@ == fv) && final(self).store.contents() == m1,
                    Some(StoredValueView::Count(_)) => (r matches Err(e) && e is Json) && final(self).store.contents() == m1,
                    None => match stored {
                        None => (r matches Err(e) && e is FeatureNotFound) && final(self).store.contents() == m1,
                        Some(_) => r matches Ok(f) && map_live_value(
                            final(self).store.contents(),
                            ck,
                            now,
                        ) == Some(StoredValueView::Record(f@)),
                    },
                }
            }),
    {
        match self.admit_request(api_key, now) {
            Err(e) => {
                return Err(e);
            },
            Ok(_) => {},
        }
        proof {
            lemma_distinct_key_spaces(api_key@, dataset_name@, feature_id@);
        }
        match Cache::get_feature(&self.store, dataset_name, feature_id, now) {
            Err(e) => {
                return Err(e);
            },
            Ok(Some(f)) => {
                return Ok(f);
            },
            Ok(None) => {},
        }
        let found = match self.db.get_feature(dataset_name, feature_id) {
            Err(e) => {
                return Err(e);
            },
            Ok(None) => {
                return Err(ApiError::FeatureNotFound(feature_id.clone()));
            },
            Ok(Some(f)) => f,
        };
        proof {
            lemma_find_named_feature_fields(
                self.db.features(),
                self.db.datasets(),
                dataset_name@,
                feature_id@,
            );
        }
        match Cache::set_feature(&mut self.store, dataset_name, &found, now) {
            Err(e) => {
                return Err(e);
            },
            Ok(_) => {},
        }
        Ok(found)
    }

    /// Translates a spatial query behind both admission checks, stamping the
    /// requesting key as the query's identity for the ownership check.
    pub fn spatial_query_flow(&mut self, api_key: &String, query: &SpatialQuery, now: u64) -> (r:
        Result<SpatialPlan, ApiError>)
        requires
            old(self).wf(),
            now + 60 <= u64::MAX,
        ensures
            final(self).wf(),
            final(self).limiter == old(self).limiter,
            final(self).db.master() == old(self).db.master(),
            final(self).db.datasets() == old(self).db.datasets(),
            final(self).db.features() == old(self).db.features(),
            old(self).spec_request_denied(api_key@, now) ==> (r matches Err(e) && old(self).spec_denial_error(api_key@, now, e)),
            !old(self).spec_request_denied(api_key@, now) ==> ({
                if !is_supported_srid(query.input_srid)
                    || !is_supported_srid(query.output_srid) {
                    r matches Err(e) && e matches ApiError::InvalidCoordinateSystem {
                        srid: bad,
                        message,
                        supported_systems,
                    } && (bad == if !is_supported_srid(query.input_srid) {
                        query.input_srid
                    } else {
                        query.output_srid
                    }) && message@ == "Unsupported coordinate system"@ && supported_systems@
                        == spec_supported_srids()
                } else if spec_operation_predicate(query.operation@) is None || !(query.geometry@
                    matches GeoJsonView::Geometry(g) && g.kind != GeometryKind::GeometryCollection) {
                    r matches Err(e) && e is InvalidGeometry
                } else if spec_find_dataset(old(self).db.datasets(), query.dataset_name@, api_key@)
                    is None {
                    r matches Err(e) && e is DatasetNotFound
                } else {
                    let ds = spec_find_dataset(
                        old(self).db.datasets(),
                        query.dataset_name@,
                        api_key@,
                    )->Some_0;
                    let plan = r->Ok_0;
                    &&& r is Ok
                    &&& plan.predicate == spec_operation_predicate(query.operation@)->Some_0
                    &&& plan.dataset_id == ds.id
                    &&& plan.geometry_srid == query.input_srid
                    &&& plan.evaluate_in_srid == 4326
                    &&& plan.output_srid == query.output_srid
                    &&& plan.candidates@.map_values(|f: Feature| f@) == spec_dataset_features(
                        old(self).db.features(),
                        ds.id,
                    )
                }
            }),
    {
        match self.admit_request(api_key, now) {
            Err(e) => {
                return Err(e);
            },
            Ok(_) => {},
        }
        let owned_query = SpatialQuery {
            operation: query.operation.clone(),
            geometry: query.geometry.clone(),
            dataset_name: query.dataset_name.clone(),
            api_key: api_key.clone(),
            input_srid: query.input_srid,
            output_srid: query.output_srid,
        };
        self.db.spatial_query(&owned_query)
    }
}

} // verus!
