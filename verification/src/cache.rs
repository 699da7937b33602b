//! The cache-aside layer: a feature record cached under a composite key
//! with a one-hour expiry, populated by readers on miss and by the create
//! path on write, and explicitly invalidated on update.
//!
//! The cache is never authoritative: every entry is derived from a stored
//! feature, and losing the backend costs performance, not correctness.

use vstd::prelude::*;
use crate::error::ApiError;
use crate::kv::{cell_live, map_live_value, KvCell, KvStore, StoredValue, StoredValueView};
use crate::models::{Feature, FeatureView};

verus! {

/// Seconds a cached feature record stays valid: one hour.
pub const CACHE_TTL_SECONDS: u64 = 3600;

/// The backend key under which a feature is cached. The composition is
/// collision-free across datasets whose names are free of ':'
/// (`lemma_cache_key_injective`), and dataset creation rejects names
/// holding ':', so every stored dataset's keys are collision-free.
pub open spec fn spec_cache_key(dataset_name: Seq<char>, feature_id: Seq<char>) -> Seq<char> {
    "feature:"@ + dataset_name + ":"@ + feature_id
}

/// The cache-aside layer over the key-value backend.
pub struct Cache;

impl Cache {
    /// Builds the backend key for one feature of one dataset.
    pub fn cache_key(dataset_name: &String, feature_id: &String) -> (k: String)
        ensures
            k@ == spec_cache_key(dataset_name@, feature_id@),
    {
        let mut k = String::from_str("feature:");
        k.append(dataset_name.as_str());
        k.append(":");
        k.append(feature_id.as_str());
        k
    }

    /// Reads the cached record for a feature, empty on miss or expiry.
    /// A cell that does not hold a record cannot be read back as a
    /// feature and surfaces as the JSON error kind.
    pub fn get_feature(store: &KvStore, dataset_name: &String, feature_id: &String, now: u64) -> (r:
        Result<Option<Feature>, ApiError>)
        requires
            store.wf(),
        ensures
            match store.live_value(spec_cache_key(dataset_name@, feature_id@), now) {
                None => r matches Ok(o) && o is None,
                Some(StoredValueView::Record(fv)) => r matches Ok(o) && (o matches Some(f) && f@
                    == fv),
                Some(StoredValueView::Count(_)) => r matches Err(e) && e is Json,
            },
    {
        let key = Self::cache_key(dataset_name, feature_id);
        match store.get(&key, now) {
            None => Ok(None),
            Some(StoredValue::Record(f)) => Ok(Some(f)),
            Some(StoredValue::Count(_)) => Err(
                ApiError::Json(String::from_str("cached value is not a feature record")),
            ),
        }
    }

    /// Caches a feature record under its dataset for one hour, replacing
    /// whatever the key held.
    pub fn set_feature(store: &mut KvStore, dataset_name: &String, feature: &Feature, now: u64) -> (r:
        Result<(), ApiError>)
        requires
            old(store).wf(),
            now + 3600 <= u64::MAX,
        ensures
            final(store).wf(),
            r is Ok,
            final(store).contents() == old(store).contents().insert(
                spec_cache_key(dataset_name@, feature.feature_id@),
                KvCell {
                    value: StoredValueView::Record(feature@),
                    expires_at: Some((now + 3600) as u64),
                },
            ),
    {
        let key = Self::cache_key(dataset_name, &feature.feature_id);
        store.set_ex(&key, StoredValue::Record(feature.clone()), CACHE_TTL_SECONDS, now);
        Ok(())
    }

    /// Drops the cached record for a feature, so that readers fall
    /// through to the authoritative store.
    pub fn invalidate_feature(store: &mut KvStore, dataset_name: &String, feature_id: &String) -> (r:
        Result<(), ApiError>)
        requires
            old(store).wf(),
        ensures
            final(store).wf(),
            r is Ok,
            final(store).contents() == old(store).contents().remove(
                spec_cache_key(dataset_name@, feature_id@),
            ),
    {
        let key = Self::cache_key(dataset_name, feature_id);
        store.del(&key);
        Ok(())
    }
}

/// Law: a put followed immediately by a get for the same key returns
/// exactly the record just put, and an invalidate followed by a get
/// returns nothing.
pub proof fn lemma_cache_round_trip(
    m: Map<Seq<char>, KvCell>,
    dataset_name: Seq<char>,
    feature_id: Seq<char>,
    fv: FeatureView,
    now: u64,
)
    requires
        now + 3600 <= u64::MAX,
    ensures
        map_live_value(
            m.insert(
                spec_cache_key(dataset_name, feature_id),
                KvCell {
                    value: StoredValueView::Record(fv),
                    expires_at: Some((now + 3600) as u64),
                },
            ),
            spec_cache_key(dataset_name, feature_id),
            now,
        ) == Some(StoredValueView::Record(fv)),
        map_live_value(
            m.remove(spec_cache_key(dataset_name, feature_id)),
            spec_cache_key(dataset_name, feature_id),
            now,
        ) is None,
{
}

/// Law: the key composition is collision-free across datasets. Two
/// features' keys coincide only when both the dataset name and the
/// feature identifier coincide, provided dataset names are free of ':'
/// — which the store's invariant guarantees of every created dataset,
/// since creation rejects names holding ':'.
pub proof fn lemma_cache_key_injective(
    d1: Seq<char>,
    f1: Seq<char>,
    d2: Seq<char>,
    f2: Seq<char>,
)
    requires
        !d1.contains(':'),
        !d2.contains(':'),
        spec_cache_key(d1, f1) == spec_cache_key(d2, f2),
    ensures
        d1 == d2,
        f1 == f2,
{
    reveal_strlit("feature:");
    reveal_strlit(":");
    let p = "feature:"@;
    let c = ":"@;
    let k1 = spec_cache_key(d1, f1);
    let k2 = spec_cache_key(d2, f2);
    assert(p.len() == 8);
    assert(c.len() == 1);
    assert(c[0] == ':');
    if d1.len() < d2.len() {
        let idx = 8 + d1.len() as int;
        assert(k1[idx] == ':');
        assert(k2[idx] == d2[d1.len() as int]);
        assert(d2.contains(':')) by {
            assert(d2[d1.len() as int] == ':');
        }
    } else if d2.len() < d1.len() {
        let idx = 8 + d2.len() as int;
        assert(k2[idx] == ':');
        assert(k1[idx] == d1[d2.len() as int]);
        assert(d1.contains(':')) by {
            assert(d1[d2.len() as int] == ':');
        }
    } else {
        assert forall|i: int| 0 <= i < d1.len() implies d1[i] == d2[i] by {
            assert(k1[8 + i] == d1[i]);
            assert(k2[8 + i] == d2[i]);
        }
        assert(d1 =~= d2);
        assert(k1.len() == 8 + d1.len() + 1 + f1.len());
        assert(k2.len() == 8 + d2.len() + 1 + f2.len());
        assert(f1.len() == f2.len());
        assert forall|i: int| 0 <= i < f1.len() implies f1[i] == f2[i] by {
            assert(k1[8 + d1.len() + 1 + i] == f1[i]);
            assert(k2[8 + d2.len() + 1 + i] == f2[i]);
        }
        assert(f1 =~= f2);
    }
}

} // verus!
