//! In-memory model of the durable store: the API key registry, datasets,
//! and features, with the authoritative semantics of every statement the
//! service issues against them.
//!
//! Invariants: API keys are unique; `(name, api_key)` and dataset ids are
//! unique among datasets; `(dataset_id, feature_id)` is unique among
//! features, and every feature's dataset exists. Geometry is always
//! persisted in the canonical coordinate system (WGS84, SRID 4326): the
//! store reprojects at write time, and this layer records the source
//! system and instructs the reprojection rather than computing it.

use vstd::prelude::*;
use crate::error::ApiError;
use crate::models::{
    Dataset,
    DatasetView,
    Feature,
    FeatureView,
    GeoJson,
    GeoJsonView,
    Geometry,
    GeometryKind,
    GeometryView,
    SpatialQuery,
};
use crate::projection::{is_supported_srid, spec_supported_srids, ProjectionTransformer};


verus! {

/// One row of the API key registry.
#[derive(Debug)]
pub struct ApiKeyRecord {
    pub key: String,
    pub created_at: u64,
    pub last_used_at: u64,
    pub key_expires_in_seconds: i32,
    pub data_expires_in_seconds: i32,
}

/// Mathematical image of an `ApiKeyRecord`.
pub struct ApiKeyRecordView {
    pub key: Seq<char>,
    pub created_at: u64,
    pub last_used_at: u64,
    pub key_expires_in_seconds: i32,
    pub data_expires_in_seconds: i32,
}

impl View for ApiKeyRecord {
    type V = ApiKeyRecordView;

    open spec fn view(&self) -> ApiKeyRecordView {
        ApiKeyRecordView {
            key: self.key@,
            created_at: self.created_at,
            last_used_at: self.last_used_at,
            key_expires_in_seconds: self.key_expires_in_seconds,
            data_expires_in_seconds: self.data_expires_in_seconds,
        }
    }
}

impl Clone for ApiKeyRecord {
    fn clone(&self) -> (r: Self)
        ensures
            r@ == self@,
    {
        ApiKeyRecord {
            key: self.key.clone(),
            created_at: self.created_at,
            last_used_at: self.last_used_at,
            key_expires_in_seconds: self.key_expires_in_seconds,
            data_expires_in_seconds: self.data_expires_in_seconds,
        }
    }
}

/// The first registry row under `k`, if any.
pub open spec fn spec_find_key(keys: Seq<ApiKeyRecordView>, k: Seq<char>) -> Option<
    ApiKeyRecordView,
>
    decreases keys.len(),
{
    if keys.len() == 0 {
        None
    } else if keys[0].key == k {
        Some(keys[0])
    } else {
        spec_find_key(keys.drop_first(), k)
    }
}

/// The first dataset named `name` and owned by `owner`, if any.
pub open spec fn spec_find_dataset(ds: Seq<DatasetView>, name: Seq<char>, owner: Seq<char>) -> Option<
    DatasetView,
>
    decreases ds.len(),
{
    if ds.len() == 0 {
        None
    } else if ds[0].name == name && ds[0].api_key == owner {
        Some(ds[0])
    } else {
        spec_find_dataset(ds.drop_first(), name, owner)
    }
}

/// The first dataset named `name` under any owner, if any.
pub open spec fn spec_find_dataset_by_name(ds: Seq<DatasetView>, name: Seq<char>) -> Option<
    DatasetView,
>
    decreases ds.len(),
{
    if ds.len() == 0 {
        None
    } else if ds[0].name == name {
        Some(ds[0])
    } else {
        spec_find_dataset_by_name(ds.drop_first(), name)
    }
}

/// The first dataset with id `id`, if any.
pub open spec fn spec_find_dataset_by_id(ds: Seq<DatasetView>, id: u128) -> Option<DatasetView>
    decreases ds.len(),
{
    if ds.len() == 0 {
        None
    } else if ds[0].id == id {
        Some(ds[0])
    } else {
        spec_find_dataset_by_id(ds.drop_first(), id)
    }
}

/// The first feature of dataset `dataset_id` with identifier `fid`, if
/// any.
pub open spec fn spec_find_feature(fs: Seq<FeatureView>, dataset_id: u128, fid: Seq<char>) -> Option<
    FeatureView,
>
    decreases fs.len(),
{
    if fs.len() == 0 {
        None
    } else if fs[0].dataset_id == dataset_id && fs[0].feature_id == fid {
        Some(fs[0])
    } else {
        spec_find_feature(fs.drop_first(), dataset_id, fid)
    }
}

/// Whether a feature row bears `fid` and belongs to a dataset named
/// `name`.
pub open spec fn feature_under_name(
    f: FeatureView,
    ds: Seq<DatasetView>,
    name: Seq<char>,
    fid: Seq<char>,
) -> bool {
    f.feature_id == fid && (spec_find_dataset_by_id(ds, f.dataset_id) matches Some(d) && d.name
        == name)
}

/// The first feature, in table order, bearing `fid` in any dataset named
/// `name`.
pub open spec fn spec_find_named_feature(
    fs: Seq<FeatureView>,
    ds: Seq<DatasetView>,
    name: Seq<char>,
    fid: Seq<char>,
) -> Option<FeatureView>
    decreases fs.len(),
{
    if fs.len() == 0 {
        None
    } else if feature_under_name(fs[0], ds, name, fid) {
        Some(fs[0])
    } else {
        spec_find_named_feature(fs.drop_first(), ds, name, fid)
    }
}

proof fn lemma_find_named_feature_at(
    fs: Seq<FeatureView>,
    ds: Seq<DatasetView>,
    name: Seq<char>,
    fid: Seq<char>,
    i: int,
)
    requires
        0 <= i < fs.len(),
        feature_under_name(fs[i], ds, name, fid),
        forall|j: int| 0 <= j < i ==> !feature_under_name(#[trigger] fs[j], ds, name, fid),
    ensures
        spec_find_named_feature(fs, ds, name, fid) == Some(fs[i]),
    decreases i,
{
    if i > 0 {
        lemma_find_named_feature_at(fs.drop_first(), ds, name, fid, i - 1);
    }
}

proof fn lemma_find_named_feature_none(
    fs: Seq<FeatureView>,
    ds: Seq<DatasetView>,
    name: Seq<char>,
    fid: Seq<char>,
)
    requires
        forall|j: int| 0 <= j < fs.len() ==> !feature_under_name(#[trigger] fs[j], ds, name, fid),
    ensures
        spec_find_named_feature(fs, ds, name, fid) is None,
    decreases fs.len(),
{
    if fs.len() > 0 {
        lemma_find_named_feature_none(fs.drop_first(), ds, name, fid);
    }
}

/// A found named feature bears the identifier it was searched by, and
/// its dataset exists and bears the searched name.
pub proof fn lemma_find_named_feature_fields(
    fs: Seq<FeatureView>,
    ds: Seq<DatasetView>,
    name: Seq<char>,
    fid: Seq<char>,
)
    requires
        spec_find_named_feature(fs, ds, name, fid) is Some,
    ensures
        (spec_find_named_feature(fs, ds, name, fid)->Some_0).feature_id == fid,
        spec_find_dataset_by_id(
            ds,
            (spec_find_named_feature(fs, ds, name, fid)->Some_0).dataset_id,
        ) is Some,
    decreases fs.len(),
{
    if fs.len() > 0 && !feature_under_name(fs[0], ds, name, fid) {
        lemma_find_named_feature_fields(fs.drop_first(), ds, name, fid);
    }
}

/// Whether a key's own expiry has not yet passed at `now`.
pub open spec fn spec_key_unexpired(rec: ApiKeyRecordView, now: u64) -> bool {
    rec.last_used_at + rec.key_expires_in_seconds >= now
}

/// Whether a key's data expiry has not yet passed at `now`.
pub open spec fn spec_data_unexpired(rec: ApiKeyRecordView, now: u64) -> bool {
    rec.last_used_at + rec.data_expires_in_seconds >= now
}

/// Whether the sweep removes this registry row at `now`: an ordinary key
/// whose key expiry or data expiry has elapsed. The master key is exempt.
pub open spec fn spec_key_swept(rec: ApiKeyRecordView, master: Seq<char>, now: u64) -> bool {
    rec.key != master && (!spec_key_unexpired(rec, now) || !spec_data_unexpired(rec, now))
}

/// Keys are pairwise distinct.
pub open spec fn keys_wf(keys: Seq<ApiKeyRecordView>) -> bool {
    forall|i: int, j: int| 0 <= i < j < keys.len() ==> keys[i].key != keys[j].key
}

/// `(name, api_key)` pairs and ids are pairwise distinct.
pub open spec fn datasets_wf(ds: Seq<DatasetView>) -> bool {
    &&& forall|i: int, j: int|
        0 <= i < j < ds.len() ==> !(ds[i].name == ds[j].name && ds[i].api_key == ds[j].api_key)
    &&& forall|i: int, j: int| 0 <= i < j < ds.len() ==> ds[i].id != ds[j].id
    &&& forall|i: int| 0 <= i < ds.len() ==> !(#[trigger] ds[i].name).contains(':')
}

/// `(dataset_id, feature_id)` pairs are pairwise distinct and every
/// feature's dataset exists.
pub open spec fn features_wf(fs: Seq<FeatureView>, ds: Seq<DatasetView>) -> bool {
    &&& forall|i: int, j: int|
        0 <= i < j < fs.len() ==> !(fs[i].dataset_id == fs[j].dataset_id && fs[i].feature_id
            == fs[j].feature_id)
    &&& forall|i: int| 0 <= i < fs.len() ==> spec_find_dataset_by_id(ds, fs[i].dataset_id) is Some
}

/// A found index below every earlier mismatch pins the result of
/// `spec_find_key`.
proof fn lemma_find_key_at(keys: Seq<ApiKeyRecordView>, k: Seq<char>, i: int)
    requires
        0 <= i < keys.len(),
        keys[i].key == k,
        forall|j: int| 0 <= j < i ==> keys[j].key != k,
    ensures
        spec_find_key(keys, k) == Some(keys[i]),
    decreases i,
{
    if i > 0 {
        lemma_find_key_at(keys.drop_first(), k, i - 1);
    }
}

/// No match anywhere pins `spec_find_key` to nothing.
proof fn lemma_find_key_none(keys: Seq<ApiKeyRecordView>, k: Seq<char>)
    requires
        forall|j: int| 0 <= j < keys.len() ==> keys[j].key != k,
    ensures
        spec_find_key(keys, k) is None,
    decreases keys.len(),
{
    if keys.len() > 0 {
        lemma_find_key_none(keys.drop_first(), k);
    }
}

proof fn lemma_find_dataset_at(ds: Seq<DatasetView>, name: Seq<char>, owner: Seq<char>, i: int)
    requires
        0 <= i < ds.len(),
        ds[i].name == name && ds[i].api_key == owner,
        forall|j: int| 0 <= j < i ==> !(ds[j].name == name && ds[j].api_key == owner),
    ensures
        spec_find_dataset(ds, name, owner) == Some(ds[i]),
    decreases i,
{
    if i > 0 {
        lemma_find_dataset_at(ds.drop_first(), name, owner, i - 1);
    }
}

proof fn lemma_find_dataset_none(ds: Seq<DatasetView>, name: Seq<char>, owner: Seq<char>)
    requires
        forall|j: int| 0 <= j < ds.len() ==> !(ds[j].name == name && ds[j].api_key == owner),
    ensures
        spec_find_dataset(ds, name, owner) is None,
    decreases ds.len(),
{
    if ds.len() > 0 {
        lemma_find_dataset_none(ds.drop_first(), name, owner);
    }
}

proof fn lemma_find_dataset_by_name_at(ds: Seq<DatasetView>, name: Seq<char>, i: int)
    requires
        0 <= i < ds.len(),
        ds[i].name == name,
        forall|j: int| 0 <= j < i ==> ds[j].name != name,
    ensures
        spec_find_dataset_by_name(ds, name) == Some(ds[i]),
    decreases i,
{
    if i > 0 {
        lemma_find_dataset_by_name_at(ds.drop_first(), name, i - 1);
    }
}

proof fn lemma_find_dataset_by_name_none(ds: Seq<DatasetView>, name: Seq<char>)
    requires
        forall|j: int| 0 <= j < ds.len() ==> ds[j].name != name,
    ensures
        spec_find_dataset_by_name(ds, name) is None,
    decreases ds.len(),
{
    if ds.len() > 0 {
        lemma_find_dataset_by_name_none(ds.drop_first(), name);
    }
}

proof fn lemma_find_dataset_by_id_at(ds: Seq<DatasetView>, id: u128, i: int)
    requires
        0 <= i < ds.len(),
        ds[i].id == id,
        forall|j: int| 0 <= j < i ==> ds[j].id != id,
    ensures
        spec_find_dataset_by_id(ds, id) == Some(ds[i]),
    decreases i,
{
    if i > 0 {
        lemma_find_dataset_by_id_at(ds.drop_first(), id, i - 1);
    }
}

proof fn lemma_find_dataset_by_id_none(ds: Seq<DatasetView>, id: u128)
    requires
        forall|j: int| 0 <= j < ds.len() ==> ds[j].id != id,
    ensures
        spec_find_dataset_by_id(ds, id) is None,
    decreases ds.len(),
{
    if ds.len() > 0 {
        lemma_find_dataset_by_id_none(ds.drop_first(), id);
    }
}

proof fn lemma_find_feature_at(fs: Seq<FeatureView>, dataset_id: u128, fid: Seq<char>, i: int)
    requires
        0 <= i < fs.len(),
        fs[i].dataset_id == dataset_id && fs[i].feature_id == fid,
        forall|j: int| 0 <= j < i ==> !(fs[j].dataset_id == dataset_id && fs[j].feature_id == fid),
    ensures
        spec_find_feature(fs, dataset_id, fid) == Some(fs[i]),
    decreases i,
{
    if i > 0 {
        lemma_find_feature_at(fs.drop_first(), dataset_id, fid, i - 1);
    }
}

proof fn lemma_find_feature_none(fs: Seq<FeatureView>, dataset_id: u128, fid: Seq<char>)
    requires
        forall|j: int| 0 <= j < fs.len() ==> !(fs[j].dataset_id == dataset_id && fs[j].feature_id
            == fid),
    ensures
        spec_find_feature(fs, dataset_id, fid) is None,
    decreases fs.len(),
{
    if fs.len() > 0 {
        lemma_find_feature_none(fs.drop_first(), dataset_id, fid);
    }
}

/// The durable store, with the master key it was configured with.
/// Configuration is threaded in at construction; nothing reads ambient
/// state.
pub struct Database {
    master_key: String,
    api_keys: Vec<ApiKeyRecord>,
    datasets: Vec<Dataset>,
    features: Vec<Feature>,
}

impl Database {
    /// The configured master key.
    pub closed spec fn master(self) -> Seq<char> {
        self.master_key@
    }

    /// The registry rows.
    pub closed spec fn keys(self) -> Seq<ApiKeyRecordView> {
        self.api_keys@.map_values(|r: ApiKeyRecord| r@)
    }

    /// The dataset rows.
    pub closed spec fn datasets(self) -> Seq<DatasetView> {
        self.datasets@.map_values(|d: Dataset| d@)
    }

    /// The feature rows.
    pub closed spec fn features(self) -> Seq<FeatureView> {
        self.features@.map_values(|f: Feature| f@)
    }

    /// The store's invariants hold.
    pub open spec fn wf(self) -> bool {
        keys_wf(self.keys()) && datasets_wf(self.datasets()) && features_wf(
            self.features(),
            self.datasets(),
        )
    }

    /// A fresh, empty store configured with `master_key`.
    pub fn new(master_key: String) -> (db: Self)
        ensures
            db.wf(),
            db.master() == master_key@,
            db.keys() == Seq::<ApiKeyRecordView>::empty(),
            db.datasets() == Seq::<DatasetView>::empty(),
            db.features() == Seq::<FeatureView>::empty(),
    {
        let db = Database {
            master_key,
            api_keys: Vec::new(),
            datasets: Vec::new(),
            features: Vec::new(),
        };
        proof {
            assert(db.keys() =~= Seq::<ApiKeyRecordView>::empty());
            assert(db.datasets() =~= Seq::<DatasetView>::empty());
            assert(db.features() =~= Seq::<FeatureView>::empty());
        }
        db
    }

    /// Where the registry holds `k`, if anywhere.
    fn find_key_index(&self, k: &String) -> (r: Option<usize>)
        ensures
            match r {
                Some(i) => i < self.keys().len() && self.keys()[i as int].key == k@
                    && spec_find_key(self.keys(), k@) == Some(self.keys()[i as int]),
                None => spec_find_key(self.keys(), k@) is None,
            },
    {
        let mut i: usize = 0;
        while i < self.api_keys.len()
            invariant
                i <= self.api_keys.len(),
                self.keys().len() == self.api_keys@.len(),
                forall|j: int| 0 <= j < i ==> self.keys()[j].key != k@,
            decreases self.api_keys@.len() - i,
        {
            if self.api_keys[i].key == *k {
                proof {
                    lemma_find_key_at(self.keys(), k@, i as int);
                }
                return Some(i);
            }
            i = i + 1;
        }
        proof {
            lemma_find_key_none(self.keys(), k@);
        }
        None
    }

    /// Whether `api_key` is the distinguished master key, which always
    /// validates and is exempt from expiry and from the sweep.
    pub fn is_master_key(&self, api_key: &String) -> (r: bool)
        ensures
            r == (api_key@ == self.master()),
    {
        *api_key == self.master_key
    }

    /// Ensures the master key exists in the registry, creating it with
    /// the default expiries if it is absent.
    pub fn initialize(&mut self, now: u64) -> (r: Result<(), ApiError>)
        requires
            old(self).wf(),
        ensures
            final(self).wf(),
            r is Ok,
            final(self).master() == old(self).master(),
            final(self).datasets() == old(self).datasets(),
            final(self).features() == old(self).features(),
            if spec_find_key(old(self).keys(), old(self).master()) is Some {
                final(self).keys() == old(self).keys()
            } else {
                final(self).keys() == old(self).keys().push(
                    ApiKeyRecordView {
                        key: old(self).master(),
                        created_at: now,
                        last_used_at: now,
                        key_expires_in_seconds: 7776000,
                        data_expires_in_seconds: 3600,
                    },
                )
            },
    {
        let master = self.master_key.clone();
        match self.find_key_index(&master) {
            Some(_) => Ok(()),
            None => {
                let ghost pre = *self;
                let rec = ApiKeyRecord {
                    key: master,
                    created_at: now,
                    last_used_at: now,
                    key_expires_in_seconds: 7776000,
                    data_expires_in_seconds: 3600,
                };
                let ghost rv = rec@;
                self.api_keys.push(rec);
                proof {
                    assert(self.keys() =~= pre.keys().push(rv));
                    assert(self.datasets() =~= pre.datasets());
                    assert(self.features() =~= pre.features());
                    assert forall|i: int, j: int|
                        0 <= i < j < self.keys().len() implies self.keys()[i].key
                        != self.keys()[j].key by {
                        if j == self.keys().len() - 1 {
                            if self.keys()[i].key == rv.key {
                                lemma_find_key_at(pre.keys(), rv.key, i);
                            }
                        }
                    }
                }
                Ok(())
            },
        }
    }

    /// Validates an API key at `now`: the master key always passes;
    /// an ordinary key passes while its expiry window, measured from its
    /// last use, still covers `now`, and a pass refreshes its last use.
    /// An unknown or expired key reports false and changes nothing.
    pub fn validate_api_key(&mut self, api_key: &String, now: u64) -> (r: Result<bool, ApiError>)
        requires
            old(self).wf(),
        ensures
            final(self).wf(),
            final(self).master() == old(self).master(),
            final(self).datasets() == old(self).datasets(),
            final(self).features() == old(self).features(),
            ({
                let found = spec_find_key(old(self).keys(), api_key@);
                if api_key@ == old(self).master() {
                    r == Ok::<bool, ApiError>(true) && final(self).keys() == old(self).keys()
                } else if found matches Some(rec) && spec_key_unexpired(rec, now) {
                    r == Ok::<bool, ApiError>(true) && final(self).keys() == spec_touch_keys(
                        old(self).keys(),
                        api_key@,
                        now,
                    )
                } else {
                    r == Ok::<bool, ApiError>(false) && final(self).keys() == old(self).keys()
                }
            }),
    {
        if self.is_master_key(api_key) {
            return Ok(true);
        }
        match self.find_key_index(api_key) {
            None => Ok(false),
            Some(i) => {
                let unexpired = {
                    let rec = &self.api_keys[i];
                    rec.last_used_at as i128 + rec.key_expires_in_seconds as i128 >= now as i128
                };
                if unexpired {
                    self.touch_all(api_key, now);
                    Ok(true)
                } else {
                    Ok(false)
                }
            },
        }
    }

    /// Refreshes the last use of every registry row under `api_key`
    /// (at most one, by the invariant); an absent key is a no-op.
    pub fn update_key_last_used(&mut self, api_key: &String, now: u64) -> (r: Result<(), ApiError>)
        requires
            old(self).wf(),
        ensures
            final(self).wf(),
            r is Ok,
            final(self).master() == old(self).master(),
            final(self).datasets() == old(self).datasets(),
            final(self).features() == old(self).features(),
            final(self).keys() == spec_touch_keys(old(self).keys(), api_key@, now),
    {
        self.touch_all(api_key, now);
        Ok(())
    }

    /// Sets `last_used_at` to `now` on every row whose key is `api_key`.
    fn touch_all(&mut self, api_key: &String, now: u64)
        requires
            old(self).wf(),
        ensures
            final(self).wf(),
            final(self).master() == old(self).master(),
            final(self).datasets() == old(self).datasets(),
            final(self).features() == old(self).features(),
            final(self).keys() == spec_touch_keys(old(self).keys(), api_key@, now),
    {
        let ghost pre = *self;
        let mut i: usize = 0;
        while i < self.api_keys.len()
            invariant
                i <= self.api_keys@.len(),
                self.api_keys@.len() == pre.api_keys@.len(),
                self.master_key@ == pre.master_key@,
                self.datasets@ == pre.datasets@,
                self.features@ == pre.features@,
                forall|j: int|
                    0 <= j < self.api_keys@.len() ==> #[trigger] self.keys()[j] == (if j < i
                        && pre.keys()[j].key == api_key@ {
                        spec_touched(pre.keys()[j], now)
                    } else {
                        pre.keys()[j]
                    }),
            decreases self.api_keys@.len() - i,
        {
            let ghost head = *self;
            if self.api_keys[i].key == *api_key {
                let rec = &self.api_keys[i];
                let updated = ApiKeyRecord {
                    key: rec.key.clone(),
                    created_at: rec.created_at,
                    last_used_at: now,
                    key_expires_in_seconds: rec.key_expires_in_seconds,
                    data_expires_in_seconds: rec.data_expires_in_seconds,
                };
                let ghost uv = updated@;
                proof {
                    assert(uv == spec_touched(head.keys()[i as int], now));
                }
                self.api_keys[i] = updated;
                proof {
                    assert forall|j: int| 0 <= j < self.api_keys@.len() implies #[trigger] self.keys()[j]
                        == (if j < i + 1 && pre.keys()[j].key == api_key@ {
                        spec_touched(pre.keys()[j], now)
                    } else {
                        pre.keys()[j]
                    }) by {
                        if j == i as int {
                            assert(self.api_keys@[j]@ == uv);
                            assert(head.keys()[j] == pre.keys()[j]);
                        } else {
                            assert(self.api_keys@[j] == head.api_keys@[j]);
                            assert(head.keys()[j] == self.keys()[j]);
                        }
                    }
                }
            }
            i = i + 1;
        }
        proof {
            assert(self.keys() =~= spec_touch_keys(pre.keys(), api_key@, now));
            assert(self.datasets() =~= pre.datasets());
            assert(self.features() =~= pre.features());
            assert forall|a: int, b: int|
                0 <= a < b < self.keys().len() implies self.keys()[a].key
                != self.keys()[b].key by {
                assert(pre.keys()[a].key != pre.keys()[b].key);
            }
        }
    }

    /// Mints a new API key. Only the master key may create keys; a
    /// duplicate is rejected, never overwritten.
    pub fn create_api_key(
        &mut self,
        new_key: &String,
        key_expires_in_seconds: i32,
        data_expires_in_seconds: i32,
        master_key: &String,
        now: u64,
    ) -> (r: Result<(), ApiError>)
        requires
            old(self).wf(),
        ensures
            final(self).wf(),
            final(self).master() == old(self).master(),
            final(self).datasets() == old(self).datasets(),
            final(self).features() == old(self).features(),
            if master_key@ != old(self).master() {
                r matches Err(e) && e is InvalidApiKey && final(self).keys() == old(self).keys()
            } else if spec_find_key(old(self).keys(), new_key@) is Some {
                r matches Err(e) && e is Database && final(self).keys() == old(self).keys()
            } else {
                r is Ok && final(self).keys() == old(self).keys().push(
                    ApiKeyRecordView {
                        key: new_key@,
                        created_at: now,
                        last_used_at: now,
                        key_expires_in_seconds,
                        data_expires_in_seconds,
                    },
                )
            },
    {
        if !self.is_master_key(master_key) {
            return Err(ApiError::InvalidApiKey);
        }
        match self.find_key_index(new_key) {
            Some(_) => Err(
                ApiError::Database(String::from_str("duplicate key value in api_keys")),
            ),
            None => {
                let ghost pre = *self;
                let rec = ApiKeyRecord {
                    key: new_key.clone(),
                    created_at: now,
                    last_used_at: now,
                    key_expires_in_seconds,
                    data_expires_in_seconds,
                };
                let ghost rv = rec@;
                self.api_keys.push(rec);
                proof {
                    assert(self.keys() =~= pre.keys().push(rv));
                    assert(self.datasets() =~= pre.datasets());
                    assert(self.features() =~= pre.features());
                    assert forall|i: int, j: int|
                        0 <= i < j < self.keys().len() implies self.keys()[i].key
                        != self.keys()[j].key by {
                        if j == self.keys().len() - 1 {
                            if self.keys()[i].key == rv.key {
                                lemma_find_key_at(pre.keys(), rv.key, i);
                            }
                        }
                    }
                }
                Ok(())
            },
        }
    }
}

impl Database {
    /// Whether the sweep removes this registry row at `now`.
    fn key_swept(&self, rec: &ApiKeyRecord, now: u64) -> (r: bool)
        ensures
            r == spec_key_swept(rec@, self.master(), now),
    {
        let is_master = rec.key == self.master_key;
        let key_expired = (rec.last_used_at as i128) + (rec.key_expires_in_seconds as i128) < (
        now as i128);
        let data_expired = (rec.last_used_at as i128) + (rec.data_expires_in_seconds as i128) < (
        now as i128);
        !is_master && (key_expired || data_expired)
    }

    /// Whether `owner` names a registry row the sweep removes at `now`.
    fn owner_swept(&self, owner: &String, now: u64) -> (r: bool)
        ensures
            r == spec_owner_swept(self.keys(), owner@, self.master(), now),
    {
        match self.find_key_index(owner) {
            None => false,
            Some(i) => self.key_swept(&self.api_keys[i], now),
        }
    }

    /// Where the dataset with id `id` is stored, if anywhere.
    fn find_dataset_index_by_id(&self, id: u128) -> (r: Option<usize>)
        ensures
            match r {
                Some(i) => i < self.datasets().len() && self.datasets()[i as int].id == id
                    && spec_find_dataset_by_id(self.datasets(), id) == Some(
                    self.datasets()[i as int],
                ),
                None => spec_find_dataset_by_id(self.datasets(), id) is None,
            },
    {
        let mut i: usize = 0;
        while i < self.datasets.len()
            invariant
                i <= self.datasets@.len(),
                self.datasets().len() == self.datasets@.len(),
                forall|j: int| 0 <= j < i ==> self.datasets()[j].id != id,
            decreases self.datasets@.len() - i,
        {
            if self.datasets[i].id == id {
                proof {
                    lemma_find_dataset_by_id_at(self.datasets(), id, i as int);
                }
                return Some(i);
            }
            i = i + 1;
        }
        proof {
            lemma_find_dataset_by_id_none(self.datasets(), id);
        }
        None
    }

    /// The periodic sweep at `now`: removes, in dependency order, the
    /// features, then the datasets, then the registry rows of every
    /// ordinary key whose key expiry or data expiry has elapsed since its
    /// last use. The master key and everything it owns stay.
    pub fn cleanup_expired_keys(&mut self, now: u64) -> (r: Result<(), ApiError>)
        requires
            old(self).wf(),
        ensures
            final(self).wf(),
            r is Ok,
            final(self).master() == old(self).master(),
            final(self).features() == spec_sweep_features(
                old(self).features(),
                old(self).datasets(),
                old(self).keys(),
                old(self).master(),
                now,
            ),
            final(self).datasets() == spec_sweep_datasets(
                old(self).datasets(),
                old(self).keys(),
                old(self).master(),
                now,
            ),
            final(self).keys() == spec_sweep_keys(old(self).keys(), old(self).master(), now),
    {
        let ghost pre = *self;
        let mut kept_features: Vec<Feature> = Vec::new();
        let mut i: usize = 0;
        while i < self.features.len()
            invariant
                i <= self.features@.len(),
                self.master() == pre.master(),
                self.keys() == pre.keys(),
                self.datasets() == pre.datasets(),
                self.features() == pre.features(),
                self.features().len() == self.features@.len(),
                kept_features@.map_values(|f: Feature| f@) == spec_sweep_features(
                    pre.features().subrange(0, i as int),
                    pre.datasets(),
                    pre.keys(),
                    pre.master(),
                    now,
                ),
            decreases self.features@.len() - i,
        {
            let ghost prefix = pre.features().subrange(0, i as int + 1);
            let dataset_id = self.features[i].dataset_id;
            let removed = match self.find_dataset_index_by_id(dataset_id) {
                Some(di) => self.owner_swept(&self.datasets[di].api_key, now),
                None => false,
            };
            proof {
                assert(prefix.drop_last() =~= pre.features().subrange(0, i as int));
                assert(prefix.last() == pre.features()[i as int]);
                assert(removed == spec_feature_swept(
                    pre.features()[i as int],
                    pre.datasets(),
                    pre.keys(),
                    pre.master(),
                    now,
                ));
            }
            if !removed {
                kept_features.push(self.features[i].clone());
            }
            proof {
                assert(kept_features@.map_values(|f: Feature| f@) =~= spec_sweep_features(
                    prefix,
                    pre.datasets(),
                    pre.keys(),
                    pre.master(),
                    now,
                ));
            }
            i = i + 1;
        }
        let mut kept_datasets: Vec<Dataset> = Vec::new();
        let mut i: usize = 0;
        while i < self.datasets.len()
            invariant
                i <= self.datasets@.len(),
                self.master() == pre.master(),
                self.keys() == pre.keys(),
                self.datasets() == pre.datasets(),
                self.datasets().len() == self.datasets@.len(),
                kept_datasets@.map_values(|d: Dataset| d@) == spec_sweep_datasets(
                    pre.datasets().subrange(0, i as int),
                    pre.keys(),
                    pre.master(),
                    now,
                ),
            decreases self.datasets@.len() - i,
        {
            let ghost prefix = pre.datasets().subrange(0, i as int + 1);
            let removed = self.owner_swept(&self.datasets[i].api_key, now);
            proof {
                assert(prefix.drop_last() =~= pre.datasets().subrange(0, i as int));
                assert(prefix.last() == pre.datasets()[i as int]);
            }
            if !removed {
                kept_datasets.push(self.datasets[i].clone());
            }
            proof {
                assert(kept_datasets@.map_values(|d: Dataset| d@) =~= spec_sweep_datasets(
                    prefix,
                    pre.keys(),
                    pre.master(),
                    now,
                ));
            }
            i = i + 1;
        }
        let mut kept_keys: Vec<ApiKeyRecord> = Vec::new();
        let mut i: usize = 0;
        while i < self.api_keys.len()
            invariant
                i <= self.api_keys@.len(),
                self.master() == pre.master(),
                self.keys() == pre.keys(),
                self.keys().len() == self.api_keys@.len(),
                kept_keys@.map_values(|k: ApiKeyRecord| k@) == spec_sweep_keys(
                    pre.keys().subrange(0, i as int),
                    pre.master(),
                    now,
                ),
            decreases self.api_keys@.len() - i,
        {
            let ghost prefix = pre.keys().subrange(0, i as int + 1);
            let removed = self.key_swept(&self.api_keys[i], now);
            proof {
                assert(prefix.drop_last() =~= pre.keys().subrange(0, i as int));
                assert(prefix.last() == pre.keys()[i as int]);
            }
            if !removed {
                kept_keys.push(self.api_keys[i].clone());
            }
            proof {
                assert(kept_keys@.map_values(|k: ApiKeyRecord| k@) =~= spec_sweep_keys(
                    prefix,
                    pre.master(),
                    now,
                ));
            }
            i = i + 1;
        }
        self.features = kept_features;
        self.datasets = kept_datasets;
        self.api_keys = kept_keys;
        proof {
            assert(pre.features().subrange(0, pre.features().len() as int) =~= pre.features());
            assert(pre.datasets().subrange(0, pre.datasets().len() as int) =~= pre.datasets());
            assert(pre.keys().subrange(0, pre.keys().len() as int) =~= pre.keys());
            lemma_sweep_keys_wf(pre.keys(), pre.master(), now);
            lemma_sweep_datasets_wf(pre.datasets(), pre.keys(), pre.master(), now);
            lemma_sweep_features_wf(pre.features(), pre.datasets(), pre.keys(), pre.master(), now);
        }
        Ok(())
    }
}

impl Database {
    /// Where the dataset `(name, owner)` is stored, if anywhere.
    fn find_dataset_index(&self, name: &String, owner: &String) -> (r: Option<usize>)
        ensures
            match r {
                Some(i) => i < self.datasets().len() && self.datasets()[i as int].name == name@
                    && self.datasets()[i as int].api_key == owner@ && spec_find_dataset(
                    self.datasets(),
                    name@,
                    owner@,
                ) == Some(self.datasets()[i as int]),
                None => spec_find_dataset(self.datasets(), name@, owner@) is None,
            },
    {
        let mut i: usize = 0;
        while i < self.datasets.len()
            invariant
                i <= self.datasets@.len(),
                self.datasets().len() == self.datasets@.len(),
                forall|j: int|
                    0 <= j < i ==> !(self.datasets()[j].name == name@ && self.datasets()[j].api_key
                        == owner@),
            decreases self.datasets@.len() - i,
        {
            if self.datasets[i].name == *name && self.datasets[i].api_key == *owner {
                proof {
                    lemma_find_dataset_at(self.datasets(), name@, owner@, i as int);
                }
                return Some(i);
            }
            i = i + 1;
        }
        proof {
            lemma_find_dataset_none(self.datasets(), name@, owner@);
        }
        None
    }

    /// Where the first dataset named `name` is stored, if anywhere.
    fn find_dataset_index_by_name(&self, name: &String) -> (r: Option<usize>)
        ensures
            match r {
                Some(i) => i < self.datasets().len() && self.datasets()[i as int].name == name@
                    && spec_find_dataset_by_name(self.datasets(), name@) == Some(
                    self.datasets()[i as int],
                ),
                None => spec_find_dataset_by_name(self.datasets(), name@) is None,
            },
    {
        let mut i: usize = 0;
        while i < self.datasets.len()
            invariant
                i <= self.datasets@.len(),
                self.datasets().len() == self.datasets@.len(),
                forall|j: int| 0 <= j < i ==> self.datasets()[j].name != name@,
            decreases self.datasets@.len() - i,
        {
            if self.datasets[i].name == *name {
                proof {
                    lemma_find_dataset_by_name_at(self.datasets(), name@, i as int);
                }
                return Some(i);
            }
            i = i + 1;
        }
        proof {
            lemma_find_dataset_by_name_none(self.datasets(), name@);
        }
        None
    }

    /// Where the feature `(dataset_id, fid)` is stored, if anywhere.
    fn find_feature_index(&self, dataset_id: u128, fid: &String) -> (r: Option<usize>)
        ensures
            match r {
                Some(i) => i < self.features().len() && self.features()[i as int].dataset_id
                    == dataset_id && self.features()[i as int].feature_id == fid@
                    && spec_find_feature(self.features(), dataset_id, fid@) == Some(
                    self.features()[i as int],
                ),
                None => spec_find_feature(self.features(), dataset_id, fid@) is None,
            },
    {
        let mut i: usize = 0;
        while i < self.features.len()
            invariant
                i <= self.features@.len(),
                self.features().len() == self.features@.len(),
                forall|j: int|
                    0 <= j < i ==> !(self.features()[j].dataset_id == dataset_id
                        && self.features()[j].feature_id == fid@),
            decreases self.features@.len() - i,
        {
            if self.features[i].dataset_id == dataset_id && self.features[i].feature_id == *fid {
                proof {
                    lemma_find_feature_at(self.features(), dataset_id, fid@, i as int);
                }
                return Some(i);
            }
            i = i + 1;
        }
        proof {
            lemma_find_feature_none(self.features(), dataset_id, fid@);
        }
        None
    }

    /// Creates a dataset. A name already used by the same owner is a
    /// conflict; a clashing id is a store error. Nothing is overwritten.
    pub fn create_dataset(&mut self, dataset: &Dataset) -> (r: Result<(), ApiError>)
        requires
            old(self).wf(),
        ensures
            final(self).wf(),
            final(self).master() == old(self).master(),
            final(self).keys() == old(self).keys(),
            final(self).features() == old(self).features(),
            if dataset.name@.contains(':') {
                r matches Err(e) && e is InvalidQuery && final(self).datasets() == old(
                    self,
                ).datasets()
            } else if spec_find_dataset(old(self).datasets(), dataset.name@, dataset.api_key@)
                is Some {
                r matches Err(e) && (e matches ApiError::DatasetExists(m) && m@ == dataset.name@)
                    && final(self).datasets() == old(self).datasets()
            } else if spec_find_dataset_by_id(old(self).datasets(), dataset.id) is Some {
                r matches Err(e) && e is Database && final(self).datasets() == old(self).datasets()
            } else {
                r is Ok && final(self).datasets() == old(self).datasets().push(dataset@)
            },
    {
        // A ':' inside a dataset name would let two datasets' cache keys
        // collide (the composed key joins name and id with ':'), so it is
        // rejected at the door and the invariant keeps every stored name
        // free of it.
        if contains_colon(&dataset.name) {
            return Err(
                ApiError::InvalidQuery(String::from_str("dataset name must not contain ':'")),
            );
        }
        if self.find_dataset_index(&dataset.name, &dataset.api_key).is_some() {
            return Err(ApiError::DatasetExists(dataset.name.clone()));
        }
        if self.find_dataset_index_by_id(dataset.id).is_some() {
            return Err(ApiError::Database(String::from_str("duplicate key value in datasets")));
        }
        let ghost pre = *self;
        self.datasets.push(dataset.clone());
        proof {
            assert(self.datasets() =~= pre.datasets().push(dataset@));
            assert(self.keys() =~= pre.keys());
            assert(self.features() =~= pre.features());
            let n = pre.datasets().len() as int;
            assert forall|i: int, j: int|
                0 <= i < j < self.datasets().len() implies !(self.datasets()[i].name
                == self.datasets()[j].name && self.datasets()[i].api_key
                == self.datasets()[j].api_key) && self.datasets()[i].id
                != self.datasets()[j].id by {
                if j == n {
                    if self.datasets()[i].name == dataset.name@ && self.datasets()[i].api_key
                        == dataset.api_key@ {
                        lemma_find_dataset_at(pre.datasets(), dataset.name@, dataset.api_key@, i);
                    }
                    if self.datasets()[i].id == dataset.id {
                        lemma_find_dataset_by_id_at(pre.datasets(), dataset.id, i);
                    }
                }
            }
            assert forall|i: int|
                0 <= i < self.datasets().len() implies !(#[trigger] self.datasets()[i].name).contains(
                ':',
            ) by {
                if i < n {
                    assert(!pre.datasets()[i].name.contains(':'));
                }
            }
            assert forall|i: int|
                0 <= i < self.features().len() implies spec_find_dataset_by_id(
                self.datasets(),
                self.features()[i].dataset_id,
            ) is Some by {
                assert(spec_find_dataset_by_id(pre.datasets(), pre.features()[i].dataset_id)
                    is Some);
                let d = spec_find_dataset_by_id(pre.datasets(), pre.features()[i].dataset_id)
                    ->Some_0;
                lemma_find_dataset_by_id_is_elem(pre.datasets(), pre.features()[i].dataset_id);
                let j = choose|j: int| 0 <= j < pre.datasets().len() && pre.datasets()[j] == d;
                assert(self.datasets()[j] == d);
                assert(self.datasets().contains(d));
                lemma_find_dataset_by_id_contains(self.datasets(), d);
            }
        }
        Ok(())
    }

    /// The datasets owned by `api_key`, in table order.
    pub fn get_datasets(&self, api_key: &String) -> (r: Result<Vec<Dataset>, ApiError>)
        ensures
            r matches Ok(v) && v@.map_values(|d: Dataset| d@) == spec_datasets_of(
                self.datasets(),
                api_key@,
            ),
    {
        let mut found: Vec<Dataset> = Vec::new();
        let mut i: usize = 0;
        while i < self.datasets.len()
            invariant
                i <= self.datasets@.len(),
                self.datasets().len() == self.datasets@.len(),
                found@.map_values(|d: Dataset| d@) == spec_datasets_of(
                    self.datasets().subrange(0, i as int),
                    api_key@,
                ),
            decreases self.datasets@.len() - i,
        {
            let ghost prefix = self.datasets().subrange(0, i as int + 1);
            proof {
                assert(prefix.drop_last() =~= self.datasets().subrange(0, i as int));
                assert(prefix.last() == self.datasets()[i as int]);
            }
            if self.datasets[i].api_key == *api_key {
                found.push(self.datasets[i].clone());
            }
            proof {
                assert(found@.map_values(|d: Dataset| d@) =~= spec_datasets_of(prefix, api_key@));
            }
            i = i + 1;
        }
        proof {
            assert(self.datasets().subrange(0, self.datasets().len() as int) =~= self.datasets());
        }
        Ok(found)
    }

    /// The dataset named `name` and owned by `api_key`, if any.
    pub fn get_dataset_by_name(&self, name: &String, api_key: &String) -> (r: Result<
        Option<Dataset>,
        ApiError,
    >)
        ensures
            match spec_find_dataset(self.datasets(), name@, api_key@) {
                Some(dv) => r matches Ok(o) && (o matches Some(d) && d@ == dv),
                None => r matches Ok(o) && o is None,
            },
    {
        match self.find_dataset_index(name, api_key) {
            Some(i) => Ok(Some(self.datasets[i].clone())),
            None => Ok(None),
        }
    }

    /// The feature `fid` of any dataset named `dataset_name` (names are
    /// scoped per key, so several keys may own one name; the feature
    /// table is searched across all of them, in table order). The record
    /// comes back tagged with the canonical coordinate system, in which
    /// its geometry is persisted, and with its dataset's owner key.
    pub fn get_feature(&self, dataset_name: &String, feature_id: &String) -> (r: Result<
        Option<Feature>,
        ApiError,
    >)
        ensures
            match spec_find_named_feature(
                self.features(),
                self.datasets(),
                dataset_name@,
                feature_id@,
            ) {
                None => r matches Ok(o) && o is None,
                Some(fv) => r matches Ok(o) && (o matches Some(f) && f@ == (FeatureView {
                    input_srid: 4326,
                    api_key: (spec_find_dataset_by_id(self.datasets(), fv.dataset_id)->Some_0).api_key,
                    ..fv
                })),
            },
    {
        let mut i: usize = 0;
        while i < self.features.len()
            invariant
                i <= self.features@.len(),
                self.features().len() == self.features@.len(),
                forall|j: int|
                    0 <= j < i ==> !feature_under_name(
                        #[trigger] self.features()[j],
                        self.datasets(),
                        dataset_name@,
                        feature_id@,
                    ),
            decreases self.features@.len() - i,
        {
            if self.features[i].feature_id == *feature_id {
                let dataset_id = self.features[i].dataset_id;
                match self.find_dataset_index_by_id(dataset_id) {
                    Some(di) => {
                        if self.datasets[di].name == *dataset_name {
                            proof {
                                lemma_find_named_feature_at(
                                    self.features(),
                                    self.datasets(),
                                    dataset_name@,
                                    feature_id@,
                                    i as int,
                                );
                            }
                            let f = &self.features[i];
                            return Ok(
                                Some(
                                    Feature {
                                        id: f.id,
                                        dataset_id: f.dataset_id,
                                        feature_id: f.feature_id.clone(),
                                        geometry: match &f.geometry {
                                            Some(g) => Some(g.clone()),
                                            None => None,
                                        },
                                        attributes: f.attributes.clone(),
                                        input_srid: 4326,
                                        api_key: self.datasets[di].api_key.clone(),
                                    },
                                ),
                            );
                        }
                    },
                    None => {},
                }
            }
            i = i + 1;
        }
        proof {
            lemma_find_named_feature_none(
                self.features(),
                self.datasets(),
                dataset_name@,
                feature_id@,
            );
        }
        Ok(None)
    }
}

impl Database {
    /// Stores a feature in the named dataset of `api_key`, arriving in
    /// `input_srid`. The geometry must be present and of a supported
    /// kind, the coordinate system supported, the dataset owned by the
    /// key, and the feature identifier new to the dataset; the store
    /// reprojects the geometry into the canonical system at write time
    /// and the row records the source system. Returns the fresh row id.
    pub fn store_feature(
        &mut self,
        feature: Feature,
        dataset_name: &String,
        api_key: &String,
        input_srid: i32,
    ) -> (r: Result<u128, ApiError>)
        requires
            old(self).wf(),
        ensures
            final(self).wf(),
            final(self).master() == old(self).master(),
            final(self).keys() == old(self).keys(),
            final(self).datasets() == old(self).datasets(),
            if feature@.geometry is None {
                (r matches Err(e) && e matches ApiError::InvalidGeometry(m) && m@
                    == "Missing geometry"@) && final(self).features() == old(self).features()
            } else if feature@.geometry->Some_0.kind == GeometryKind::GeometryCollection {
                (r matches Err(e) && e matches ApiError::InvalidGeometry(m) && m@
                    == "GeometryCollection is not supported"@) && final(self).features() == old(
                    self,
                ).features()
            } else if !is_supported_srid(input_srid) {
                (r matches Err(e) && e matches ApiError::InvalidCoordinateSystem {
                    srid: bad,
                    message,
                    supported_systems,
                } && bad == input_srid && message@ == "Unsupported coordinate system"@
                    && supported_systems@ == spec_supported_srids()) && final(self).features()
                    == old(self).features()
            } else if spec_find_dataset(old(self).datasets(), dataset_name@, api_key@) is None {
                (r matches Err(e) && e matches ApiError::DatasetNotFound(m) && m@
                    == dataset_name@) && final(self).features() == old(self).features()
            } else {
                let ds = spec_find_dataset(old(self).datasets(), dataset_name@, api_key@)->Some_0;
                if spec_find_feature(old(self).features(), ds.id, feature.feature_id@) is Some {
                    (r matches Err(e) && e matches ApiError::FeatureExists(m) && m@
                        == feature.feature_id@) && final(self).features() == old(self).features()
                } else {
                    r matches Ok(id) && final(self).features() == old(self).features().push(
                        FeatureView {
                            id: id,
                            dataset_id: ds.id,
                            feature_id: feature.feature_id@,
                            geometry: feature@.geometry,
                            attributes: feature@.attributes,
                            input_srid: input_srid,
                            api_key: api_key@,
                        },
                    )
                }
            },
    {
        let geometry = match &feature.geometry {
            None => {
                return Err(ApiError::InvalidGeometry(String::from_str("Missing geometry")));
            },
            Some(g) => g.clone(),
        };
        match validate_geojson(&GeoJson::Geometry(geometry)) {
            Err(e) => {
                return Err(e);
            },
            Ok(_) => {},
        }
        match ProjectionTransformer::validate_srid(input_srid) {
            Err(e) => {
                return Err(e);
            },
            Ok(_) => {},
        }
        let ds_index = match self.find_dataset_index(dataset_name, api_key) {
            None => {
                return Err(ApiError::DatasetNotFound(dataset_name.clone()));
            },
            Some(i) => i,
        };
        let dataset_id = self.datasets[ds_index].id;
        if self.find_feature_index(dataset_id, &feature.feature_id).is_some() {
            return Err(ApiError::FeatureExists(feature.feature_id.clone()));
        }
        let ghost pre = *self;
        let id = fresh_feature_id();
        let row = Feature {
            id,
            dataset_id,
            feature_id: feature.feature_id.clone(),
            geometry: match &feature.geometry {
                Some(g) => Some(g.clone()),
                None => None,
            },
            attributes: feature.attributes.clone(),
            input_srid,
            api_key: api_key.clone(),
        };
        let ghost rv = row@;
        self.features.push(row);
        proof {
            assert(self.features() =~= pre.features().push(rv));
            assert(self.keys() =~= pre.keys());
            assert(self.datasets() =~= pre.datasets());
            let n = pre.features().len() as int;
            assert forall|i: int, j: int|
                0 <= i < j < self.features().len() implies !(self.features()[i].dataset_id
                == self.features()[j].dataset_id && self.features()[i].feature_id
                == self.features()[j].feature_id) by {
                if j == n {
                    if self.features()[i].dataset_id == dataset_id && self.features()[i].feature_id
                        == feature.feature_id@ {
                        lemma_find_feature_at(pre.features(), dataset_id, feature.feature_id@, i);
                    }
                }
            }
            assert forall|i: int|
                0 <= i < self.features().len() implies spec_find_dataset_by_id(
                self.datasets(),
                self.features()[i].dataset_id,
            ) is Some by {
                if i < n {
                    assert(spec_find_dataset_by_id(pre.datasets(), pre.features()[i].dataset_id)
                        is Some);
                } else {
                    assert(self.datasets()[ds_index as int].id == dataset_id);
                    assert(self.datasets().contains(self.datasets()[ds_index as int]));
                    lemma_find_dataset_by_id_contains(
                        self.datasets(),
                        self.datasets()[ds_index as int],
                    );
                }
            }
        }
        Ok(id)
    }

    /// Rewrites the geometry, attributes, and source system of an
    /// existing feature of the named dataset of `api_key`. The geometry
    /// must be present and of a supported kind; an unknown dataset or
    /// feature is reported, and nothing else changes.
    pub fn update_feature(
        &mut self,
        feature: Feature,
        dataset_name: &String,
        api_key: &String,
        input_srid: i32,
    ) -> (r: Result<(), ApiError>)
        requires
            old(self).wf(),
        ensures
            final(self).wf(),
            final(self).master() == old(self).master(),
            final(self).keys() == old(self).keys(),
            final(self).datasets() == old(self).datasets(),
            if feature@.geometry is None {
                (r matches Err(e) && e matches ApiError::InvalidGeometry(m) && m@
                    == "Missing geometry"@) && final(self).features() == old(self).features()
            } else if feature@.geometry->Some_0.kind == GeometryKind::GeometryCollection {
                (r matches Err(e) && e matches ApiError::InvalidGeometry(m) && m@
                    == "GeometryCollection is not supported"@) && final(self).features() == old(
                    self,
                ).features()
            } else if spec_find_dataset(old(self).datasets(), dataset_name@, api_key@) is None {
                (r matches Err(e) && e matches ApiError::DatasetNotFound(m) && m@
                    == dataset_name@) && final(self).features() == old(self).features()
            } else {
                let ds = spec_find_dataset(old(self).datasets(), dataset_name@, api_key@)->Some_0;
                if spec_find_feature(old(self).features(), ds.id, feature.feature_id@) is None {
                    (r matches Err(e) && e matches ApiError::FeatureNotFound(m) && m@
                        == feature.feature_id@) && final(self).features() == old(self).features()
                } else {
                    r is Ok && final(self).features() == spec_update_features(
                        old(self).features(),
                        ds.id,
                        feature.feature_id@,
                        feature@.geometry,
                        feature@.attributes,
                        input_srid,
                    )
                }
            },
    {
        let geometry = match &feature.geometry {
            None => {
                return Err(ApiError::InvalidGeometry(String::from_str("Missing geometry")));
            },
            Some(g) => g.clone(),
        };
        match validate_geojson(&GeoJson::Geometry(geometry)) {
            Err(e) => {
                return Err(e);
            },
            Ok(_) => {},
        }
        let ds_index = match self.find_dataset_index(dataset_name, api_key) {
            None => {
                return Err(ApiError::DatasetNotFound(dataset_name.clone()));
            },
            Some(i) => i,
        };
        let dataset_id = self.datasets[ds_index].id;
        if self.find_feature_index(dataset_id, &feature.feature_id).is_none() {
            return Err(ApiError::FeatureNotFound(feature.feature_id.clone()));
        }
        let ghost pre = *self;
        let mut i: usize = 0;
        while i < self.features.len()
            invariant
                i <= self.features@.len(),
                self.features@.len() == pre.features@.len(),
                self.master_key@ == pre.master_key@,
                self.api_keys@ == pre.api_keys@,
                self.datasets@ == pre.datasets@,
                forall|j: int|
                    0 <= j < self.features@.len() ==> #[trigger] self.features()[j] == (if j < i
                        && pre.features()[j].dataset_id == dataset_id
                        && pre.features()[j].feature_id == feature.feature_id@ {
                        FeatureView {
                            geometry: feature@.geometry,
                            attributes: feature@.attributes,
                            input_srid: input_srid,
                            ..pre.features()[j]
                        }
                    } else {
                        pre.features()[j]
                    }),
            decreases self.features@.len() - i,
        {
            let ghost head = *self;
            if self.features[i].dataset_id == dataset_id && self.features[i].feature_id
                == feature.feature_id {
                let row = &self.features[i];
                let updated = Feature {
                    id: row.id,
                    dataset_id: row.dataset_id,
                    feature_id: row.feature_id.clone(),
                    geometry: match &feature.geometry {
                        Some(g) => Some(g.clone()),
                        None => None,
                    },
                    attributes: feature.attributes.clone(),
                    input_srid,
                    api_key: row.api_key.clone(),
                };
                let ghost uv = updated@;
                proof {
                    assert(uv == (FeatureView {
                        geometry: feature@.geometry,
                        attributes: feature@.attributes,
                        input_srid: input_srid,
                        ..head.features()[i as int]
                    }));
                }
                self.features[i] = updated;
                proof {
                    assert forall|j: int|
                        0 <= j < self.features@.len() implies #[trigger] self.features()[j] == (if j
                        < i + 1 && pre.features()[j].dataset_id == dataset_id
                        && pre.features()[j].feature_id == feature.feature_id@ {
                        FeatureView {
                            geometry: feature@.geometry,
                            attributes: feature@.attributes,
                            input_srid: input_srid,
                            ..pre.features()[j]
                        }
                    } else {
                        pre.features()[j]
                    }) by {
                        if j == i as int {
                            assert(self.features@[j]@ == uv);
                            assert(head.features()[j] == pre.features()[j]);
                        } else {
                            assert(self.features@[j] == head.features@[j]);
                            assert(head.features()[j] == self.features()[j]);
                        }
                    }
                }
            }
            i = i + 1;
        }
        proof {
            assert(self.features() =~= spec_update_features(
                pre.features(),
                dataset_id,
                feature.feature_id@,
                feature@.geometry,
                feature@.attributes,
                input_srid,
            ));
            assert(self.keys() =~= pre.keys());
            assert(self.datasets() =~= pre.datasets());
            assert forall|a: int, b: int|
                0 <= a < b < self.features().len() implies !(self.features()[a].dataset_id
                == self.features()[b].dataset_id && self.features()[a].feature_id
                == self.features()[b].feature_id) by {
                assert(!(pre.features()[a].dataset_id == pre.features()[b].dataset_id
                    && pre.features()[a].feature_id == pre.features()[b].feature_id));
            }
            assert forall|a: int|
                0 <= a < self.features().len() implies spec_find_dataset_by_id(
                self.datasets(),
                self.features()[a].dataset_id,
            ) is Some by {
                assert(spec_find_dataset_by_id(pre.datasets(), pre.features()[a].dataset_id)
                    is Some);
            }
        }
        Ok(())
    }

    /// Translates a spatial query into a plan for the geometry store:
    /// both coordinate systems must be supported (a rejection enumerates
    /// the supported list), the operation must be in the vocabulary, the
    /// query geometry must be a bare geometry of a supported kind, and
    /// the dataset must be owned by the requesting key. The plan carries
    /// the dataset's features as candidates and instructs the store to
    /// evaluate in the canonical system and reproject results into the
    /// requested output system.
    pub fn spatial_query(&self, query: &SpatialQuery) -> (r: Result<SpatialPlan, ApiError>)
        requires
            self.wf(),
        ensures
            if !is_supported_srid(query.input_srid) {
                r matches Err(e) && e matches ApiError::InvalidCoordinateSystem {
                    srid: bad,
                    message,
                    supported_systems,
                } && bad == query.input_srid && message@ == "Unsupported coordinate system"@
                    && supported_systems@ == spec_supported_srids()
            } else if !is_supported_srid(query.output_srid) {
                r matches Err(e) && e matches ApiError::InvalidCoordinateSystem {
                    srid: bad,
                    message,
                    supported_systems,
                } && bad == query.output_srid && message@ == "Unsupported coordinate system"@
                    && supported_systems@ == spec_supported_srids()
            } else if spec_operation_predicate(query.operation@) is None {
                r matches Err(e) && (e matches ApiError::InvalidGeometry(m) && m@
                    == "Invalid spatial operation"@)
            } else if !(query.geometry@ matches GeoJsonView::Geometry(g) && g.kind
                != GeometryKind::GeometryCollection) {
                r matches Err(e) && e is InvalidGeometry
            } else if spec_find_dataset(self.datasets(), query.dataset_name@, query.api_key@)
                is None {
                r matches Err(e) && (e matches ApiError::DatasetNotFound(m) && m@
                    == query.dataset_name@)
            } else {
                let ds = spec_find_dataset(self.datasets(), query.dataset_name@, query.api_key@)->Some_0;
                let plan = r->Ok_0;
                &&& r is Ok
                &&& plan.predicate == spec_operation_predicate(query.operation@)->Some_0
                &&& plan.dataset_id == ds.id
                &&& plan.dataset_name@ == query.dataset_name@
                &&& plan.geometry@ == query.geometry@->Geometry_0
                &&& plan.geometry_srid == query.input_srid
                &&& plan.evaluate_in_srid == 4326
                &&& plan.output_srid == query.output_srid
                &&& plan.candidates@.map_values(|f: Feature| f@) == spec_dataset_features(
                    self.features(),
                    ds.id,
                )
            },
    {
        match ProjectionTransformer::validate_srid(query.input_srid) {
            Err(e) => {
                return Err(e);
            },
            Ok(_) => {},
        }
        match ProjectionTransformer::validate_srid(query.output_srid) {
            Err(e) => {
                return Err(e);
            },
            Ok(_) => {},
        }
        let predicate = match operation_predicate(&query.operation) {
            Some(p) => p,
            None => {
                return Err(
                    ApiError::InvalidGeometry(String::from_str("Invalid spatial operation")),
                );
            },
        };
        match validate_geojson(&query.geometry) {
            Err(e) => {
                return Err(e);
            },
            Ok(_) => {},
        }
        let geometry = match &query.geometry {
            GeoJson::Geometry(g) => g.clone(),
            _ => {
                return Err(
                    ApiError::InvalidGeometry(String::from_str("Only Geometry type is supported")),
                );
            },
        };
        let ds_index = match self.find_dataset_index(&query.dataset_name, &query.api_key) {
            None => {
                return Err(ApiError::DatasetNotFound(query.dataset_name.clone()));
            },
            Some(i) => i,
        };
        let dataset_id = self.datasets[ds_index].id;
        let mut candidates: Vec<Feature> = Vec::new();
        let mut i: usize = 0;
        while i < self.features.len()
            invariant
                i <= self.features@.len(),
                self.features().len() == self.features@.len(),
                candidates@.map_values(|f: Feature| f@) == spec_dataset_features(
                    self.features().subrange(0, i as int),
                    dataset_id,
                ),
            decreases self.features@.len() - i,
        {
            let ghost prefix = self.features().subrange(0, i as int + 1);
            proof {
                assert(prefix.drop_last() =~= self.features().subrange(0, i as int));
                assert(prefix.last() == self.features()[i as int]);
            }
            if self.features[i].dataset_id == dataset_id {
                candidates.push(self.features[i].clone());
            }
            proof {
                assert(candidates@.map_values(|f: Feature| f@) =~= spec_dataset_features(
                    prefix,
                    dataset_id,
                ));
            }
            i = i + 1;
        }
        proof {
            assert(self.features().subrange(0, self.features().len() as int) =~= self.features());
        }
        Ok(
            SpatialPlan {
                predicate,
                dataset_id,
                dataset_name: query.dataset_name.clone(),
                geometry,
                geometry_srid: query.input_srid,
                evaluate_in_srid: 4326,
                output_srid: query.output_srid,
                candidates,
            },
        )
    }
}

/// The feature table after rewriting the geometry, attributes, and
/// source system of every row matching `(dataset_id, fid)` (at most one,
/// by the invariant).
pub open spec fn spec_update_features(
    fs: Seq<FeatureView>,
    dataset_id: u128,
    fid: Seq<char>,
    geometry: Option<GeometryView>,
    attributes: Seq<char>,
    input_srid: i32,
) -> Seq<FeatureView> {
    Seq::new(
        fs.len(),
        |i: int|
            if fs[i].dataset_id == dataset_id && fs[i].feature_id == fid {
                FeatureView { geometry, attributes, input_srid, ..fs[i] }
            } else {
                fs[i]
            },
    )
}

/// The datasets owned by `owner`, in table order.
pub open spec fn spec_datasets_of(ds: Seq<DatasetView>, owner: Seq<char>) -> Seq<DatasetView>
    decreases ds.len(),
{
    if ds.len() == 0 {
        Seq::empty()
    } else {
        let rest = spec_datasets_of(ds.drop_last(), owner);
        if ds.last().api_key == owner {
            rest.push(ds.last())
        } else {
            rest
        }
    }
}

/// Whether `owner` names a registry row that the sweep removes at `now`.
pub open spec fn spec_owner_swept(
    keys: Seq<ApiKeyRecordView>,
    owner: Seq<char>,
    master: Seq<char>,
    now: u64,
) -> bool {
    spec_find_key(keys, owner) matches Some(rec) && spec_key_swept(rec, master, now)
}

/// Whether the sweep removes a feature at `now`: its dataset's owner key
/// is itself being swept.
pub open spec fn spec_feature_swept(
    f: FeatureView,
    ds: Seq<DatasetView>,
    keys: Seq<ApiKeyRecordView>,
    master: Seq<char>,
    now: u64,
) -> bool {
    spec_find_dataset_by_id(ds, f.dataset_id) matches Some(d) && spec_owner_swept(
        keys,
        d.api_key,
        master,
        now,
    )
}

/// The registry after the sweep: every expired ordinary key removed, the
/// master key and unexpired keys kept in order.
pub open spec fn spec_sweep_keys(keys: Seq<ApiKeyRecordView>, master: Seq<char>, now: u64) -> Seq<
    ApiKeyRecordView,
>
    decreases keys.len(),
{
    if keys.len() == 0 {
        Seq::empty()
    } else {
        let rest = spec_sweep_keys(keys.drop_last(), master, now);
        if spec_key_swept(keys.last(), master, now) {
            rest
        } else {
            rest.push(keys.last())
        }
    }
}

/// The dataset table after the sweep: every dataset of a swept owner
/// removed, the others kept in order.
pub open spec fn spec_sweep_datasets(
    ds: Seq<DatasetView>,
    keys: Seq<ApiKeyRecordView>,
    master: Seq<char>,
    now: u64,
) -> Seq<DatasetView>
    decreases ds.len(),
{
    if ds.len() == 0 {
        Seq::empty()
    } else {
        let rest = spec_sweep_datasets(ds.drop_last(), keys, master, now);
        if spec_owner_swept(keys, ds.last().api_key, master, now) {
            rest
        } else {
            rest.push(ds.last())
        }
    }
}

/// The feature table after the sweep: every feature of a swept dataset
/// removed, the others kept in order.
pub open spec fn spec_sweep_features(
    fs: Seq<FeatureView>,
    ds: Seq<DatasetView>,
    keys: Seq<ApiKeyRecordView>,
    master: Seq<char>,
    now: u64,
) -> Seq<FeatureView>
    decreases fs.len(),
{
    if fs.len() == 0 {
        Seq::empty()
    } else {
        let rest = spec_sweep_features(fs.drop_last(), ds, keys, master, now);
        if spec_feature_swept(fs.last(), ds, keys, master, now) {
            rest
        } else {
            rest.push(fs.last())
        }
    }
}

/// Rejects what the store cannot hold: only bare geometries are
/// accepted, and geometry collections are rejected outright rather than
/// decomposed.
pub fn validate_geojson(geojson: &GeoJson) -> (r: Result<(), ApiError>)
    ensures
        r is Ok <==> (geojson@ matches GeoJsonView::Geometry(g) && g.kind
            != GeometryKind::GeometryCollection),
        r matches Err(e) ==> e matches ApiError::InvalidGeometry(m) && if geojson@ is Geometry {
            m@ == "GeometryCollection is not supported"@
        } else {
            m@ == "Only Geometry type is supported"@
        },
{
    match geojson {
        GeoJson::Geometry(g) => {
            if g.kind == GeometryKind::GeometryCollection {
                Err(ApiError::InvalidGeometry(
                    String::from_str("GeometryCollection is not supported"),
                ))
            } else {
                Ok(())
            }
        },
        _ => Err(ApiError::InvalidGeometry(String::from_str("Only Geometry type is supported"))),
    }
}

/// Relies on uuid::Uuid::new_v4 for a random 128-bit identifier; nothing
/// is promised of the value drawn.
#[verifier::external_body]
fn fresh_feature_id() -> u128 {
    uuid::Uuid::new_v4().as_u128()
}

/// Whether the text contains a ':' anywhere.
fn contains_colon(s: &String) -> (r: bool)
    ensures
        r == s@.contains(':'),
{
    let text = s.as_str();
    let n = text.unicode_len();
    let mut i: usize = 0;
    while i < n
        invariant
            text@ == s@,
            n == text@.len(),
            i <= n,
            forall|j: int| 0 <= j < i ==> text@[j] != ':',
        decreases n - i,
    {
        if text.get_char(i) == ':' {
            proof {
                assert(s@.contains(':')) by {
                    assert(s@[i as int] == ':');
                }
            }
            return true;
        }
        i = i + 1;
    }
    proof {
        assert(!s@.contains(':')) by {
            assert(forall|j: int| 0 <= j < s@.len() ==> s@[j] != ':');
        }
    }
    false
}

/// The store-native predicates that logical spatial operations map onto.
#[derive(Clone, Copy, PartialEq, Eq, Structural, Debug)]
pub enum SpatialPredicate {
    Intersects,
    Contains,
    Within,
}

/// The store predicate for a logical operation name, if the name is in
/// the vocabulary.
pub open spec fn spec_operation_predicate(op: Seq<char>) -> Option<SpatialPredicate> {
    if op == "intersects"@ {
        Some(SpatialPredicate::Intersects)
    } else if op == "contains"@ {
        Some(SpatialPredicate::Contains)
    } else if op == "within"@ {
        Some(SpatialPredicate::Within)
    } else {
        None
    }
}

/// The store predicate for a logical operation name, if the name is in
/// the vocabulary: the one-to-one mapping the translator applies.
pub fn operation_predicate(operation: &String) -> (r: Option<SpatialPredicate>)
    ensures
        r == spec_operation_predicate(operation@),
{
    if *operation == String::from_str("intersects") {
        Some(SpatialPredicate::Intersects)
    } else if *operation == String::from_str("contains") {
        Some(SpatialPredicate::Contains)
    } else if *operation == String::from_str("within") {
        Some(SpatialPredicate::Within)
    } else {
        None
    }
}

/// The features of one dataset, in table order.
pub open spec fn spec_dataset_features(fs: Seq<FeatureView>, dataset_id: u128) -> Seq<FeatureView>
    decreases fs.len(),
{
    if fs.len() == 0 {
        Seq::empty()
    } else {
        let rest = spec_dataset_features(fs.drop_last(), dataset_id);
        if fs.last().dataset_id == dataset_id {
            rest.push(fs.last())
        } else {
            rest
        }
    }
}

/// The query results selected by the store's verdicts: the candidates
/// marked true, in order, each tagged with the coordinate system the
/// store reprojected the result geometry into.
pub open spec fn spec_select_results(
    fs: Seq<FeatureView>,
    verdicts: Seq<bool>,
    output_srid: i32,
) -> Seq<FeatureView>
    recommends
        fs.len() == verdicts.len(),
    decreases fs.len(),
{
    if fs.len() == 0 {
        Seq::empty()
    } else {
        let rest = spec_select_results(fs.drop_last(), verdicts.drop_last(), output_srid);
        if verdicts.len() == fs.len() && verdicts.last() {
            rest.push(FeatureView { input_srid: output_srid, ..fs.last() })
        } else {
            rest
        }
    }
}

/// What a spatial query compiles to: the store evaluates `predicate` in
/// the canonical system — reprojecting the query geometry into it from
/// `geometry_srid` first — over the candidate features, and reprojects
/// the geometries of the matches into `output_srid`. The translator
/// performs no reprojection arithmetic itself.
#[derive(Debug)]
pub struct SpatialPlan {
    pub predicate: SpatialPredicate,
    pub dataset_id: u128,
    pub dataset_name: String,
    pub geometry: Geometry,
    pub geometry_srid: i32,
    pub evaluate_in_srid: i32,
    pub output_srid: i32,
    pub candidates: Vec<Feature>,
}

impl SpatialPlan {
    /// Applies the store's per-candidate verdicts: keeps exactly the
    /// candidates marked true, each tagged with the plan's output
    /// coordinate system. Whatever verdicts the store returns, the
    /// result is pinned by them.
    pub fn select_results(self, verdicts: &Vec<bool>) -> (r: Vec<Feature>)
        requires
            verdicts@.len() == self.candidates@.len(),
        ensures
            r@.map_values(|f: Feature| f@) == spec_select_results(
                self.candidates@.map_values(|f: Feature| f@),
                verdicts@,
                self.output_srid,
            ),
    {
        let mut selected: Vec<Feature> = Vec::new();
        let mut i: usize = 0;
        while i < self.candidates.len()
            invariant
                i <= self.candidates@.len(),
                verdicts@.len() == self.candidates@.len(),
                selected@.map_values(|f: Feature| f@) == spec_select_results(
                    self.candidates@.map_values(|f: Feature| f@).subrange(0, i as int),
                    verdicts@.subrange(0, i as int),
                    self.output_srid,
                ),
            decreases self.candidates@.len() - i,
        {
            let ghost cvs = self.candidates@.map_values(|f: Feature| f@);
            proof {
                assert(cvs.subrange(0, i as int + 1).drop_last() =~= cvs.subrange(0, i as int));
                assert(verdicts@.subrange(0, i as int + 1).drop_last() =~= verdicts@.subrange(
                    0,
                    i as int,
                ));
                assert(cvs.subrange(0, i as int + 1).last() == cvs[i as int]);
                assert(verdicts@.subrange(0, i as int + 1).last() == verdicts@[i as int]);
            }
            if verdicts[i] {
                let f = &self.candidates[i];
                let out = Feature {
                    id: f.id,
                    dataset_id: f.dataset_id,
                    feature_id: f.feature_id.clone(),
                    geometry: match &f.geometry {
                        Some(g) => Some(g.clone()),
                        None => None,
                    },
                    attributes: f.attributes.clone(),
                    input_srid: self.output_srid,
                    api_key: f.api_key.clone(),
                };
                selected.push(out);
            }
            proof {
                assert(selected@.map_values(|f: Feature| f@) =~= spec_select_results(
                    cvs.subrange(0, i as int + 1),
                    verdicts@.subrange(0, i as int + 1),
                    self.output_srid,
                ));
            }
            i = i + 1;
        }
        proof {
            assert(self.candidates@.map_values(|f: Feature| f@).subrange(
                0,
                self.candidates@.len() as int,
            ) =~= self.candidates@.map_values(|f: Feature| f@));
            assert(verdicts@.subrange(0, verdicts@.len() as int) =~= verdicts@);
        }
        selected
    }
}

/// Every row the key sweep keeps was a row before, and was not due for
/// removal.
proof fn lemma_sweep_keys_sub(keys: Seq<ApiKeyRecordView>, master: Seq<char>, now: u64)
    ensures
        forall|x: ApiKeyRecordView|
            #[trigger] spec_sweep_keys(keys, master, now).contains(x) ==> keys.contains(x)
                && !spec_key_swept(x, master, now),
    decreases keys.len(),
{
    if keys.len() > 0 {
        let front = keys.drop_last();
        lemma_sweep_keys_sub(front, master, now);
        let rest = spec_sweep_keys(front, master, now);
        let result = spec_sweep_keys(keys, master, now);
        assert forall|x: ApiKeyRecordView| #[trigger] result.contains(x) implies keys.contains(x)
            && !spec_key_swept(x, master, now) by {
            let i = choose|i: int| 0 <= i < result.len() && result[i] == x;
            if i < rest.len() {
                assert(rest.contains(x));
                let j = choose|j: int| 0 <= j < front.len() && front[j] == x;
                assert(keys[j] == x);
            } else {
                assert(x == keys.last());
                assert(keys[keys.len() - 1] == x);
            }
        }
    }
}

/// The key sweep keeps keys pairwise distinct.
proof fn lemma_sweep_keys_wf(keys: Seq<ApiKeyRecordView>, master: Seq<char>, now: u64)
    requires
        keys_wf(keys),
    ensures
        keys_wf(spec_sweep_keys(keys, master, now)),
    decreases keys.len(),
{
    if keys.len() > 0 {
        let front = keys.drop_last();
        assert(keys_wf(front));
        lemma_sweep_keys_wf(front, master, now);
        lemma_sweep_keys_sub(front, master, now);
        let rest = spec_sweep_keys(front, master, now);
        if !spec_key_swept(keys.last(), master, now) {
            assert forall|i: int| 0 <= i < rest.len() implies rest[i].key != keys.last().key by {
                assert(rest.contains(rest[i]));
                let j = choose|j: int| 0 <= j < front.len() && front[j] == rest[i];
                assert(keys[j] == rest[i]);
                assert(keys[j].key != keys[keys.len() - 1].key);
            }
            let result = rest.push(keys.last());
            assert forall|a: int, b: int|
                0 <= a < b < result.len() implies result[a].key != result[b].key by {
                if b < rest.len() {
                    assert(rest[a].key != rest[b].key);
                }
            }
        }
    }
}

/// Every dataset the sweep keeps was a dataset before, owned by a key
/// that was not due for removal.
proof fn lemma_sweep_datasets_sub(
    ds: Seq<DatasetView>,
    keys: Seq<ApiKeyRecordView>,
    master: Seq<char>,
    now: u64,
)
    ensures
        forall|x: DatasetView|
            #[trigger] spec_sweep_datasets(ds, keys, master, now).contains(x) ==> ds.contains(x)
                && !spec_owner_swept(keys, x.api_key, master, now),
    decreases ds.len(),
{
    if ds.len() > 0 {
        let front = ds.drop_last();
        lemma_sweep_datasets_sub(front, keys, master, now);
        let rest = spec_sweep_datasets(front, keys, master, now);
        let result = spec_sweep_datasets(ds, keys, master, now);
        assert forall|x: DatasetView| #[trigger] result.contains(x) implies ds.contains(x)
            && !spec_owner_swept(keys, x.api_key, master, now) by {
            let i = choose|i: int| 0 <= i < result.len() && result[i] == x;
            if i < rest.len() {
                assert(rest.contains(x));
                let j = choose|j: int| 0 <= j < front.len() && front[j] == x;
                assert(ds[j] == x);
            } else {
                assert(x == ds.last());
                assert(ds[ds.len() - 1] == x);
            }
        }
    }
}

/// The dataset sweep keeps `(name, owner)` pairs and ids pairwise
/// distinct.
proof fn lemma_sweep_datasets_wf(
    ds: Seq<DatasetView>,
    keys: Seq<ApiKeyRecordView>,
    master: Seq<char>,
    now: u64,
)
    requires
        datasets_wf(ds),
    ensures
        datasets_wf(spec_sweep_datasets(ds, keys, master, now)),
    decreases ds.len(),
{
    if ds.len() > 0 {
        let front = ds.drop_last();
        assert(datasets_wf(front));
        lemma_sweep_datasets_wf(front, keys, master, now);
        lemma_sweep_datasets_sub(front, keys, master, now);
        let rest = spec_sweep_datasets(front, keys, master, now);
        if !spec_owner_swept(keys, ds.last().api_key, master, now) {
            assert forall|i: int|
                0 <= i < rest.len() implies !(rest[i].name == ds.last().name && rest[i].api_key
                == ds.last().api_key) && rest[i].id != ds.last().id by {
                assert(rest.contains(rest[i]));
                let j = choose|j: int| 0 <= j < front.len() && front[j] == rest[i];
                assert(ds[j] == rest[i]);
                assert(!(ds[j].name == ds[ds.len() - 1].name && ds[j].api_key == ds[ds.len()
                    - 1].api_key));
                assert(ds[j].id != ds[ds.len() - 1].id);
            }
            let result = rest.push(ds.last());
            assert forall|a: int, b: int|
                0 <= a < b < result.len() implies !(result[a].name == result[b].name
                && result[a].api_key == result[b].api_key) && result[a].id != result[b].id by {
                if b < rest.len() {
                    assert(!(rest[a].name == rest[b].name && rest[a].api_key == rest[b].api_key));
                    assert(rest[a].id != rest[b].id);
                }
            }
            assert forall|a: int|
                0 <= a < result.len() implies !(#[trigger] result[a].name).contains(':') by {
                if a < rest.len() {
                    assert(!rest[a].name.contains(':'));
                } else {
                    assert(result[a] == ds.last());
                    assert(!ds[ds.len() - 1].name.contains(':'));
                }
            }
        }
    }
}

/// A dataset whose owner is not due for removal survives the sweep.
proof fn lemma_sweep_datasets_keeps(
    ds: Seq<DatasetView>,
    keys: Seq<ApiKeyRecordView>,
    master: Seq<char>,
    now: u64,
    d: DatasetView,
)
    requires
        ds.contains(d),
        !spec_owner_swept(keys, d.api_key, master, now),
    ensures
        spec_sweep_datasets(ds, keys, master, now).contains(d),
    decreases ds.len(),
{
    let rest = spec_sweep_datasets(ds.drop_last(), keys, master, now);
    let result = spec_sweep_datasets(ds, keys, master, now);
    let j = choose|j: int| 0 <= j < ds.len() && ds[j] == d;
    if j == ds.len() - 1 {
        assert(ds.last() == d);
        assert(result[result.len() - 1] == d);
    } else {
        assert(ds.drop_last()[j] == d);
        assert(ds.drop_last().contains(d));
        lemma_sweep_datasets_keeps(ds.drop_last(), keys, master, now, d);
        let i = choose|i: int| 0 <= i < rest.len() && rest[i] == d;
        assert(result[i] == d);
    }
}

/// A found dataset is an element of the table, under its id.
proof fn lemma_find_dataset_by_id_is_elem(ds: Seq<DatasetView>, id: u128)
    requires
        spec_find_dataset_by_id(ds, id) is Some,
    ensures
        ds.contains(spec_find_dataset_by_id(ds, id)->Some_0),
        (spec_find_dataset_by_id(ds, id)->Some_0).id == id,
    decreases ds.len(),
{
    if ds.len() > 0 && ds[0].id != id {
        lemma_find_dataset_by_id_is_elem(ds.drop_first(), id);
        let d = spec_find_dataset_by_id(ds, id)->Some_0;
        let j = choose|j: int| 0 <= j < ds.drop_first().len() && ds.drop_first()[j] == d;
        assert(ds[j + 1] == d);
    }
}

/// A dataset in the table makes its id findable.
proof fn lemma_find_dataset_by_id_contains(ds: Seq<DatasetView>, d: DatasetView)
    requires
        ds.contains(d),
    ensures
        spec_find_dataset_by_id(ds, d.id) is Some,
    decreases ds.len(),
{
    if ds.len() > 0 && ds[0].id != d.id {
        let j = choose|j: int| 0 <= j < ds.len() && ds[j] == d;
        assert(ds.drop_first()[j - 1] == d);
        assert(ds.drop_first().contains(d));
        lemma_find_dataset_by_id_contains(ds.drop_first(), d);
    }
}

/// Every feature the sweep keeps was a feature before and was not due
/// for removal.
proof fn lemma_sweep_features_sub(
    fs: Seq<FeatureView>,
    ds: Seq<DatasetView>,
    keys: Seq<ApiKeyRecordView>,
    master: Seq<char>,
    now: u64,
)
    ensures
        forall|x: FeatureView|
            #[trigger] spec_sweep_features(fs, ds, keys, master, now).contains(x) ==> fs.contains(
                x,
            ) && !spec_feature_swept(x, ds, keys, master, now),
    decreases fs.len(),
{
    if fs.len() > 0 {
        let front = fs.drop_last();
        lemma_sweep_features_sub(front, ds, keys, master, now);
        let rest = spec_sweep_features(front, ds, keys, master, now);
        let result = spec_sweep_features(fs, ds, keys, master, now);
        assert forall|x: FeatureView| #[trigger] result.contains(x) implies fs.contains(x)
            && !spec_feature_swept(x, ds, keys, master, now) by {
            let i = choose|i: int| 0 <= i < result.len() && result[i] == x;
            if i < rest.len() {
                assert(rest.contains(x));
                let j = choose|j: int| 0 <= j < front.len() && front[j] == x;
                assert(fs[j] == x);
            } else {
                assert(x == fs.last());
                assert(fs[fs.len() - 1] == x);
            }
        }
    }
}

/// The feature sweep keeps `(dataset_id, feature_id)` pairs pairwise
/// distinct and every kept feature's dataset alive: removing features of
/// swept owners before their datasets preserves referential integrity.
proof fn lemma_sweep_features_wf(
    fs: Seq<FeatureView>,
    ds: Seq<DatasetView>,
    keys: Seq<ApiKeyRecordView>,
    master: Seq<char>,
    now: u64,
)
    requires
        features_wf(fs, ds),
    ensures
        features_wf(
            spec_sweep_features(fs, ds, keys, master, now),
            spec_sweep_datasets(ds, keys, master, now),
        ),
    decreases fs.len(),
{
    let ds2 = spec_sweep_datasets(ds, keys, master, now);
    let result = spec_sweep_features(fs, ds, keys, master, now);
    lemma_sweep_features_sub(fs, ds, keys, master, now);
    assert forall|a: int, b: int|
        0 <= a < b < result.len() implies !(result[a].dataset_id == result[b].dataset_id
        && result[a].feature_id == result[b].feature_id) by {
        lemma_sweep_features_distinct(fs, ds, keys, master, now, a, b);
    }
    assert forall|i: int|
        0 <= i < result.len() implies spec_find_dataset_by_id(
        ds2,
        result[i].dataset_id,
    ) is Some by {
        let x = result[i];
        assert(result.contains(x));
        assert(fs.contains(x) && !spec_feature_swept(x, ds, keys, master, now));
        let j = choose|j: int| 0 <= j < fs.len() && fs[j] == x;
        assert(spec_find_dataset_by_id(ds, fs[j].dataset_id) is Some);
        let d = spec_find_dataset_by_id(ds, x.dataset_id)->Some_0;
        lemma_find_dataset_by_id_is_elem(ds, x.dataset_id);
        assert(!spec_owner_swept(keys, d.api_key, master, now));
        lemma_sweep_datasets_keeps(ds, keys, master, now, d);
        lemma_find_dataset_by_id_contains(ds2, d);
    }
}

/// Two distinct positions the feature sweep keeps carry distinct
/// `(dataset_id, feature_id)` pairs.
proof fn lemma_sweep_features_distinct(
    fs: Seq<FeatureView>,
    ds: Seq<DatasetView>,
    keys: Seq<ApiKeyRecordView>,
    master: Seq<char>,
    now: u64,
    a: int,
    b: int,
)
    requires
        features_wf(fs, ds),
        0 <= a < b < spec_sweep_features(fs, ds, keys, master, now).len(),
    ensures
        ({
            let result = spec_sweep_features(fs, ds, keys, master, now);
            !(result[a].dataset_id == result[b].dataset_id && result[a].feature_id
                == result[b].feature_id)
        }),
    decreases fs.len(),
{
    let front = fs.drop_last();
    let rest = spec_sweep_features(front, ds, keys, master, now);
    let result = spec_sweep_features(fs, ds, keys, master, now);
    assert(features_wf(front, ds));
    if b < rest.len() {
        lemma_sweep_features_distinct(front, ds, keys, master, now, a, b);
    } else {
        assert(result[b] == fs.last());
        lemma_sweep_features_sub(front, ds, keys, master, now);
        assert(rest.contains(rest[a]));
        let j = choose|j: int| 0 <= j < front.len() && front[j] == rest[a];
        assert(fs[j] == rest[a]);
        assert(!(fs[j].dataset_id == fs[fs.len() - 1].dataset_id && fs[j].feature_id == fs[fs.len()
            - 1].feature_id));
    }
}

impl Database {
    /// Whether `validate_api_key` passes `k` at `now`: the master key, or
    /// a registered key whose expiry window still covers `now`.
    pub open spec fn spec_key_validates(self, k: Seq<char>, now: u64) -> bool {
        k == self.master() || (spec_find_key(self.keys(), k) matches Some(rec)
            && spec_key_unexpired(rec, now))
    }

    /// The registry after `validate_api_key` of `k` at `now`: a passing
    /// ordinary key has its last use refreshed; the master key and a
    /// failing key leave it alone.
    pub open spec fn spec_keys_after_validate(self, k: Seq<char>, now: u64) -> Seq<
        ApiKeyRecordView,
    > {
        if k != self.master() && (spec_find_key(self.keys(), k) matches Some(rec)
            && spec_key_unexpired(rec, now)) {
            spec_touch_keys(self.keys(), k, now)
        } else {
            self.keys()
        }
    }
}

/// Law: the master key is exempt from the sweep — a registry row bearing
/// the master key survives every run of it, whatever its timestamps.
pub proof fn lemma_master_key_survives_sweep(
    keys: Seq<ApiKeyRecordView>,
    master: Seq<char>,
    now: u64,
    rec: ApiKeyRecordView,
)
    requires
        keys.contains(rec),
        rec.key == master,
    ensures
        spec_sweep_keys(keys, master, now).contains(rec),
    decreases keys.len(),
{
    let rest = spec_sweep_keys(keys.drop_last(), master, now);
    let result = spec_sweep_keys(keys, master, now);
    let j = choose|j: int| 0 <= j < keys.len() && keys[j] == rec;
    if j == keys.len() - 1 {
        assert(keys.last() == rec);
        assert(!spec_key_swept(rec, master, now));
        assert(result[result.len() - 1] == rec);
    } else {
        assert(keys.drop_last()[j] == rec);
        assert(keys.drop_last().contains(rec));
        lemma_master_key_survives_sweep(keys.drop_last(), master, now, rec);
        let i = choose|i: int| 0 <= i < rest.len() && rest[i] == rec;
        assert(result[i] == rec);
    }
}

/// A found dataset bears the name and owner it was searched by.
pub proof fn lemma_find_dataset_fields(ds: Seq<DatasetView>, name: Seq<char>, owner: Seq<char>)
    requires
        spec_find_dataset(ds, name, owner) is Some,
    ensures
        (spec_find_dataset(ds, name, owner)->Some_0).name == name,
        (spec_find_dataset(ds, name, owner)->Some_0).api_key == owner,
    decreases ds.len(),
{
    if ds.len() > 0 && !(ds[0].name == name && ds[0].api_key == owner) {
        lemma_find_dataset_fields(ds.drop_first(), name, owner);
    }
}

/// Law: a key, once created, is found by every later lookup, so a second
/// creation request for the same key is rejected and the registry is
/// left as it was: key creation is idempotent by rejection, never a
/// silent overwrite.
pub proof fn lemma_created_key_found(keys: Seq<ApiKeyRecordView>, rec: ApiKeyRecordView)
    ensures
        spec_find_key(keys.push(rec), rec.key) is Some,
    decreases keys.len(),
{
    if keys.len() > 0 && keys[0].key != rec.key {
        assert(keys.push(rec).drop_first() =~= keys.drop_first().push(rec));
        lemma_created_key_found(keys.drop_first(), rec);
    }
}

/// One registry row after a touch at `now`.
pub open spec fn spec_touched(rec: ApiKeyRecordView, now: u64) -> ApiKeyRecordView {
    ApiKeyRecordView { last_used_at: now, ..rec }
}

/// The registry after refreshing the last use of every row under `k`.
pub open spec fn spec_touch_keys(keys: Seq<ApiKeyRecordView>, k: Seq<char>, now: u64) -> Seq<
    ApiKeyRecordView,
> {
    Seq::new(
        keys.len(),
        |i: int|
            if keys[i].key == k {
                spec_touched(keys[i], now)
            } else {
                keys[i]
            },
    )
}

} // verus!
