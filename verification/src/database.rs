//! The tenant-scoped store.
//!
//! `Database` holds every tenant's rows; `DomainDatabase` pairs it with
//! one tenant identifier, and every operation it exposes touches only that
//! tenant's rows (except where the storage layer itself is table-wide:
//! foreign keys and cascades). The store assigns identifiers itself from a
//! monotone counter, so a fresh row never collides with an existing one,
//! and it maintains per-tenant MAC uniqueness as an invariant.

use crate::config::{ConfigError, ConfigModel, ConfigModelV};
use crate::error::Error;
use crate::feature::FeatureType;
use crate::device::{DeviceError, DeviceModel, DeviceModelV};
use crate::feature::{FeatureModel, FeatureModelV};
use crate::feature_profile::{FeatureProfileModel, FeatureProfileModelV};
use crate::profile::{ProfileModel, ProfileModelV};
use crate::mac::Mac;
use crate::text::{contains_sub, str_contains};
use vstd::prelude::*;
use vstd::string::StringExecFns;

verus! {

/// A device row: the device together with its owning tenant.
struct DeviceRow {
    domain_id: u128,
    device: DeviceModel,
}

/// The abstract value of a device row.
pub struct DeviceRowV {
    pub domain_id: u128,
    pub device: DeviceModelV,
}

impl View for DeviceRow {
    type V = DeviceRowV;

    closed spec fn view(&self) -> DeviceRowV {
        DeviceRowV { domain_id: self.domain_id, device: self.device@ }
    }
}

/// A profile row as stored: its children live in the feature-profile
/// table.
struct ProfileRow {
    id: u128,
    domain_id: u128,
    display_name: String,
}

/// The abstract value of a profile row.
pub struct ProfileRowV {
    pub id: u128,
    pub domain_id: u128,
    pub display_name: Seq<char>,
}

impl View for ProfileRow {
    type V = ProfileRowV;

    closed spec fn view(&self) -> ProfileRowV {
        ProfileRowV { id: self.id, domain_id: self.domain_id, display_name: self.display_name@ }
    }
}

/// The relational store shared by all tenants.
pub struct Database {
    devices: Vec<DeviceRow>,
    configs: Vec<ConfigModel>,
    features: Vec<FeatureModel>,
    profiles: Vec<ProfileRow>,
    feature_profiles: Vec<FeatureProfileModel>,
    next_id: u128,
}

/// The abstract value of the store.
pub struct DatabaseV {
    pub devices: Seq<DeviceRowV>,
    pub configs: Seq<ConfigModelV>,
    pub features: Seq<FeatureModelV>,
    pub profiles: Seq<ProfileRowV>,
    pub feature_profiles: Seq<FeatureProfileModelV>,
    pub next_id: u128,
}

impl View for Database {
    type V = DatabaseV;

    closed spec fn view(&self) -> DatabaseV {
        DatabaseV {
            devices: self.devices@.map_values(|r: DeviceRow| r@),
            configs: self.configs@.map_values(|r: ConfigModel| r@),
            features: self.features@.map_values(|r: FeatureModel| r@),
            profiles: self.profiles@.map_values(|r: ProfileRow| r@),
            feature_profiles: self.feature_profiles@.map_values(|r: FeatureProfileModel| r@),
            next_id: self.next_id,
        }
    }
}

/// The empty store, with the identifier counter at one so a nil
/// identifier is never assigned.
pub open spec fn empty_db() -> DatabaseV {
    DatabaseV {
        devices: Seq::empty(),
        configs: Seq::empty(),
        features: Seq::empty(),
        profiles: Seq::empty(),
        feature_profiles: Seq::empty(),
        next_id: 1,
    }
}

/// The store's invariant: every identifier is nonzero, below the counter,
/// and unique in its table, and no two devices of one tenant share a MAC.
pub open spec fn db_wf(db: DatabaseV) -> bool {
    &&& db.next_id >= 1
    &&& forall|i: int|
        0 <= i < db.devices.len() ==> 0 < #[trigger] db.devices[i].device.device_id < db.next_id
    &&& forall|i: int, j: int|
        0 <= i < j < db.devices.len() ==> #[trigger] db.devices[i].device.device_id
            != #[trigger] db.devices[j].device.device_id
    &&& forall|i: int, j: int|
        0 <= i < j < db.devices.len() ==> !(#[trigger] db.devices[i].domain_id
            == #[trigger] db.devices[j].domain_id && db.devices[i].device.mac
            == db.devices[j].device.mac)
    &&& forall|i: int|
        0 <= i < db.configs.len() ==> 0 < #[trigger] db.configs[i].config_id < db.next_id
    &&& forall|i: int, j: int|
        0 <= i < j < db.configs.len() ==> #[trigger] db.configs[i].config_id
            != #[trigger] db.configs[j].config_id
    &&& forall|i: int| 0 <= i < db.features.len() ==> 0 < #[trigger] db.features[i].id < db.next_id
    &&& forall|i: int, j: int|
        0 <= i < j < db.features.len() ==> #[trigger] db.features[i].id
            != #[trigger] db.features[j].id
    &&& forall|i: int| 0 <= i < db.profiles.len() ==> 0 < #[trigger] db.profiles[i].id < db.next_id
    &&& forall|i: int, j: int|
        0 <= i < j < db.profiles.len() ==> #[trigger] db.profiles[i].id
            != #[trigger] db.profiles[j].id
    &&& forall|i: int|
        0 <= i < db.feature_profiles.len() ==> 0 < #[trigger] db.feature_profiles[i].id
            < db.next_id
    &&& forall|i: int, j: int|
        0 <= i < j < db.feature_profiles.len() ==> #[trigger] db.feature_profiles[i].id
            != #[trigger] db.feature_profiles[j].id
}

/// Whether some device of `domain` has this identifier.
pub open spec fn has_device_id(db: DatabaseV, domain: u128, id: u128) -> bool {
    exists|i: int|
        0 <= i < db.devices.len() && (#[trigger] db.devices[i]).domain_id == domain
            && db.devices[i].device.device_id == id
}

/// Whether some device of `domain` carries this (normalized) MAC.
pub open spec fn has_device_mac(db: DatabaseV, domain: u128, mac: Seq<char>) -> bool {
    exists|i: int|
        0 <= i < db.devices.len() && (#[trigger] db.devices[i]).domain_id == domain
            && db.devices[i].device.mac == mac
}

/// Whether some device of `domain` references this configuration.
pub open spec fn has_device_with_config(db: DatabaseV, domain: u128, config_id: u128) -> bool {
    exists|i: int|
        0 <= i < db.devices.len() && (#[trigger] db.devices[i]).domain_id == domain
            && db.devices[i].device.config_id == config_id
}

/// Whether any tenant's feature profile references this feature — the
/// scope of the storage layer's foreign key.
pub open spec fn has_fp_with_feature(db: DatabaseV, feature_id: u128) -> bool {
    exists|i: int|
        0 <= i < db.feature_profiles.len() && (#[trigger] db.feature_profiles[i]).feature_id
            == feature_id
}

/// The feature profiles that survive the cascade when profile `id` is
/// deleted.
pub open spec fn cascade_pred(id: u128) -> spec_fn(FeatureProfileModelV) -> bool {
    |fp: FeatureProfileModelV| fp.profile_id != id
}

/// Whether `domain` has a configuration row with this identifier.
pub open spec fn has_config(db: DatabaseV, domain: u128, id: u128) -> bool {
    exists|i: int|
        0 <= i < db.configs.len() && (#[trigger] db.configs[i]).domain_id == domain
            && db.configs[i].config_id == id
}

impl Database {
    /// A fresh, empty store.
    pub fn new() -> (r: Database)
        ensures
            r@ == empty_db(),
            db_wf(r@),
    {
        let r = Database {
            devices: Vec::new(),
            configs: Vec::new(),
            features: Vec::new(),
            profiles: Vec::new(),
            feature_profiles: Vec::new(),
            next_id: 1,
        };
        proof {
            assert(r@.devices =~= empty_db().devices);
            assert(r@.configs =~= empty_db().configs);
            assert(r@.features =~= empty_db().features);
            assert(r@.profiles =~= empty_db().profiles);
            assert(r@.feature_profiles =~= empty_db().feature_profiles);
        }
        r
    }
}

/// Which single device a lookup addresses: by identifier or by MAC.
pub enum UniqueDeviceFilter {
    DeviceId(u128),
    DeviceMac(Mac),
}

/// Which devices a list addresses: those whose display name contains the
/// given text.
pub enum DeviceFilter {
    NameFilter(String),
}

/// A store handle bound to one tenant: every operation below touches only
/// rows whose `domain_id` equals the bound tenant (plus table-wide
/// foreign-key behaviour where the schema itself is table-wide).
pub struct DomainDatabase {
    pool: Database,
    domain_id: u128,
}

impl DomainDatabase {
    /// The store this handle wraps.
    pub closed spec fn spec_pool(&self) -> DatabaseV {
        self.pool@
    }

    /// The tenant this handle is bound to.
    pub closed spec fn spec_domain(&self) -> u128 {
        self.domain_id
    }

    pub open spec fn wf(&self) -> bool {
        db_wf(self.spec_pool())
    }

    /// Bind a store to a tenant.
    pub fn new(connection_pool: Database, domain_id: u128) -> (r: DomainDatabase)
        ensures
            r.spec_pool() == connection_pool@,
            r.spec_domain() == domain_id,
    {
        DomainDatabase { pool: connection_pool, domain_id }
    }

    pub fn pool(&self) -> (r: &Database)
        ensures
            r@ == self.spec_pool(),
    {
        &self.pool
    }

    /// Release the store, to rebind it to another tenant.
    pub fn into_pool(self) -> (r: Database)
        ensures
            r@ == self.spec_pool(),
    {
        self.pool
    }

    pub fn domain_id(&self) -> (r: u128)
        ensures
            r == self.spec_domain(),
    {
        self.domain_id
    }

    /// The index of this tenant's device with the given identifier.
    fn device_index_by_id(&self, id: u128) -> (r: Option<usize>)
        ensures
            r matches Some(ix) ==> ix < self.spec_pool().devices.len()
                && self.spec_pool().devices[ix as int].domain_id == self.spec_domain()
                && self.spec_pool().devices[ix as int].device.device_id == id,
            r is None ==> !has_device_id(self.spec_pool(), self.spec_domain(), id),
    {
        let n = self.pool.devices.len();
        let mut i: usize = 0;
        while i < n
            invariant
                n == self.pool.devices@.len(),
                i <= n,
                forall|k: int|
                    0 <= k < i ==> !((#[trigger] self.spec_pool().devices[k]).domain_id
                        == self.spec_domain() && self.spec_pool().devices[k].device.device_id
                        == id),
            decreases n - i,
        {
            let row = &self.pool.devices[i];
            if row.domain_id == self.domain_id && row.device.device_id == id {
                return Some(i);
            }
            i = i + 1;
        }
        None
    }

    /// The index of this tenant's device with the given MAC.
    fn device_index_by_mac(&self, mac: &Mac) -> (r: Option<usize>)
        ensures
            r matches Some(ix) ==> ix < self.spec_pool().devices.len()
                && self.spec_pool().devices[ix as int].domain_id == self.spec_domain()
                && self.spec_pool().devices[ix as int].device.mac == mac@,
            r is None ==> !has_device_mac(self.spec_pool(), self.spec_domain(), mac@),
    {
        let n = self.pool.devices.len();
        let mut i: usize = 0;
        while i < n
            invariant
                n == self.pool.devices@.len(),
                i <= n,
                forall|k: int|
                    0 <= k < i ==> !((#[trigger] self.spec_pool().devices[k]).domain_id
                        == self.spec_domain() && self.spec_pool().devices[k].device.mac == mac@),
            decreases n - i,
        {
            let row = &self.pool.devices[i];
            if row.domain_id == self.domain_id && crate::text::str_eq(
                row.device.mac.to_string().as_str(),
                mac.to_string().as_str(),
            ) {
                return Some(i);
            }
            i = i + 1;
        }
        None
    }

    /// The index of this tenant's configuration with the given identifier.
    fn config_index_by_id(&self, id: u128) -> (r: Option<usize>)
        ensures
            r matches Some(ix) ==> ix < self.spec_pool().configs.len()
                && self.spec_pool().configs[ix as int].domain_id == self.spec_domain()
                && self.spec_pool().configs[ix as int].config_id == id,
            r is None ==> !has_config(self.spec_pool(), self.spec_domain(), id),
    {
        let n = self.pool.configs.len();
        let mut i: usize = 0;
        while i < n
            invariant
                n == self.pool.configs@.len(),
                i <= n,
                forall|k: int|
                    0 <= k < i ==> !((#[trigger] self.spec_pool().configs[k]).domain_id
                        == self.spec_domain() && self.spec_pool().configs[k].config_id == id),
            decreases n - i,
        {
            let row = &self.pool.configs[i];
            if row.domain_id == self.domain_id && row.config_id == id {
                return Some(i);
            }
            i = i + 1;
        }
        None
    }

    /// The index of some device of this tenant referencing the given
    /// configuration.
    fn device_index_by_config(&self, config_id: u128) -> (r: Option<usize>)
        ensures
            r matches Some(ix) ==> ix < self.spec_pool().devices.len()
                && self.spec_pool().devices[ix as int].domain_id == self.spec_domain()
                && self.spec_pool().devices[ix as int].device.config_id == config_id,
            r is None ==> !has_device_with_config(self.spec_pool(), self.spec_domain(), config_id),
    {
        let n = self.pool.devices.len();
        let mut i: usize = 0;
        while i < n
            invariant
                n == self.pool.devices@.len(),
                i <= n,
                forall|k: int|
                    0 <= k < i ==> !((#[trigger] self.spec_pool().devices[k]).domain_id
                        == self.spec_domain() && self.spec_pool().devices[k].device.config_id
                        == config_id),
            decreases n - i,
        {
            let row = &self.pool.devices[i];
            if row.domain_id == self.domain_id && row.device.config_id == config_id {
                return Some(i);
            }
            i = i + 1;
        }
        None
    }
}

/// The elements of `s` satisfying `pred`, in order.
pub open spec fn seq_filter<T>(s: Seq<T>, pred: spec_fn(T) -> bool) -> Seq<T>
    decreases s.len(),
{
    if s.len() == 0 {
        Seq::empty()
    } else {
        let rest = seq_filter(s.drop_last(), pred);
        if pred(s.last()) {
            rest.push(s.last())
        } else {
            rest
        }
    }
}

/// The rows a configuration list returns: this tenant's rows, narrowed to
/// those whose display name contains the filter text when one is given.
pub open spec fn config_list_pred(domain: u128, filter: Option<Seq<char>>) -> spec_fn(
    ConfigModelV,
) -> bool {
    |c: ConfigModelV|
        c.domain_id == domain && match filter {
            Some(f) => contains_sub(c.display_name, f),
            None => true,
        }
}

/// The rows a device list returns.
pub open spec fn device_list_pred(domain: u128, filter: Seq<char>) -> spec_fn(DeviceRowV) -> bool {
    |d: DeviceRowV| d.domain_id == domain && contains_sub(d.device.display_name, filter)
}

/// The view of an optional display-name filter.
pub open spec fn opt_view(o: Option<String>) -> Option<Seq<char>> {
    match o {
        Some(s) => Some(s@),
        None => None,
    }
}

impl DomainDatabase {
    /// Whether this tenant has a configuration with the given identifier.
    pub fn exists_config(&self, config_id: u128) -> (r: Result<bool, ConfigError>)
        ensures
            r == Result::<bool, ConfigError>::Ok(
                has_config(self.spec_pool(), self.spec_domain(), config_id),
            ),
    {
        match self.config_index_by_id(config_id) {
            Some(ix) => {
                proof {
                    assert(has_config(self.spec_pool(), self.spec_domain(), config_id)) by {
                        assert(self.spec_pool().configs[ix as int].domain_id
                            == self.spec_domain());
                    }
                }
                Ok(true)
            },
            None => Ok(false),
        }
    }

    /// Insert a configuration for this tenant. Any identifier or tenant
    /// carried by the argument is ignored: the store assigns a fresh
    /// identifier and stamps the bound tenant.
    pub fn insert_config(&mut self, config: &ConfigModel) -> (r: Result<ConfigModel, ConfigError>)
        requires
            old(self).wf(),
        ensures
            final(self).wf(),
            final(self).spec_domain() == old(self).spec_domain(),
            old(self).spec_pool().next_id == u128::MAX ==> (r matches Err(e) && e matches
                ConfigError::DatabaseError(_)) && final(self).spec_pool() == old(self).spec_pool(),
            old(self).spec_pool().next_id < u128::MAX ==> (r matches Ok(c) && c@ == (ConfigModelV {
                config_id: old(self).spec_pool().next_id,
                domain_id: old(self).spec_domain(),
                display_name: config@.display_name,
                light_config: config@.light_config,
            }) && final(self).spec_pool() == (DatabaseV {
                configs: old(self).spec_pool().configs.push(c@),
                next_id: (old(self).spec_pool().next_id + 1) as u128,
                ..old(self).spec_pool()
            })),
    {
        if self.pool.next_id == u128::MAX {
            return Err(ConfigError::DatabaseError(exhausted_message()));
        }
        let id = self.pool.next_id;
        self.pool.next_id = id + 1;
        let row = ConfigModel {
            config_id: id,
            domain_id: self.domain_id,
            display_name: config.display_name.clone(),
            light_config: config.light_config.clone(),
        };
        let result = row.clone();
        self.pool.configs.push(row);
        proof {
            assert(self.spec_pool().configs =~= old(self).spec_pool().configs.push(result@));
            assert(self.spec_pool().devices =~= old(self).spec_pool().devices);
            assert(self.spec_pool().features =~= old(self).spec_pool().features);
            assert(self.spec_pool().profiles =~= old(self).spec_pool().profiles);
            assert(self.spec_pool().feature_profiles =~= old(
                self,
            ).spec_pool().feature_profiles);
        }
        Ok(result)
    }

    /// Update this tenant's configuration with the argument's identifier,
    /// replacing its display name and light configuration. Fails with
    /// `NoSuchConfig` exactly when the tenant has no such row.
    pub fn update_config(&mut self, config: &ConfigModel) -> (r: Result<ConfigModel, ConfigError>)
        requires
            old(self).wf(),
        ensures
            final(self).wf(),
            final(self).spec_domain() == old(self).spec_domain(),
            !has_config(old(self).spec_pool(), old(self).spec_domain(), config@.config_id) ==> r
                == Result::<ConfigModel, ConfigError>::Err(ConfigError::NoSuchConfig)
                && final(self).spec_pool() == old(self).spec_pool(),
            has_config(old(self).spec_pool(), old(self).spec_domain(), config@.config_id) ==> (
            r matches Ok(c) && c@ == (ConfigModelV {
                config_id: config@.config_id,
                domain_id: old(self).spec_domain(),
                display_name: config@.display_name,
                light_config: config@.light_config,
            }) && exists|ix: int|
                0 <= ix < old(self).spec_pool().configs.len() && (#[trigger] old(
                    self,
                ).spec_pool().configs[ix]).domain_id == old(self).spec_domain() && old(
                    self,
                ).spec_pool().configs[ix].config_id == config@.config_id
                    && final(self).spec_pool() == (DatabaseV {
                    configs: old(self).spec_pool().configs.update(ix, c@),
                    ..old(self).spec_pool()
                })),
    {
        let ix = match self.config_index_by_id(config.config_id) {
            Some(ix) => ix,
            None => {
                return Err(ConfigError::NoSuchConfig);
            },
        };
        let row = ConfigModel {
            config_id: config.config_id,
            domain_id: self.domain_id,
            display_name: config.display_name.clone(),
            light_config: config.light_config.clone(),
        };
        let result = row.clone();
        self.pool.configs.remove(ix);
        self.pool.configs.insert(ix, row);
        proof {
            assert(has_config(old(self).spec_pool(), old(self).spec_domain(), config@.config_id))
                by {
                assert(old(self).spec_pool().configs[ix as int].domain_id == old(
                    self,
                ).spec_domain());
            }
            assert(self.spec_pool().configs =~= old(self).spec_pool().configs.update(
                ix as int,
                result@,
            ));
            assert(self.spec_pool().devices =~= old(self).spec_pool().devices);
            assert(self.spec_pool().features =~= old(self).spec_pool().features);
            assert(self.spec_pool().profiles =~= old(self).spec_pool().profiles);
            assert(self.spec_pool().feature_profiles =~= old(
                self,
            ).spec_pool().feature_profiles);
        }
        Ok(result)
    }

    /// Fetch this tenant's configuration with the given identifier.
    pub fn fetch_one_config(&self, config_id: u128) -> (r: Result<ConfigModel, ConfigError>)
        ensures
            r is Ok <==> has_config(self.spec_pool(), self.spec_domain(), config_id),
            r matches Ok(c) ==> exists|ix: int|
                0 <= ix < self.spec_pool().configs.len() && (#[trigger] self.spec_pool(
                ).configs[ix]).domain_id == self.spec_domain() && self.spec_pool(
                ).configs[ix].config_id == config_id && c@ == self.spec_pool().configs[ix],
            r matches Err(e) ==> e == ConfigError::NoSuchConfig,
    {
        match self.config_index_by_id(config_id) {
            Some(ix) => {
                let c = self.pool.configs[ix].clone();
                proof {
                    assert(has_config(self.spec_pool(), self.spec_domain(), config_id)) by {
                        assert(self.spec_pool().configs[ix as int].domain_id
                            == self.spec_domain());
                    }
                }
                Ok(c)
            },
            None => Err(ConfigError::NoSuchConfig),
        }
    }

    /// List this tenant's configurations, optionally narrowed to display
    /// names containing the filter text.
    pub fn fetch_many_config(&self, name_filter: Option<String>) -> (r: Result<
        Vec<ConfigModel>,
        ConfigError,
    >)
        ensures
            r matches Ok(v) && v.deep_view() == seq_filter(
                self.spec_pool().configs,
                config_list_pred(self.spec_domain(), opt_view(name_filter)),
            ),
    {
        let ghost pred = config_list_pred(self.spec_domain(), opt_view(name_filter));
        let mut out: Vec<ConfigModel> = Vec::new();
        let n = self.pool.configs.len();
        let mut i: usize = 0;
        while i < n
            invariant
                n == self.pool.configs@.len(),
                i <= n,
                pred == config_list_pred(self.spec_domain(), opt_view(name_filter)),
                out.deep_view() == seq_filter(self.spec_pool().configs.take(i as int), pred),
            decreases n - i,
        {
            let row = &self.pool.configs[i];
            proof {
                assert(self.spec_pool().configs.take(i as int + 1).drop_last()
                    =~= self.spec_pool().configs.take(i as int));
                assert(self.spec_pool().configs.take(i as int + 1).last() == row@);
            }
            let keep = if row.domain_id == self.domain_id {
                match &name_filter {
                    Some(f) => str_contains(row.display_name.as_str(), f.as_str()),
                    None => true,
                }
            } else {
                false
            };
            if keep {
                out.push(row.clone());
                proof {
                    assert(pred(row@));
                    assert(out.deep_view() =~= seq_filter(
                        self.spec_pool().configs.take(i as int + 1),
                        pred,
                    ));
                }
            } else {
                proof {
                    assert(!pred(row@));
                    assert(out.deep_view() =~= seq_filter(
                        self.spec_pool().configs.take(i as int + 1),
                        pred,
                    ));
                }
            }
            i = i + 1;
        }
        proof {
            assert(self.spec_pool().configs.take(n as int) =~= self.spec_pool().configs);
        }
        Ok(out)
    }

    /// Delete this tenant's configuration with the given identifier. A
    /// configuration still referenced by one of the tenant's devices is
    /// refused with `ConfigInUse` and nothing is deleted; an absent row
    /// yields `NoSuchConfig`.
    pub fn delete_config(&mut self, config_id: u128) -> (r: Result<(), ConfigError>)
        requires
            old(self).wf(),
        ensures
            final(self).wf(),
            final(self).spec_domain() == old(self).spec_domain(),
            has_device_with_config(old(self).spec_pool(), old(self).spec_domain(), config_id)
                ==> r == Result::<(), ConfigError>::Err(ConfigError::ConfigInUse)
                && final(self).spec_pool() == old(self).spec_pool(),
            !has_device_with_config(old(self).spec_pool(), old(self).spec_domain(), config_id)
                && !has_config(old(self).spec_pool(), old(self).spec_domain(), config_id) ==> r
                == Result::<(), ConfigError>::Err(ConfigError::NoSuchConfig)
                && final(self).spec_pool() == old(self).spec_pool(),
            !has_device_with_config(old(self).spec_pool(), old(self).spec_domain(), config_id)
                && has_config(old(self).spec_pool(), old(self).spec_domain(), config_id) ==> (
            r is Ok && exists|ix: int|
                0 <= ix < old(self).spec_pool().configs.len() && (#[trigger] old(
                    self,
                ).spec_pool().configs[ix]).domain_id == old(self).spec_domain() && old(
                    self,
                ).spec_pool().configs[ix].config_id == config_id && final(self).spec_pool() == (DatabaseV {
                configs: old(self).spec_pool().configs.remove(ix),
                ..old(self).spec_pool()
            })),
    {
        match self.device_index_by_config(config_id) {
            Some(ix) => {
                proof {
                    assert(has_device_with_config(
                        old(self).spec_pool(),
                        old(self).spec_domain(),
                        config_id,
                    )) by {
                        assert(self.spec_pool().devices[ix as int].domain_id
                            == self.spec_domain());
                    }
                }
                return Err(ConfigError::ConfigInUse);
            },
            None => {},
        }
        let ix = match self.config_index_by_id(config_id) {
            Some(ix) => ix,
            None => {
                return Err(ConfigError::NoSuchConfig);
            },
        };
        proof {
            assert(has_config(old(self).spec_pool(), old(self).spec_domain(), config_id)) by {
                assert(self.spec_pool().configs[ix as int].domain_id == self.spec_domain());
            }
        }
        self.pool.configs.remove(ix);
        proof {
            assert(self.spec_pool().configs =~= old(self).spec_pool().configs.remove(ix as int));
            assert(self.spec_pool().devices =~= old(self).spec_pool().devices);
            assert(self.spec_pool().features =~= old(self).spec_pool().features);
            assert(self.spec_pool().profiles =~= old(self).spec_pool().profiles);
            assert(self.spec_pool().feature_profiles =~= old(
                self,
            ).spec_pool().feature_profiles);
            assert forall|i: int, j: int|
                0 <= i < j < self.spec_pool().configs.len() implies #[trigger] self.spec_pool(
            ).configs[i].config_id != #[trigger] self.spec_pool().configs[j].config_id by {
                let oldc = old(self).spec_pool().configs;
                if i < ix as int {
                    assert(self.spec_pool().configs[i] == oldc[i]);
                } else {
                    assert(self.spec_pool().configs[i] == oldc[i + 1]);
                }
                if j < ix as int {
                    assert(self.spec_pool().configs[j] == oldc[j]);
                } else {
                    assert(self.spec_pool().configs[j] == oldc[j + 1]);
                }
            }
        }
        Ok(())
    }
}

/// The log-only detail used when the identifier counter is exhausted.
fn exhausted_message() -> (r: String)
    ensures
        r@ == "identifier space exhausted"@,
{
    String::from_str("identifier space exhausted")
}



/// Whether some device of `domain` other than `id` carries this MAC — the
/// situation an insert or update must refuse.
pub open spec fn mac_conflicts(db: DatabaseV, domain: u128, mac: Seq<char>, id: u128) -> bool {
    exists|i: int|
        0 <= i < db.devices.len() && (#[trigger] db.devices[i]).domain_id == domain
            && db.devices[i].device.mac == mac && db.devices[i].device.device_id != id
}

impl DomainDatabase {
    /// Register a device for this tenant. A MAC already present in this
    /// tenant is refused with `MacConflict`; the same MAC under another
    /// tenant does not conflict. On success the store assigns a fresh,
    /// nonzero identifier.
    pub fn insert_device(&mut self, device: DeviceModel) -> (r: Result<DeviceModel, DeviceError>)
        requires
            old(self).wf(),
        ensures
            final(self).wf(),
            final(self).spec_domain() == old(self).spec_domain(),
            has_device_mac(old(self).spec_pool(), old(self).spec_domain(), device@.mac) ==> r
                == Result::<DeviceModel, DeviceError>::Err(DeviceError::MacConflict)
                && final(self).spec_pool() == old(self).spec_pool(),
            !has_device_mac(old(self).spec_pool(), old(self).spec_domain(), device@.mac) && old(
                self,
            ).spec_pool().next_id == u128::MAX ==> (r matches Err(e) && e matches
                DeviceError::DatabaseError(_)) && final(self).spec_pool() == old(self).spec_pool(),
            !has_device_mac(old(self).spec_pool(), old(self).spec_domain(), device@.mac) && old(
                self,
            ).spec_pool().next_id < u128::MAX ==> (r matches Ok(d) && d@ == (DeviceModelV {
                device_id: old(self).spec_pool().next_id,
                ..device@
            }) && final(self).spec_pool() == (DatabaseV {
                devices: old(self).spec_pool().devices.push(
                    (DeviceRowV { domain_id: old(self).spec_domain(), device: d@ }),
                ),
                next_id: (old(self).spec_pool().next_id + 1) as u128,
                ..old(self).spec_pool()
            })),
    {
        match self.device_index_by_mac(&device.mac) {
            Some(ix) => {
                proof {
                    assert(has_device_mac(self.spec_pool(), self.spec_domain(), device@.mac)) by {
                        assert(self.spec_pool().devices[ix as int].domain_id
                            == self.spec_domain());
                    }
                }
                return Err(DeviceError::MacConflict);
            },
            None => {},
        }
        if self.pool.next_id == u128::MAX {
            return Err(DeviceError::DatabaseError(exhausted_message()));
        }
        let id = self.pool.next_id;
        self.pool.next_id = id + 1;
        let stored = DeviceModel { device_id: id, ..device };
        let result = stored.clone();
        let row = DeviceRow { domain_id: self.domain_id, device: stored };
        self.pool.devices.push(row);
        proof {
            assert(self.spec_pool().devices =~= old(self).spec_pool().devices.push(
                (DeviceRowV { domain_id: old(self).spec_domain(), device: result@ }),
            ));
            assert(self.spec_pool().configs =~= old(self).spec_pool().configs);
            assert(self.spec_pool().features =~= old(self).spec_pool().features);
            assert(self.spec_pool().profiles =~= old(self).spec_pool().profiles);
            assert(self.spec_pool().feature_profiles =~= old(self).spec_pool().feature_profiles);
            assert forall|i: int, j: int|
                0 <= i < j < self.spec_pool().devices.len() implies !(#[trigger] self.spec_pool(
            ).devices[i].domain_id == #[trigger] self.spec_pool().devices[j].domain_id
                && self.spec_pool().devices[i].device.mac
                == self.spec_pool().devices[j].device.mac) by {
                if j == self.spec_pool().devices.len() - 1 {
                    assert(self.spec_pool().devices[i] == old(self).spec_pool().devices[i]);
                    assert(!has_device_mac(
                        old(self).spec_pool(),
                        old(self).spec_domain(),
                        device@.mac,
                    ));
                }
            }
        }
        Ok(result)
    }

    /// Update this tenant's device with the argument's identifier. A MAC
    /// already used by a *different* device of this tenant is refused with
    /// `MacConflict`; updating a device to its own unchanged MAC succeeds.
    /// An absent row yields `NoSuchDevice`.
    pub fn update_device(&mut self, device: DeviceModel) -> (r: Result<DeviceModel, DeviceError>)
        requires
            old(self).wf(),
        ensures
            final(self).wf(),
            final(self).spec_domain() == old(self).spec_domain(),
            mac_conflicts(
                old(self).spec_pool(),
                old(self).spec_domain(),
                device@.mac,
                device@.device_id,
            ) ==> r == Result::<DeviceModel, DeviceError>::Err(DeviceError::MacConflict)
                && final(self).spec_pool() == old(self).spec_pool(),
            !mac_conflicts(
                old(self).spec_pool(),
                old(self).spec_domain(),
                device@.mac,
                device@.device_id,
            ) && !has_device_id(old(self).spec_pool(), old(self).spec_domain(), device@.device_id)
                ==> r == Result::<DeviceModel, DeviceError>::Err(DeviceError::NoSuchDevice)
                && final(self).spec_pool() == old(self).spec_pool(),
            !mac_conflicts(
                old(self).spec_pool(),
                old(self).spec_domain(),
                device@.mac,
                device@.device_id,
            ) && has_device_id(old(self).spec_pool(), old(self).spec_domain(), device@.device_id)
                ==> (r matches Ok(d) && d@ == device@ && exists|ix: int|
                0 <= ix < old(self).spec_pool().devices.len() && (#[trigger] old(
                    self,
                ).spec_pool().devices[ix]).domain_id == old(self).spec_domain() && old(
                    self,
                ).spec_pool().devices[ix].device.device_id == device@.device_id
                    && final(self).spec_pool() == (DatabaseV {
                    devices: old(self).spec_pool().devices.update(
                        ix,
                        (DeviceRowV { domain_id: old(self).spec_domain(), device: device@ }),
                    ),
                    ..old(self).spec_pool()
                })),
    {
        let found_mac = self.device_index_by_mac(&device.mac);
        match found_mac {
            Some(k) => {
                if self.pool.devices[k].device.device_id != device.device_id {
                    proof {
                        assert(mac_conflicts(
                            self.spec_pool(),
                            self.spec_domain(),
                            device@.mac,
                            device@.device_id,
                        )) by {
                            assert(self.spec_pool().devices[k as int].domain_id
                                == self.spec_domain());
                        }
                    }
                    return Err(DeviceError::MacConflict);
                }
            },
            None => {},
        }
        proof {
            assert(!mac_conflicts(
                self.spec_pool(),
                self.spec_domain(),
                device@.mac,
                device@.device_id,
            )) by {
                if mac_conflicts(
                    self.spec_pool(),
                    self.spec_domain(),
                    device@.mac,
                    device@.device_id,
                ) {
                    let i = choose|i: int|
                        0 <= i < self.spec_pool().devices.len() && (#[trigger] self.spec_pool(
                        ).devices[i]).domain_id == self.spec_domain() && self.spec_pool(
                        ).devices[i].device.mac == device@.mac && self.spec_pool(
                        ).devices[i].device.device_id != device@.device_id;
                    match found_mac {
                        Some(k) => {
                            if i < k as int {
                                assert(false);
                            } else if i > k as int {
                                assert(false);
                            } else {
                                assert(false);
                            }
                        },
                        None => {
                            assert(has_device_mac(
                                self.spec_pool(),
                                self.spec_domain(),
                                device@.mac,
                            ));
                        },
                    }
                }
            }
        }
        let ix = match self.device_index_by_id(device.device_id) {
            Some(ix) => ix,
            None => {
                return Err(DeviceError::NoSuchDevice);
            },
        };
        let result = device.clone();
        let row = DeviceRow { domain_id: self.domain_id, device };
        self.pool.devices.remove(ix);
        self.pool.devices.insert(ix, row);
        proof {
            assert(has_device_id(old(self).spec_pool(), old(self).spec_domain(), result@.device_id))
                by {
                assert(old(self).spec_pool().devices[ix as int].domain_id == old(
                    self,
                ).spec_domain());
            }
            assert(self.spec_pool().devices =~= old(self).spec_pool().devices.update(
                ix as int,
                (DeviceRowV { domain_id: old(self).spec_domain(), device: result@ }),
            ));
            assert(self.spec_pool().configs =~= old(self).spec_pool().configs);
            assert(self.spec_pool().features =~= old(self).spec_pool().features);
            assert(self.spec_pool().profiles =~= old(self).spec_pool().profiles);
            assert(self.spec_pool().feature_profiles =~= old(self).spec_pool().feature_profiles);
            assert forall|i: int, j: int|
                0 <= i < j < self.spec_pool().devices.len() implies !(#[trigger] self.spec_pool(
            ).devices[i].domain_id == #[trigger] self.spec_pool().devices[j].domain_id
                && self.spec_pool().devices[i].device.mac
                == self.spec_pool().devices[j].device.mac) by {
                if i != ix as int && j != ix as int {
                    assert(self.spec_pool().devices[i] == old(self).spec_pool().devices[i]);
                    assert(self.spec_pool().devices[j] == old(self).spec_pool().devices[j]);
                } else {
                    let other: int = if i == ix as int {
                        j
                    } else {
                        i
                    };
                    assert(self.spec_pool().devices[other] == old(self).spec_pool().devices[other]);
                    assert(old(self).spec_pool().devices[other].device.device_id
                        != result@.device_id);
                }
            }
        }
        Ok(result)
    }

    /// Fetch one device of this tenant, addressed by identifier or by
    /// normalized MAC.
    pub fn fetch_one_device(&self, filter: UniqueDeviceFilter) -> (r: Result<
        DeviceModel,
        DeviceError,
    >)
        ensures
            r is Ok <==> match filter {
                UniqueDeviceFilter::DeviceId(id) => has_device_id(
                    self.spec_pool(),
                    self.spec_domain(),
                    id,
                ),
                UniqueDeviceFilter::DeviceMac(m) => has_device_mac(
                    self.spec_pool(),
                    self.spec_domain(),
                    m@,
                ),
            },
            r matches Ok(d) ==> exists|i: int|
                0 <= i < self.spec_pool().devices.len() && (#[trigger] self.spec_pool(
                ).devices[i]).domain_id == self.spec_domain() && d@ == self.spec_pool(
                ).devices[i].device && (match filter {
                    UniqueDeviceFilter::DeviceId(id) => d@.device_id == id,
                    UniqueDeviceFilter::DeviceMac(m) => d@.mac == m@,
                }),
            r matches Err(e) ==> e == DeviceError::NoSuchDevice,
    {
        let ix = match &filter {
            UniqueDeviceFilter::DeviceId(id) => self.device_index_by_id(*id),
            UniqueDeviceFilter::DeviceMac(m) => self.device_index_by_mac(m),
        };
        match ix {
            Some(i) => {
                let d = self.pool.devices[i].device.clone();
                proof {
                    assert(self.spec_pool().devices[i as int].domain_id == self.spec_domain());
                }
                Ok(d)
            },
            None => Err(DeviceError::NoSuchDevice),
        }
    }

    /// List this tenant's devices whose display name contains the filter
    /// text.
    pub fn fetch_many_device(&self, filter: DeviceFilter) -> (r: Result<
        Vec<DeviceModel>,
        DeviceError,
    >)
        ensures
            r matches Ok(v) && v.deep_view() == match filter {
                DeviceFilter::NameFilter(f) => seq_filter(
                    self.spec_pool().devices,
                    device_list_pred(self.spec_domain(), f@),
                ).map_values(|row: DeviceRowV| row.device),
            },
    {
        let DeviceFilter::NameFilter(f) = filter;
        let ghost pred = device_list_pred(self.spec_domain(), f@);
        let mut out: Vec<DeviceModel> = Vec::new();
        let n = self.pool.devices.len();
        let mut i: usize = 0;
        while i < n
            invariant
                n == self.pool.devices@.len(),
                i <= n,
                pred == device_list_pred(self.spec_domain(), f@),
                out.deep_view() == seq_filter(self.spec_pool().devices.take(i as int), pred)
                    .map_values(|row: DeviceRowV| row.device),
            decreases n - i,
        {
            let row = &self.pool.devices[i];
            proof {
                assert(self.spec_pool().devices.take(i as int + 1).drop_last()
                    =~= self.spec_pool().devices.take(i as int));
                assert(self.spec_pool().devices.take(i as int + 1).last() == row@);
            }
            let keep = row.domain_id == self.domain_id && str_contains(
                row.device.display_name.as_str(),
                f.as_str(),
            );
            if keep {
                let ghost prev_out = out.deep_view();
                let ghost prev_vec = out@;
                out.push(row.device.clone());
                proof {
                    assert(pred(row@));
                    let prevf = seq_filter(self.spec_pool().devices.take(i as int), pred);
                    let newf = seq_filter(self.spec_pool().devices.take(i as int + 1), pred);
                    assert(newf == prevf.push(row@));
                    assert(prev_out == prevf.map_values(|row: DeviceRowV| row.device));
                    assert(prev_out.len() == prevf.map_values(
                        |row: DeviceRowV| row.device,
                    ).len());
                    assert(out@.len() == prev_vec.len() + 1);
                    assert(out.deep_view().len() == out@.len());
                    assert(prev_out.len() == prev_vec.len());
                    assert(out.deep_view().len() == prevf.len() + 1);
                    assert forall|j: int| 0 <= j < out.deep_view().len() implies out.deep_view()[j]
                        == newf.map_values(|row: DeviceRowV| row.device).index(j) by {
                        assert(newf.map_values(|row: DeviceRowV| row.device)[j] == newf[j].device);
                        if j < prev_out.len() {
                            assert(out.deep_view()[j] == prev_out[j]);
                            assert(prev_out[j] == prevf.map_values(
                                |row: DeviceRowV| row.device,
                            )[j]);
                        } else {
                            assert(newf[j] == row@);
                        }
                    }
                    assert(out.deep_view() =~= newf.map_values(|row: DeviceRowV| row.device));
                }
            } else {
                proof {
                    assert(!pred(row@));
                    assert(out.deep_view() =~= seq_filter(
                        self.spec_pool().devices.take(i as int + 1),
                        pred,
                    ).map_values(|row: DeviceRowV| row.device));
                }
            }
            i = i + 1;
        }
        proof {
            assert(self.spec_pool().devices.take(n as int) =~= self.spec_pool().devices);
        }
        Ok(out)
    }

    /// Delete this tenant's device with the given identifier; an absent
    /// row yields `NoSuchDevice`.
    pub fn delete_device(&mut self, device_id: u128) -> (r: Result<(), DeviceError>)
        requires
            old(self).wf(),
        ensures
            final(self).wf(),
            final(self).spec_domain() == old(self).spec_domain(),
            !has_device_id(old(self).spec_pool(), old(self).spec_domain(), device_id) ==> r
                == Result::<(), DeviceError>::Err(DeviceError::NoSuchDevice)
                && final(self).spec_pool() == old(self).spec_pool(),
            has_device_id(old(self).spec_pool(), old(self).spec_domain(), device_id) ==> (
            r is Ok && exists|ix: int|
                0 <= ix < old(self).spec_pool().devices.len() && (#[trigger] old(
                    self,
                ).spec_pool().devices[ix]).domain_id == old(self).spec_domain() && old(
                    self,
                ).spec_pool().devices[ix].device.device_id == device_id
                    && final(self).spec_pool() == (DatabaseV {
                    devices: old(self).spec_pool().devices.remove(ix),
                    ..old(self).spec_pool()
                })),
    {
        let ix = match self.device_index_by_id(device_id) {
            Some(ix) => ix,
            None => {
                return Err(DeviceError::NoSuchDevice);
            },
        };
        proof {
            assert(has_device_id(old(self).spec_pool(), old(self).spec_domain(), device_id)) by {
                assert(self.spec_pool().devices[ix as int].domain_id == self.spec_domain());
            }
        }
        self.pool.devices.remove(ix);
        proof {
            assert(self.spec_pool().devices =~= old(self).spec_pool().devices.remove(ix as int));
            assert(self.spec_pool().configs =~= old(self).spec_pool().configs);
            assert(self.spec_pool().features =~= old(self).spec_pool().features);
            assert(self.spec_pool().profiles =~= old(self).spec_pool().profiles);
            assert(self.spec_pool().feature_profiles =~= old(self).spec_pool().feature_profiles);
            assert forall|i: int|
                0 <= i < self.spec_pool().devices.len() implies 0 < #[trigger] self.spec_pool(
            ).devices[i].device.device_id < self.spec_pool().next_id by {
                let oldd = old(self).spec_pool().devices;
                if i < ix as int {
                    assert(self.spec_pool().devices[i] == oldd[i]);
                } else {
                    assert(self.spec_pool().devices[i] == oldd[i + 1]);
                }
            }
            assert forall|i: int, j: int|
                0 <= i < j < self.spec_pool().devices.len() implies (#[trigger] self.spec_pool(
            ).devices[i].device.device_id != #[trigger] self.spec_pool(
            ).devices[j].device.device_id && !(self.spec_pool().devices[i].domain_id
                == self.spec_pool().devices[j].domain_id && self.spec_pool().devices[i].device.mac
                == self.spec_pool().devices[j].device.mac)) by {
                let oldd = old(self).spec_pool().devices;
                if i < ix as int {
                    assert(self.spec_pool().devices[i] == oldd[i]);
                } else {
                    assert(self.spec_pool().devices[i] == oldd[i + 1]);
                }
                if j < ix as int {
                    assert(self.spec_pool().devices[j] == oldd[j]);
                } else {
                    assert(self.spec_pool().devices[j] == oldd[j + 1]);
                }
            }
        }
        Ok(())
    }
}

/// Whether `domain` has a feature with this identifier.
pub open spec fn has_feature(db: DatabaseV, domain: u128, id: u128) -> bool {
    exists|i: int|
        0 <= i < db.features.len() && (#[trigger] db.features[i]).domain_id == domain
            && db.features[i].id == id
}

/// Whether any tenant has a feature with this identifier (the scope of a
/// foreign-key check).
pub open spec fn has_feature_global(db: DatabaseV, id: u128) -> bool {
    exists|i: int| 0 <= i < db.features.len() && (#[trigger] db.features[i]).id == id
}

/// Whether `domain` has a profile row with this identifier.
pub open spec fn has_profile(db: DatabaseV, domain: u128, id: u128) -> bool {
    exists|i: int|
        0 <= i < db.profiles.len() && (#[trigger] db.profiles[i]).domain_id == domain
            && db.profiles[i].id == id
}

/// Whether any tenant has a profile row with this identifier.
pub open spec fn has_profile_global(db: DatabaseV, id: u128) -> bool {
    exists|i: int| 0 <= i < db.profiles.len() && (#[trigger] db.profiles[i]).id == id
}

/// The rows a feature list returns: this tenant's features.
pub open spec fn feature_list_pred(domain: u128) -> spec_fn(FeatureModelV) -> bool {
    |f: FeatureModelV| f.domain_id == domain
}

impl DomainDatabase {
    /// The index of this tenant's feature with the given identifier.
    fn feature_index_by_id(&self, id: u128) -> (r: Option<usize>)
        ensures
            r matches Some(ix) ==> ix < self.spec_pool().features.len()
                && self.spec_pool().features[ix as int].domain_id == self.spec_domain()
                && self.spec_pool().features[ix as int].id == id,
            r is None ==> !has_feature(self.spec_pool(), self.spec_domain(), id),
    {
        let n = self.pool.features.len();
        let mut i: usize = 0;
        while i < n
            invariant
                n == self.pool.features@.len(),
                i <= n,
                forall|k: int|
                    0 <= k < i ==> !((#[trigger] self.spec_pool().features[k]).domain_id
                        == self.spec_domain() && self.spec_pool().features[k].id == id),
            decreases n - i,
        {
            let row = &self.pool.features[i];
            if row.domain_id() == self.domain_id && row.id() == id {
                return Some(i);
            }
            i = i + 1;
        }
        None
    }

    /// The index of any tenant's feature with the given identifier.
    fn feature_index_global(&self, id: u128) -> (r: Option<usize>)
        ensures
            r matches Some(ix) ==> ix < self.spec_pool().features.len()
                && self.spec_pool().features[ix as int].id == id,
            r is None ==> !has_feature_global(self.spec_pool(), id),
    {
        let n = self.pool.features.len();
        let mut i: usize = 0;
        while i < n
            invariant
                n == self.pool.features@.len(),
                i <= n,
                forall|k: int|
                    0 <= k < i ==> (#[trigger] self.spec_pool().features[k]).id != id,
            decreases n - i,
        {
            if self.pool.features[i].id() == id {
                return Some(i);
            }
            i = i + 1;
        }
        None
    }

    /// The index of this tenant's profile row with the given identifier.
    fn profile_index_by_id(&self, id: u128) -> (r: Option<usize>)
        ensures
            r matches Some(ix) ==> ix < self.spec_pool().profiles.len()
                && self.spec_pool().profiles[ix as int].domain_id == self.spec_domain()
                && self.spec_pool().profiles[ix as int].id == id,
            r is None ==> !has_profile(self.spec_pool(), self.spec_domain(), id),
    {
        let n = self.pool.profiles.len();
        let mut i: usize = 0;
        while i < n
            invariant
                n == self.pool.profiles@.len(),
                i <= n,
                forall|k: int|
                    0 <= k < i ==> !((#[trigger] self.spec_pool().profiles[k]).domain_id
                        == self.spec_domain() && self.spec_pool().profiles[k].id == id),
            decreases n - i,
        {
            let row = &self.pool.profiles[i];
            if row.domain_id == self.domain_id && row.id == id {
                return Some(i);
            }
            i = i + 1;
        }
        None
    }

    /// The index of any tenant's profile row with the given identifier.
    fn profile_index_global(&self, id: u128) -> (r: Option<usize>)
        ensures
            r matches Some(ix) ==> ix < self.spec_pool().profiles.len()
                && self.spec_pool().profiles[ix as int].id == id,
            r is None ==> !has_profile_global(self.spec_pool(), id),
    {
        let n = self.pool.profiles.len();
        let mut i: usize = 0;
        while i < n
            invariant
                n == self.pool.profiles@.len(),
                i <= n,
                forall|k: int| 0 <= k < i ==> (#[trigger] self.spec_pool().profiles[k]).id != id,
            decreases n - i,
        {
            if self.pool.profiles[i].id == id {
                return Some(i);
            }
            i = i + 1;
        }
        None
    }

    /// List this tenant's features.
    pub fn fetch_all_features(&self) -> (r: Result<Vec<FeatureModel>, Error>)
        ensures
            r matches Ok(v) && v.deep_view() == seq_filter(
                self.spec_pool().features,
                feature_list_pred(self.spec_domain()),
            ),
    {
        let ghost pred = feature_list_pred(self.spec_domain());
        let mut out: Vec<FeatureModel> = Vec::new();
        let n = self.pool.features.len();
        let mut i: usize = 0;
        while i < n
            invariant
                n == self.pool.features@.len(),
                i <= n,
                pred == feature_list_pred(self.spec_domain()),
                out.deep_view() == seq_filter(self.spec_pool().features.take(i as int), pred),
            decreases n - i,
        {
            let row = &self.pool.features[i];
            proof {
                assert(self.spec_pool().features.take(i as int + 1).drop_last()
                    =~= self.spec_pool().features.take(i as int));
                assert(self.spec_pool().features.take(i as int + 1).last() == row@);
            }
            if row.domain_id() == self.domain_id {
                out.push(row.clone());
                proof {
                    assert(pred(row@));
                    assert(out.deep_view() =~= seq_filter(
                        self.spec_pool().features.take(i as int + 1),
                        pred,
                    ));
                }
            } else {
                proof {
                    assert(!pred(row@));
                    assert(out.deep_view() =~= seq_filter(
                        self.spec_pool().features.take(i as int + 1),
                        pred,
                    ));
                }
            }
            i = i + 1;
        }
        proof {
            assert(self.spec_pool().features.take(n as int) =~= self.spec_pool().features);
        }
        Ok(out)
    }

    /// Fetch this tenant's feature with the given identifier.
    pub fn fetch_one_feature(&self, id: u128) -> (r: Result<FeatureModel, Error>)
        ensures
            r is Ok <==> has_feature(self.spec_pool(), self.spec_domain(), id),
            r matches Ok(f) ==> exists|ix: int|
                0 <= ix < self.spec_pool().features.len() && (#[trigger] self.spec_pool(
                ).features[ix]).domain_id == self.spec_domain() && self.spec_pool().features[ix].id
                == id && f@ == self.spec_pool().features[ix],
            r matches Err(e) ==> e == Error::NoSuchResourceError("Feature", id),
    {
        match self.feature_index_by_id(id) {
            Some(ix) => {
                let f = self.pool.features[ix].clone();
                proof {
                    assert(self.spec_pool().features[ix as int].domain_id == self.spec_domain());
                }
                Ok(f)
            },
            None => Err(Error::NoSuchResourceError("Feature", id)),
        }
    }

    /// Insert a feature for this tenant; the store assigns the identifier
    /// and stamps the bound tenant.
    pub fn insert_feature(&mut self, feature: FeatureModel) -> (r: Result<FeatureModel, Error>)
        requires
            old(self).wf(),
        ensures
            final(self).wf(),
            final(self).spec_domain() == old(self).spec_domain(),
            old(self).spec_pool().next_id == u128::MAX ==> (r matches Err(e) && e matches
                Error::DatabaseError(_)) && final(self).spec_pool() == old(self).spec_pool(),
            old(self).spec_pool().next_id < u128::MAX ==> (r matches Ok(f) && f@
                == (FeatureModelV {
                id: old(self).spec_pool().next_id,
                domain_id: old(self).spec_domain(),
                display_name: feature@.display_name,
                feature_type: feature@.feature_type,
            }) && final(self).spec_pool() == (DatabaseV {
                features: old(self).spec_pool().features.push(f@),
                next_id: (old(self).spec_pool().next_id + 1) as u128,
                ..old(self).spec_pool()
            })),
    {
        if self.pool.next_id == u128::MAX {
            return Err(Error::DatabaseError(exhausted_message()));
        }
        let id = self.pool.next_id;
        self.pool.next_id = id + 1;
        let row = FeatureModel::new(id, self.domain_id, feature.display_name(), feature.feature_type());
        let result = row.clone();
        self.pool.features.push(row);
        proof {
            assert(self.spec_pool().features =~= old(self).spec_pool().features.push(result@));
            assert(self.spec_pool().devices =~= old(self).spec_pool().devices);
            assert(self.spec_pool().configs =~= old(self).spec_pool().configs);
            assert(self.spec_pool().profiles =~= old(self).spec_pool().profiles);
            assert(self.spec_pool().feature_profiles =~= old(self).spec_pool().feature_profiles);
        }
        Ok(result)
    }

    /// Update this tenant's feature with the argument's identifier,
    /// replacing its display name and type. An absent row yields a typed
    /// not-found error.
    pub fn update_feature(&mut self, feature: FeatureModel) -> (r: Result<FeatureModel, Error>)
        requires
            old(self).wf(),
        ensures
            final(self).wf(),
            final(self).spec_domain() == old(self).spec_domain(),
            !has_feature(old(self).spec_pool(), old(self).spec_domain(), feature@.id) ==> r
                == Result::<FeatureModel, Error>::Err(
                Error::NoSuchResourceError("Feature", feature@.id),
            ) && final(self).spec_pool() == old(self).spec_pool(),
            has_feature(old(self).spec_pool(), old(self).spec_domain(), feature@.id) ==> (
            r matches Ok(f) && f@ == (FeatureModelV {
                id: feature@.id,
                domain_id: old(self).spec_domain(),
                display_name: feature@.display_name,
                feature_type: feature@.feature_type,
            }) && exists|ix: int|
                0 <= ix < old(self).spec_pool().features.len() && (#[trigger] old(
                    self,
                ).spec_pool().features[ix]).domain_id == old(self).spec_domain() && old(
                    self,
                ).spec_pool().features[ix].id == feature@.id
                    && final(self).spec_pool() == (DatabaseV {
                    features: old(self).spec_pool().features.update(ix, f@),
                    ..old(self).spec_pool()
                })),
    {
        let ix = match self.feature_index_by_id(feature.id()) {
            Some(ix) => ix,
            None => {
                return Err(Error::NoSuchResourceError("Feature", feature.id()));
            },
        };
        let row = FeatureModel::new(
            feature.id(),
            self.domain_id,
            feature.display_name(),
            feature.feature_type(),
        );
        let result = row.clone();
        self.pool.features.remove(ix);
        self.pool.features.insert(ix, row);
        proof {
            assert(has_feature(old(self).spec_pool(), old(self).spec_domain(), feature@.id)) by {
                assert(old(self).spec_pool().features[ix as int].domain_id == old(
                    self,
                ).spec_domain());
            }
            assert(self.spec_pool().features =~= old(self).spec_pool().features.update(
                ix as int,
                result@,
            ));
            assert(self.spec_pool().devices =~= old(self).spec_pool().devices);
            assert(self.spec_pool().configs =~= old(self).spec_pool().configs);
            assert(self.spec_pool().profiles =~= old(self).spec_pool().profiles);
            assert(self.spec_pool().feature_profiles =~= old(self).spec_pool().feature_profiles);
        }
        Ok(result)
    }

    /// Delete this tenant's feature with the given identifier. An absent
    /// row yields a typed not-found error; a feature still referenced by a
    /// feature profile is protected by the storage layer's foreign key,
    /// and the delete fails as a storage error.
    pub fn delete_feature(&mut self, id: u128) -> (r: Result<(), Error>)
        requires
            old(self).wf(),
        ensures
            final(self).wf(),
            final(self).spec_domain() == old(self).spec_domain(),
            !has_feature(old(self).spec_pool(), old(self).spec_domain(), id) ==> r == Result::<
                (),
                Error,
            >::Err(Error::NoSuchResourceError("Feature", id)) && final(self).spec_pool() == old(
                self,
            ).spec_pool(),
            has_feature(old(self).spec_pool(), old(self).spec_domain(), id) && has_fp_with_feature(
                old(self).spec_pool(),
                id,
            ) ==> (r matches Err(e) && e matches Error::DatabaseError(_)) && final(self).spec_pool()
                == old(self).spec_pool(),
            has_feature(old(self).spec_pool(), old(self).spec_domain(), id)
                && !has_fp_with_feature(old(self).spec_pool(), id) ==> (r is Ok && exists|ix: int|
                0 <= ix < old(self).spec_pool().features.len() && (#[trigger] old(
                    self,
                ).spec_pool().features[ix]).domain_id == old(self).spec_domain() && old(
                    self,
                ).spec_pool().features[ix].id == id && final(self).spec_pool() == (DatabaseV {
                    features: old(self).spec_pool().features.remove(ix),
                    ..old(self).spec_pool()
                })),
    {
        let ix = match self.feature_index_by_id(id) {
            Some(ix) => ix,
            None => {
                return Err(Error::NoSuchResourceError("Feature", id));
            },
        };
        proof {
            assert(has_feature(old(self).spec_pool(), old(self).spec_domain(), id)) by {
                assert(self.spec_pool().features[ix as int].domain_id == self.spec_domain());
            }
        }
        match self.fp_index_by_feature(id) {
            Some(_) => {
                proof {
                    assert(has_fp_with_feature(self.spec_pool(), id));
                }
                return Err(Error::DatabaseError(fk_message()));
            },
            None => {},
        }
        self.pool.features.remove(ix);
        proof {
            assert(self.spec_pool().features =~= old(self).spec_pool().features.remove(ix as int));
            assert(self.spec_pool().devices =~= old(self).spec_pool().devices);
            assert(self.spec_pool().configs =~= old(self).spec_pool().configs);
            assert(self.spec_pool().profiles =~= old(self).spec_pool().profiles);
            assert(self.spec_pool().feature_profiles =~= old(self).spec_pool().feature_profiles);
            assert forall|i: int|
                0 <= i < self.spec_pool().features.len() implies 0 < (#[trigger] self.spec_pool(
            ).features[i]).id < self.spec_pool().next_id by {
                let oldf = old(self).spec_pool().features;
                if i < ix as int {
                    assert(self.spec_pool().features[i] == oldf[i]);
                } else {
                    assert(self.spec_pool().features[i] == oldf[i + 1]);
                }
            }
            assert forall|i: int, j: int|
                0 <= i < j < self.spec_pool().features.len() implies #[trigger] self.spec_pool(
            ).features[i].id != #[trigger] self.spec_pool().features[j].id by {
                let oldf = old(self).spec_pool().features;
                if i < ix as int {
                    assert(self.spec_pool().features[i] == oldf[i]);
                } else {
                    assert(self.spec_pool().features[i] == oldf[i + 1]);
                }
                if j < ix as int {
                    assert(self.spec_pool().features[j] == oldf[j]);
                } else {
                    assert(self.spec_pool().features[j] == oldf[j + 1]);
                }
            }
        }
        Ok(())
    }
}

/// Whether row `i` is `domain`'s feature profile `(profile_id, id)`.
pub open spec fn fp_row_at(db: DatabaseV, domain: u128, profile_id: u128, id: u128, i: int) -> bool {
    0 <= i < db.feature_profiles.len() && db.feature_profiles[i].domain_id == domain
        && db.feature_profiles[i].profile_id == profile_id && db.feature_profiles[i].id == id
}

/// Whether `domain` has the feature profile `(profile_id, id)`.
pub open spec fn has_fp(db: DatabaseV, domain: u128, profile_id: u128, id: u128) -> bool {
    exists|i: int| #[trigger] fp_row_at(db, domain, profile_id, id, i)
}

/// Whether row `j` is `domain`'s feature `id`.
pub open spec fn feat_at(db: DatabaseV, domain: u128, id: u128, j: int) -> bool {
    0 <= j < db.features.len() && db.features[j].domain_id == domain && db.features[j].id == id
}

/// The rows a feature-profile fetch returns for one profile: this
/// tenant's rows with that `profile_id` whose referenced feature exists in
/// the same tenant (the inner join drops the rest).
pub open spec fn fp_join_pred(db: DatabaseV, domain: u128, profile_id: u128) -> spec_fn(
    FeatureProfileModelV,
) -> bool {
    |fp: FeatureProfileModelV|
        fp.domain_id == domain && fp.profile_id == profile_id && has_feature(
            db,
            domain,
            fp.feature_id,
        )
}

/// Whether every feature profile of `domain` under `profile_id` carries a
/// payload shaped for its feature's type. A violation means the stored
/// payload became inconsistent with its own metadata.
pub open spec fn fp_types_consistent(db: DatabaseV, domain: u128, profile_id: u128) -> bool {
    forall|i: int, j: int|
        0 <= i < db.feature_profiles.len() && (#[trigger] db.feature_profiles[i]).domain_id
            == domain && db.feature_profiles[i].profile_id == profile_id && #[trigger] feat_at(
            db,
            domain,
            db.feature_profiles[i].feature_id,
            j,
        ) ==> crate::feature_profile::payload_type(db.feature_profiles[i].config)
            == db.features[j].feature_type
}

/// Two rows holding the same feature-profile identifier are the same row.
proof fn lemma_fp_unique(db: DatabaseV, domain: u128, profile_id: u128, id: u128, i1: int, i2: int)
    requires
        db_wf(db),
        fp_row_at(db, domain, profile_id, id, i1),
        fp_row_at(db, domain, profile_id, id, i2),
    ensures
        i1 == i2,
{
    if i1 < i2 {
        assert(db.feature_profiles[i1].id == db.feature_profiles[i2].id);
    } else if i2 < i1 {
        assert(db.feature_profiles[i2].id == db.feature_profiles[i1].id);
    }
}

/// Two rows holding the same feature identifier are the same row.
proof fn lemma_feat_unique(db: DatabaseV, domain: u128, id: u128, j1: int, j2: int)
    requires
        db_wf(db),
        feat_at(db, domain, id, j1),
        feat_at(db, domain, id, j2),
    ensures
        j1 == j2,
{
    if j1 < j2 {
        assert(db.features[j1].id == db.features[j2].id);
    } else if j2 < j1 {
        assert(db.features[j2].id == db.features[j1].id);
    }
}

impl DomainDatabase {
    /// The index of any tenant's feature profile referencing the given
    /// feature.
    fn fp_index_by_feature(&self, feature_id: u128) -> (r: Option<usize>)
        ensures
            r matches Some(ix) ==> ix < self.spec_pool().feature_profiles.len()
                && self.spec_pool().feature_profiles[ix as int].feature_id == feature_id,
            r is None ==> !has_fp_with_feature(self.spec_pool(), feature_id),
    {
        let n = self.pool.feature_profiles.len();
        let mut i: usize = 0;
        while i < n
            invariant
                n == self.pool.feature_profiles@.len(),
                i <= n,
                forall|k: int|
                    0 <= k < i ==> (#[trigger] self.spec_pool().feature_profiles[k]).feature_id
                        != feature_id,
            decreases n - i,
        {
            if self.pool.feature_profiles[i].feature_id() == feature_id {
                return Some(i);
            }
            i = i + 1;
        }
        None
    }

    /// The index of this tenant's feature profile `(profile_id, id)`.
    fn fp_index_by_ids(&self, profile_id: u128, id: u128) -> (r: Option<usize>)
        ensures
            r matches Some(ix) ==> fp_row_at(
                self.spec_pool(),
                self.spec_domain(),
                profile_id,
                id,
                ix as int,
            ),
            r is None ==> !has_fp(self.spec_pool(), self.spec_domain(), profile_id, id),
    {
        let n = self.pool.feature_profiles.len();
        let mut i: usize = 0;
        while i < n
            invariant
                n == self.pool.feature_profiles@.len(),
                i <= n,
                forall|k: int|
                    0 <= k < i ==> !fp_row_at(
                        self.spec_pool(),
                        self.spec_domain(),
                        profile_id,
                        id,
                        k,
                    ),
            decreases n - i,
        {
            let row = &self.pool.feature_profiles[i];
            if row.domain_id() == self.domain_id && row.profile_id() == profile_id && row.id()
                == id {
                return Some(i);
            }
            proof {
                assert(!fp_row_at(self.spec_pool(), self.spec_domain(), profile_id, id, i as int));
            }
            i = i + 1;
        }
        None
    }

    /// Fetch this tenant's feature profiles under one profile, joined
    /// against the feature table for their types. A payload whose shape
    /// disagrees with its feature's type is payload corruption and fails
    /// the whole fetch as a storage error.
    pub fn fetch_all_feature_profiles(&self, profile_id: u128) -> (r: Result<
        Vec<FeatureProfileModel>,
        Error,
    >)
        requires
            self.wf(),
        ensures
            r is Ok <==> fp_types_consistent(self.spec_pool(), self.spec_domain(), profile_id),
            r matches Ok(v) ==> v.deep_view() == seq_filter(
                self.spec_pool().feature_profiles,
                fp_join_pred(self.spec_pool(), self.spec_domain(), profile_id),
            ),
            r matches Err(e) ==> e matches Error::DatabaseError(_),
    {
        let ghost pred = fp_join_pred(self.spec_pool(), self.spec_domain(), profile_id);
        let mut out: Vec<FeatureProfileModel> = Vec::new();
        let n = self.pool.feature_profiles.len();
        let mut i: usize = 0;
        while i < n
            invariant
                self.wf(),
                n == self.pool.feature_profiles@.len(),
                i <= n,
                pred == fp_join_pred(self.spec_pool(), self.spec_domain(), profile_id),
                out.deep_view() == seq_filter(
                    self.spec_pool().feature_profiles.take(i as int),
                    pred,
                ),
                forall|k: int, j: int|
                    0 <= k < i && (#[trigger] self.spec_pool().feature_profiles[k]).domain_id
                        == self.spec_domain() && self.spec_pool().feature_profiles[k].profile_id
                        == profile_id && #[trigger] feat_at(
                        self.spec_pool(),
                        self.spec_domain(),
                        self.spec_pool().feature_profiles[k].feature_id,
                        j,
                    ) ==> crate::feature_profile::payload_type(
                        self.spec_pool().feature_profiles[k].config,
                    ) == self.spec_pool().features[j].feature_type,
            decreases n - i,
        {
            let row = &self.pool.feature_profiles[i];
            proof {
                assert(self.spec_pool().feature_profiles.take(i as int + 1).drop_last()
                    =~= self.spec_pool().feature_profiles.take(i as int));
                assert(self.spec_pool().feature_profiles.take(i as int + 1).last() == row@);
            }
            if row.domain_id() == self.domain_id && row.profile_id() == profile_id {
                match self.feature_index_by_id(row.feature_id()) {
                    Some(fx) => {
                        let ft = self.pool.features[fx].feature_type();
                        if row.config_matches(ft) {
                            out.push(row.clone());
                            proof {
                                assert(has_feature(
                                    self.spec_pool(),
                                    self.spec_domain(),
                                    row@.feature_id,
                                )) by {
                                    assert(self.spec_pool().features[fx as int].domain_id
                                        == self.spec_domain());
                                }
                                assert(pred(row@));
                                assert(out.deep_view() =~= seq_filter(
                                    self.spec_pool().feature_profiles.take(i as int + 1),
                                    pred,
                                ));
                                assert forall|j: int|
                                    #[trigger] feat_at(
                                        self.spec_pool(),
                                        self.spec_domain(),
                                        row@.feature_id,
                                        j,
                                    ) implies crate::feature_profile::payload_type(row@.config)
                                    == self.spec_pool().features[j].feature_type by {
                                    assert(feat_at(
                                        self.spec_pool(),
                                        self.spec_domain(),
                                        row@.feature_id,
                                        fx as int,
                                    ));
                                    lemma_feat_unique(
                                        self.spec_pool(),
                                        self.spec_domain(),
                                        row@.feature_id,
                                        j,
                                        fx as int,
                                    );
                                }
                            }
                        } else {
                            proof {
                                assert(feat_at(
                                    self.spec_pool(),
                                    self.spec_domain(),
                                    row@.feature_id,
                                    fx as int,
                                ));
                                assert(!fp_types_consistent(
                                    self.spec_pool(),
                                    self.spec_domain(),
                                    profile_id,
                                ));
                            }
                            return Err(Error::DatabaseError(corrupt_message(row.id())));
                        }
                    },
                    None => {
                        proof {
                            assert(!pred(row@));
                            assert(out.deep_view() =~= seq_filter(
                                self.spec_pool().feature_profiles.take(i as int + 1),
                                pred,
                            ));
                            assert forall|j: int|
                                !feat_at(
                                    self.spec_pool(),
                                    self.spec_domain(),
                                    row@.feature_id,
                                    j,
                                ) by {
                                if feat_at(self.spec_pool(), self.spec_domain(), row@.feature_id, j) {
                                    assert(has_feature(
                                        self.spec_pool(),
                                        self.spec_domain(),
                                        row@.feature_id,
                                    )) by {
                                        assert(self.spec_pool().features[j].domain_id
                                            == self.spec_domain());
                                    }
                                }
                            }
                        }
                    },
                }
            } else {
                proof {
                    assert(!pred(row@));
                    assert(out.deep_view() =~= seq_filter(
                        self.spec_pool().feature_profiles.take(i as int + 1),
                        pred,
                    ));
                }
            }
            i = i + 1;
        }
        proof {
            assert(self.spec_pool().feature_profiles.take(n as int)
                =~= self.spec_pool().feature_profiles);
        }
        Ok(out)
    }

    /// Fetch one of this tenant's feature profiles. The row must exist and
    /// its feature must exist in the same tenant; a payload whose shape
    /// disagrees with the feature's type is a storage error.
    pub fn fetch_one_feature_profile(&self, profile_id: u128, id: u128) -> (r: Result<
        FeatureProfileModel,
        Error,
    >)
        requires
            self.wf(),
        ensures
            !has_fp(self.spec_pool(), self.spec_domain(), profile_id, id) ==> r == Result::<
                FeatureProfileModel,
                Error,
            >::Err(Error::NoSuchResourceError("FeatureProfile", id)),
            (exists|i: int|
                #[trigger] fp_row_at(self.spec_pool(), self.spec_domain(), profile_id, id, i)
                    && !has_feature(
                    self.spec_pool(),
                    self.spec_domain(),
                    self.spec_pool().feature_profiles[i].feature_id,
                )) ==> r == Result::<FeatureProfileModel, Error>::Err(
                Error::NoSuchResourceError("FeatureProfile", id),
            ),
            (exists|i: int, j: int|
                #[trigger] fp_row_at(self.spec_pool(), self.spec_domain(), profile_id, id, i)
                    && #[trigger] feat_at(
                    self.spec_pool(),
                    self.spec_domain(),
                    self.spec_pool().feature_profiles[i].feature_id,
                    j,
                ) && crate::feature_profile::payload_type(
                    self.spec_pool().feature_profiles[i].config,
                ) == self.spec_pool().features[j].feature_type) ==> (r matches Ok(m) && exists|
                i: int,
            |
                #[trigger] fp_row_at(self.spec_pool(), self.spec_domain(), profile_id, id, i)
                    && m@ == self.spec_pool().feature_profiles[i]),
            (exists|i: int, j: int|
                #[trigger] fp_row_at(self.spec_pool(), self.spec_domain(), profile_id, id, i)
                    && #[trigger] feat_at(
                    self.spec_pool(),
                    self.spec_domain(),
                    self.spec_pool().feature_profiles[i].feature_id,
                    j,
                ) && crate::feature_profile::payload_type(
                    self.spec_pool().feature_profiles[i].config,
                ) != self.spec_pool().features[j].feature_type) ==> (r matches Err(e) && e matches
                Error::DatabaseError(_)),
    {
        let ix = match self.fp_index_by_ids(profile_id, id) {
            Some(ix) => ix,
            None => {
                return Err(Error::NoSuchResourceError("FeatureProfile", id));
            },
        };
        let row = &self.pool.feature_profiles[ix];
        proof {
            assert(fp_row_at(self.spec_pool(), self.spec_domain(), profile_id, id, ix as int));
            assert forall|i: int|
                #[trigger] fp_row_at(self.spec_pool(), self.spec_domain(), profile_id, id, i)
                implies i == ix as int by {
                lemma_fp_unique(self.spec_pool(), self.spec_domain(), profile_id, id, i, ix as int);
            }
        }
        match self.feature_index_by_id(row.feature_id()) {
            Some(fx) => {
                let ft = self.pool.features[fx].feature_type();
                proof {
                    assert(feat_at(self.spec_pool(), self.spec_domain(), row@.feature_id, fx as int));
                    assert forall|j: int|
                        #[trigger] feat_at(self.spec_pool(), self.spec_domain(), row@.feature_id, j)
                        implies j == fx as int by {
                        lemma_feat_unique(
                            self.spec_pool(),
                            self.spec_domain(),
                            row@.feature_id,
                            j,
                            fx as int,
                        );
                    }
                }
                if row.config_matches(ft) {
                    Ok(row.clone())
                } else {
                    Err(Error::DatabaseError(corrupt_message(id)))
                }
            },
            None => {
                proof {
                    assert(!has_feature(self.spec_pool(), self.spec_domain(), row@.feature_id));
                }
                Err(Error::NoSuchResourceError("FeatureProfile", id))
            },
        }
    }

    /// Insert a feature profile for this tenant. The referenced profile
    /// and feature must exist somewhere (the foreign keys are table-wide);
    /// the row is then stored under a fresh identifier, and re-read
    /// through the tenant-scoped join, which fails if the feature belongs
    /// to another tenant.
    pub fn insert_feature_profile(&mut self, feature_profile: FeatureProfileModel) -> (r: Result<
        FeatureProfileModel,
        Error,
    >)
        requires
            old(self).wf(),
        ensures
            final(self).wf(),
            final(self).spec_domain() == old(self).spec_domain(),
            old(self).spec_pool().next_id == u128::MAX ==> (r matches Err(e) && e matches
                Error::DatabaseError(_)) && final(self).spec_pool() == old(self).spec_pool(),
            old(self).spec_pool().next_id < u128::MAX && !(has_feature_global(
                old(self).spec_pool(),
                feature_profile@.feature_id,
            ) && has_profile_global(old(self).spec_pool(), feature_profile@.profile_id)) ==> (
            r matches Err(e) && e matches Error::DatabaseError(_)) && final(self).spec_pool()
                == old(self).spec_pool(),
            old(self).spec_pool().next_id < u128::MAX && has_feature_global(
                old(self).spec_pool(),
                feature_profile@.feature_id,
            ) && has_profile_global(old(self).spec_pool(), feature_profile@.profile_id) ==> (
            final(self).spec_pool() == (DatabaseV {
                feature_profiles: old(self).spec_pool().feature_profiles.push(
                    (FeatureProfileModelV {
                        id: old(self).spec_pool().next_id,
                        domain_id: old(self).spec_domain(),
                        display_name: feature_profile@.display_name,
                        profile_id: feature_profile@.profile_id,
                        feature_id: feature_profile@.feature_id,
                        config: feature_profile@.config,
                    }),
                ),
                next_id: (old(self).spec_pool().next_id + 1) as u128,
                ..old(self).spec_pool()
            }) && (has_feature(
                old(self).spec_pool(),
                old(self).spec_domain(),
                feature_profile@.feature_id,
            ) ==> (r matches Ok(m) && m@ == (FeatureProfileModelV {
                id: old(self).spec_pool().next_id,
                domain_id: old(self).spec_domain(),
                display_name: feature_profile@.display_name,
                profile_id: feature_profile@.profile_id,
                feature_id: feature_profile@.feature_id,
                config: feature_profile@.config,
            }))) && (!has_feature(
                old(self).spec_pool(),
                old(self).spec_domain(),
                feature_profile@.feature_id,
            ) ==> r == Result::<FeatureProfileModel, Error>::Err(
                Error::NoSuchResourceError("FeatureProfile", old(self).spec_pool().next_id),
            ))),
    {
        if self.pool.next_id == u128::MAX {
            return Err(Error::DatabaseError(exhausted_message()));
        }
        let feature_ok = match self.feature_index_global(feature_profile.feature_id()) {
            Some(_) => true,
            None => false,
        };
        let profile_ok = match self.profile_index_global(feature_profile.profile_id()) {
            Some(_) => true,
            None => false,
        };
        if !(feature_ok && profile_ok) {
            proof {
                if feature_ok {
                } else {
                    assert(!has_feature_global(self.spec_pool(), feature_profile@.feature_id));
                }
            }
            return Err(Error::DatabaseError(fk_message()));
        }
        let id = self.pool.next_id;
        self.pool.next_id = id + 1;
        let row = match FeatureProfileModel::try_new(
            id,
            self.domain_id,
            feature_profile.display_name(),
            feature_profile.profile_id(),
            feature_profile.feature_id(),
            feature_profile.payload_feature_type(),
            feature_profile.config_wire(),
        ) {
            Ok(row) => row,
            Err(e) => {
                proof {
                    assert(false);
                }
                return Err(e);
            },
        };
        let result = row.clone();
        self.pool.feature_profiles.push(row);
        proof {
            assert(self.spec_pool().feature_profiles =~= old(
                self,
            ).spec_pool().feature_profiles.push(result@));
            assert(self.spec_pool().devices =~= old(self).spec_pool().devices);
            assert(self.spec_pool().configs =~= old(self).spec_pool().configs);
            assert(self.spec_pool().features =~= old(self).spec_pool().features);
            assert(self.spec_pool().profiles =~= old(self).spec_pool().profiles);
        }
        match self.feature_index_by_id(feature_profile.feature_id()) {
            Some(fx) => {
                let ft = self.pool.features[fx].feature_type();
                proof {
                    assert(has_feature(
                        old(self).spec_pool(),
                        old(self).spec_domain(),
                        feature_profile@.feature_id,
                    )) by {
                        assert(self.spec_pool().features[fx as int].domain_id
                            == self.spec_domain());
                        assert(old(self).spec_pool().features[fx as int].domain_id == old(
                            self,
                        ).spec_domain());
                    }
                }
                Ok(result)
            },
            None => {
                proof {
                    assert(!has_feature(
                        old(self).spec_pool(),
                        old(self).spec_domain(),
                        feature_profile@.feature_id,
                    )) by {
                        if has_feature(
                            old(self).spec_pool(),
                            old(self).spec_domain(),
                            feature_profile@.feature_id,
                        ) {
                            let j = choose|j: int|
                                0 <= j < old(self).spec_pool().features.len() && (#[trigger] old(
                                    self,
                                ).spec_pool().features[j]).domain_id == old(self).spec_domain()
                                    && old(self).spec_pool().features[j].id
                                    == feature_profile@.feature_id;
                            assert(self.spec_pool().features[j].domain_id == self.spec_domain());
                            assert(has_feature(
                                self.spec_pool(),
                                self.spec_domain(),
                                feature_profile@.feature_id,
                            ));
                        }
                    }
                }
                Err(Error::NoSuchResourceError("FeatureProfile", id))
            },
        }
    }

    /// Update this tenant's feature profile with the argument's
    /// identifiers, replacing its display name, feature reference and
    /// payload. An absent row yields a typed not-found error; the updated
    /// row is re-read through the tenant-scoped join.
    pub fn update_feature_profile(&mut self, feature_profile: FeatureProfileModel) -> (r: Result<
        FeatureProfileModel,
        Error,
    >)
        requires
            old(self).wf(),
        ensures
            final(self).wf(),
            final(self).spec_domain() == old(self).spec_domain(),
            !has_fp(
                old(self).spec_pool(),
                old(self).spec_domain(),
                feature_profile@.profile_id,
                feature_profile@.id,
            ) ==> r == Result::<FeatureProfileModel, Error>::Err(
                Error::NoSuchResourceError("FeatureProfile", feature_profile@.id),
            ) && final(self).spec_pool() == old(self).spec_pool(),
            has_fp(
                old(self).spec_pool(),
                old(self).spec_domain(),
                feature_profile@.profile_id,
                feature_profile@.id,
            ) ==> (exists|ix: int|
                #[trigger] fp_row_at(
                    old(self).spec_pool(),
                    old(self).spec_domain(),
                    feature_profile@.profile_id,
                    feature_profile@.id,
                    ix,
                ) && final(self).spec_pool() == (DatabaseV {
                    feature_profiles: old(self).spec_pool().feature_profiles.update(
                        ix,
                        (FeatureProfileModelV {
                            id: feature_profile@.id,
                            domain_id: old(self).spec_domain(),
                            display_name: feature_profile@.display_name,
                            profile_id: feature_profile@.profile_id,
                            feature_id: feature_profile@.feature_id,
                            config: feature_profile@.config,
                        }),
                    ),
                    ..old(self).spec_pool()
                })) && (has_feature(
                old(self).spec_pool(),
                old(self).spec_domain(),
                feature_profile@.feature_id,
            ) ==> (r matches Ok(m) && m@ == (FeatureProfileModelV {
                id: feature_profile@.id,
                domain_id: old(self).spec_domain(),
                display_name: feature_profile@.display_name,
                profile_id: feature_profile@.profile_id,
                feature_id: feature_profile@.feature_id,
                config: feature_profile@.config,
            }))) && (!has_feature(
                old(self).spec_pool(),
                old(self).spec_domain(),
                feature_profile@.feature_id,
            ) ==> r == Result::<FeatureProfileModel, Error>::Err(
                Error::NoSuchResourceError("FeatureProfile", feature_profile@.id),
            )),
    {
        let ix = match self.fp_index_by_ids(feature_profile.profile_id(), feature_profile.id()) {
            Some(ix) => ix,
            None => {
                return Err(Error::NoSuchResourceError("FeatureProfile", feature_profile.id()));
            },
        };
        let row = match FeatureProfileModel::try_new(
            feature_profile.id(),
            self.domain_id,
            feature_profile.display_name(),
            feature_profile.profile_id(),
            feature_profile.feature_id(),
            feature_profile.payload_feature_type(),
            feature_profile.config_wire(),
        ) {
            Ok(row) => row,
            Err(e) => {
                proof {
                    assert(false);
                }
                return Err(e);
            },
        };
        let result = row.clone();
        self.pool.feature_profiles.remove(ix);
        self.pool.feature_profiles.insert(ix, row);
        proof {
            assert(self.spec_pool().feature_profiles =~= old(
                self,
            ).spec_pool().feature_profiles.update(ix as int, result@));
            assert(self.spec_pool().devices =~= old(self).spec_pool().devices);
            assert(self.spec_pool().configs =~= old(self).spec_pool().configs);
            assert(self.spec_pool().features =~= old(self).spec_pool().features);
            assert(self.spec_pool().profiles =~= old(self).spec_pool().profiles);
        }
        match self.feature_index_by_id(feature_profile.feature_id()) {
            Some(fx) => {
                proof {
                    assert(has_feature(
                        old(self).spec_pool(),
                        old(self).spec_domain(),
                        feature_profile@.feature_id,
                    )) by {
                        assert(self.spec_pool().features[fx as int].domain_id
                            == self.spec_domain());
                        assert(old(self).spec_pool().features[fx as int].domain_id == old(
                            self,
                        ).spec_domain());
                    }
                }
                Ok(result)
            },
            None => {
                proof {
                    assert(!has_feature(
                        old(self).spec_pool(),
                        old(self).spec_domain(),
                        feature_profile@.feature_id,
                    )) by {
                        if has_feature(
                            old(self).spec_pool(),
                            old(self).spec_domain(),
                            feature_profile@.feature_id,
                        ) {
                            let j = choose|j: int|
                                0 <= j < old(self).spec_pool().features.len() && (#[trigger] old(
                                    self,
                                ).spec_pool().features[j]).domain_id == old(self).spec_domain()
                                    && old(self).spec_pool().features[j].id
                                    == feature_profile@.feature_id;
                            assert(self.spec_pool().features[j].domain_id == self.spec_domain());
                            assert(has_feature(
                                self.spec_pool(),
                                self.spec_domain(),
                                feature_profile@.feature_id,
                            ));
                        }
                    }
                }
                Err(Error::NoSuchResourceError("FeatureProfile", feature_profile.id()))
            },
        }
    }

    /// Delete this tenant's feature profile `(profile_id, id)`; an absent
    /// row yields a typed not-found error.
    pub fn delete_feature_profile(&mut self, profile_id: u128, id: u128) -> (r: Result<(), Error>)
        requires
            old(self).wf(),
        ensures
            final(self).wf(),
            final(self).spec_domain() == old(self).spec_domain(),
            !has_fp(old(self).spec_pool(), old(self).spec_domain(), profile_id, id) ==> r
                == Result::<(), Error>::Err(Error::NoSuchResourceError("FeatureProfile", id))
                && final(self).spec_pool() == old(self).spec_pool(),
            has_fp(old(self).spec_pool(), old(self).spec_domain(), profile_id, id) ==> (r is Ok
                && exists|ix: int|
                #[trigger] fp_row_at(old(self).spec_pool(), old(self).spec_domain(), profile_id, id, ix)
                    && final(self).spec_pool() == (DatabaseV {
                    feature_profiles: old(self).spec_pool().feature_profiles.remove(ix),
                    ..old(self).spec_pool()
                })),
    {
        let ix = match self.fp_index_by_ids(profile_id, id) {
            Some(ix) => ix,
            None => {
                return Err(Error::NoSuchResourceError("FeatureProfile", id));
            },
        };
        self.pool.feature_profiles.remove(ix);
        proof {
            assert(fp_row_at(old(self).spec_pool(), old(self).spec_domain(), profile_id, id, ix as int));
            assert(self.spec_pool().feature_profiles =~= old(
                self,
            ).spec_pool().feature_profiles.remove(ix as int));
            assert(self.spec_pool().devices =~= old(self).spec_pool().devices);
            assert(self.spec_pool().configs =~= old(self).spec_pool().configs);
            assert(self.spec_pool().features =~= old(self).spec_pool().features);
            assert(self.spec_pool().profiles =~= old(self).spec_pool().profiles);
            assert forall|i: int|
                0 <= i < self.spec_pool().feature_profiles.len() implies 0 < (
            #[trigger] self.spec_pool().feature_profiles[i]).id < self.spec_pool().next_id by {
                let oldf = old(self).spec_pool().feature_profiles;
                if i < ix as int {
                    assert(self.spec_pool().feature_profiles[i] == oldf[i]);
                } else {
                    assert(self.spec_pool().feature_profiles[i] == oldf[i + 1]);
                }
            }
            assert forall|i: int, j: int|
                0 <= i < j < self.spec_pool().feature_profiles.len() implies #[trigger] self.spec_pool(
            ).feature_profiles[i].id != #[trigger] self.spec_pool().feature_profiles[j].id by {
                let oldf = old(self).spec_pool().feature_profiles;
                if i < ix as int {
                    assert(self.spec_pool().feature_profiles[i] == oldf[i]);
                } else {
                    assert(self.spec_pool().feature_profiles[i] == oldf[i + 1]);
                }
                if j < ix as int {
                    assert(self.spec_pool().feature_profiles[j] == oldf[j]);
                } else {
                    assert(self.spec_pool().feature_profiles[j] == oldf[j + 1]);
                }
            }
        }
        Ok(())
    }
}

/// The log-only detail used when a foreign key is violated.
fn fk_message() -> (r: String)
    ensures
        r@ == "foreign key violation"@,
{
    String::from_str("foreign key violation")
}

/// The log-only detail used when a stored payload disagrees with its
/// feature's type.
fn corrupt_message(id: u128) -> (r: String) {
    let mut m = String::from_str("could not parse config for feature_profile ");
    m.append(crate::b64uuid::uuid_to_string(id).as_str());
    m
}

/// Whether row `i` is `domain`'s profile `id`.
pub open spec fn profile_row_at(db: DatabaseV, domain: u128, id: u128, i: int) -> bool {
    0 <= i < db.profiles.len() && db.profiles[i].domain_id == domain && db.profiles[i].id == id
}

/// The rows a profile list returns: this tenant's profiles.
pub open spec fn profile_list_pred(domain: u128) -> spec_fn(ProfileRowV) -> bool {
    |p: ProfileRowV| p.domain_id == domain
}

/// The aggregated profile a row denotes: the row together with the joined
/// feature profiles under its identifier.
pub open spec fn profile_agg(db: DatabaseV, domain: u128) -> spec_fn(ProfileRowV) -> ProfileModelV {
    |p: ProfileRowV|
        (ProfileModelV {
            id: p.id,
            domain_id: p.domain_id,
            display_name: p.display_name,
            feature_profiles: seq_filter(db.feature_profiles, fp_join_pred(db, domain, p.id)),
        })
}

/// With every payload and every feature typed by the same closed
/// enumeration, a stored payload can never disagree with its feature's
/// type.
pub proof fn lemma_types_consistent(db: DatabaseV, domain: u128, profile_id: u128)
    ensures
        fp_types_consistent(db, domain, profile_id),
{
    assert forall|i: int, j: int|
        0 <= i < db.feature_profiles.len() && (#[trigger] db.feature_profiles[i]).domain_id
            == domain && db.feature_profiles[i].profile_id == profile_id && #[trigger] feat_at(
            db,
            domain,
            db.feature_profiles[i].feature_id,
            j,
        ) implies crate::feature_profile::payload_type(db.feature_profiles[i].config)
        == db.features[j].feature_type by {
        let t1 = crate::feature_profile::payload_type(db.feature_profiles[i].config);
        let t2 = db.features[j].feature_type;
        assert(t1 == FeatureType::Light);
        assert(t2 == FeatureType::Light);
    }
}

/// The rows appended when a profile is inserted with `n` feature
/// profiles: each input feature profile re-keyed under the new profile and
/// a fresh identifier.
pub open spec fn appended_fps(
    fps: Seq<FeatureProfileModelV>,
    domain: u128,
    profile_id: u128,
    base: u128,
    n: int,
) -> Seq<FeatureProfileModelV> {
    Seq::new(
        n as nat,
        |k: int|
            (FeatureProfileModelV {
                id: (base + 1 + k) as u128,
                domain_id: domain,
                display_name: fps[k].display_name,
                profile_id,
                feature_id: fps[k].feature_id,
                config: fps[k].config,
            }),
    )
}

impl DomainDatabase {
    /// Fetch one of this tenant's profiles together with exactly the
    /// feature profiles whose `profile_id` equals its identifier.
    pub fn fetch_one_profile(&self, id: u128) -> (r: Result<ProfileModel, Error>)
        requires
            self.wf(),
        ensures
            !has_profile(self.spec_pool(), self.spec_domain(), id) ==> r == Result::<
                ProfileModel,
                Error,
            >::Err(Error::NoSuchResourceError("Profile", id)),
            has_profile(self.spec_pool(), self.spec_domain(), id) ==> (r matches Ok(p) && exists|
                ix: int,
            |
                #[trigger] profile_row_at(self.spec_pool(), self.spec_domain(), id, ix) && p@
                    == (ProfileModelV {
                    id,
                    domain_id: self.spec_domain(),
                    display_name: self.spec_pool().profiles[ix].display_name,
                    feature_profiles: seq_filter(
                        self.spec_pool().feature_profiles,
                        fp_join_pred(self.spec_pool(), self.spec_domain(), id),
                    ),
                })),
    {
        let ix = match self.profile_index_by_id(id) {
            Some(ix) => ix,
            None => {
                return Err(Error::NoSuchResourceError("Profile", id));
            },
        };
        let fps = match self.fetch_all_feature_profiles(id) {
            Ok(v) => v,
            Err(e) => {
                proof {
                    lemma_types_consistent(self.spec_pool(), self.spec_domain(), id);
                }
                return Err(e);
            },
        };
        let row = &self.pool.profiles[ix];
        let p = ProfileModel::new(row.id, self.domain_id, row.display_name.clone(), fps);
        proof {
            assert(profile_row_at(self.spec_pool(), self.spec_domain(), id, ix as int));
        }
        Ok(p)
    }

    /// List this tenant's profiles, each with exactly its own feature
    /// profiles.
    pub fn fetch_all_profiles(&self) -> (r: Result<Vec<ProfileModel>, Error>)
        requires
            self.wf(),
        ensures
            r matches Ok(v) && v.deep_view() == seq_filter(
                self.spec_pool().profiles,
                profile_list_pred(self.spec_domain()),
            ).map_values(profile_agg(self.spec_pool(), self.spec_domain())),
    {
        let ghost pred = profile_list_pred(self.spec_domain());
        let ghost agg = profile_agg(self.spec_pool(), self.spec_domain());
        let mut out: Vec<ProfileModel> = Vec::new();
        let n = self.pool.profiles.len();
        let mut i: usize = 0;
        while i < n
            invariant
                self.wf(),
                n == self.pool.profiles@.len(),
                i <= n,
                pred == profile_list_pred(self.spec_domain()),
                agg == profile_agg(self.spec_pool(), self.spec_domain()),
                out.deep_view() == seq_filter(self.spec_pool().profiles.take(i as int), pred)
                    .map_values(agg),
            decreases n - i,
        {
            let row = &self.pool.profiles[i];
            proof {
                assert(self.spec_pool().profiles.take(i as int + 1).drop_last()
                    =~= self.spec_pool().profiles.take(i as int));
                assert(self.spec_pool().profiles.take(i as int + 1).last() == row@);
            }
            if row.domain_id == self.domain_id {
                let fps = match self.fetch_all_feature_profiles(row.id) {
                    Ok(v) => v,
                    Err(e) => {
                        proof {
                            lemma_types_consistent(self.spec_pool(), self.spec_domain(), row@.id);
                        }
                        return Err(e);
                    },
                };
                let ghost prev_out = out.deep_view();
                let ghost prev_vec = out@;
                let p = ProfileModel::new(row.id, self.domain_id, row.display_name.clone(), fps);
                out.push(p);
                proof {
                    assert(pred(row@));
                    let prevf = seq_filter(self.spec_pool().profiles.take(i as int), pred);
                    let newf = seq_filter(self.spec_pool().profiles.take(i as int + 1), pred);
                    assert(newf == prevf.push(row@));
                    assert(prev_out == prevf.map_values(agg));
                    assert(prev_out.len() == prevf.map_values(agg).len());
                    assert(out@.len() == prev_vec.len() + 1);
                    assert(out.deep_view().len() == out@.len());
                    assert(prev_out.len() == prev_vec.len());
                    assert(out.deep_view().len() == prevf.len() + 1);
                    assert(row@.domain_id == self.spec_domain());
                    assert forall|j: int| 0 <= j < out.deep_view().len() implies out.deep_view()[j]
                        == newf.map_values(agg).index(j) by {
                        assert(newf.map_values(agg)[j] == agg(newf[j]));
                        if j < prev_out.len() {
                            assert(out.deep_view()[j] == prev_out[j]);
                            assert(prev_out[j] == prevf.map_values(agg)[j]);
                        } else {
                            assert(newf[j] == row@);
                        }
                    }
                    assert(out.deep_view() =~= newf.map_values(agg));
                }
            } else {
                proof {
                    assert(!pred(row@));
                    assert(out.deep_view() =~= seq_filter(
                        self.spec_pool().profiles.take(i as int + 1),
                        pred,
                    ).map_values(agg));
                }
            }
            i = i + 1;
        }
        proof {
            assert(self.spec_pool().profiles.take(n as int) =~= self.spec_pool().profiles);
        }
        Ok(out)
    }

    /// Insert a profile for this tenant: the profile row under a fresh
    /// identifier, then each carried feature profile re-keyed to it. The
    /// sequence is not transactional: a failing feature profile leaves the
    /// rows already written in place.
    pub fn insert_profile(&mut self, profile: ProfileModel) -> (r: Result<ProfileModel, Error>)
        requires
            old(self).wf(),
        ensures
            final(self).wf(),
            final(self).spec_domain() == old(self).spec_domain(),
            old(self).spec_pool().next_id == u128::MAX ==> (r matches Err(e) && e matches
                Error::DatabaseError(_)) && final(self).spec_pool() == old(self).spec_pool(),
            old(self).spec_pool().next_id < u128::MAX ==> final(self).spec_pool().profiles == old(
                self,
            ).spec_pool().profiles.push(
                (ProfileRowV {
                    id: old(self).spec_pool().next_id,
                    domain_id: old(self).spec_domain(),
                    display_name: profile@.display_name,
                }),
            ) && final(self).spec_pool().devices == old(self).spec_pool().devices
                && final(self).spec_pool().configs == old(self).spec_pool().configs
                && final(self).spec_pool().features == old(self).spec_pool().features
                && final(self).spec_pool().feature_profiles.take(
                old(self).spec_pool().feature_profiles.len() as int,
            ) == old(self).spec_pool().feature_profiles,
            old(self).spec_pool().next_id < u128::MAX ==> (r matches Err(e) ==> (e matches
                Error::DatabaseError(_) || e matches Error::NoSuchResourceError(_, _))),
            r matches Ok(p) ==> p@.id == old(self).spec_pool().next_id && p@.domain_id == old(
                self,
            ).spec_domain() && p@.display_name == profile@.display_name,
            (old(self).spec_pool().next_id as int + profile@.feature_profiles.len()
                < u128::MAX as int && (forall|k: int|
                0 <= k < profile@.feature_profiles.len() ==> has_feature(
                    old(self).spec_pool(),
                    old(self).spec_domain(),
                    (#[trigger] profile@.feature_profiles[k]).feature_id,
                ))) ==> (r matches Ok(p) && final(self).spec_pool().feature_profiles == old(
                self,
            ).spec_pool().feature_profiles + appended_fps(
                profile@.feature_profiles,
                old(self).spec_domain(),
                old(self).spec_pool().next_id,
                old(self).spec_pool().next_id,
                profile@.feature_profiles.len() as int,
            ) && final(self).spec_pool().next_id as int == old(self).spec_pool().next_id as int + 1
                + profile@.feature_profiles.len() && p@.id == old(self).spec_pool().next_id
                && p@.domain_id == old(self).spec_domain() && p@.display_name
                == profile@.display_name && p@.feature_profiles == seq_filter(
                final(self).spec_pool().feature_profiles,
                fp_join_pred(
                    final(self).spec_pool(),
                    old(self).spec_domain(),
                    old(self).spec_pool().next_id,
                ),
            )),
    {
        if self.pool.next_id == u128::MAX {
            return Err(Error::DatabaseError(exhausted_message()));
        }
        let id = self.pool.next_id;
        self.pool.next_id = id + 1;
        let row = ProfileRow {
            id,
            domain_id: self.domain_id,
            display_name: profile.display_name(),
        };
        self.pool.profiles.push(row);
        proof {
            assert(self.spec_pool().profiles =~= old(self).spec_pool().profiles.push(
                (ProfileRowV {
                    id,
                    domain_id: old(self).spec_domain(),
                    display_name: profile@.display_name,
                }),
            ));
            assert(self.spec_pool().devices =~= old(self).spec_pool().devices);
            assert(self.spec_pool().configs =~= old(self).spec_pool().configs);
            assert(self.spec_pool().features =~= old(self).spec_pool().features);
            assert(self.spec_pool().feature_profiles =~= old(self).spec_pool().feature_profiles);
        }
        let mut fps = profile.feature_profiles();
        let ghost in_fps = profile@.feature_profiles;
        let n = fps.len();
        let mut k: usize = 0;
        while k < n
            invariant
                self.wf(),
                self.spec_domain() == old(self).spec_domain(),
                in_fps == profile@.feature_profiles,
                n == in_fps.len(),
                fps@.len() == n - k,
                forall|j: int| 0 <= j < fps@.len() ==> #[trigger] fps@[j]@ == in_fps[k + j],
                k <= n,
                old(self).spec_pool().next_id < u128::MAX,
                id == old(self).spec_pool().next_id,
                self.spec_pool().next_id as int == id as int + 1 + k,
                self.spec_pool().profiles == old(self).spec_pool().profiles.push(
                    (ProfileRowV {
                        id,
                        domain_id: old(self).spec_domain(),
                        display_name: profile@.display_name,
                    }),
                ),
                self.spec_pool().devices == old(self).spec_pool().devices,
                self.spec_pool().configs == old(self).spec_pool().configs,
                self.spec_pool().features == old(self).spec_pool().features,
                self.spec_pool().feature_profiles == old(self).spec_pool().feature_profiles
                    + appended_fps(in_fps, old(self).spec_domain(), id, id, k as int),
            decreases n - k,
        {
            let ghost fps_pre = fps@;
            let mut fp = fps.remove(0);
            proof {
                assert(fp == fps_pre[0]);
                assert(fp@ == in_fps[k as int]);
                assert forall|j: int| 0 <= j < fps@.len() implies #[trigger] fps@[j]@
                    == in_fps.index(k + 1 + j) by {
                    assert(fps@[j] == fps_pre[j + 1]);
                }
            }
            fp.set_profile_id(id);
            let ghost db_pre = self.spec_pool();
            match self.insert_feature_profile(fp) {
                Ok(_) => {},
                Err(e) => {
                    proof {
                        assert(final(self).spec_pool().feature_profiles.take(
                            old(self).spec_pool().feature_profiles.len() as int,
                        ) =~= old(self).spec_pool().feature_profiles);
                        assert(!(old(self).spec_pool().next_id as int
                            + profile@.feature_profiles.len() < u128::MAX as int && (forall|
                            k2: int,
                        |
                            0 <= k2 < profile@.feature_profiles.len() ==> has_feature(
                                old(self).spec_pool(),
                                old(self).spec_domain(),
                                (#[trigger] profile@.feature_profiles[k2]).feature_id,
                            )))) by {
                            if old(self).spec_pool().next_id as int
                                + profile@.feature_profiles.len() < u128::MAX as int && (forall|
                                k2: int,
                            |
                                0 <= k2 < profile@.feature_profiles.len() ==> has_feature(
                                    old(self).spec_pool(),
                                    old(self).spec_domain(),
                                    (#[trigger] profile@.feature_profiles[k2]).feature_id,
                                )) {
                                assert(has_feature(
                                    old(self).spec_pool(),
                                    old(self).spec_domain(),
                                    in_fps[k as int].feature_id,
                                ));
                                let j = choose|j: int|
                                    0 <= j < old(self).spec_pool().features.len() && (
                                    #[trigger] old(self).spec_pool().features[j]).domain_id == old(
                                        self,
                                    ).spec_domain() && old(self).spec_pool().features[j].id
                                        == in_fps[k as int].feature_id;
                                assert(db_pre.features[j] == old(self).spec_pool().features[j]);
                                assert(has_feature_global(db_pre, fp@.feature_id)) by {
                                    assert(db_pre.features[j].id == fp@.feature_id);
                                }
                                assert(has_profile_global(db_pre, fp@.profile_id)) by {
                                    assert(db_pre.profiles[db_pre.profiles.len() - 1].id == id);
                                }
                                assert(has_feature(db_pre, old(self).spec_domain(), fp@.feature_id))
                                    by {
                                    assert(db_pre.features[j].domain_id == old(
                                        self,
                                    ).spec_domain());
                                }
                                assert(db_pre.next_id < u128::MAX);
                                assert(false);
                            }
                        }
                    }
                    return Err(e);
                },
            }
            proof {
                assert(has_profile_global(db_pre, id)) by {
                    assert(db_pre.profiles[db_pre.profiles.len() - 1].id == id);
                }
                assert(self.spec_pool().feature_profiles =~= old(
                    self,
                ).spec_pool().feature_profiles + appended_fps(
                    in_fps,
                    old(self).spec_domain(),
                    id,
                    id,
                    k as int + 1,
                ));
            }
            k = k + 1;
        }
        let result = match self.fetch_one_profile(id) {
            Ok(p) => p,
            Err(e) => {
                proof {
                    assert(final(self).spec_pool().feature_profiles.take(
                        old(self).spec_pool().feature_profiles.len() as int,
                    ) =~= old(self).spec_pool().feature_profiles);
                    assert(has_profile(self.spec_pool(), self.spec_domain(), id)) by {
                        assert(self.spec_pool().profiles[self.spec_pool().profiles.len()
                            - 1].domain_id == self.spec_domain());
                    }
                }
                return Err(e);
            },
        };
        proof {
            assert(final(self).spec_pool().feature_profiles.take(
                old(self).spec_pool().feature_profiles.len() as int,
            ) =~= old(self).spec_pool().feature_profiles);
            assert(has_profile(self.spec_pool(), self.spec_domain(), id)) by {
                assert(self.spec_pool().profiles[self.spec_pool().profiles.len() - 1].domain_id
                    == self.spec_domain());
            }
            assert forall|ix: int|
                #[trigger] profile_row_at(self.spec_pool(), self.spec_domain(), id, ix)
                implies self.spec_pool().profiles[ix].display_name == profile@.display_name by {
                if ix < self.spec_pool().profiles.len() - 1 {
                    assert(self.spec_pool().profiles[ix] == old(self).spec_pool().profiles[ix]);
                    assert(0 < old(self).spec_pool().profiles[ix].id < old(
                        self,
                    ).spec_pool().next_id);
                }
            }
        }
        Ok(result)
    }

    /// Update the display name of this tenant's profile with the
    /// argument's identifier, and return it re-aggregated. An absent row
    /// yields a typed not-found error.
    pub fn update_profile(&mut self, profile: ProfileModel) -> (r: Result<ProfileModel, Error>)
        requires
            old(self).wf(),
        ensures
            final(self).wf(),
            final(self).spec_domain() == old(self).spec_domain(),
            !has_profile(old(self).spec_pool(), old(self).spec_domain(), profile@.id) ==> r
                == Result::<ProfileModel, Error>::Err(
                Error::NoSuchResourceError("Profile", profile@.id),
            ) && final(self).spec_pool() == old(self).spec_pool(),
            has_profile(old(self).spec_pool(), old(self).spec_domain(), profile@.id) ==> (exists|
                ix: int,
            |
                #[trigger] profile_row_at(old(self).spec_pool(), old(self).spec_domain(), profile@.id, ix)
                    && final(self).spec_pool() == (DatabaseV {
                    profiles: old(self).spec_pool().profiles.update(
                        ix,
                        (ProfileRowV {
                            id: profile@.id,
                            domain_id: old(self).spec_domain(),
                            display_name: profile@.display_name,
                        }),
                    ),
                    ..old(self).spec_pool()
                })) && (r matches Ok(p) && p@ == (ProfileModelV {
                id: profile@.id,
                domain_id: old(self).spec_domain(),
                display_name: profile@.display_name,
                feature_profiles: seq_filter(
                    old(self).spec_pool().feature_profiles,
                    fp_join_pred(final(self).spec_pool(), old(self).spec_domain(), profile@.id),
                ),
            })),
    {
        let id = profile.id();
        let ix = match self.profile_index_by_id(id) {
            Some(ix) => ix,
            None => {
                return Err(Error::NoSuchResourceError("Profile", id));
            },
        };
        let row = ProfileRow {
            id,
            domain_id: self.domain_id,
            display_name: profile.display_name(),
        };
        self.pool.profiles.remove(ix);
        self.pool.profiles.insert(ix, row);
        proof {
            assert(profile_row_at(old(self).spec_pool(), old(self).spec_domain(), id, ix as int));
            assert(self.spec_pool().profiles =~= old(self).spec_pool().profiles.update(
                ix as int,
                (ProfileRowV {
                    id,
                    domain_id: old(self).spec_domain(),
                    display_name: profile@.display_name,
                }),
            ));
            assert(self.spec_pool().devices =~= old(self).spec_pool().devices);
            assert(self.spec_pool().configs =~= old(self).spec_pool().configs);
            assert(self.spec_pool().features =~= old(self).spec_pool().features);
            assert(self.spec_pool().feature_profiles =~= old(self).spec_pool().feature_profiles);
        }
        match self.fetch_one_profile(id) {
            Ok(p) => {
                proof {
                    assert(has_profile(self.spec_pool(), self.spec_domain(), id)) by {
                        assert(self.spec_pool().profiles[ix as int].domain_id
                            == self.spec_domain());
                    }
                    assert forall|jx: int|
                        #[trigger] profile_row_at(self.spec_pool(), self.spec_domain(), id, jx)
                        implies self.spec_pool().profiles[jx].display_name
                        == profile@.display_name by {
                        if jx != ix as int {
                            assert(old(self).spec_pool().profiles[jx].id == old(
                                self,
                            ).spec_pool().profiles[ix as int].id);
                        }
                    }
                }
                Ok(p)
            },
            Err(e) => {
                proof {
                    assert(has_profile(self.spec_pool(), self.spec_domain(), id)) by {
                        assert(self.spec_pool().profiles[ix as int].domain_id
                            == self.spec_domain());
                    }
                }
                Err(e)
            },
        }
    }

    /// Delete this tenant's profile with the given identifier; the
    /// storage layer's cascade removes every feature profile keyed to it,
    /// whatever tenant wrote them. An absent row yields a typed not-found
    /// error.
    pub fn delete_profile(&mut self, id: u128) -> (r: Result<(), Error>)
        requires
            old(self).wf(),
        ensures
            final(self).wf(),
            final(self).spec_domain() == old(self).spec_domain(),
            !has_profile(old(self).spec_pool(), old(self).spec_domain(), id) ==> r == Result::<
                (),
                Error,
            >::Err(Error::NoSuchResourceError("Profile", id)) && final(self).spec_pool() == old(
                self,
            ).spec_pool(),
            has_profile(old(self).spec_pool(), old(self).spec_domain(), id) ==> (r is Ok && exists|
                ix: int,
            |
                #[trigger] profile_row_at(old(self).spec_pool(), old(self).spec_domain(), id, ix)
                    && final(self).spec_pool() == (DatabaseV {
                    profiles: old(self).spec_pool().profiles.remove(ix),
                    feature_profiles: seq_filter(
                        old(self).spec_pool().feature_profiles,
                        cascade_pred(id),
                    ),
                    ..old(self).spec_pool()
                })),
    {
        let ix = match self.profile_index_by_id(id) {
            Some(ix) => ix,
            None => {
                return Err(Error::NoSuchResourceError("Profile", id));
            },
        };
        proof {
            assert(profile_row_at(old(self).spec_pool(), old(self).spec_domain(), id, ix as int));
        }
        self.pool.profiles.remove(ix);
        let ghost keep = cascade_pred(id);
        let mut kept: Vec<FeatureProfileModel> = Vec::new();
        let n = self.pool.feature_profiles.len();
        let mut i: usize = 0;
        while i < n
            invariant
                n == self.pool.feature_profiles@.len(),
                i <= n,
                keep == cascade_pred(id),
                kept.deep_view() == seq_filter(
                    self.spec_pool().feature_profiles.take(i as int),
                    keep,
                ),
                forall|m: int|
                    0 <= m < kept.deep_view().len() ==> exists|j: int|
                        0 <= j < i && #[trigger] kept.deep_view()[m] == self.spec_pool(
                        ).feature_profiles[j],
            decreases n - i,
        {
            let row = &self.pool.feature_profiles[i];
            proof {
                assert(self.spec_pool().feature_profiles.take(i as int + 1).drop_last()
                    =~= self.spec_pool().feature_profiles.take(i as int));
                assert(self.spec_pool().feature_profiles.take(i as int + 1).last() == row@);
            }
            if !(row.profile_id() == id) {
                kept.push(row.clone());
                proof {
                    assert(keep(row@));
                    assert(kept.deep_view() =~= seq_filter(
                        self.spec_pool().feature_profiles.take(i as int + 1),
                        keep,
                    ));
                    assert forall|m: int| 0 <= m < kept.deep_view().len() implies exists|j: int|
                        0 <= j < i + 1 && #[trigger] kept.deep_view()[m] == self.spec_pool(
                    ).feature_profiles.index(j) by {
                        if m < kept.deep_view().len() - 1 {
                        } else {
                            assert(kept.deep_view()[m] == self.spec_pool(
                            ).feature_profiles[i as int]);
                        }
                    }
                }
            } else {
                proof {
                    assert(!keep(row@));
                    assert(kept.deep_view() =~= seq_filter(
                        self.spec_pool().feature_profiles.take(i as int + 1),
                        keep,
                    ));
                }
            }
            i = i + 1;
        }
        self.pool.feature_profiles = kept;
        proof {
            let oldfps = old(self).spec_pool().feature_profiles;
            assert(oldfps.take(n as int) =~= oldfps);
            assert(self.spec_pool().feature_profiles == seq_filter(oldfps, keep));
            assert(self.spec_pool().profiles =~= old(self).spec_pool().profiles.remove(ix as int));
            assert(self.spec_pool().devices =~= old(self).spec_pool().devices);
            assert(self.spec_pool().configs =~= old(self).spec_pool().configs);
            assert(self.spec_pool().features =~= old(self).spec_pool().features);
            assert forall|i2: int|
                0 <= i2 < self.spec_pool().profiles.len() implies 0 < (#[trigger] self.spec_pool(
            ).profiles[i2]).id < self.spec_pool().next_id by {
                let oldp = old(self).spec_pool().profiles;
                if i2 < ix as int {
                    assert(self.spec_pool().profiles[i2] == oldp[i2]);
                } else {
                    assert(self.spec_pool().profiles[i2] == oldp[i2 + 1]);
                }
            }
            assert forall|i2: int, j2: int|
                0 <= i2 < j2 < self.spec_pool().profiles.len() implies #[trigger] self.spec_pool(
            ).profiles[i2].id != #[trigger] self.spec_pool().profiles[j2].id by {
                let oldp = old(self).spec_pool().profiles;
                if i2 < ix as int {
                    assert(self.spec_pool().profiles[i2] == oldp[i2]);
                } else {
                    assert(self.spec_pool().profiles[i2] == oldp[i2 + 1]);
                }
                if j2 < ix as int {
                    assert(self.spec_pool().profiles[j2] == oldp[j2]);
                } else {
                    assert(self.spec_pool().profiles[j2] == oldp[j2 + 1]);
                }
            }
            let newfps = self.spec_pool().feature_profiles;
            assert forall|m: int|
                0 <= m < newfps.len() implies 0 < (#[trigger] newfps[m]).id
                < self.spec_pool().next_id by {
                let j = choose|j: int| 0 <= j < n && #[trigger] newfps[m] == oldfps[j];
                assert(0 < oldfps[j].id < old(self).spec_pool().next_id);
            }
            assert forall|m1: int, m2: int|
                0 <= m1 < m2 < newfps.len() implies #[trigger] newfps[m1].id
                != #[trigger] newfps[m2].id by {
                let j1 = choose|j: int| 0 <= j < n && #[trigger] newfps[m1] == oldfps[j];
                let j2 = choose|j: int| 0 <= j < n && #[trigger] newfps[m2] == oldfps[j];
                lemma_seq_filter_index_distinct(oldfps, keep, m1, m2);
            }
        }
        Ok(())
    }
}

/// Distinct positions of a filtered sequence hold elements from distinct
/// positions of the original, so pairwise-distinct identifiers survive
/// filtering.
proof fn lemma_seq_filter_index_distinct(
    s: Seq<FeatureProfileModelV>,
    pred: spec_fn(FeatureProfileModelV) -> bool,
    m1: int,
    m2: int,
)
    requires
        0 <= m1 < m2 < seq_filter(s, pred).len(),
        forall|i: int, j: int|
            0 <= i < j < s.len() ==> #[trigger] s[i].id != #[trigger] s[j].id,
    ensures
        seq_filter(s, pred)[m1].id != seq_filter(s, pred)[m2].id,
    decreases s.len(),
{
    let f = seq_filter(s, pred);
    if s.len() > 0 {
        let front = s.drop_last();
        let ff = seq_filter(front, pred);
        if pred(s.last()) {
            if m2 < ff.len() {
                lemma_seq_filter_index_distinct(front, pred, m1, m2);
            } else {
                assert(f[m2] == s.last());
                lemma_seq_filter_member(front, pred, m1);
                let j = choose|j: int| 0 <= j < front.len() && #[trigger] front[j] == ff[m1];
                assert(s[j].id != s[s.len() - 1].id);
            }
        } else {
            lemma_seq_filter_index_distinct(front, pred, m1, m2);
        }
    }
}

/// Every element of a filtered sequence occurs in the original.
proof fn lemma_seq_filter_member(
    s: Seq<FeatureProfileModelV>,
    pred: spec_fn(FeatureProfileModelV) -> bool,
    m: int,
)
    requires
        0 <= m < seq_filter(s, pred).len(),
    ensures
        exists|j: int| 0 <= j < s.len() && #[trigger] s[j] == seq_filter(s, pred)[m],
    decreases s.len(),
{
    let f = seq_filter(s, pred);
    if s.len() > 0 {
        let front = s.drop_last();
        let ff = seq_filter(front, pred);
        if pred(s.last()) && m == ff.len() {
            assert(s[s.len() - 1] == f[m]);
        } else {
            lemma_seq_filter_member(front, pred, m);
            let j = choose|j: int| 0 <= j < front.len() && #[trigger] front[j] == ff[m];
            assert(s[j] == f[m]);
        }
    }
}

} // verus!
