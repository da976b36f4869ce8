//! The device service: the operations the transport layer dispatches to,
//! taking an authenticated tenant identifier and wire messages, and
//! answering with wire messages.

use crate::database::{
    appended_fps, cascade_pred, db_wf, device_list_pred, fp_join_pred, has_device_id,
    has_device_mac, has_feature, has_fp_with_feature, has_profile, mac_conflicts, profile_row_at,
    seq_filter, Database, DatabaseV, DeviceFilter, DeviceRowV, DomainDatabase, ProfileRowV,
    UniqueDeviceFilter,
};
use crate::device::{
    device_name_id, device_name_ok, device_of_wire, device_to_wire, device_wire_err,
    device_wire_ok, DeviceError, DeviceModel, DeviceModelV,
};
use crate::error::Error;
use crate::feature::{
    feature_name_id, feature_name_ok, feature_to_wire, FeatureModel, FeatureModelV, FeatureName,
    FeatureType,
};
use crate::feature_profile::{FeatureProfileConfigV, FeatureProfileModel, FeatureProfileModelV};
use crate::name::ResourceName;
use crate::profile::{
    profile_name_id, profile_name_ok, profile_to_wire, ProfileModel, ProfileModelV, ProfileName,
};
use crate::protobuf::ToProtobuf;
use crate::text::dec_i32;
use crate::wire;
use vstd::prelude::*;
use vstd::string::StringExecFns;

verus! {

/// The model a wire feature profile denotes while identifiers are being
/// stripped on create: its own identifiers nil, the feature reference
/// parsed, the payload kept.
pub open spec fn stripped_fp_of_wire(v: wire::FeatureProfileV) -> FeatureProfileModelV {
    FeatureProfileModelV {
        id: 0,
        domain_id: 0,
        display_name: v.display_name,
        profile_id: 0,
        feature_id: feature_name_id(v.feature_name),
        config: match v.config->0 {
            wire::FeatureProfileConfigV::LightProfile(p) => FeatureProfileConfigV::Light(p),
        },
    }
}

/// The service wrapping the shared store.
pub struct DeviceService {
    dbpool: Database,
}

impl DeviceService {
    /// The store behind the service.
    pub closed spec fn spec_db(&self) -> DatabaseV {
        self.dbpool@
    }

    pub open spec fn wf(&self) -> bool {
        db_wf(self.spec_db())
    }

    pub fn new(pool: Database) -> (r: DeviceService)
        ensures
            r.spec_db() == pool@,
    {
        DeviceService { dbpool: pool }
    }

    pub fn pool(&self) -> (r: &Database)
        ensures
            r@ == self.spec_db(),
    {
        &self.dbpool
    }

    /// Take the store out to bind it to a tenant for one operation.
    fn take_pool(&mut self) -> (r: Database)
        ensures
            r@ == old(self).spec_db(),
    {
        let mut tmp = Database::new();
        core::mem::swap(&mut tmp, &mut self.dbpool);
        tmp
    }

    /// Create a device: validate the wire form, refuse a MAC already used
    /// in this tenant, store under a fresh identifier, and answer with the
    /// stored device.
    pub fn create_device_internal(&mut self, domain_id: u128, device: wire::Device) -> (r: Result<
        wire::Device,
        DeviceError,
    >)
        requires
            old(self).wf(),
        ensures
            final(self).wf(),
            !device_wire_ok(device@) ==> r == Result::<wire::Device, DeviceError>::Err(
                device_wire_err(device@),
            ) && final(self).spec_db() == old(self).spec_db(),
            device_wire_ok(device@) && has_device_mac(
                old(self).spec_db(),
                domain_id,
                device_of_wire(device@).mac,
            ) ==> r == Result::<wire::Device, DeviceError>::Err(DeviceError::MacConflict)
                && final(self).spec_db() == old(self).spec_db(),
            device_wire_ok(device@) && !has_device_mac(
                old(self).spec_db(),
                domain_id,
                device_of_wire(device@).mac,
            ) && old(self).spec_db().next_id < u128::MAX ==> (r matches Ok(w) && w.deep_view()
                == device_to_wire(
                (DeviceModelV { device_id: old(self).spec_db().next_id, ..device_of_wire(device@) }),
            ) && final(self).spec_db() == (DatabaseV {
                devices: old(self).spec_db().devices.push(
                    (DeviceRowV {
                        domain_id,
                        device: (DeviceModelV {
                            device_id: old(self).spec_db().next_id,
                            ..device_of_wire(device@)
                        }),
                    }),
                ),
                next_id: (old(self).spec_db().next_id + 1) as u128,
                ..old(self).spec_db()
            })),
    {
        let model = match DeviceModel::try_from(device) {
            Ok(m) => m,
            Err(e) => {
                return Err(e);
            },
        };
        let pool = self.take_pool();
        let mut db = DomainDatabase::new(pool, domain_id);
        let out = db.insert_device(model);
        self.dbpool = db.into_pool();
        match out {
            Ok(m) => Ok(m.to_protobuf(false)),
            Err(e) => Err(e),
        }
    }

    /// Update a device: validate the wire form, refuse a MAC held by a
    /// different device of this tenant, and answer with the stored device.
    pub fn update_device_internal(&mut self, domain_id: u128, device: wire::Device) -> (r: Result<
        wire::Device,
        DeviceError,
    >)
        requires
            old(self).wf(),
        ensures
            final(self).wf(),
            !device_wire_ok(device@) ==> r == Result::<wire::Device, DeviceError>::Err(
                device_wire_err(device@),
            ) && final(self).spec_db() == old(self).spec_db(),
            device_wire_ok(device@) && mac_conflicts(
                old(self).spec_db(),
                domain_id,
                device_of_wire(device@).mac,
                device_of_wire(device@).device_id,
            ) ==> r == Result::<wire::Device, DeviceError>::Err(DeviceError::MacConflict)
                && final(self).spec_db() == old(self).spec_db(),
            device_wire_ok(device@) && !mac_conflicts(
                old(self).spec_db(),
                domain_id,
                device_of_wire(device@).mac,
                device_of_wire(device@).device_id,
            ) && !has_device_id(old(self).spec_db(), domain_id, device_of_wire(device@).device_id)
                ==> r == Result::<wire::Device, DeviceError>::Err(DeviceError::NoSuchDevice)
                && final(self).spec_db() == old(self).spec_db(),
            device_wire_ok(device@) && !mac_conflicts(
                old(self).spec_db(),
                domain_id,
                device_of_wire(device@).mac,
                device_of_wire(device@).device_id,
            ) && has_device_id(old(self).spec_db(), domain_id, device_of_wire(device@).device_id)
                ==> (r matches Ok(w) && w.deep_view() == device_to_wire(device_of_wire(device@))
                && exists|ix: int|
                0 <= ix < old(self).spec_db().devices.len() && (#[trigger] old(
                    self,
                ).spec_db().devices[ix]).domain_id == domain_id && old(
                    self,
                ).spec_db().devices[ix].device.device_id == device_of_wire(device@).device_id
                    && final(self).spec_db() == (DatabaseV {
                    devices: old(self).spec_db().devices.update(
                        ix,
                        (DeviceRowV { domain_id, device: device_of_wire(device@) }),
                    ),
                    ..old(self).spec_db()
                })),
    {
        let model = match DeviceModel::try_from(device) {
            Ok(m) => m,
            Err(e) => {
                return Err(e);
            },
        };
        let pool = self.take_pool();
        let mut db = DomainDatabase::new(pool, domain_id);
        let out = db.update_device(model);
        self.dbpool = db.into_pool();
        match out {
            Ok(m) => Ok(m.to_protobuf(false)),
            Err(e) => Err(e),
        }
    }

    /// Fetch one device by its `devices/{}` resource name.
    pub fn get_device_internal(&mut self, domain_id: u128, name: &str) -> (r: Result<
        wire::Device,
        DeviceError,
    >)
        requires
            old(self).wf(),
        ensures
            final(self).wf(),
            final(self).spec_db() == old(self).spec_db(),
            !device_name_ok(name@) ==> r == Result::<wire::Device, DeviceError>::Err(
                DeviceError::InvalidDeviceId,
            ),
            device_name_ok(name@) && !has_device_id(
                old(self).spec_db(),
                domain_id,
                device_name_id(name@),
            ) ==> r == Result::<wire::Device, DeviceError>::Err(DeviceError::NoSuchDevice),
            device_name_ok(name@) && has_device_id(
                old(self).spec_db(),
                domain_id,
                device_name_id(name@),
            ) ==> (r matches Ok(w) && exists|i: int|
                0 <= i < old(self).spec_db().devices.len() && (#[trigger] old(
                    self,
                ).spec_db().devices[i]).domain_id == domain_id && old(
                    self,
                ).spec_db().devices[i].device.device_id == device_name_id(name@) && w.deep_view()
                    == device_to_wire(old(self).spec_db().devices[i].device)),
    {
        let id = match ResourceName::try_from(name, "devices/{}") {
            Ok(rn) => match rn.get("devices") {
                Ok(id) => id,
                Err(_) => {
                    return Err(DeviceError::InvalidDeviceId);
                },
            },
            Err(_) => {
                return Err(DeviceError::InvalidDeviceId);
            },
        };
        let pool = self.take_pool();
        let db = DomainDatabase::new(pool, domain_id);
        let out = db.fetch_one_device(UniqueDeviceFilter::DeviceId(id));
        self.dbpool = db.into_pool();
        match out {
            Ok(m) => Ok(m.to_protobuf(false)),
            Err(e) => Err(e),
        }
    }

    /// List this tenant's devices whose display name contains the filter
    /// text.
    pub fn list_device_internal(&mut self, domain_id: u128, name_filter: String) -> (r: Result<
        Vec<wire::Device>,
        DeviceError,
    >)
        requires
            old(self).wf(),
        ensures
            final(self).wf(),
            final(self).spec_db() == old(self).spec_db(),
            r matches Ok(v) && v.deep_view() == seq_filter(
                old(self).spec_db().devices,
                device_list_pred(domain_id, name_filter@),
            ).map_values(|row: DeviceRowV| device_to_wire(row.device)),
    {
        let pool = self.take_pool();
        let db = DomainDatabase::new(pool, domain_id);
        let out = db.fetch_many_device(DeviceFilter::NameFilter(name_filter));
        self.dbpool = db.into_pool();
        let models = match out {
            Ok(v) => v,
            Err(e) => {
                return Err(e);
            },
        };
        let ghost models_v = models.deep_view();
        let mut wires: Vec<wire::Device> = Vec::new();
        let mut rest = models;
        let n = rest.len();
        let mut i: usize = 0;
        while i < n
            invariant
                n == models_v.len(),
                rest@.len() == n - i,
                forall|j: int| 0 <= j < rest@.len() ==> #[trigger] rest@[j]@ == models_v[i + j],
                i <= n,
                wires@.len() == i,
                forall|j: int|
                    0 <= j < i ==> #[trigger] wires@[j].deep_view() == device_to_wire(models_v[j]),
            decreases n - i,
        {
            let ghost rest_pre = rest@;
            let m = rest.remove(0);
            proof {
                assert(m == rest_pre[0]);
                assert(m@ == models_v[i as int]);
                assert forall|j: int| 0 <= j < rest@.len() implies #[trigger] rest@[j]@
                    == models_v.index(i + 1 + j) by {
                    assert(rest@[j] == rest_pre[j + 1]);
                }
            }
            wires.push(m.to_protobuf(false));
            i = i + 1;
        }
        proof {
            assert(wires.deep_view() =~= seq_filter(
                old(self).spec_db().devices,
                device_list_pred(domain_id, name_filter@),
            ).map_values(|row: DeviceRowV| device_to_wire(row.device))) by {
                let filtered = seq_filter(
                    old(self).spec_db().devices,
                    device_list_pred(domain_id, name_filter@),
                );
                assert(models_v == filtered.map_values(|row: DeviceRowV| row.device));
                assert forall|j: int| 0 <= j < n implies #[trigger] wires.deep_view()[j]
                    == filtered.map_values(|row: DeviceRowV| device_to_wire(row.device)).index(
                    j,
                ) by {
                    assert(wires.deep_view()[j] == wires@[j].deep_view());
                    assert(models_v[j] == filtered.map_values(|row: DeviceRowV| row.device)[j]);
                }
            }
        }
        Ok(wires)
    }

    /// Delete one device by its `devices/{}` resource name.
    pub fn delete_device_internal(&mut self, domain_id: u128, name: &str) -> (r: Result<
        (),
        DeviceError,
    >)
        requires
            old(self).wf(),
        ensures
            final(self).wf(),
            !device_name_ok(name@) ==> r == Result::<(), DeviceError>::Err(
                DeviceError::InvalidDeviceId,
            ) && final(self).spec_db() == old(self).spec_db(),
            device_name_ok(name@) && !has_device_id(
                old(self).spec_db(),
                domain_id,
                device_name_id(name@),
            ) ==> r == Result::<(), DeviceError>::Err(DeviceError::NoSuchDevice)
                && final(self).spec_db() == old(self).spec_db(),
            device_name_ok(name@) && has_device_id(
                old(self).spec_db(),
                domain_id,
                device_name_id(name@),
            ) ==> (r is Ok && exists|ix: int|
                0 <= ix < old(self).spec_db().devices.len() && (#[trigger] old(
                    self,
                ).spec_db().devices[ix]).domain_id == domain_id && old(
                    self,
                ).spec_db().devices[ix].device.device_id == device_name_id(name@)
                    && final(self).spec_db() == (DatabaseV {
                    devices: old(self).spec_db().devices.remove(ix),
                    ..old(self).spec_db()
                })),
    {
        let id = match ResourceName::try_from(name, "devices/{}") {
            Ok(rn) => match rn.get("devices") {
                Ok(id) => id,
                Err(_) => {
                    return Err(DeviceError::InvalidDeviceId);
                },
            },
            Err(_) => {
                return Err(DeviceError::InvalidDeviceId);
            },
        };
        let pool = self.take_pool();
        let mut db = DomainDatabase::new(pool, domain_id);
        let out = db.delete_device(id);
        self.dbpool = db.into_pool();
        out
    }
}

impl DeviceService {
    /// Fetch one feature by its `features/{}` resource name.
    pub fn get_feature_inner(&mut self, domain_id: u128, name: &str) -> (r: Result<
        wire::Feature,
        Error,
    >)
        requires
            old(self).wf(),
        ensures
            final(self).wf(),
            final(self).spec_db() == old(self).spec_db(),
            !feature_name_ok(name@) ==> r == Result::<wire::Feature, Error>::Err(Error::NameError),
            feature_name_ok(name@) && !has_feature(
                old(self).spec_db(),
                domain_id,
                feature_name_id(name@),
            ) ==> r == Result::<wire::Feature, Error>::Err(
                Error::NoSuchResourceError("Feature", feature_name_id(name@)),
            ),
            feature_name_ok(name@) && has_feature(
                old(self).spec_db(),
                domain_id,
                feature_name_id(name@),
            ) ==> (r matches Ok(w) && exists|i: int|
                0 <= i < old(self).spec_db().features.len() && (#[trigger] old(
                    self,
                ).spec_db().features[i]).domain_id == domain_id && old(
                    self,
                ).spec_db().features[i].id == feature_name_id(name@) && w.deep_view()
                    == feature_to_wire(old(self).spec_db().features[i])),
    {
        let feature_id = match FeatureName::try_from(name) {
            Ok(n) => n.0,
            Err(e) => {
                return Err(e);
            },
        };
        let pool = self.take_pool();
        let db = DomainDatabase::new(pool, domain_id);
        let out = db.fetch_one_feature(feature_id);
        self.dbpool = db.into_pool();
        match out {
            Ok(m) => Ok(m.to_protobuf(false)),
            Err(e) => Err(e),
        }
    }

    /// Create a feature: any client-supplied identifier is discarded, the
    /// type discriminant is validated, and the store assigns a fresh
    /// identifier.
    pub fn create_feature_inner(&mut self, domain_id: u128, feature: wire::Feature) -> (r: Result<
        wire::Feature,
        Error,
    >)
        requires
            old(self).wf(),
        ensures
            final(self).wf(),
            feature@.feature_type != 1 ==> (r matches Err(e) && (e matches Error::ValueError(s, t)
                && s@ == (if feature@.feature_type == 0 {
                "Unspecified"@
            } else {
                dec_i32(feature@.feature_type)
            }) && t@ == "FeatureType"@)) && final(self).spec_db() == old(self).spec_db(),
            feature@.feature_type == 1 && old(self).spec_db().next_id < u128::MAX ==> (r matches
                Ok(w) && w.deep_view() == feature_to_wire(
                (FeatureModelV {
                    id: old(self).spec_db().next_id,
                    domain_id,
                    display_name: feature@.display_name,
                    feature_type: FeatureType::Light,
                }),
            ) && final(self).spec_db() == (DatabaseV {
                features: old(self).spec_db().features.push(
                    (FeatureModelV {
                        id: old(self).spec_db().next_id,
                        domain_id,
                        display_name: feature@.display_name,
                        feature_type: FeatureType::Light,
                    }),
                ),
                next_id: (old(self).spec_db().next_id + 1) as u128,
                ..old(self).spec_db()
            })),
    {
        let model = match FeatureModel::try_from_protobuf(feature, domain_id, true) {
            Ok(m) => m,
            Err(e) => {
                return Err(e);
            },
        };
        let pool = self.take_pool();
        let mut db = DomainDatabase::new(pool, domain_id);
        let out = db.insert_feature(model);
        self.dbpool = db.into_pool();
        match out {
            Ok(m) => Ok(m.to_protobuf(false)),
            Err(e) => Err(e),
        }
    }

    /// Update the feature named by the wire message's `features/{}` name.
    pub fn update_feature_inner(&mut self, domain_id: u128, feature: wire::Feature) -> (r: Result<
        wire::Feature,
        Error,
    >)
        requires
            old(self).wf(),
        ensures
            final(self).wf(),
            !(feature_name_ok(feature@.name) && feature@.feature_type == 1)
                ==> final(self).spec_db() == old(self).spec_db() && r is Err,
            feature_name_ok(feature@.name) && feature@.feature_type == 1 && !has_feature(
                old(self).spec_db(),
                domain_id,
                feature_name_id(feature@.name),
            ) ==> r == Result::<wire::Feature, Error>::Err(
                Error::NoSuchResourceError("Feature", feature_name_id(feature@.name)),
            ) && final(self).spec_db() == old(self).spec_db(),
            feature_name_ok(feature@.name) && feature@.feature_type == 1 && has_feature(
                old(self).spec_db(),
                domain_id,
                feature_name_id(feature@.name),
            ) ==> (r matches Ok(w) && w.deep_view() == feature_to_wire(
                (FeatureModelV {
                    id: feature_name_id(feature@.name),
                    domain_id,
                    display_name: feature@.display_name,
                    feature_type: FeatureType::Light,
                }),
            ) && exists|ix: int|
                0 <= ix < old(self).spec_db().features.len() && (#[trigger] old(
                    self,
                ).spec_db().features[ix]).domain_id == domain_id && old(
                    self,
                ).spec_db().features[ix].id == feature_name_id(feature@.name)
                    && final(self).spec_db() == (DatabaseV {
                    features: old(self).spec_db().features.update(
                        ix,
                        (FeatureModelV {
                            id: feature_name_id(feature@.name),
                            domain_id,
                            display_name: feature@.display_name,
                            feature_type: FeatureType::Light,
                        }),
                    ),
                    ..old(self).spec_db()
                })),
    {
        let model = match FeatureModel::try_from_protobuf(feature, domain_id, false) {
            Ok(m) => m,
            Err(e) => {
                return Err(e);
            },
        };
        let pool = self.take_pool();
        let mut db = DomainDatabase::new(pool, domain_id);
        let out = db.update_feature(model);
        self.dbpool = db.into_pool();
        match out {
            Ok(m) => Ok(m.to_protobuf(false)),
            Err(e) => Err(e),
        }
    }

    /// Delete one feature by its `features/{}` resource name.
    pub fn delete_feature_inner(&mut self, domain_id: u128, name: &str) -> (r: Result<(), Error>)
        requires
            old(self).wf(),
        ensures
            final(self).wf(),
            !feature_name_ok(name@) ==> r == Result::<(), Error>::Err(Error::NameError)
                && final(self).spec_db() == old(self).spec_db(),
            feature_name_ok(name@) && !has_feature(
                old(self).spec_db(),
                domain_id,
                feature_name_id(name@),
            ) ==> r == Result::<(), Error>::Err(
                Error::NoSuchResourceError("Feature", feature_name_id(name@)),
            ) && final(self).spec_db() == old(self).spec_db(),
            feature_name_ok(name@) && has_feature(
                old(self).spec_db(),
                domain_id,
                feature_name_id(name@),
            ) && has_fp_with_feature(old(self).spec_db(), feature_name_id(name@)) ==> (r matches
                Err(e) && e matches Error::DatabaseError(_)) && final(self).spec_db() == old(
                self,
            ).spec_db(),
            feature_name_ok(name@) && has_feature(
                old(self).spec_db(),
                domain_id,
                feature_name_id(name@),
            ) && !has_fp_with_feature(old(self).spec_db(), feature_name_id(name@)) ==> (r is Ok
                && exists|ix: int|
                0 <= ix < old(self).spec_db().features.len() && (#[trigger] old(
                    self,
                ).spec_db().features[ix]).domain_id == domain_id && old(
                    self,
                ).spec_db().features[ix].id == feature_name_id(name@) && final(self).spec_db()
                    == (DatabaseV {
                    features: old(self).spec_db().features.remove(ix),
                    ..old(self).spec_db()
                })),
    {
        let feature_id = match FeatureName::try_from(name) {
            Ok(n) => n.0,
            Err(e) => {
                return Err(e);
            },
        };
        let pool = self.take_pool();
        let mut db = DomainDatabase::new(pool, domain_id);
        let out = db.delete_feature(feature_id);
        self.dbpool = db.into_pool();
        out
    }

    /// Fetch one profile by its `profiles/{}` resource name, with exactly
    /// its own feature profiles.
    pub fn get_profile_inner(&mut self, domain_id: u128, name: &str) -> (r: Result<
        wire::Profile,
        Error,
    >)
        requires
            old(self).wf(),
        ensures
            final(self).wf(),
            final(self).spec_db() == old(self).spec_db(),
            !profile_name_ok(name@) ==> r == Result::<wire::Profile, Error>::Err(Error::NameError),
            profile_name_ok(name@) && !has_profile(
                old(self).spec_db(),
                domain_id,
                profile_name_id(name@),
            ) ==> r == Result::<wire::Profile, Error>::Err(
                Error::NoSuchResourceError("Profile", profile_name_id(name@)),
            ),
            profile_name_ok(name@) && has_profile(
                old(self).spec_db(),
                domain_id,
                profile_name_id(name@),
            ) ==> (r matches Ok(w) && exists|ix: int|
                #[trigger] profile_row_at(
                    old(self).spec_db(),
                    domain_id,
                    profile_name_id(name@),
                    ix,
                ) && w.deep_view() == profile_to_wire(
                    (ProfileModelV {
                        id: profile_name_id(name@),
                        domain_id,
                        display_name: old(self).spec_db().profiles[ix].display_name,
                        feature_profiles: seq_filter(
                            old(self).spec_db().feature_profiles,
                            fp_join_pred(old(self).spec_db(), domain_id, profile_name_id(name@)),
                        ),
                    }),
                )),
    {
        let profile_id = match ProfileName::try_from(name) {
            Ok(n) => n.0,
            Err(e) => {
                return Err(e);
            },
        };
        let pool = self.take_pool();
        let db = DomainDatabase::new(pool, domain_id);
        let out = db.fetch_one_profile(profile_id);
        self.dbpool = db.into_pool();
        match out {
            Ok(m) => Ok(m.to_protobuf(true)),
            Err(e) => Err(e),
        }
    }

    /// Create a profile: client-supplied identifiers are discarded, each
    /// carried feature profile is validated and re-keyed to the new
    /// profile, and the stored aggregate is answered.
    #[verifier::loop_isolation(false)]
    pub fn create_profile_inner(&mut self, domain_id: u128, profile: wire::Profile) -> (r: Result<
        wire::Profile,
        Error,
    >)
        requires
            old(self).wf(),
        ensures
            final(self).wf(),
            r matches Ok(w) ==> w.deep_view().name == crate::profile::spec_profile_name(
                old(self).spec_db().next_id,
            ) && w.deep_view().display_name == profile@.display_name,
            !(forall|k: int|
                0 <= k < profile@.feature_profiles.len() ==> ((#[trigger] profile@.feature_profiles[k]).config
                    is Some && feature_name_ok(profile@.feature_profiles[k].feature_name))) ==> r
                is Err && final(self).spec_db() == old(self).spec_db(),
            (forall|k: int|
                0 <= k < profile@.feature_profiles.len() ==> ((#[trigger] profile@.feature_profiles[k]).config
                    is Some && feature_name_ok(profile@.feature_profiles[k].feature_name)
                    && has_feature(
                    old(self).spec_db(),
                    domain_id,
                    feature_name_id(profile@.feature_profiles[k].feature_name),
                ))) && old(self).spec_db().next_id as int + profile@.feature_profiles.len()
                < u128::MAX as int ==> (r matches Ok(w) && final(self).spec_db() == (DatabaseV {
                profiles: old(self).spec_db().profiles.push(
                    (ProfileRowV {
                        id: old(self).spec_db().next_id,
                        domain_id,
                        display_name: profile@.display_name,
                    }),
                ),
                feature_profiles: old(self).spec_db().feature_profiles + appended_fps(
                    Seq::new(
                        profile@.feature_profiles.len(),
                        |k: int| stripped_fp_of_wire(profile@.feature_profiles[k]),
                    ),
                    domain_id,
                    old(self).spec_db().next_id,
                    old(self).spec_db().next_id,
                    profile@.feature_profiles.len() as int,
                ),
                next_id: (old(self).spec_db().next_id + 1
                    + profile@.feature_profiles.len()) as u128,
                ..old(self).spec_db()
            }) && w.deep_view() == profile_to_wire(
                (ProfileModelV {
                    id: old(self).spec_db().next_id,
                    domain_id,
                    display_name: profile@.display_name,
                    feature_profiles: seq_filter(
                        final(self).spec_db().feature_profiles,
                        fp_join_pred(final(self).spec_db(), domain_id, old(self).spec_db().next_id),
                    ),
                }),
            )),
    {
        let ghost in_fps = profile@.feature_profiles;
        let mut fps: Vec<FeatureProfileModel> = Vec::new();
        let mut rest = profile.feature_profiles;
        let n = rest.len();
        let mut i: usize = 0;
        while i < n
            invariant
                self.wf(),
                self.spec_db() == old(self).spec_db(),
                n == in_fps.len(),
                rest@.len() == n - i,
                forall|j: int| 0 <= j < rest@.len() ==> #[trigger] rest@[j]@ == in_fps[i + j],
                i <= n,
                fps@.len() == i,
                forall|j: int|
                    0 <= j < i ==> (#[trigger] in_fps[j]).config is Some && feature_name_ok(
                        in_fps[j].feature_name,
                    ),
                forall|j: int| 0 <= j < i ==> #[trigger] fps@[j]@ == stripped_fp_of_wire(in_fps[j]),
            decreases n - i,
        {
            let ghost rest_pre = rest@;
            let fp = rest.remove(0);
            proof {
                assert(fp == rest_pre[0]);
                assert(fp@ == in_fps[i as int]);
                assert forall|j: int| 0 <= j < rest@.len() implies #[trigger] rest@[j]@
                    == in_fps.index(i + 1 + j) by {
                    assert(rest@[j] == rest_pre[j + 1]);
                }
            }
            let (feature_type, light_profile) = match fp.config {
                Some(c) => match c {
                    wire::FeatureProfileConfig::LightProfile(p) => (FeatureType::Light, p),
                },
                None => {
                    proof {
                        assert((profile@.feature_profiles[i as int]).config is None);
                    }
                    return Err(
                        Error::ValueError(
                            String::from_str("None"),
                            "FeatureProfile.config",
                        ),
                    );
                },
            };
            let feature_id = match FeatureName::try_from(fp.feature_name.as_str()) {
                Ok(fname) => fname.0,
                Err(e) => {
                    proof {
                        assert(!feature_name_ok(profile@.feature_profiles[i as int].feature_name));
                    }
                    return Err(e);
                },
            };
            let model = match FeatureProfileModel::try_new(
                0,
                0,
                fp.display_name,
                0,
                feature_id,
                feature_type,
                wire::FeatureProfileConfig::LightProfile(light_profile),
            ) {
                Ok(m) => m,
                Err(e) => {
                    return Err(e);
                },
            };
            fps.push(model);
            i = i + 1;
        }
        let model = ProfileModel::new(0, domain_id, profile.display_name, fps);
        proof {
            assert(model@.feature_profiles =~= Seq::new(
                in_fps.len(),
                |k: int| stripped_fp_of_wire(in_fps[k]),
            ));
        }
        let pool = self.take_pool();
        let mut db = DomainDatabase::new(pool, domain_id);
        let ghost db0 = old(self).spec_db();
        let out = db.insert_profile(model);
        self.dbpool = db.into_pool();
        proof {
            if (forall|k: int|
                0 <= k < in_fps.len() ==> ((#[trigger] in_fps[k]).config is Some
                    && feature_name_ok(in_fps[k].feature_name) && has_feature(
                    db0,
                    domain_id,
                    feature_name_id(in_fps[k].feature_name),
                ))) && db0.next_id as int + in_fps.len() < u128::MAX as int {
                assert forall|k: int| 0 <= k < model@.feature_profiles.len() implies has_feature(
                    db0,
                    domain_id,
                    (#[trigger] model@.feature_profiles[k]).feature_id,
                ) by {
                    assert(model@.feature_profiles[k] == stripped_fp_of_wire(in_fps[k]));
                    assert((in_fps[k]).config is Some);
                }
                assert(out is Ok);
            }
        }
        match out {
            Ok(m) => {
                let w = m.to_protobuf(true);
                proof {
                    if (forall|k: int|
                        0 <= k < in_fps.len() ==> ((#[trigger] in_fps[k]).config is Some
                            && feature_name_ok(in_fps[k].feature_name) && has_feature(
                            db0,
                            domain_id,
                            feature_name_id(in_fps[k].feature_name),
                        ))) && db0.next_id as int + in_fps.len() < u128::MAX as int {
                        assert(self.spec_db().feature_profiles == db0.feature_profiles
                            + appended_fps(
                            Seq::new(in_fps.len(), |k: int| stripped_fp_of_wire(in_fps[k])),
                            domain_id,
                            db0.next_id,
                            db0.next_id,
                            in_fps.len() as int,
                        ));
                        assert(self.spec_db() == (DatabaseV {
                            profiles: db0.profiles.push(
                                (ProfileRowV {
                                    id: db0.next_id,
                                    domain_id,
                                    display_name: profile@.display_name,
                                }),
                            ),
                            feature_profiles: db0.feature_profiles + appended_fps(
                                Seq::new(in_fps.len(), |k: int| stripped_fp_of_wire(in_fps[k])),
                                domain_id,
                                db0.next_id,
                                db0.next_id,
                                in_fps.len() as int,
                            ),
                            next_id: (db0.next_id + 1 + in_fps.len()) as u128,
                            ..db0
                        }));
                        assert(m@ == (ProfileModelV {
                            id: db0.next_id,
                            domain_id,
                            display_name: profile@.display_name,
                            feature_profiles: seq_filter(
                                self.spec_db().feature_profiles,
                                fp_join_pred(self.spec_db(), domain_id, db0.next_id),
                            ),
                        }));
                    }
                }
                Ok(w)
            },
            Err(e) => Err(e),
        }
    }

    /// Update the profile named by the wire message's `profiles/{}` name,
    /// replacing its display name, and answer with the stored aggregate.
    pub fn update_profile_inner(&mut self, domain_id: u128, profile: wire::Profile) -> (r: Result<
        wire::Profile,
        Error,
    >)
        requires
            old(self).wf(),
        ensures
            final(self).wf(),
            !profile_name_ok(profile@.name) ==> r == Result::<wire::Profile, Error>::Err(
                Error::NameError,
            ) && final(self).spec_db() == old(self).spec_db(),
            profile_name_ok(profile@.name) && (forall|k: int|
                0 <= k < profile@.feature_profiles.len()
                    ==> crate::feature_profile::fp_wire_ok(#[trigger] profile@.feature_profiles[k]))
                && !has_profile(old(self).spec_db(), domain_id, profile_name_id(profile@.name))
                ==> r == Result::<wire::Profile, Error>::Err(
                Error::NoSuchResourceError("Profile", profile_name_id(profile@.name)),
            ) && final(self).spec_db() == old(self).spec_db(),
            profile_name_ok(profile@.name) && (forall|k: int|
                0 <= k < profile@.feature_profiles.len()
                    ==> crate::feature_profile::fp_wire_ok(#[trigger] profile@.feature_profiles[k]))
                && has_profile(old(self).spec_db(), domain_id, profile_name_id(profile@.name))
                ==> (r matches Ok(w) && w.deep_view() == profile_to_wire(
                (ProfileModelV {
                    id: profile_name_id(profile@.name),
                    domain_id,
                    display_name: profile@.display_name,
                    feature_profiles: seq_filter(
                        old(self).spec_db().feature_profiles,
                        fp_join_pred(
                            final(self).spec_db(),
                            domain_id,
                            profile_name_id(profile@.name),
                        ),
                    ),
                }),
            ) && exists|ix: int|
                #[trigger] profile_row_at(
                    old(self).spec_db(),
                    domain_id,
                    profile_name_id(profile@.name),
                    ix,
                ) && final(self).spec_db() == (DatabaseV {
                    profiles: old(self).spec_db().profiles.update(
                        ix,
                        (ProfileRowV {
                            id: profile_name_id(profile@.name),
                            domain_id,
                            display_name: profile@.display_name,
                        }),
                    ),
                    ..old(self).spec_db()
                })),
    {
        let model = match ProfileModel::try_from_protobuf(profile, domain_id, false) {
            Ok(m) => m,
            Err(e) => {
                return Err(e);
            },
        };
        let pool = self.take_pool();
        let mut db = DomainDatabase::new(pool, domain_id);
        let out = db.update_profile(model);
        self.dbpool = db.into_pool();
        match out {
            Ok(m) => Ok(m.to_protobuf(true)),
            Err(e) => Err(e),
        }
    }

    /// Delete one profile by its `profiles/{}` resource name; its feature
    /// profiles go with it.
    pub fn delete_profile_inner(&mut self, domain_id: u128, name: &str) -> (r: Result<(), Error>)
        requires
            old(self).wf(),
        ensures
            final(self).wf(),
            !profile_name_ok(name@) ==> r == Result::<(), Error>::Err(Error::NameError)
                && final(self).spec_db() == old(self).spec_db(),
            profile_name_ok(name@) && !has_profile(
                old(self).spec_db(),
                domain_id,
                profile_name_id(name@),
            ) ==> r == Result::<(), Error>::Err(
                Error::NoSuchResourceError("Profile", profile_name_id(name@)),
            ) && final(self).spec_db() == old(self).spec_db(),
            profile_name_ok(name@) && has_profile(
                old(self).spec_db(),
                domain_id,
                profile_name_id(name@),
            ) ==> (r is Ok && exists|ix: int|
                #[trigger] profile_row_at(
                    old(self).spec_db(),
                    domain_id,
                    profile_name_id(name@),
                    ix,
                ) && final(self).spec_db() == (DatabaseV {
                    profiles: old(self).spec_db().profiles.remove(ix),
                    feature_profiles: seq_filter(
                        old(self).spec_db().feature_profiles,
                        cascade_pred(profile_name_id(name@)),
                    ),
                    ..old(self).spec_db()
                })),
    {
        let profile_id = match ProfileName::try_from(name) {
            Ok(n) => n.0,
            Err(e) => {
                return Err(e);
            },
        };
        let pool = self.take_pool();
        let mut db = DomainDatabase::new(pool, domain_id);
        let out = db.delete_profile(profile_id);
        self.dbpool = db.into_pool();
        out
    }
}

} // verus!
