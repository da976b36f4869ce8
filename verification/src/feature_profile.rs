//! Feature profiles: the typed configuration of one feature within one
//! profile, and their wire translation.

use crate::error::Error;
use crate::feature::{feature_name_id, feature_name_ok, spec_feature_name, FeatureName, FeatureType};
use crate::name::{spec_lookup, spec_parse, spec_render, ResourceName};
use crate::protobuf::ToProtobuf;
use crate::wire;
use vstd::prelude::*;
use vstd::string::StringExecFns;

verus! {

/// The configuration payload of a feature profile, tagged by the feature
/// type it is meant for.
#[derive(Debug, PartialEq)]
pub enum FeatureProfileConfig {
    Light(wire::LightProfile),
}

/// The abstract value of a configuration payload.
pub enum FeatureProfileConfigV {
    Light(Seq<wire::DailySchedule>),
}

impl View for FeatureProfileConfig {
    type V = FeatureProfileConfigV;

    open spec fn view(&self) -> FeatureProfileConfigV {
        match self {
            FeatureProfileConfig::Light(p) => FeatureProfileConfigV::Light(p@),
        }
    }
}

impl Clone for FeatureProfileConfig {
    fn clone(&self) -> (res: Self)
        ensures
            res@ == self@,
    {
        match self {
            FeatureProfileConfig::Light(p) => FeatureProfileConfig::Light(p.clone()),
        }
    }
}

/// The feature type a payload is shaped for.
pub open spec fn payload_type(c: FeatureProfileConfigV) -> FeatureType {
    match c {
        FeatureProfileConfigV::Light(_) => FeatureType::Light,
    }
}

/// A feature profile row: one feature's configuration within one profile,
/// owned by one tenant.
#[derive(Debug, PartialEq)]
pub struct FeatureProfileModel {
    id: u128,
    domain_id: u128,
    display_name: String,
    profile_id: u128,
    feature_id: u128,
    config: FeatureProfileConfig,
}

/// The abstract value of a feature profile.
pub struct FeatureProfileModelV {
    pub id: u128,
    pub domain_id: u128,
    pub display_name: Seq<char>,
    pub profile_id: u128,
    pub feature_id: u128,
    pub config: FeatureProfileConfigV,
}

impl View for FeatureProfileModel {
    type V = FeatureProfileModelV;

    closed spec fn view(&self) -> FeatureProfileModelV {
        FeatureProfileModelV {
            id: self.id,
            domain_id: self.domain_id,
            display_name: self.display_name@,
            profile_id: self.profile_id,
            feature_id: self.feature_id,
            config: self.config@,
        }
    }
}

impl DeepView for FeatureProfileModel {
    type V = FeatureProfileModelV;

    open spec fn deep_view(&self) -> FeatureProfileModelV {
        self@
    }
}

impl Clone for FeatureProfileModel {
    fn clone(&self) -> (res: Self)
        ensures
            res@ == self@,
    {
        FeatureProfileModel {
            id: self.id,
            domain_id: self.domain_id,
            display_name: self.display_name.clone(),
            profile_id: self.profile_id,
            feature_id: self.feature_id,
            config: self.config.clone(),
        }
    }
}

impl FeatureProfileModel {
    /// Assemble a feature profile, interpreting the payload according to
    /// the feature type fetched alongside it. The payload's own tag must
    /// agree with that type; no variant is ever assumed by default. With
    /// every payload typed, the two cannot disagree today, so assembly
    /// always succeeds.
    pub fn try_new(
        id: u128,
        domain_id: u128,
        display_name: String,
        profile_id: u128,
        feature_id: u128,
        feature_type: FeatureType,
        config: wire::FeatureProfileConfig,
    ) -> (r: Result<Self, Error>)
        ensures
            r is Ok,
            r matches Ok(m) ==> m@ == (FeatureProfileModelV {
                id,
                domain_id,
                display_name: display_name@,
                profile_id,
                feature_id,
                config: match config@ {
                    wire::FeatureProfileConfigV::LightProfile(p) => FeatureProfileConfigV::Light(p),
                },
            }) && payload_type(m@.config) == feature_type,
    {
        let parsed_config = match (feature_type, config) {
            (FeatureType::Light, wire::FeatureProfileConfig::LightProfile(p)) => {
                FeatureProfileConfig::Light(p)
            },
        };
        Ok(
            FeatureProfileModel {
                id,
                domain_id,
                display_name,
                profile_id,
                feature_id,
                config: parsed_config,
            },
        )
    }

    pub fn id(&self) -> (r: u128)
        ensures
            r == self@.id,
    {
        self.id
    }

    pub fn domain_id(&self) -> (r: u128)
        ensures
            r == self@.domain_id,
    {
        self.domain_id
    }

    pub fn display_name(&self) -> (r: String)
        ensures
            r@ == self@.display_name,
    {
        self.display_name.clone()
    }

    pub fn profile_id(&self) -> (r: u128)
        ensures
            r == self@.profile_id,
    {
        self.profile_id
    }

    pub fn set_profile_id(&mut self, profile_id: u128)
        ensures
            final(self)@ == (FeatureProfileModelV { profile_id, ..old(self)@ }),
    {
        self.profile_id = profile_id
    }

    pub fn feature_id(&self) -> (r: u128)
        ensures
            r == self@.feature_id,
    {
        self.feature_id
    }

    pub fn config(&self) -> (r: FeatureProfileConfig)
        ensures
            r@ == self@.config,
    {
        self.config.clone()
    }

    /// The feature type this payload is shaped for.
    pub fn payload_feature_type(&self) -> (r: FeatureType)
        ensures
            r == payload_type(self@.config),
    {
        match &self.config {
            FeatureProfileConfig::Light(_) => FeatureType::Light,
        }
    }

    /// Whether this payload is shaped for the given feature type.
    pub fn config_matches(&self, t: FeatureType) -> (r: bool)
        ensures
            r == (payload_type(self@.config) == t),
    {
        match (&self.config, t) {
            (FeatureProfileConfig::Light(_), FeatureType::Light) => true,
        }
    }

    /// The payload in its wire form.
    pub fn config_wire(&self) -> (r: wire::FeatureProfileConfig)
        ensures
            self@.config == match r@ {
                wire::FeatureProfileConfigV::LightProfile(p) => FeatureProfileConfigV::Light(p),
            },
    {
        match &self.config {
            FeatureProfileConfig::Light(p) => wire::FeatureProfileConfig::LightProfile(p.clone()),
        }
    }

    /// Build a feature profile from its wire form. The payload must be
    /// present, and both names must parse.
    pub fn try_from(value: wire::FeatureProfile) -> (r: Result<Self, Error>)
        ensures
            r is Ok <==> fp_wire_ok(value@),
            r matches Ok(m) ==> m@ == fp_of_wire(value@),
            r matches Err(e) ==> fp_wire_err_matches(value@, e),
    {
        let (feature_type, light_profile) = match value.config {
            Some(c) => match c {
                wire::FeatureProfileConfig::LightProfile(p) => (FeatureType::Light, p),
            },
            None => {
                return Err(Error::ValueError(String::from_str("None"), "FeatureProfile.config"));
            },
        };
        let name = match FeatureProfileName::try_from(value.name.as_str()) {
            Ok(n) => n,
            Err(e) => {
                return Err(e);
            },
        };
        let feature_id = match FeatureName::try_from(value.feature_name.as_str()) {
            Ok(n) => n.0,
            Err(e) => {
                return Err(e);
            },
        };
        FeatureProfileModel::try_new(
            name.1,
            0,
            value.display_name,
            name.0,
            feature_id,
            feature_type,
            wire::FeatureProfileConfig::LightProfile(light_profile),
        )
    }
}

/// Whether a wire feature profile passes validation: payload present and
/// both names well-formed.
pub open spec fn fp_wire_ok(v: wire::FeatureProfileV) -> bool {
    v.config is Some && fp_name_ok(v.name) && feature_name_ok(v.feature_name)
}

/// The model a valid wire feature profile denotes.
pub open spec fn fp_of_wire(v: wire::FeatureProfileV) -> FeatureProfileModelV {
    FeatureProfileModelV {
        id: fp_name_id(v.name),
        domain_id: 0,
        display_name: v.display_name,
        profile_id: fp_name_profile_id(v.name),
        feature_id: feature_name_id(v.feature_name),
        config: match v.config->0 {
            wire::FeatureProfileConfigV::LightProfile(p) => FeatureProfileConfigV::Light(p),
        },
    }
}

/// The error a rejected wire feature profile earns: a missing payload is
/// reported before either name is looked at.
pub open spec fn fp_wire_err_matches(v: wire::FeatureProfileV, e: Error) -> bool {
    if v.config is None {
        e matches Error::ValueError(s, t) && s@ == "None"@ && t@ == "FeatureProfile.config"@
    } else {
        e == Error::NameError
    }
}

/// The rendered `profiles/{}/features/{}` name of a pair of identifiers.
pub open spec fn spec_feature_profile_name(profile_id: u128, id: u128) -> Seq<char> {
    spec_render(seq![("profiles"@, profile_id), ("features"@, id)])
}

/// Whether `name` parses as a `profiles/{}/features/{}` resource name.
pub open spec fn fp_name_ok(name: Seq<char>) -> bool {
    spec_parse(name, "profiles/{}/features/{}"@) matches Some(fs) && spec_lookup(
        fs,
        "profiles"@,
        0,
    ) is Some && spec_lookup(fs, "features"@, 0) is Some
}

/// The profile identifier inside a well-formed name.
pub open spec fn fp_name_profile_id(name: Seq<char>) -> u128 {
    spec_lookup(spec_parse(name, "profiles/{}/features/{}"@)->0, "profiles"@, 0)->0
}

/// The feature-profile identifier inside a well-formed name.
pub open spec fn fp_name_id(name: Seq<char>) -> u128 {
    spec_lookup(spec_parse(name, "profiles/{}/features/{}"@)->0, "features"@, 0)->0
}

/// The external handle of a feature profile: the owning profile's
/// identifier and its own, under the `profiles/{}/features/{}` template.
#[derive(Debug)]
pub struct FeatureProfileName(pub u128, pub u128);

impl FeatureProfileName {
    pub fn new(profile_id: u128, feature_profile_id: u128) -> (r: Self)
        ensures
            r.0 == profile_id,
            r.1 == feature_profile_id,
    {
        FeatureProfileName(profile_id, feature_profile_id)
    }

    /// The handle with a nil feature-profile identifier, used to strip
    /// client-supplied identifiers.
    pub fn nil(profile_id: u128) -> (r: Self)
        ensures
            r.0 == profile_id,
            r.1 == 0,
    {
        FeatureProfileName(profile_id, 0)
    }

    /// Parse a `profiles/{}/features/{}` resource name.
    pub fn try_from(value: &str) -> (r: Result<Self, Error>)
        ensures
            r is Ok <==> fp_name_ok(value@),
            r matches Ok(n) ==> n.0 == fp_name_profile_id(value@) && n.1 == fp_name_id(value@),
            r matches Err(e) ==> e == Error::NameError,
    {
        let parsed = match ResourceName::try_from(value, "profiles/{}/features/{}") {
            Ok(p) => p,
            Err(e) => {
                return Err(e);
            },
        };
        let profile_id = match parsed.get("profiles") {
            Ok(id) => id,
            Err(e) => {
                return Err(e);
            },
        };
        match parsed.get("features") {
            Ok(id) => Ok(FeatureProfileName(profile_id, id)),
            Err(e) => Err(e),
        }
    }

    /// Render the handle as `profiles/<id>/features/<id>`.
    pub fn to_string(self) -> (r: String)
        ensures
            r@ == spec_feature_profile_name(self.0, self.1),
    {
        let rn = ResourceName::new(vec![("profiles", self.0), ("features", self.1)]);
        proof {
            assert(rn@ =~= seq![("profiles"@, self.0), ("features"@, self.1)]);
        }
        rn.to_string()
    }
}

/// The wire form of a feature profile's abstract value.
pub open spec fn fp_to_wire(v: FeatureProfileModelV) -> wire::FeatureProfileV {
    wire::FeatureProfileV {
        name: spec_feature_profile_name(v.profile_id, v.id),
        display_name: v.display_name,
        feature_name: spec_feature_name(v.feature_id),
        config: Some(
            match v.config {
                FeatureProfileConfigV::Light(p) => wire::FeatureProfileConfigV::LightProfile(p),
            },
        ),
    }
}

impl ToProtobuf for FeatureProfileModel {
    type Output = wire::FeatureProfile;

    open spec fn spec_to_protobuf(self, include_nested: bool) -> wire::FeatureProfileV {
        fp_to_wire(self@)
    }

    /// Render back to the wire form; never fails.
    fn to_protobuf(self, include_nested: bool) -> (r: wire::FeatureProfile)
        ensures
            r.deep_view() == self.spec_to_protobuf(include_nested),
    {
        let config = match self.config {
            FeatureProfileConfig::Light(p) => wire::FeatureProfileConfig::LightProfile(p),
        };
        wire::FeatureProfile {
            name: FeatureProfileName::new(self.profile_id, self.id).to_string(),
            display_name: self.display_name,
            feature_name: FeatureName::new(self.feature_id).to_string(),
            config: Some(config),
        }
    }
}

impl ToProtobuf for Vec<FeatureProfileModel> {
    type Output = Vec<wire::FeatureProfile>;

    open spec fn spec_to_protobuf(self, include_nested: bool) -> Seq<wire::FeatureProfileV> {
        Seq::new(self@.len(), |i: int| fp_to_wire(self@[i]@))
    }

    /// Render each feature profile in order.
    fn to_protobuf(self, include_nested: bool) -> (r: Vec<wire::FeatureProfile>)
        ensures
            r.deep_view() == self.spec_to_protobuf(include_nested),
    {
        let ghost models = self@;
        let mut out: Vec<wire::FeatureProfile> = Vec::new();
        let mut rest = self;
        let mut i: usize = 0;
        let n = rest.len();
        while i < n
            invariant
                n == models.len(),
                rest@ == models.skip(i as int),
                i <= n,
                out@.len() == i,
                forall|j: int|
                    0 <= j < i ==> #[trigger] out@[j].deep_view() == fp_to_wire(models[j]@),
            decreases n - i,
        {
            let fp = rest.remove(0);
            proof {
                assert(fp == models[i as int]);
                assert(rest@ =~= models.skip(i as int + 1));
            }
            out.push(fp.to_protobuf(include_nested));
            i = i + 1;
        }
        proof {
            assert(out.deep_view() =~= Seq::new(models.len(), |i: int| fp_to_wire(models[i]@)));
        }
        out
    }
}

} // verus!
