//! Profiles: named bundles of per-feature configuration, and their wire
//! translation.

use crate::error::Error;
use crate::feature_profile::{
    fp_of_wire, fp_to_wire, fp_wire_err_matches, fp_wire_ok, FeatureProfileModel,
    FeatureProfileModelV,
};
use crate::name::{spec_lookup, spec_parse, spec_render, ResourceName};
use crate::protobuf::ToProtobuf;
use crate::wire;
use vstd::prelude::*;

verus! {

/// A profile: a named bundle of feature profiles owned by one tenant.
#[derive(Debug, PartialEq)]
pub struct ProfileModel {
    id: u128,
    domain_id: u128,
    display_name: String,
    feature_profiles: Vec<FeatureProfileModel>,
}

/// The abstract value of a profile.
pub struct ProfileModelV {
    pub id: u128,
    pub domain_id: u128,
    pub display_name: Seq<char>,
    pub feature_profiles: Seq<FeatureProfileModelV>,
}

impl View for ProfileModel {
    type V = ProfileModelV;

    closed spec fn view(&self) -> ProfileModelV {
        ProfileModelV {
            id: self.id,
            domain_id: self.domain_id,
            display_name: self.display_name@,
            feature_profiles: self.feature_profiles.deep_view(),
        }
    }
}

impl DeepView for ProfileModel {
    type V = ProfileModelV;

    open spec fn deep_view(&self) -> ProfileModelV {
        self@
    }
}

impl ProfileModel {
    pub fn new(
        id: u128,
        domain_id: u128,
        display_name: String,
        feature_profiles: Vec<FeatureProfileModel>,
    ) -> (r: Self)
        ensures
            r@ == (ProfileModelV {
                id,
                domain_id,
                display_name: display_name@,
                feature_profiles: feature_profiles.deep_view(),
            }),
    {
        ProfileModel { id, domain_id, display_name, feature_profiles }
    }

    pub fn id(&self) -> (r: u128)
        ensures
            r == self@.id,
    {
        self.id
    }

    pub fn domain_id(&self) -> (r: u128)
        ensures
            r == self@.domain_id,
    {
        self.domain_id
    }

    pub fn display_name(&self) -> (r: String)
        ensures
            r@ == self@.display_name,
    {
        self.display_name.clone()
    }

    /// The feature profiles attached to this profile.
    pub fn feature_profiles(&self) -> (r: Vec<FeatureProfileModel>)
        ensures
            r.deep_view() == self@.feature_profiles,
    {
        let n = self.feature_profiles.len();
        let mut out: Vec<FeatureProfileModel> = Vec::new();
        let mut i: usize = 0;
        while i < n
            invariant
                n == self.feature_profiles@.len(),
                i <= n,
                out@.len() == i,
                forall|j: int|
                    0 <= j < i ==> #[trigger] out@[j]@ == self.feature_profiles@[j]@,
            decreases n - i,
        {
            out.push(self.feature_profiles[i].clone());
            i = i + 1;
        }
        proof {
            assert(out.deep_view() =~= self@.feature_profiles);
        }
        out
    }

    pub fn add_feature_profile(&mut self, feature_profile: FeatureProfileModel)
        ensures
            final(self)@ == (ProfileModelV {
                feature_profiles: old(self)@.feature_profiles.push(feature_profile@),
                ..old(self)@
            }),
    {
        self.feature_profiles.push(feature_profile);
        proof {
            assert(self@.feature_profiles =~= old(self)@.feature_profiles.push(feature_profile@));
        }
    }

    pub fn set_feature_profiles(&mut self, feature_profiles: Vec<FeatureProfileModel>)
        ensures
            final(self)@ == (ProfileModelV {
                feature_profiles: feature_profiles.deep_view(),
                ..old(self)@
            }),
    {
        self.feature_profiles = feature_profiles
    }

    /// Build a profile from its wire form for the given tenant. With
    /// `strip_names` the identifier is forced to nil; otherwise the name
    /// must parse. Every carried feature profile must translate too.
    #[verifier::loop_isolation(false)]
    pub fn try_from_protobuf(input: wire::Profile, domain_id: u128, strip_names: bool) -> (r:
        Result<Self, Error>)
        ensures
            r is Ok <==> ((strip_names || profile_name_ok(input@.name)) && (forall|i: int|
                0 <= i < input@.feature_profiles.len() ==> fp_wire_ok(
                    #[trigger] input@.feature_profiles[i],
                ))),
            r matches Ok(m) ==> m@ == (ProfileModelV {
                id: if strip_names {
                    0
                } else {
                    profile_name_id(input@.name)
                },
                domain_id,
                display_name: input@.display_name,
                feature_profiles: Seq::new(
                    input@.feature_profiles.len(),
                    |i: int| fp_of_wire(input@.feature_profiles[i]),
                ),
            }),
            r matches Err(e) ==> (if !strip_names && !profile_name_ok(input@.name) {
                e == Error::NameError
            } else {
                exists|i: int|
                    0 <= i < input@.feature_profiles.len() && !fp_wire_ok(
                        #[trigger] input@.feature_profiles[i],
                    ) && fp_wire_err_matches(input@.feature_profiles[i], e)
            }),
    {
        let id: u128 = if strip_names {
            0
        } else {
            match ProfileName::try_from(input.name.as_str()) {
                Ok(name) => name.0,
                Err(e) => {
                    return Err(e);
                },
            }
        };
        let ghost fps_v = input@.feature_profiles;
        let mut fps: Vec<FeatureProfileModel> = Vec::new();
        let mut rest = input.feature_profiles;
        let n = rest.len();
        let mut i: usize = 0;
        while i < n
            invariant
                n == fps_v.len(),
                rest@.len() == n - i,
                forall|j: int| 0 <= j < rest@.len() ==> #[trigger] rest@[j]@ == fps_v[i + j],
                i <= n,
                fps@.len() == i,
                forall|j: int| 0 <= j < i ==> fp_wire_ok(#[trigger] fps_v[j]),
                forall|j: int| 0 <= j < i ==> #[trigger] fps@[j]@ == fp_of_wire(fps_v[j]),
            decreases n - i,
        {
            let ghost rest_pre = rest@;
            let fp = rest.remove(0);
            proof {
                assert(fp == rest_pre[0]);
                assert(fp@ == fps_v[i as int]);
                assert forall|j: int| 0 <= j < rest@.len() implies #[trigger] rest@[j]@
                    == fps_v.index(i + 1 + j) by {
                    assert(rest@[j] == rest_pre[j + 1]);
                }
            }
            match FeatureProfileModel::try_from(fp) {
                Ok(m) => {
                    fps.push(m);
                },
                Err(e) => {
                    return Err(e);
                },
            }
            i = i + 1;
        }
        let r = ProfileModel::new(id, domain_id, input.display_name, fps);
        proof {
            assert(r@.feature_profiles =~= Seq::new(
                fps_v.len(),
                |i: int| fp_of_wire(fps_v[i]),
            ));
        }
        Ok(r)
    }
}

/// The wire form of a profile's abstract value.
pub open spec fn profile_to_wire(v: ProfileModelV) -> wire::ProfileV {
    wire::ProfileV {
        name: spec_profile_name(v.id),
        display_name: v.display_name,
        feature_profiles: Seq::new(
            v.feature_profiles.len(),
            |i: int| fp_to_wire(v.feature_profiles[i]),
        ),
    }
}

impl ToProtobuf for ProfileModel {
    type Output = wire::Profile;

    open spec fn spec_to_protobuf(self, include_nested: bool) -> wire::ProfileV {
        profile_to_wire(self@)
    }

    /// Render back to the wire form, feature profiles included.
    fn to_protobuf(self, include_nested: bool) -> (r: wire::Profile)
        ensures
            r.deep_view() == self.spec_to_protobuf(include_nested),
    {
        let ghost sv = self@;
        let name = ProfileName::new(self.id).to_string();
        let fps = self.feature_profiles.to_protobuf(include_nested);
        let r = wire::Profile { name, display_name: self.display_name, feature_profiles: fps };
        proof {
            assert(r.deep_view().feature_profiles =~= Seq::new(
                sv.feature_profiles.len(),
                |i: int| fp_to_wire(sv.feature_profiles[i]),
            ));
        }
        r
    }
}

/// The rendered `profiles/{}` name of an identifier.
pub open spec fn spec_profile_name(id: u128) -> Seq<char> {
    spec_render(seq![("profiles"@, id)])
}

/// Whether `name` parses as a `profiles/{}` resource name.
pub open spec fn profile_name_ok(name: Seq<char>) -> bool {
    spec_parse(name, "profiles/{}"@) matches Some(fs) && spec_lookup(fs, "profiles"@, 0) is Some
}

/// The identifier inside a well-formed `profiles/{}` name.
pub open spec fn profile_name_id(name: Seq<char>) -> u128 {
    spec_lookup(spec_parse(name, "profiles/{}"@)->0, "profiles"@, 0)->0
}

/// The external handle of a profile: its identifier under the
/// `profiles/{}` template.
#[derive(Debug)]
pub struct ProfileName(pub u128);

impl ProfileName {
    pub fn new(id: u128) -> (r: Self)
        ensures
            r.0 == id,
    {
        ProfileName(id)
    }

    /// The nil handle, used to strip client-supplied identifiers.
    pub fn nil() -> (r: Self)
        ensures
            r.0 == 0,
    {
        ProfileName(0)
    }

    /// Parse a `profiles/{}` resource name.
    pub fn try_from(value: &str) -> (r: Result<Self, Error>)
        ensures
            r is Ok <==> profile_name_ok(value@),
            r matches Ok(n) ==> n.0 == profile_name_id(value@),
            r matches Err(e) ==> e == Error::NameError,
    {
        let parsed = match ResourceName::try_from(value, "profiles/{}") {
            Ok(p) => p,
            Err(e) => {
                return Err(e);
            },
        };
        match parsed.get("profiles") {
            Ok(id) => Ok(ProfileName(id)),
            Err(e) => Err(e),
        }
    }

    /// Render the handle as `profiles/<encoded id>`.
    pub fn to_string(self) -> (r: String)
        ensures
            r@ == spec_profile_name(self.0),
    {
        let rn = ResourceName::new(vec![("profiles", self.0)]);
        proof {
            assert(rn@ =~= seq![("profiles"@, self.0)]);
        }
        rn.to_string()
    }
}

} // verus!
