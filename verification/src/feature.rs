//! Features: capability types a profile can configure, and their wire
//! translation.

use crate::error::Error;
use crate::name::{spec_lookup, spec_parse, spec_render, ResourceName};
use crate::protobuf::ToProtobuf;
use crate::text::{dec_i32, i32_to_string};
use crate::wire;
use vstd::prelude::*;
use vstd::string::StringExecFns;

verus! {

/// The closed enumeration of feature types.
#[derive(Debug, Clone, Copy, PartialEq, Eq, Structural)]
pub enum FeatureType {
    Light,
}

/// The wire discriminant of each feature type; zero is reserved for
/// "unspecified".
pub open spec fn type_discriminant(t: FeatureType) -> i32 {
    match t {
        FeatureType::Light => 1,
    }
}

impl FeatureType {
    /// Validate a wire discriminant. Zero (unspecified) and every value
    /// outside the enumeration are rejected with a `ValueError` naming the
    /// offending value; nothing is silently defaulted.
    pub fn try_from(value: i32) -> (r: Result<FeatureType, Error>)
        ensures
            r is Ok <==> value == 1,
            r matches Ok(t) ==> t == FeatureType::Light,
            r matches Err(e) ==> (e matches Error::ValueError(s, t) && s@ == (if value == 0 {
                "Unspecified"@
            } else {
                dec_i32(value)
            }) && t@ == "FeatureType"@),
    {
        if value == 1 {
            Ok(FeatureType::Light)
        } else if value == 0 {
            Err(Error::ValueError(String::from_str("Unspecified"), "FeatureType"))
        } else {
            Err(Error::ValueError(i32_to_string(value), "FeatureType"))
        }
    }

    /// The wire discriminant of this feature type.
    pub fn to_i32(self) -> (r: i32)
        ensures
            r == type_discriminant(self),
    {
        match self {
            FeatureType::Light => 1,
        }
    }
}

/// A feature: a named capability of a given type, owned by one tenant.
#[derive(Debug, PartialEq)]
pub struct FeatureModel {
    id: u128,
    domain_id: u128,
    display_name: String,
    feature_type: FeatureType,
}

/// The abstract value of a feature.
pub struct FeatureModelV {
    pub id: u128,
    pub domain_id: u128,
    pub display_name: Seq<char>,
    pub feature_type: FeatureType,
}

impl View for FeatureModel {
    type V = FeatureModelV;

    closed spec fn view(&self) -> FeatureModelV {
        FeatureModelV {
            id: self.id,
            domain_id: self.domain_id,
            display_name: self.display_name@,
            feature_type: self.feature_type,
        }
    }
}

impl DeepView for FeatureModel {
    type V = FeatureModelV;

    open spec fn deep_view(&self) -> FeatureModelV {
        self@
    }
}

impl Clone for FeatureModel {
    fn clone(&self) -> (res: Self)
        ensures
            res@ == self@,
    {
        FeatureModel {
            id: self.id,
            domain_id: self.domain_id,
            display_name: self.display_name.clone(),
            feature_type: self.feature_type,
        }
    }
}

impl FeatureModel {
    pub fn new(id: u128, domain_id: u128, display_name: String, feature_type: FeatureType) -> (r:
        Self)
        ensures
            r@ == (FeatureModelV { id, domain_id, display_name: display_name@, feature_type }),
    {
        FeatureModel { id, domain_id, display_name, feature_type }
    }

    pub fn id(&self) -> (r: u128)
        ensures
            r == self@.id,
    {
        self.id
    }

    pub fn domain_id(&self) -> (r: u128)
        ensures
            r == self@.domain_id,
    {
        self.domain_id
    }

    pub fn display_name(&self) -> (r: String)
        ensures
            r@ == self@.display_name,
    {
        self.display_name.clone()
    }

    pub fn feature_type(&self) -> (r: FeatureType)
        ensures
            r == self@.feature_type,
    {
        self.feature_type
    }

    /// Build a feature from its wire form for the given tenant. With
    /// `strip_names` the identifier is forced to nil so the store assigns
    /// one; otherwise the name must parse. A malformed name fails with
    /// `NameError` before the type discriminant is checked.
    pub fn try_from_protobuf(input: wire::Feature, domain_id: u128, strip_names: bool) -> (r:
        Result<Self, Error>)
        ensures
            r is Ok <==> ((strip_names || feature_name_ok(input@.name)) && input@.feature_type
                == 1),
            r matches Ok(m) ==> m@ == (FeatureModelV {
                id: if strip_names {
                    0
                } else {
                    feature_name_id(input@.name)
                },
                domain_id,
                display_name: input@.display_name,
                feature_type: FeatureType::Light,
            }),
            r matches Err(e) ==> (if !strip_names && !feature_name_ok(input@.name) {
                e == Error::NameError
            } else {
                e matches Error::ValueError(s, t) && s@ == (if input@.feature_type == 0 {
                    "Unspecified"@
                } else {
                    dec_i32(input@.feature_type)
                }) && t@ == "FeatureType"@
            }),
    {
        let id: u128 = if strip_names {
            0
        } else {
            match FeatureName::try_from(input.name.as_str()) {
                Ok(name) => name.0,
                Err(e) => {
                    return Err(e);
                },
            }
        };
        let feature_type = match FeatureType::try_from(input.feature_type) {
            Ok(t) => t,
            Err(e) => {
                return Err(e);
            },
        };
        Ok(FeatureModel::new(id, domain_id, input.display_name, feature_type))
    }
}

/// The wire form of a feature's abstract value.
pub open spec fn feature_to_wire(v: FeatureModelV) -> wire::FeatureV {
    wire::FeatureV {
        name: spec_feature_name(v.id),
        display_name: v.display_name,
        feature_type: type_discriminant(v.feature_type),
    }
}

impl ToProtobuf for FeatureModel {
    type Output = wire::Feature;

    open spec fn spec_to_protobuf(self, include_nested: bool) -> wire::FeatureV {
        feature_to_wire(self@)
    }

    fn to_protobuf(self, include_nested: bool) -> (r: wire::Feature)
        ensures
            r.deep_view() == self.spec_to_protobuf(include_nested),
    {
        let ft = self.feature_type.to_i32();
        wire::Feature {
            name: FeatureName::new(self.id).to_string(),
            display_name: self.display_name,
            feature_type: ft,
        }
    }
}

/// The rendered `features/{}` name of an identifier.
pub open spec fn spec_feature_name(id: u128) -> Seq<char> {
    spec_render(seq![("features"@, id)])
}

/// Whether `name` parses as a `features/{}` resource name.
pub open spec fn feature_name_ok(name: Seq<char>) -> bool {
    spec_parse(name, "features/{}"@) matches Some(fs) && spec_lookup(fs, "features"@, 0) is Some
}

/// The identifier inside a well-formed `features/{}` name.
pub open spec fn feature_name_id(name: Seq<char>) -> u128 {
    spec_lookup(spec_parse(name, "features/{}"@)->0, "features"@, 0)->0
}

/// The external handle of a feature: its identifier under the
/// `features/{}` template.
#[derive(Debug)]
pub struct FeatureName(pub u128);

impl FeatureName {
    pub fn new(id: u128) -> (r: Self)
        ensures
            r.0 == id,
    {
        FeatureName(id)
    }

    /// The nil handle, used to strip client-supplied identifiers.
    pub fn nil() -> (r: Self)
        ensures
            r.0 == 0,
    {
        FeatureName(0)
    }

    /// Parse a `features/{}` resource name.
    pub fn try_from(value: &str) -> (r: Result<Self, Error>)
        ensures
            r is Ok <==> feature_name_ok(value@),
            r matches Ok(n) ==> n.0 == feature_name_id(value@),
            r matches Err(e) ==> e == Error::NameError,
    {
        let parsed = match ResourceName::try_from(value, "features/{}") {
            Ok(p) => p,
            Err(e) => {
                return Err(e);
            },
        };
        match parsed.get("features") {
            Ok(id) => Ok(FeatureName(id)),
            Err(e) => Err(e),
        }
    }

    /// Render the handle as `features/<encoded id>`.
    pub fn to_string(self) -> (r: String)
        ensures
            r@ == spec_feature_name(self.0),
    {
        let rn = ResourceName::new(vec![("features", self.0)]);
        proof {
            assert(rn@ =~= seq![("features"@, self.0)]);
        }
        rn.to_string()
    }
}

} // verus!
