//! Stored light configurations and their wire translation.

use crate::b64uuid::{hyphenated_of, try_parse_uuid, uuid_of, uuid_to_string};
use crate::error::ErrorSignal;
use crate::protobuf::ToProtobuf;
use crate::wire;
use vstd::prelude::*;
use vstd::string::StrSliceExecFns;
use vstd::string::StringExecFns;

verus! {

/// Errors of the configuration operations.
#[derive(Debug, PartialEq)]
pub enum ConfigError {
    InvalidConfigId,
    InvalidLightConfig,
    NoSuchConfig,
    ConfigInUse,
    DatabaseError(String),
}

impl ConfigError {
    /// The external signal for each error: a blocked delete is a failed
    /// precondition, an absent row is not found, and storage failures
    /// surface only as an opaque internal error.
    pub fn signal(&self) -> (r: ErrorSignal)
        ensures
            r == match self {
                ConfigError::InvalidConfigId => ErrorSignal::InvalidArgument,
                ConfigError::InvalidLightConfig => ErrorSignal::InvalidArgument,
                ConfigError::NoSuchConfig => ErrorSignal::NotFound,
                ConfigError::ConfigInUse => ErrorSignal::FailedPrecondition,
                ConfigError::DatabaseError(_) => ErrorSignal::Internal,
            },
    {
        match self {
            ConfigError::InvalidConfigId => ErrorSignal::InvalidArgument,
            ConfigError::InvalidLightConfig => ErrorSignal::InvalidArgument,
            ConfigError::NoSuchConfig => ErrorSignal::NotFound,
            ConfigError::ConfigInUse => ErrorSignal::FailedPrecondition,
            ConfigError::DatabaseError(_) => ErrorSignal::Internal,
        }
    }

    /// The text sent with the signal. A storage failure always reads
    /// `internal error`: its detail stays out of the message.
    pub fn message(&self) -> (r: String)
        ensures
            r@ == match self {
                ConfigError::InvalidConfigId => "invalid config id"@,
                ConfigError::InvalidLightConfig => "invalid light config"@,
                ConfigError::NoSuchConfig => "no such config"@,
                ConfigError::ConfigInUse => "config is in use"@,
                ConfigError::DatabaseError(_) => "internal error"@,
            },
    {
        match self {
            ConfigError::InvalidConfigId => String::from_str("invalid config id"),
            ConfigError::InvalidLightConfig => String::from_str("invalid light config"),
            ConfigError::NoSuchConfig => String::from_str("no such config"),
            ConfigError::ConfigInUse => String::from_str("config is in use"),
            ConfigError::DatabaseError(_) => String::from_str("internal error"),
        }
    }
}

/// A stored configuration: a named, structured light configuration owned
/// by one tenant.
#[derive(Debug, PartialEq)]
pub struct ConfigModel {
    pub config_id: u128,
    pub domain_id: u128,
    pub display_name: String,
    pub light_config: wire::LightConfig,
}

/// The abstract value of a stored configuration.
pub struct ConfigModelV {
    pub config_id: u128,
    pub domain_id: u128,
    pub display_name: Seq<char>,
    pub light_config: Seq<wire::LuminaireV>,
}

impl View for ConfigModel {
    type V = ConfigModelV;

    open spec fn view(&self) -> ConfigModelV {
        ConfigModelV {
            config_id: self.config_id,
            domain_id: self.domain_id,
            display_name: self.display_name@,
            light_config: self.light_config@,
        }
    }
}

impl DeepView for ConfigModel {
    type V = ConfigModelV;

    open spec fn deep_view(&self) -> ConfigModelV {
        self@
    }
}

impl Clone for ConfigModel {
    fn clone(&self) -> (res: Self)
        ensures
            res@ == self@,
    {
        ConfigModel {
            config_id: self.config_id,
            domain_id: self.domain_id,
            display_name: self.display_name.clone(),
            light_config: self.light_config.clone(),
        }
    }
}

impl ConfigModel {
    /// Build a configuration from its wire form. An empty `uid` leaves the
    /// identifier nil for the store to assign; a non-empty one must parse
    /// as a UUID. A missing light configuration is rejected as
    /// `InvalidLightConfig`, distinct from a malformed identifier.
    pub fn try_from(value: wire::Config) -> (r: Result<ConfigModel, ConfigError>)
        ensures
            r is Ok <==> ((value@.uid.len() == 0 || uuid_of(value@.uid) is Some)
                && value@.light_config is Some),
            r matches Ok(m) ==> m@ == (ConfigModelV {
                config_id: if value@.uid.len() == 0 {
                    0
                } else {
                    uuid_of(value@.uid)->0
                },
                domain_id: 0,
                display_name: value@.display_name,
                light_config: value@.light_config->0,
            }),
            r matches Err(e) ==> e == (if !(value@.uid.len() == 0 || uuid_of(value@.uid) is Some) {
                ConfigError::InvalidConfigId
            } else {
                ConfigError::InvalidLightConfig
            }),
    {
        let config_id: u128 = if value.uid.as_str().unicode_len() == 0 {
            0
        } else {
            match try_parse_uuid(value.uid.as_str()) {
                Some(id) => id,
                None => {
                    return Err(ConfigError::InvalidConfigId);
                },
            }
        };
        let light_config = match value.light_config {
            Some(lc) => lc,
            None => {
                return Err(ConfigError::InvalidLightConfig);
            },
        };
        Ok(ConfigModel { config_id, domain_id: 0, display_name: value.display_name, light_config })
    }
}

impl ToProtobuf for ConfigModel {
    type Output = wire::Config;

    open spec fn spec_to_protobuf(self, include_nested: bool) -> wire::ConfigV {
        wire::ConfigV {
            uid: hyphenated_of(self@.config_id),
            display_name: self@.display_name,
            light_config: Some(self@.light_config),
        }
    }

    /// Render back to the wire form; total over well-formed models.
    fn to_protobuf(self, include_nested: bool) -> (r: wire::Config)
        ensures
            r.deep_view() == self.spec_to_protobuf(include_nested),
    {
        wire::Config {
            uid: uuid_to_string(self.config_id),
            display_name: self.display_name,
            light_config: Some(self.light_config),
        }
    }
}

} // verus!
