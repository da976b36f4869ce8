//! Devices and their wire translation.

use crate::error::ErrorSignal;
use crate::mac::{lower_chars, mac_wf, Mac};
use crate::name::{spec_lookup, spec_parse, spec_render, ResourceName};
use crate::protobuf::ToProtobuf;
use crate::wire;
use vstd::prelude::*;
use vstd::string::StringExecFns;
use vstd::string::StrSliceExecFns;

verus! {

/// Errors of the device operations.
#[derive(Debug, PartialEq)]
pub enum DeviceError {
    InvalidMac,
    InvalidTimezone,
    InvalidDeviceId,
    InvalidConfigId,
    NoSuchDevice,
    NoSuchConfig,
    MacConflict,
    DatabaseError(String),
}

impl DeviceError {
    /// The external signal for each error: a MAC conflict is reported as
    /// an invalid argument, absent rows as not found, and storage failures
    /// surface only as an opaque internal error.
    pub fn signal(&self) -> (r: ErrorSignal)
        ensures
            r == match self {
                DeviceError::InvalidMac => ErrorSignal::InvalidArgument,
                DeviceError::InvalidTimezone => ErrorSignal::InvalidArgument,
                DeviceError::InvalidDeviceId => ErrorSignal::InvalidArgument,
                DeviceError::InvalidConfigId => ErrorSignal::InvalidArgument,
                DeviceError::NoSuchDevice => ErrorSignal::NotFound,
                DeviceError::NoSuchConfig => ErrorSignal::NotFound,
                DeviceError::MacConflict => ErrorSignal::InvalidArgument,
                DeviceError::DatabaseError(_) => ErrorSignal::Internal,
            },
    {
        match self {
            DeviceError::InvalidMac => ErrorSignal::InvalidArgument,
            DeviceError::InvalidTimezone => ErrorSignal::InvalidArgument,
            DeviceError::InvalidDeviceId => ErrorSignal::InvalidArgument,
            DeviceError::InvalidConfigId => ErrorSignal::InvalidArgument,
            DeviceError::NoSuchDevice => ErrorSignal::NotFound,
            DeviceError::NoSuchConfig => ErrorSignal::NotFound,
            DeviceError::MacConflict => ErrorSignal::InvalidArgument,
            DeviceError::DatabaseError(_) => ErrorSignal::Internal,
        }
    }

    /// The text sent with the signal. A storage failure always reads
    /// `internal error`: its detail stays out of the message.
    pub fn message(&self) -> (r: String)
        ensures
            r@ == match self {
                DeviceError::InvalidMac => "invalid mac address"@,
                DeviceError::InvalidTimezone => "invalid timezone"@,
                DeviceError::InvalidDeviceId => "invalid device id"@,
                DeviceError::InvalidConfigId => "invalid config id"@,
                DeviceError::NoSuchDevice => "no such device"@,
                DeviceError::NoSuchConfig => "no such config"@,
                DeviceError::MacConflict => "mac address already in use"@,
                DeviceError::DatabaseError(_) => "internal error"@,
            },
    {
        match self {
            DeviceError::InvalidMac => String::from_str("invalid mac address"),
            DeviceError::InvalidTimezone => String::from_str("invalid timezone"),
            DeviceError::InvalidDeviceId => String::from_str("invalid device id"),
            DeviceError::InvalidConfigId => String::from_str("invalid config id"),
            DeviceError::NoSuchDevice => String::from_str("no such device"),
            DeviceError::NoSuchConfig => String::from_str("no such config"),
            DeviceError::MacConflict => String::from_str("mac address already in use"),
            DeviceError::DatabaseError(_) => String::from_str("internal error"),
        }
    }
}

/// Whether the time-zone names the chrono-tz database knows. Left
/// abstract: which strings name IANA zones is a property of the characters
/// alone.
pub uninterp spec fn is_tz(s: Seq<char>) -> bool;

/// Relies on chrono-tz's `FromStr for Tz`: acceptance of a zone name
/// depends on the characters alone.
#[verifier::external_body]
fn timezone_valid(s: &str) -> (r: bool)
    ensures
        r == is_tz(s@),
{
    s.parse::<chrono_tz::Tz>().is_ok()
}

/// A registered device owned by one tenant.
#[derive(Debug, PartialEq)]
pub struct DeviceModel {
    pub device_id: u128,
    pub display_name: String,
    pub mac: Mac,
    pub config_id: u128,
    pub description: String,
    pub timezone: String,
}

/// The abstract value of a device.
pub struct DeviceModelV {
    pub device_id: u128,
    pub display_name: Seq<char>,
    pub mac: Seq<char>,
    pub config_id: u128,
    pub description: Seq<char>,
    pub timezone: Seq<char>,
}

impl View for DeviceModel {
    type V = DeviceModelV;

    open spec fn view(&self) -> DeviceModelV {
        DeviceModelV {
            device_id: self.device_id,
            display_name: self.display_name@,
            mac: self.mac@,
            config_id: self.config_id,
            description: self.description@,
            timezone: self.timezone@,
        }
    }
}

impl DeepView for DeviceModel {
    type V = DeviceModelV;

    open spec fn deep_view(&self) -> DeviceModelV {
        self@
    }
}

impl Clone for DeviceModel {
    fn clone(&self) -> (res: Self)
        ensures
            res@ == self@,
    {
        DeviceModel {
            device_id: self.device_id,
            display_name: self.display_name.clone(),
            mac: self.mac.clone(),
            config_id: self.config_id,
            description: self.description.clone(),
            timezone: self.timezone.clone(),
        }
    }
}

/// The rendered `devices/{}` name of an identifier.
pub open spec fn spec_device_name(id: u128) -> Seq<char> {
    spec_render(seq![("devices"@, id)])
}

/// Whether `name` parses as a `devices/{}` resource name.
pub open spec fn device_name_ok(name: Seq<char>) -> bool {
    spec_parse(name, "devices/{}"@) matches Some(fs) && spec_lookup(fs, "devices"@, 0) is Some
}

/// The identifier inside a well-formed `devices/{}` name.
pub open spec fn device_name_id(name: Seq<char>) -> u128 {
    spec_lookup(spec_parse(name, "devices/{}"@)->0, "devices"@, 0)->0
}

/// The rendered `config/{}` name of an identifier.
pub open spec fn spec_config_name(id: u128) -> Seq<char> {
    spec_render(seq![("config"@, id)])
}

/// Whether `name` parses as a `config/{}` resource name.
pub open spec fn config_name_ok(name: Seq<char>) -> bool {
    spec_parse(name, "config/{}"@) matches Some(fs) && spec_lookup(fs, "config"@, 0) is Some
}

/// The identifier inside a well-formed `config/{}` name.
pub open spec fn config_name_id(name: Seq<char>) -> u128 {
    spec_lookup(spec_parse(name, "config/{}"@)->0, "config"@, 0)->0
}

/// Whether a wire device passes every field validation: a known time
/// zone, a parseable (or empty) device name, a well-formed MAC and a
/// parseable configuration reference.
pub open spec fn device_wire_ok(v: wire::DeviceV) -> bool {
    is_tz(v.timezone) && (v.name.len() == 0 || device_name_ok(v.name)) && mac_wf(v.mac)
        && config_name_ok(v.config_name)
}

/// The model a valid wire device denotes for the given tenant.
pub open spec fn device_of_wire(v: wire::DeviceV) -> DeviceModelV {
    DeviceModelV {
        device_id: if v.name.len() == 0 {
            0
        } else {
            device_name_id(v.name)
        },
        display_name: v.display_name,
        mac: lower_chars(v.mac),
        config_id: config_name_id(v.config_name),
        description: v.description,
        timezone: v.timezone,
    }
}

/// The error a rejected wire device earns, checking the time zone first,
/// then the name, the MAC and the configuration reference.
pub open spec fn device_wire_err(v: wire::DeviceV) -> DeviceError {
    if !is_tz(v.timezone) {
        DeviceError::InvalidTimezone
    } else if !(v.name.len() == 0 || device_name_ok(v.name)) {
        DeviceError::InvalidDeviceId
    } else if !mac_wf(v.mac) {
        DeviceError::InvalidMac
    } else {
        DeviceError::InvalidConfigId
    }
}

impl DeviceModel {
    /// Build a device from its wire form. Every field validation runs
    /// before any storage access; an empty name leaves the identifier nil
    /// for the store to assign.
    pub fn try_from(value: wire::Device) -> (r: Result<DeviceModel, DeviceError>)
        ensures
            r is Ok <==> device_wire_ok(value@),
            r matches Ok(m) ==> m@ == device_of_wire(value@),
            r matches Err(e) ==> e == device_wire_err(value@),
    {
        if !timezone_valid(value.timezone.as_str()) {
            return Err(DeviceError::InvalidTimezone);
        }
        let device_id: u128 = if value.name.as_str().unicode_len() == 0 {
            0
        } else {
            match ResourceName::try_from(value.name.as_str(), "devices/{}") {
                Ok(rn) => match rn.get("devices") {
                    Ok(id) => id,
                    Err(_) => {
                        return Err(DeviceError::InvalidDeviceId);
                    },
                },
                Err(_) => {
                    return Err(DeviceError::InvalidDeviceId);
                },
            }
        };
        let mac = match Mac::try_parse(value.mac.as_str()) {
            Ok(m) => m,
            Err(_) => {
                return Err(DeviceError::InvalidMac);
            },
        };
        let config_id = match ResourceName::try_from(value.config_name.as_str(), "config/{}") {
            Ok(rn) => match rn.get("config") {
                Ok(id) => id,
                Err(_) => {
                    return Err(DeviceError::InvalidConfigId);
                },
            },
            Err(_) => {
                return Err(DeviceError::InvalidConfigId);
            },
        };
        Ok(
            DeviceModel {
                device_id,
                display_name: value.display_name,
                mac,
                config_id,
                description: value.description,
                timezone: value.timezone,
            },
        )
    }
}

/// The wire form of a device's abstract value.
pub open spec fn device_to_wire(v: DeviceModelV) -> wire::DeviceV {
    wire::DeviceV {
        name: spec_device_name(v.device_id),
        mac: v.mac,
        display_name: v.display_name,
        description: v.description,
        timezone: v.timezone,
        config_name: spec_config_name(v.config_id),
    }
}

impl ToProtobuf for DeviceModel {
    type Output = wire::Device;

    open spec fn spec_to_protobuf(self, include_nested: bool) -> wire::DeviceV {
        device_to_wire(self@)
    }

    /// Render back to the wire form; total over well-formed models.
    fn to_protobuf(self, include_nested: bool) -> (r: wire::Device)
        ensures
            r.deep_view() == self.spec_to_protobuf(include_nested),
    {
        let name_rn = ResourceName::new(vec![("devices", self.device_id)]);
        proof {
            assert(name_rn@ =~= seq![("devices"@, self.device_id)]);
        }
        let config_rn = ResourceName::new(vec![("config", self.config_id)]);
        proof {
            assert(config_rn@ =~= seq![("config"@, self.config_id)]);
        }
        let mac_string = self.mac.to_string().clone();
        wire::Device {
            name: name_rn.to_string(),
            mac: mac_string,
            display_name: self.display_name,
            description: self.description,
            timezone: self.timezone,
            config_name: config_rn.to_string(),
        }
    }
}

} // verus!
