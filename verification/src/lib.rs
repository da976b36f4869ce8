//! A multi-tenant device-management core: the opaque resource-naming
//! scheme, the tenant-scoped entity store with its cross-entity
//! invariants, and the translation between wire messages and validated
//! internal records.
//!
//! Every tenant's rows live in one [`database::Database`]; a
//! [`database::DomainDatabase`] binds it to one tenant and scopes every
//! operation to that tenant's rows. External handles are
//! [`name::ResourceName`]s: literal path segments alternating with
//! base64-encoded 128-bit identifiers.

pub mod b64uuid;
pub mod config;
pub mod database;
pub mod device;
pub mod error;
pub mod feature;
pub mod feature_profile;
pub mod mac;
pub mod measurements;
pub mod name;
pub mod profile;
pub mod protobuf;
pub mod service;
pub mod text;
pub mod wire;
