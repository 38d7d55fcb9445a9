//! Key management for encrypted container images with Fortanix DSM.
pub mod annotation;
pub mod calls;
pub mod ccm_as;
pub mod ccm_kbc;
pub mod codec;
pub mod dsm;
pub mod error;
pub mod identity;
pub mod kek;
pub mod key_provider;
pub mod key_uuid;
pub mod laws;
pub mod resource_uri;
pub mod text;
pub mod wrap;
