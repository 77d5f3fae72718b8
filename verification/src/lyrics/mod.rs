//! The Wavora lyrics format: document model, validation, cue timing, legacy
//! upgrade, and sidecar discovery.

pub mod language;
pub mod document;
pub mod fields;
pub mod validate;
pub mod timing;
pub mod legacy;
pub mod sidecar;
