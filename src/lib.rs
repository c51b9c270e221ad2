//! A registry of decentralized identity records that bind a wallet to a
//! biometric hash, with a one-way verification state per record.

pub mod laws;
pub mod model;
pub mod registry;

pub use model::{DidView, Op, RegistryView};
pub use registry::{BiometricContract, BiometricDID, DidError};
