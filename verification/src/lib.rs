//! Offline license verification for a desktop application: a license is a
//! signed document bound to one machine and carrying a validity window.
//! Trust comes solely from an Ed25519 signature over the canonical JSON text
//! of the license payload.

pub mod text;
pub mod date;
pub mod external;
pub mod license;
pub mod message;
pub mod issuer;
pub mod laws;
