//! What several parts share.
pub mod crypto;
pub mod oidc;
pub mod query;
