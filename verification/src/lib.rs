//! A minimal content registry: it maps a 32-byte hash to the identity of the
//! account that first registered it, and keeps a per-owner, append-only list
//! of the hashes that identity has registered.
//!
//! The registry is one atomic state transition ([`registry::register_image`])
//! guarded by two validity checks, plus a hard capacity cap on the per-owner
//! list. The hosting ledger supplies the two backing records, pre-resolved by
//! address derivation, and commits or discards both writes atomically; this
//! crate holds the transition itself, a ledger-wide model of its laws
//! ([`model`]), the persisted byte layout of the records ([`codec`]), and the
//! hex rendering used by the registration log line ([`hex`]).

pub mod codec;
pub mod hex;
pub mod model;
pub mod registry;

pub use registry::ErrorCode;
pub use registry::HashAccount;
pub use registry::OwnerAccount;
pub use registry::RegisterError;
pub use registry::RegisterImage;
pub use registry::register_image;
