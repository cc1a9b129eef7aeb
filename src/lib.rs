//! An event-sourced engine for a resource certificate authority: the CA
//! aggregate and its events, a store that applies commands under optimistic
//! concurrency and keeps their history, the publication repository, the
//! provisioning exchange between parent and child, an idempotent consumer of
//! side effects, and the request logic of the HTTP boundary.

pub mod aggregate;
pub mod store;
pub mod publication;
pub mod side_effects;
pub mod http;
pub mod options;
pub mod provisioning;
