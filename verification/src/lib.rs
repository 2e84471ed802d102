//! A minimal record-management service core: a verified in-memory account
//! store with CRUD semantics and key generation, and a write-then-read route
//! registry that lets resource controllers publish their endpoint sets before
//! server assembly mounts them.

pub mod assembly;
pub mod controller;
pub mod registry;
pub mod store;
