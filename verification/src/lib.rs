//! A username registry: each owner identity may hold at most one username,
//! every mutation is authorized and validated before it touches the records,
//! and every successful write renews the records' persistence horizon.

pub mod errors;
pub mod events;
pub mod registry;
pub mod ttl;
