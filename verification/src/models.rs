//! The data records exchanged with clients and kept in the store.

pub mod task;
