//! A small task-management service core: the task records, their validation
//! rules, an in-memory store with the five storage operations, the request
//! handlers built on it, and the mapping from failures to HTTP statuses.
//!
//! Every function states its behaviour over mathematical views of the data
//! (`Seq<TaskView>` for the store), and the contracts are machine-checked.

pub mod clock;
pub mod errors;
pub mod ident;
pub mod models;
pub mod query;
pub mod routes;
pub mod state;
pub mod store;
pub mod theorems;
