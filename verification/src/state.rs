//! The storage handle that every handler is given.

use vstd::prelude::*;
use vstd::string::*;
use crate::models::task::TaskView;
use crate::store::TaskStore;

verus! {

/// The storage backends that a connection string can select.
#[derive(Debug, PartialEq, Eq, Structural)]
pub enum BackendKind {
    /// The in-process store of this library.
    Memory,
    /// A relational store reached through the connection string.
    Relational,
}

/// The connection string that selects the in-process store.
pub open spec fn memory_url() -> Seq<char> {
    "memory:"@
}

/// Says which backend a connection string selects: the in-process store for
/// `memory:`, a relational store for every other string.
pub fn backend_kind(database_url: &str) -> (r: BackendKind)
    ensures
        r == (if database_url@ == memory_url() {
            BackendKind::Memory
        } else {
            BackendKind::Relational
        }),
{
    let given = String::from_str(database_url);
    let memory = String::from_str("memory:");
    if given == memory {
        BackendKind::Memory
    } else {
        BackendKind::Relational
    }
}

/// The shared state of the service: the store of tasks. It is made once and
/// handed to each handler by reference.
pub struct AppState {
    pub store: TaskStore,
}

impl View for AppState {
    type V = Seq<TaskView>;

    open spec fn view(&self) -> Seq<TaskView> {
        self.store@
    }
}

impl AppState {
    /// The state's invariant is that of its store.
    pub open spec fn wf(&self) -> bool {
        self.store.wf()
    }

    /// Makes the state of a service that holds no task yet.
    pub fn new() -> (r: AppState)
        ensures
            r@ == Seq::<TaskView>::empty(),
            r.wf(),
    {
        AppState { store: TaskStore::new() }
    }
}

} // verus!
