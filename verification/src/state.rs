//! The state that the host application keeps for the plugin: the store.
use vstd::prelude::*;
use crate::store::Store;

verus! {

/// What the plugin keeps between requests: the annotation store.
pub struct InstrucktState {
    store: Store,
}

impl View for InstrucktState {
    type V = Seq<u8>;

    /// The data directory of the store it keeps.
    closed spec fn view(&self) -> Seq<u8> {
        self.store@
    }
}

impl InstrucktState {
    /// State that keeps `store`.
    pub fn new(store: Store) -> (state: Self)
        ensures
            state@ == store@,
    {
        InstrucktState { store }
    }

    /// The store this state keeps.
    pub fn store(&self) -> (store: &Store)
        ensures
            store@ == self@,
    {
        &self.store
    }
}

} // verus!
