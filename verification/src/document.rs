//! The data sheet that effects work on.

use crate::data::TypeKey;
use crate::entity_store::{Components, EntityStore, Registry};
use vstd::prelude::*;

verus! {

/// The data that an entity's effects read and change: a store of its own.
pub struct Document<V>(pub EntityStore<V>);

impl<V> View for Document<V> {
    type V = Registry<V>;

    open spec fn view(&self) -> Registry<V> {
        self.0@
    }
}

impl<V> Document<V> {
    /// The store holds at most one container for each component type.
    pub open spec fn wf(&self) -> bool {
        self.0.wf()
    }

    /// A document without data.
    pub fn new() -> (document: Self)
        ensures
            document.wf(),
            document@ == Map::<TypeKey, Components<V>>::empty(),
    {
        Document(EntityStore::new())
    }
}

} // verus!
