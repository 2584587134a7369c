//! Stable identifiers for retained elements and semantic provenance.

use vstd::prelude::*;

verus! {

/// Identifier of one retained UI element.
#[derive(Copy, Clone, Debug, PartialEq, Eq, Hash, Structural)]
pub struct ElementId(pub u32);

/// Optional semantic/provenance identifier carried by one display node.
#[derive(Copy, Clone, Debug, Default, PartialEq, Eq, PartialOrd, Ord, Hash, Structural)]
pub struct SemanticId(u32);

impl View for SemanticId {
    type V = u32;

    closed spec fn view(&self) -> u32 {
        self.0
    }
}

impl SemanticId {
    /// Creates a semantic identifier from a host-defined numeric value.
    pub fn new(value: u32) -> (id: Self)
        ensures
            id@ == value,
    {
        Self(value)
    }

    /// Returns the underlying host-defined value.
    pub fn get(self) -> (value: u32)
        ensures
            value == self@,
    {
        self.0
    }
}

/// A semantic identifier gives back the value it was created from, and two
/// identifiers with the same value are the same identifier.
pub proof fn lemma_semantic_id_round_trip(a: SemanticId, b: SemanticId)
    ensures
        a@ == b@ <==> a == b,
{
}

} // verus!
