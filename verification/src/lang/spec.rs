//! What the nodes of the language have in common.

use vstd::prelude::*;

verus! {

/// A node that may know the source text that it was read from.
pub trait Node<T> {
    /// The source of the node, if it has one.
    spec fn source_of(&self) -> Option<T>;

    /// Gives the source of the node, if it has one.
    fn source(&self) -> (r: &Option<T>)
        ensures
            *r == self.source_of(),
    ;
}

} // verus!
