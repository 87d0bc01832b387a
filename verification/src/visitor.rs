//! The dispatch protocol between declaration nodes and rendering back
//! ends: a back end implements one handler per declaration kind, and a
//! node's `accept` invokes exactly the handler for its own kind, so a
//! new back end needs no change to any node type.
use vstd::prelude::*;

use crate::alias::Alias;
use crate::class::Class;

verus! {

/// A rendering back end: one handler per declaration kind, sharing a
/// back-end context `S` and a result type `R`.
pub trait Visitor {
    type S;

    type R;

    /// Handles an alias declaration.
    fn alias(&self, n: &Alias, s: &Self::S) -> Self::R;

    /// Handles a class declaration.
    fn class(&self, n: &Class, s: &Self::S) -> Self::R;
}

/// The capability every declaration node offers a back end: accept the
/// visitor together with its context, and return its result.
pub trait Accept<T: Visitor> {
    fn accept(&self, n: &T, s: &T::S) -> T::R;
}

impl<T: Visitor> Accept<T> for Alias {
    /// Invokes the visitor's alias handler on this node.
    fn accept(&self, n: &T, s: &T::S) -> T::R {
        n.alias(self, s)
    }
}

impl<T: Visitor> Accept<T> for Class {
    /// Invokes the visitor's class handler on this node.
    fn accept(&self, n: &T, s: &T::S) -> T::R {
        n.class(self, s)
    }
}

} // verus!
