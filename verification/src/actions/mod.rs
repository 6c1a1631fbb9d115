//! Actions: what a context does when it is entered and left.

use vstd::prelude::*;

pub mod command;

verus! {

/// An action to be executed upon a context transition.
///
/// An action owns the outside resource that it manages, as a handle, for as
/// long as it is entered.  Establishing the resource and releasing it is
/// the owner's work; the action keeps the record of which handle is held,
/// and no handle leaves that record but into the owner's hands.
pub trait Action {
    /// The handle of the resource.
    type Handle;

    /// The handle that the action holds.
    spec fn held(&self) -> Option<Self::Handle>;

    /// Enters the context with `started`, the resource that was established
    /// for it.  A handle held before is handed back for release: it is
    /// replaced, not lost.
    fn enter(&mut self, started: Self::Handle) -> (replaced: Option<Self::Handle>)
        ensures
            final(self).held() == Some(started),
            replaced == old(self).held(),
    ;

    /// Leaves the context: the handle held, if any, is handed out for
    /// release.  Leaving again hands out nothing.
    fn leave(&mut self) -> (released: Option<Self::Handle>)
        ensures
            final(self).held() is None,
            released == old(self).held(),
    ;
}

} // verus!
