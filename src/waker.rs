//! The single-slot wake cell of the driver, from the futures crate.
use vstd::prelude::*;

verus! {

/// The task handle that a suspended write leaves behind to be resumed with.
#[verifier::external_type_specification]
#[verifier::external_body]
pub struct ExWaker(core::task::Waker);

/// The cell that holds at most one waker; a new registration replaces the old.
#[verifier::external_type_specification]
#[verifier::external_body]
pub struct ExAtomicWaker(futures::task::AtomicWaker);

/// Relies on `AtomicWaker::new`: an empty cell.
pub assume_specification[ futures::task::AtomicWaker::new ]() -> futures::task::AtomicWaker;

/// Relies on `AtomicWaker::register`: stores a clone of `waker` in place of any
/// earlier one.
pub assume_specification[ futures::task::AtomicWaker::register ](
    cell: &futures::task::AtomicWaker,
    waker: &core::task::Waker,
);

/// Relies on `AtomicWaker::wake`: takes the stored waker, if any, and wakes it.
pub assume_specification[ futures::task::AtomicWaker::wake ](cell: &futures::task::AtomicWaker);

/// The driver's wake cell. Only the driver registers and fires it: a suspended
/// write registers its waker, the interrupt entry point wakes it. The cell
/// holds at most one waker; `registered` records whether it holds one.
pub struct WakeCell {
    cell: futures::task::AtomicWaker,
    registered: Ghost<bool>,
}

impl WakeCell {
    /// The cell holds a registered waker.
    pub closed spec fn has_waker(&self) -> bool {
        self.registered@
    }

    /// An empty cell.
    pub(crate) fn new() -> (r: Self)
        ensures
            !r.has_waker(),
    {
        WakeCell { cell: futures::task::AtomicWaker::new(), registered: Ghost(false) }
    }

    /// Stores `waker` in place of any earlier registration.
    pub(crate) fn register(&mut self, waker: &core::task::Waker)
        ensures
            final(self).has_waker(),
    {
        self.cell.register(waker);
        self.registered = Ghost(true);
    }

    /// Wakes the registered waker, if any, and empties the cell; on an empty
    /// cell it wakes nothing.
    pub(crate) fn wake(&mut self)
        ensures
            !final(self).has_waker(),
    {
        self.cell.wake();
        self.registered = Ghost(false);
    }
}

} // verus!
