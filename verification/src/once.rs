//! The ring handles and the slot that holds them: empty at first, filled
//! once, read from then on.

use bbqueue::framed::{FrameConsumer, FrameProducer};
use vstd::prelude::*;

verus! {

/// The two ring handles of a mailbox, each over a buffer of `N` bytes.
pub struct Rings<const N: usize> {
    /// Outbound: frames from the tasks to the kernel.
    pub u2k: FrameProducer<'static, N>,
    /// Inbound: frames from the kernel to the tasks.
    pub k2u: FrameConsumer<'static, N>,
}

/// A slot for the rings that is either empty or filled. It is filled once
/// and never emptied.
pub struct OnceRings<const N: usize> {
    slot: Option<Rings<N>>,
}

impl<const N: usize> OnceRings<N> {
    /// Whether the slot has been filled.
    pub closed spec fn is_set(&self) -> bool {
        self.slot is Some
    }

    /// The handles in a filled slot.
    pub closed spec fn rings(&self) -> Rings<N>
        recommends
            self.is_set(),
    {
        self.slot->Some_0
    }

    /// An empty slot.
    pub fn new() -> (out: Self)
        ensures
            !out.is_set(),
    {
        OnceRings { slot: None }
    }

    /// Whether the slot has been filled.
    pub fn is_ready(&self) -> (ready: bool)
        ensures
            ready == self.is_set(),
    {
        self.slot.is_some()
    }

    /// Fills the slot. To fill a slot twice is an error of the caller.
    pub fn set(&mut self, rings: Rings<N>)
        requires
            !old(self).is_set(),
        ensures
            final(self).is_set(),
            final(self).rings() == rings,
    {
        self.slot = Some(rings);
    }

    /// The handles. To read an empty slot is an error of the caller.
    pub fn get(&self) -> (out: &Rings<N>)
        requires
            self.is_set(),
        ensures
            *out == self.rings(),
    {
        self.slot.as_ref().unwrap()
    }

    /// The handles, to work the rings with; the slot stays filled, with
    /// the handles as the borrower leaves them.
    pub fn get_mut(&mut self) -> (out: &mut Rings<N>)
        requires
            old(self).is_set(),
        ensures
            *out == old(self).rings(),
            final(self).is_set(),
            final(self).rings() == *final(out),
    {
        self.slot.as_mut().unwrap()
    }
}

} // verus!
