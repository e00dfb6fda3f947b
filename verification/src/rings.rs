//! The calls into the two framed rings. A ring is memory shared with the
//! far end, which fills and empties it through the other half of the same
//! `bbqueue` buffer. What a read or a grant returns is therefore the far
//! end's doing as much as this one's, and nothing is claimed of it: the
//! mailbox is proved for whatever comes back.

use bbqueue::framed::{FrameConsumer, FrameGrantR, FrameGrantW, FrameProducer};
use vstd::prelude::*;

verus! {

/// `bbqueue::framed::FrameProducer`, the writing half of a ring; nothing
/// is known of what is inside.
#[verifier::external_type_specification]
#[verifier::external_body]
pub struct ExFrameProducer<'a, const N: usize>(FrameProducer<'a, N>);

/// `bbqueue::framed::FrameConsumer`, the reading half of a ring; nothing
/// is known of what is inside.
#[verifier::external_type_specification]
#[verifier::external_body]
pub struct ExFrameConsumer<'a, const N: usize>(FrameConsumer<'a, N>);

/// `bbqueue::framed::FrameGrantW`, a window for one frame that is being
/// written; nothing is known of what is inside.
#[verifier::external_type_specification]
#[verifier::external_body]
pub struct ExFrameGrantW<'a, const N: usize>(FrameGrantW<'a, N>);

/// `bbqueue::framed::FrameGrantR`, one frame that is being read; nothing
/// is known of what is inside.
#[verifier::external_type_specification]
#[verifier::external_body]
pub struct ExFrameGrantR<'a, const N: usize>(FrameGrantR<'a, N>);

/// The largest window that `ring_grant` is asked for. `bbqueue` adds the
/// length of a frame header, nine bytes at most, to the size that is asked
/// for and to its write position; below this limit neither sum overflows.
pub const GRANT_LIMIT: usize = 0xffff;

/// `FrameProducer::grant`: a window of `max` bytes for one frame, or
/// `None` where the ring has no room for it or a grant is out already.
/// A grant that is dropped without a commit leaves no frame in the ring.
#[verifier::external_body]
pub(crate) fn ring_grant<const N: usize>(
    producer: &mut FrameProducer<'static, N>,
    max: usize,
) -> (out: Option<FrameGrantW<'static, N>>)
    requires
        max <= GRANT_LIMIT,
{
    producer.grant(max).ok()
}

/// The window of a grant, through its `DerefMut`: the bytes into which a
/// frame is written before it is committed.
#[verifier::external_body]
pub(crate) fn grant_window<'a, const N: usize>(grant: &'a mut FrameGrantW<'static, N>) -> (out:
    &'a mut [u8]) {
    core::ops::DerefMut::deref_mut(grant)
}

/// `FrameGrantW::commit`: makes the first `used` bytes of the window a
/// frame that the far end can read; a `used` beyond the window commits the
/// whole window.
#[verifier::external_body]
pub(crate) fn grant_commit<const N: usize>(grant: FrameGrantW<'static, N>, used: usize) {
    grant.commit(used);
}

/// `FrameConsumer::read`: the next frame that waits in the ring, or `None`
/// where there is none. It takes the length of the frame from the header
/// that the producer of the same buffer wrote in front of it.
#[verifier::external_body]
pub(crate) fn ring_read<const N: usize>(consumer: &mut FrameConsumer<'static, N>) -> (out: Option<
    FrameGrantR<'static, N>,
>) {
    consumer.read()
}

/// The bytes of a frame that was read, through the `Deref` of its grant.
#[verifier::external_body]
pub(crate) fn frame_bytes<'a, const N: usize>(grant: &'a FrameGrantR<'static, N>) -> (out:
    &'a [u8]) {
    core::ops::Deref::deref(grant)
}

/// `FrameGrantR::release`: gives the place of the frame back to the ring.
#[verifier::external_body]
pub(crate) fn frame_release<const N: usize>(grant: FrameGrantR<'static, N>) {
    grant.release();
}

/// Copies `frame` to the start of `window`, as far as the window reaches.
pub(crate) fn copy_into(window: &mut [u8], frame: &[u8])
    ensures
        final(window)@.len() == old(window)@.len(),
        forall|i: int|
            0 <= i < frame@.len() && i < old(window)@.len() ==> final(window)@[i] == frame@[i],
        forall|i: int|
            frame@.len() <= i < old(window)@.len() ==> final(window)@[i] == old(window)@[i],
{
    let n = if frame.len() < window.len() {
        frame.len()
    } else {
        window.len()
    };
    let mut at: usize = 0;
    while at < n
        invariant
            at <= n,
            n <= frame@.len(),
            n <= window@.len(),
            window@.len() == old(window)@.len(),
            forall|i: int| 0 <= i < at ==> window@[i] == frame@[i],
            forall|i: int| at <= i < window@.len() ==> window@[i] == old(window)@[i],
        decreases n - at,
    {
        window[at] = frame[at];
        at += 1;
    }
}

} // verus!
