//! The mailbox: the state that the calls and the poll share, and the steps
//! of the protocol. A task that sends is suspended and woken by whoever
//! runs it; the mailbox is told of each wake and says where the call
//! stands then.

use crate::codec::{from_bytes, to_slice};
use crate::frame::{encode_frame, split_frame, MAX_FRAME, PREFIX_LEN};
use crate::ids::{successor, IdSource};
use crate::laws::{lemma_poll_flags, lemma_poll_only_adds};
use crate::model::{
    accepted, call_frame, drained, ended, polled, MailBoxState, PollNext, Polled, SendNext,
    Unsent, Wakeups,
};
use crate::once::{OnceRings, Rings};
use crate::rings::{
    copy_into, frame_bytes, frame_release, grant_commit, grant_window, ring_grant, ring_read,
};
use crate::table::{admits, fits, reply_view, Reply, ResponseTable};
use bbqueue::framed::FrameGrantW;
use vstd::prelude::*;

verus! {

/// A poll that is reading inbound frames.
pub struct Drain {
    inserted: bool,
}

/// A poll that is asking the outbound ring for room.
pub struct Probe {
    inserted: bool,
}

/// Where a poll stands.
pub enum PollStep {
    /// The next inbound frame is to be read.
    Read(Drain),
    /// The outbound ring is to be asked for room.
    Probe(Probe),
    /// The poll is over, and these waiters are to be woken.
    Done(Wakeups),
}

/// A call that has its id and whose frame is not yet in the outbound ring.
pub struct Submit {
    id: u32,
    request: Vec<u8>,
}

/// A call whose frame is in the outbound ring and whose reply is awaited.
pub struct Await {
    id: u32,
}

/// Where a call stands when the mailbox hands it back to its task.
pub enum SendStep {
    /// Suspend on the senders' queue; report the wake with `send_resumed`.
    WaitSpace(Submit),
    /// Suspend on the receivers' queue; report the wake with
    /// `send_collect`.
    WaitReply(Await),
    /// The call returns this.
    Done(Reply),
}

impl View for Drain {
    type V = bool;

    /// Whether this poll has stored a reply so far.
    closed spec fn view(&self) -> bool {
        self.inserted
    }
}

impl View for Probe {
    type V = bool;

    /// Whether this poll has stored a reply.
    closed spec fn view(&self) -> bool {
        self.inserted
    }
}

impl View for PollStep {
    type V = PollNext;

    open spec fn view(&self) -> PollNext {
        match self {
            PollStep::Read(drain) => PollNext::Read { inserted: drain@ },
            PollStep::Probe(probe) => PollNext::Probe { inserted: probe@ },
            PollStep::Done(wakeups) => PollNext::Done(*wakeups),
        }
    }
}

impl View for Submit {
    type V = Unsent;

    closed spec fn view(&self) -> Unsent {
        Unsent { id: self.id, request: self.request@ }
    }
}

impl View for Await {
    type V = u32;

    /// The id of the call.
    closed spec fn view(&self) -> u32 {
        self.id
    }
}

impl View for SendStep {
    type V = SendNext;

    open spec fn view(&self) -> SendNext {
        match self {
            SendStep::WaitSpace(call) => SendNext::WaitSpace(call@),
            SendStep::WaitReply(call) => SendNext::WaitReply { id: call@ },
            SendStep::Done(reply) => SendNext::Done(reply_view(*reply)),
        }
    }
}

/// One while a poll reads, zero when it has stopped reading.
spec fn reading(step: PollNext) -> nat {
    if step is Read {
        1
    } else {
        0
    }
}

/// What a frame that may be missing is in contracts.
pub open spec fn read_view(frame: Option<&[u8]>) -> Option<Seq<u8>> {
    match frame {
        Some(bytes) => Some(bytes@),
        None => None,
    }
}

/// What a frame that was built, or could not be, is in contracts.
pub open spec fn built_view(frame: Option<Vec<u8>>) -> Option<Seq<u8>> {
    match frame {
        Some(bytes) => Some(bytes@),
        None => None,
    }
}

impl Submit {
    /// The correlation id of the call.
    pub fn id(&self) -> (id: u32)
        ensures
            id == self@.id,
    {
        self.id
    }

    /// The frame that the call puts into the outbound ring: its id, then
    /// its request in postcard's encoding. `None` where the encoded request
    /// does not fit into a grant behind the id.
    pub fn frame(&self) -> (out: Option<Vec<u8>>)
        ensures
            built_view(out) == call_frame(self@),
    {
        match to_slice(&self.request, MAX_FRAME - PREFIX_LEN) {
            Some(wire) => Some(encode_frame(self.id, wire.as_slice())),
            None => None,
        }
    }
}

impl Await {
    /// The correlation id of the call.
    pub fn id(&self) -> (id: u32)
        ensures
            id == self@,
    {
        self.id
    }
}

/// The mailbox of one process.
pub struct MailBox<const N: usize> {
    ids: IdSource,
    inhibit_send: bool,
    rings: OnceRings<N>,
    received: ResponseTable,
}

impl<const N: usize> View for MailBox<N> {
    type V = MailBoxState;

    closed spec fn view(&self) -> MailBoxState {
        MailBoxState {
            next_id: self.ids@,
            inhibited: self.inhibit_send,
            ready: self.rings.is_set(),
            replies: self.received@,
        }
    }
}

impl<const N: usize> MailBox<N> {
    /// The ring handles of a mailbox that is ready.
    pub closed spec fn handles(&self) -> Rings<N> {
        self.rings.rings()
    }

    /// A mailbox that has issued no id, holds no reply and has no rings yet.
    pub fn new() -> (out: Self)
        ensures
            out@ == MailBoxState::initial(),
    {
        MailBox {
            ids: IdSource::new(),
            inhibit_send: false,
            rings: OnceRings::new(),
            received: ResponseTable::new(),
        }
    }

    /// Gives the mailbox its rings. This is done once, before the first
    /// call and the first poll.
    pub fn set_rings(&mut self, rings: Rings<N>)
        requires
            !old(self)@.ready,
        ensures
            final(self)@ == (MailBoxState { ready: true, ..old(self)@ }),
            final(self).handles() == rings,
    {
        self.rings.set(rings);
    }

    /// Whether the rings have been set.
    pub fn is_ready(&self) -> (ready: bool)
        ensures
            ready == self@.ready,
    {
        self.rings.is_ready()
    }

    /// Whether sending is inhibited.
    pub fn is_inhibited(&self) -> (inhibited: bool)
        ensures
            inhibited == self@.inhibited,
    {
        self.inhibit_send
    }

    /// The number of replies that wait for their calls.
    pub fn waiting(&self) -> (n: usize)
        ensures
            n == self@.replies.len(),
            fits(self@.replies),
    {
        self.received.len()
    }

    fn after_drain(&self, inserted: bool) -> (out: PollStep)
        ensures
            out@ == self@.after_drain(inserted),
    {
        if self.inhibit_send {
            PollStep::Probe(Probe { inserted })
        } else {
            PollStep::Done(Wakeups { receivers: inserted, senders: false })
        }
    }

    fn drain(&self, inserted: bool) -> (out: PollStep)
        ensures
            out@ == self@.drain(inserted),
            fits(self@.replies),
    {
        if !self.received.is_full() {
            PollStep::Read(Drain { inserted })
        } else {
            self.after_drain(inserted)
        }
    }

    /// Hands to the table what the decoder made of the payload of an
    /// inbound frame, and says whether a reply was stored: `reply` is stored
    /// under `id` where the decoder gave one, no reply waits under `id` yet
    /// and the table has a free place. Else nothing changes.
    pub fn deliver(&mut self, id: u32, reply: Option<Reply>) -> (inserted: bool)
        ensures
            inserted == (reply is Some && admits(old(self)@.replies, id)),
            inserted ==> final(self)@ == (MailBoxState {
                replies: old(self)@.replies.insert(id, reply_view(reply->Some_0)),
                ..old(self)@
            }),
            !inserted ==> final(self)@ == old(self)@,
    {
        match reply {
            Some(reply) => self.received.try_insert(id, reply),
            None => false,
        }
    }

    /// Hands an inbound frame to the table and says whether its reply was
    /// stored.
    fn accept(&mut self, frame: &[u8]) -> (inserted: bool)
        ensures
            inserted == accepted(old(self)@.replies, frame@),
            final(self)@ == old(self)@.offered(frame@),
    {
        match split_frame(frame) {
            Some((id, payload)) => self.deliver(id, from_bytes(payload)),
            None => false,
        }
    }

    /// The first step of a poll: a read where the table has a free place;
    /// else the probe, or the end of the poll.
    pub fn poll_begin(&self) -> (out: PollStep)
        ensures
            out@ == self@.poll_begin(),
            fits(self@.replies),
    {
        self.drain(false)
    }

    /// Takes what a read of the inbound ring gave. A frame is handed to
    /// the table: one that is too short for an id, or whose payload does
    /// not decode, is dropped, and so is a reply whose id is in the table
    /// already. Then the next frame is to be read, if the table still has a
    /// free place. `None` ends the draining.
    pub fn poll_read(&mut self, drain: Drain, frame: Option<&[u8]>) -> (out: PollStep)
        ensures
            final(self)@ == old(self)@.poll_read(drain@, read_view(frame)).0,
            out@ == old(self)@.poll_read(drain@, read_view(frame)).1,
    {
        match frame {
            Some(bytes) => {
                let inserted = self.accept(bytes);
                self.drain(drain.inserted || inserted)
            },
            None => self.after_drain(drain.inserted),
        }
    }

    /// Takes the answer of the outbound ring to the probe. Room clears the
    /// inhibit flag and wakes the senders; the receivers are woken where
    /// this poll has stored a reply.
    pub fn poll_probe(&mut self, probe: Probe, room: bool) -> (out: Wakeups)
        ensures
            final(self)@ == old(self)@.poll_probe(probe@, room).0,
            out == old(self)@.poll_probe(probe@, room).1,
    {
        let senders = self.inhibit_send && room;
        if room {
            self.inhibit_send = false;
        }
        Wakeups { receivers: probe.inserted, senders }
    }

    /// One poll. Inbound frames are read, handed to the table and released,
    /// one after the other, until the ring gives none or the table is full;
    /// frames that are not read stay in the ring. If sending is inhibited,
    /// the outbound ring is then asked for a grant, which is let go again.
    /// The result names the waiters to wake.
    ///
    /// What the rings hold is the far end's doing. The poll ends as
    /// `polled` says for the frames that it read and the answer that the
    /// probe got. So that the loop is bounded, a poll that has read
    /// `u64::MAX` frames goes on as if the ring had given none.
    pub fn poll(&mut self) -> (out: Wakeups)
        requires
            old(self)@.ready,
        ensures
            exists|seen: Seq<Seq<u8>>, room: bool|
                polled(old(self)@, seen, room) == (Polled {
                    state: final(self)@,
                    unread: Seq::empty(),
                    wakeups: out,
                }),
            final(self)@.next_id == old(self)@.next_id,
            final(self)@.ready,
            final(self)@.inhibited ==> old(self)@.inhibited,
            out.senders == (old(self)@.inhibited && !final(self)@.inhibited),
            old(self)@.replies.submap_of(final(self)@.replies),
            fits(final(self)@.replies),
            out.receivers == (final(self)@.replies.len() > old(self)@.replies.len()),
    {
        let mut step = self.poll_begin();
        let mut reads: u64 = 0;
        let ghost start = self@;
        let ghost nothing = Seq::<Seq<u8>>::empty();
        let ghost mut seen: Seq<Seq<u8>> = Seq::empty();
        let ghost mut inserted = false;
        assert(seen + nothing =~= seen);
        assert forall|rest: Seq<Seq<u8>>, room: bool|
            drained(start, false, seen + rest, room) == #[trigger] drained(
                self@,
                inserted,
                rest,
                room,
            ) by {
            assert(seen + rest =~= rest);
        }
        loop
            invariant
                self@.ready,
                start == old(self)@,
                fits(start.replies),
                nothing == Seq::<Seq<u8>>::empty(),
                step is Read ==> step@ == self@.drain(inserted),
                !(step is Read) ==> step@ == self@.after_drain(inserted),
                forall|room: bool|
                    drained(start, false, seen, room) == #[trigger] ended(
                        self@,
                        inserted,
                        nothing,
                        room,
                    ),
                step is Read ==> forall|rest: Seq<Seq<u8>>, room: bool|
                    drained(start, false, seen + rest, room) == #[trigger] drained(
                        self@,
                        inserted,
                        rest,
                        room,
                    ),
            decreases u64::MAX - reads, reading(step@),
        {
            let ghost before = self@;
            match step {
                PollStep::Read(drain) => {
                    assert(drained(before, inserted, nothing, false) == ended(
                        before,
                        inserted,
                        nothing,
                        false,
                    ));
                    let frame = if reads < u64::MAX {
                        ring_read(&mut self.rings.get_mut().k2u)
                    } else {
                        None
                    };
                    match frame {
                        Some(grant) => {
                            reads += 1;
                            let bytes = frame_bytes(&grant);
                            step = self.poll_read(drain, Some(bytes));
                            proof {
                                let longer = seen.push(bytes@);
                                let stored = inserted || accepted(before.replies, bytes@);
                                assert forall|rest: Seq<Seq<u8>>, room: bool|
                                    drained(start, false, longer + rest, room)
                                        == #[trigger] drained(self@, stored, rest, room) by {
                                    let ahead = seq![bytes@] + rest;
                                    assert(ahead.skip(1) =~= rest);
                                    assert(seen + ahead =~= longer + rest);
                                    assert(drained(before, inserted, ahead, room) == drained(
                                        self@,
                                        stored,
                                        rest,
                                        room,
                                    ));
                                }
                                assert(longer + nothing =~= longer);
                                assert forall|room: bool|
                                    drained(start, false, longer, room) == #[trigger] ended(
                                        self@,
                                        stored,
                                        nothing,
                                        room,
                                    ) by {
                                    assert(drained(self@, stored, nothing, room) == ended(
                                        self@,
                                        stored,
                                        nothing,
                                        room,
                                    ));
                                }
                                seen = longer;
                                inserted = stored;
                            }
                            frame_release(grant);
                        },
                        None => {
                            step = self.poll_read(drain, None);
                        },
                    }
                },
                PollStep::Probe(probe) => {
                    let grant = ring_grant(&mut self.rings.get_mut().u2k, MAX_FRAME);
                    let room = grant.is_some();
                    let out = self.poll_probe(probe, room);
                    assert(polled(start, seen, room) == (Polled {
                        state: self@,
                        unread: Seq::empty(),
                        wakeups: out,
                    })) by {
                        assert(ended(before, inserted, nothing, room) == (Polled {
                            state: self@,
                            unread: nothing,
                            wakeups: out,
                        }));
                    }
                    proof {
                        lemma_poll_flags(start, seen, room);
                        lemma_poll_only_adds(start, seen, room);
                    }
                    return out;
                },
                PollStep::Done(wakeups) => {
                    assert(polled(start, seen, false) == (Polled {
                        state: self@,
                        unread: Seq::empty(),
                        wakeups,
                    })) by {
                        assert(ended(before, inserted, nothing, false) == (Polled {
                            state: self@,
                            unread: nothing,
                            wakeups,
                        }));
                    }
                    proof {
                        lemma_poll_flags(start, seen, false);
                        lemma_poll_only_adds(start, seen, false);
                    }
                    return wakeups;
                },
            }
        }
    }

    /// Takes the answer of the outbound ring to a call's request for a
    /// grant. Without a grant, sending is inhibited and the call waits for
    /// room. With one, the frame of the call is written into it and as many
    /// bytes as the frame has are committed; a call that has no frame lets
    /// the grant go unused and ends in failure.
    pub fn send_granted(&mut self, call: Submit, grant: Option<FrameGrantW<'static, N>>) -> (out:
        SendStep)
        ensures
            final(self)@ == old(self)@.send_granted(call@, grant is Some).0,
            out@ == old(self)@.send_granted(call@, grant is Some).1,
    {
        match grant {
            Some(mut window) => match call.frame() {
                Some(frame) => {
                    copy_into(grant_window(&mut window), frame.as_slice());
                    grant_commit(window, frame.len());
                    SendStep::WaitReply(Await { id: call.id })
                },
                None => SendStep::Done(Err(())),
            },
            None => {
                self.inhibit_send = true;
                SendStep::WaitSpace(call)
            },
        }
    }

    fn attempt(&mut self, call: Submit) -> (out: SendStep)
        requires
            old(self)@.ready,
        ensures
            exists|granted: bool|
                old(self)@.attempt(call@, granted) == (final(self)@, #[trigger] out@),
    {
        if self.inhibit_send {
            let out = SendStep::WaitSpace(call);
            assert(old(self)@.attempt(call@, false) == (self@, out@));
            out
        } else {
            let grant = ring_grant(&mut self.rings.get_mut().u2k, MAX_FRAME);
            let ghost granted = grant is Some;
            let out = self.send_granted(call, grant);
            assert(old(self)@.attempt(call@, granted) == (self@, out@));
            out
        }
    }

    /// Begins a call. It is given the next correlation id. Unless sending
    /// is inhibited the outbound ring is asked for a grant, and the call
    /// goes on as `send_granted` says; while it is inhibited the call
    /// waits for room and the ring is left alone.
    pub fn send(&mut self, request: Vec<u8>) -> (out: SendStep)
        requires
            old(self)@.ready,
        ensures
            exists|granted: bool|
                old(self)@.send(request@, granted) == (final(self)@, #[trigger] out@),
            final(self)@.next_id == successor(old(self)@.next_id),
            final(self)@.replies == old(self)@.replies,
            final(self)@.ready,
            old(self)@.inhibited ==> final(self)@.inhibited && out is WaitSpace,
    {
        let id = self.ids.issue();
        let ghost issued = self@;
        let call = Submit { id, request };
        let out = self.attempt(call);
        proof {
            let granted = choose|granted: bool|
                issued.attempt(call@, granted) == (self@, #[trigger] out@);
            assert(old(self)@.send(request@, granted) == (self@, out@));
        }
        out
    }

    /// Takes the end of a call's wait for room: woken, the call tries
    /// again as at its start; a wait that failed ends the call in failure.
    pub fn send_resumed(&mut self, call: Submit, woken: bool) -> (out: SendStep)
        requires
            old(self)@.ready,
        ensures
            exists|granted: bool|
                old(self)@.send_resumed(call@, woken, granted) == (final(self)@, #[trigger] out@),
            final(self)@.next_id == old(self)@.next_id,
            final(self)@.replies == old(self)@.replies,
            final(self)@.ready,
            !woken ==> final(self)@ == old(self)@ && out@ == SendNext::Done(Err(())),
            woken && old(self)@.inhibited ==> final(self)@ == old(self)@ && out@
                == SendNext::WaitSpace(call@),
    {
        if woken {
            let out = self.attempt(call);
            proof {
                let granted = choose|granted: bool|
                    old(self)@.attempt(call@, granted) == (self@, #[trigger] out@);
                assert(old(self)@.send_resumed(call@, woken, granted) == (self@, out@));
            }
            out
        } else {
            let out = SendStep::Done(Err(()));
            assert(old(self)@.send_resumed(call@, woken, false) == (self@, out@));
            out
        }
    }

    /// Takes the end of a call's wait for its reply: woken, the call takes
    /// the reply that stands under its id out of the table, or waits again
    /// where there is none; a wait that failed ends the call in failure.
    pub fn send_collect(&mut self, call: Await, woken: bool) -> (out: SendStep)
        ensures
            final(self)@ == old(self)@.send_collect(call@, woken).0,
            out@ == old(self)@.send_collect(call@, woken).1,
    {
        if !woken {
            return SendStep::Done(Err(()));
        }
        match self.received.take(call.id) {
            Some(reply) => SendStep::Done(reply),
            None => {
                assert(self.received@ =~= old(self).received@);
                SendStep::WaitReply(call)
            },
        }
    }
}

} // verus!
