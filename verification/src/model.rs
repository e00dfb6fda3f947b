//! The mailbox as contracts see it: its state, and what each step of the
//! protocol makes of a state.

use crate::codec::{decoded, request_wire};
use crate::frame::{frame_of, parse_frame, MAX_FRAME, PREFIX_LEN};
use crate::ids::successor;
use crate::table::{admits, lookup, Replies, ReplyView, CAPACITY};
use vstd::prelude::*;

verus! {

/// Which waiters are to be woken when a poll ends.
#[derive(Clone, Copy, Debug, PartialEq, Eq, Structural)]
pub struct Wakeups {
    /// Wake every task that waits for a reply.
    pub receivers: bool,
    /// Wake every task that waits for room in the outbound ring.
    pub senders: bool,
}

/// A call that has its id and whose frame is not yet in the outbound ring.
pub struct Unsent {
    pub id: u32,
    pub request: Seq<u8>,
}

/// Where a poll stands. `inserted` is whether it has stored a reply so far.
pub enum PollNext {
    /// The next inbound frame is to be read.
    Read { inserted: bool },
    /// The outbound ring is to be asked whether it has room for a frame.
    Probe { inserted: bool },
    /// The poll is over.
    Done(Wakeups),
}

/// Where a call stands when the mailbox hands it back to its task.
pub enum SendNext {
    /// The frame is not in the ring yet: suspend until the senders are
    /// woken.
    WaitSpace(Unsent),
    /// The frame is in the ring: suspend until the receivers are woken.
    WaitReply { id: u32 },
    /// The call is over, with this result.
    Done(ReplyView),
}

/// The state of a mailbox.
pub struct MailBoxState {
    /// The id that the next call gets.
    pub next_id: u32,
    /// Set when the outbound ring refused a grant; cleared when a poll
    /// finds room again.
    pub inhibited: bool,
    /// Whether the ring handles have been set.
    pub ready: bool,
    /// The replies that wait for their calls.
    pub replies: Replies,
}

/// The id and the reply that an inbound frame carries. A frame that is too
/// short for an id, or whose payload does not decode, carries none.
pub open spec fn incoming(frame: Seq<u8>) -> Option<(u32, ReplyView)> {
    match parse_frame(frame) {
        Some((id, payload)) => match decoded(payload) {
            Some(reply) => Some((id, reply)),
            None => None,
        },
        None => None,
    }
}

/// Whether the table takes the reply of `frame`: the frame carries one, its
/// id is not in the table, and a place is free.
pub open spec fn accepted(replies: Replies, frame: Seq<u8>) -> bool {
    match incoming(frame) {
        Some((id, _)) => admits(replies, id),
        None => false,
    }
}

/// The table after `frame` was handed to it.
pub open spec fn accept(replies: Replies, frame: Seq<u8>) -> Replies {
    match incoming(frame) {
        Some((id, reply)) => if admits(replies, id) {
            replies.insert(id, reply)
        } else {
            replies
        },
        None => replies,
    }
}

/// The room that a grant leaves for the encoded request.
pub open spec fn payload_room() -> nat {
    (MAX_FRAME - PREFIX_LEN) as nat
}

/// The frame that a call puts into the outbound ring: its id, then its
/// request in postcard's encoding. A request whose encoding does not fit
/// into the grant behind the id has no frame.
pub open spec fn call_frame(call: Unsent) -> Option<Seq<u8>> {
    if call.request.len() < payload_room() {
        Some(frame_of(call.id, request_wire(call.request)))
    } else {
        None
    }
}

impl MailBoxState {
    /// The state of a new mailbox.
    pub open spec fn initial() -> MailBoxState {
        MailBoxState { next_id: 0, inhibited: false, ready: false, replies: Map::empty() }
    }

    /// The step after the draining has ended: the probe where sending is
    /// inhibited, the end of the poll where it is not.
    pub open spec fn after_drain(self, inserted: bool) -> PollNext {
        if self.inhibited {
            PollNext::Probe { inserted }
        } else {
            PollNext::Done(Wakeups { receivers: inserted, senders: false })
        }
    }

    /// The step while draining: another read as long as the table has a
    /// free place.
    pub open spec fn drain(self, inserted: bool) -> PollNext {
        if self.replies.len() < CAPACITY {
            PollNext::Read { inserted }
        } else {
            self.after_drain(inserted)
        }
    }

    /// The first step of a poll.
    pub open spec fn poll_begin(self) -> PollNext {
        self.drain(false)
    }

    /// The mailbox after an inbound frame was handed to its table.
    pub open spec fn offered(self, frame: Seq<u8>) -> MailBoxState {
        MailBoxState { replies: accept(self.replies, frame), ..self }
    }

    /// A poll is told what the read gave: a frame, or nothing.
    pub open spec fn poll_read(self, inserted: bool, frame: Option<Seq<u8>>) -> (
        MailBoxState,
        PollNext,
    ) {
        match frame {
            Some(bytes) => (
                self.offered(bytes),
                self.offered(bytes).drain(inserted || accepted(self.replies, bytes)),
            ),
            None => (self, self.after_drain(inserted)),
        }
    }

    /// A poll is told whether the outbound ring has room.
    pub open spec fn poll_probe(self, inserted: bool, room: bool) -> (MailBoxState, Wakeups) {
        (
            MailBoxState { inhibited: self.inhibited && !room, ..self },
            Wakeups { receivers: inserted, senders: self.inhibited && room },
        )
    }

    /// A call is told whether the outbound ring gave it a grant. Without
    /// one, sending is inhibited and the call waits for room. With one, the
    /// frame of the call is committed and the call waits for its reply; a
    /// request that is too long for the grant ends the call in failure.
    pub open spec fn send_granted(self, call: Unsent, granted: bool) -> (MailBoxState, SendNext) {
        if !granted {
            (MailBoxState { inhibited: true, ..self }, SendNext::WaitSpace(call))
        } else if call_frame(call) is Some {
            (self, SendNext::WaitReply { id: call.id })
        } else {
            (self, SendNext::Done(Err(())))
        }
    }

    /// What a call does when it is free to try: while sending is inhibited
    /// it waits and leaves the ring alone; else it asks for a grant, and
    /// `granted` is the answer.
    pub open spec fn attempt(self, call: Unsent, granted: bool) -> (MailBoxState, SendNext) {
        if self.inhibited {
            (self, SendNext::WaitSpace(call))
        } else {
            self.send_granted(call, granted)
        }
    }

    /// A call begins: it takes the next id and tries to send.
    pub open spec fn send(self, request: Seq<u8>, granted: bool) -> (MailBoxState, SendNext) {
        let next = MailBoxState { next_id: successor(self.next_id), ..self };
        next.attempt(Unsent { id: self.next_id, request }, granted)
    }

    /// A call that waited for room is told how its wait ended: woken, it
    /// tries again; a wait that failed ends the call in failure.
    pub open spec fn send_resumed(self, call: Unsent, woken: bool, granted: bool) -> (
        MailBoxState,
        SendNext,
    ) {
        if woken {
            self.attempt(call, granted)
        } else {
            (self, SendNext::Done(Err(())))
        }
    }

    /// A call that waited for its reply is told how its wait ended.
    pub open spec fn send_collect(self, id: u32, woken: bool) -> (MailBoxState, SendNext) {
        if !woken {
            (self, SendNext::Done(Err(())))
        } else {
            match lookup(self.replies, id) {
                Some(reply) => (
                    MailBoxState { replies: self.replies.remove(id), ..self },
                    SendNext::Done(reply),
                ),
                None => (self, SendNext::WaitReply { id }),
            }
        }
    }
}

/// How a poll ends.
pub struct Polled {
    /// The mailbox after the poll.
    pub state: MailBoxState,
    /// The inbound frames that the poll left in the ring.
    pub unread: Seq<Seq<u8>>,
    /// The waiters to wake.
    pub wakeups: Wakeups,
}

/// The end of a poll whose draining is over: where sending is inhibited
/// the outbound ring is asked for room, and `room` is its answer.
pub open spec fn ended(
    state: MailBoxState,
    inserted: bool,
    unread: Seq<Seq<u8>>,
    room: bool,
) -> Polled {
    if state.inhibited {
        let (next, wakeups) = state.poll_probe(inserted, room);
        Polled { state: next, unread, wakeups }
    } else {
        Polled { state, unread, wakeups: Wakeups { receivers: inserted, senders: false } }
    }
}

/// A poll that finds the frames `inbound` in the inbound ring: it hands
/// them to the table one by one while the table has a free place, and ends
/// when the frames or the places run out.
pub open spec fn drained(
    state: MailBoxState,
    inserted: bool,
    inbound: Seq<Seq<u8>>,
    room: bool,
) -> Polled
    decreases inbound.len(),
{
    if state.replies.len() < CAPACITY && inbound.len() > 0 {
        drained(
            state.offered(inbound[0]),
            inserted || accepted(state.replies, inbound[0]),
            inbound.skip(1),
            room,
        )
    } else {
        ended(state, inserted, inbound, room)
    }
}

/// A whole poll on `state`, with the frames `inbound` in the inbound ring
/// and the outbound ring with room for a frame or without.
pub open spec fn polled(state: MailBoxState, inbound: Seq<Seq<u8>>, room: bool) -> Polled {
    drained(state, false, inbound, room)
}

} // verus!
