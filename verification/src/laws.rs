//! What holds of the protocol, proved of the model that the contracts of
//! the mailbox are stated in.

use crate::codec::request_wire;
use crate::frame::{lemma_frame_round_trip, parse_frame};
use crate::model::{
    accept, accepted, call_frame, drained, incoming, polled, MailBoxState, Polled, SendNext,
    Unsent, Wakeups,
};
use crate::table::{fits, lookup, Replies, ReplyView, CAPACITY};
use vstd::prelude::*;

verus! {

/// The id that a well-formed inbound frame carries.
pub open spec fn carried_id(frame: Seq<u8>) -> u32 {
    incoming(frame)->Some_0.0
}

/// The reply that a well-formed inbound frame carries.
pub open spec fn carried_reply(frame: Seq<u8>) -> ReplyView {
    incoming(frame)->Some_0.1
}

/// Every frame of `inbound` carries a reply, no two of them for the same
/// id, and none for an id that `replies` holds.
pub open spec fn fresh_batch(replies: Replies, inbound: Seq<Seq<u8>>) -> bool {
    &&& forall|i: int| 0 <= i < inbound.len() ==> incoming(#[trigger] inbound[i]) is Some
    &&& forall|i: int|
        0 <= i < inbound.len() ==> !replies.contains_key(carried_id(#[trigger] inbound[i]))
    &&& forall|i: int, j: int|
        0 <= i < j < inbound.len() ==> carried_id(#[trigger] inbound[i]) != carried_id(
            #[trigger] inbound[j],
        )
}

/// A frame never replaces a reply that waits: under every id the table holds
/// after the frame what it held before, or it held nothing there and now
/// holds the reply that the frame carries for this very id.
pub proof fn lemma_entry_comes_from_its_frame(
    replies: Replies,
    frame: Seq<u8>,
    id: u32,
)
    ensures
        lookup(accept(replies, frame), id) == lookup(replies, id) || (lookup(replies, id) is None
            && incoming(frame) == Some((id, accept(replies, frame)[id]))),
{
}

/// The frame that a call puts into the ring carries the id of that call in
/// front of the encoding of its request, and the call then waits under
/// that same id.
pub proof fn lemma_frame_carries_call_id(state: MailBoxState, call: Unsent)
    ensures
        call_frame(call) matches Some(frame) ==> parse_frame(frame) == Some(
            (call.id, request_wire(call.request)),
        ) && state.send_granted(call, true).1 == (SendNext::WaitReply { id: call.id }),
{
    lemma_frame_round_trip(call.id, request_wire(call.request));
}

/// A reply reaches the call whose id its frame carries and no other call:
/// once the frame is stored, the call with that id collects exactly this
/// reply, and a call with another id finds what it would have found
/// without the frame.
pub proof fn lemma_reply_reaches_its_call(state: MailBoxState, frame: Seq<u8>, other: u32)
    requires
        accepted(state.replies, frame),
        other != carried_id(frame),
    ensures
        ({
            let after = state.offered(frame);
            &&& after.send_collect(carried_id(frame), true).1 == SendNext::Done(
                carried_reply(frame),
            )
            &&& after.send_collect(carried_id(frame), true).0 == state
            &&& after.send_collect(other, true).1 == state.send_collect(other, true).1
        }),
{
    let id = carried_id(frame);
    let after = state.offered(frame);
    assert(after.replies.remove(id) =~= state.replies);
}

/// Collecting one reply leaves every other reply where it is.
pub proof fn lemma_collect_leaves_others(state: MailBoxState, id: u32, other: u32)
    requires
        other != id,
    ensures
        lookup(state.send_collect(id, true).0.replies, other) == lookup(state.replies, other),
{
}

/// What a poll does to the flags, whatever the inbound ring holds: the id
/// counter and the rings stay; sending is inhibited after the poll where it
/// was before and the outbound ring has no room; the senders are woken where
/// it was and the ring has room.
pub proof fn lemma_poll_flags(state: MailBoxState, inbound: Seq<Seq<u8>>, room: bool)
    ensures
        polled(state, inbound, room).state.next_id == state.next_id,
        polled(state, inbound, room).state.ready == state.ready,
        polled(state, inbound, room).state.inhibited == (state.inhibited && !room),
        polled(state, inbound, room).wakeups.senders == (state.inhibited && room),
{
    lemma_drain_flags(state, false, inbound, room);
}

proof fn lemma_drain_flags(
    state: MailBoxState,
    inserted: bool,
    inbound: Seq<Seq<u8>>,
    room: bool,
)
    ensures
        ({
            let end = drained(state, inserted, inbound, room);
            &&& end.state.next_id == state.next_id
            &&& end.state.ready == state.ready
            &&& end.state.inhibited == (state.inhibited && !room)
            &&& end.wakeups.senders == (state.inhibited && room)
        }),
    decreases inbound.len(),
{
    if state.replies.len() < CAPACITY && inbound.len() > 0 {
        lemma_drain_flags(
            state.offered(inbound[0]),
            inserted || accepted(state.replies, inbound[0]),
            inbound.skip(1),
            room,
        );
    }
}

/// What a poll does to the table, whatever the inbound ring holds: it
/// takes no reply out and puts none in the place of another; the table stays
/// within its capacity; the receivers are woken if and only if the table has
/// grown; and under every id that is new in the table stands the reply that
/// one of the frames read carries for this very id.
pub proof fn lemma_poll_only_adds(state: MailBoxState, inbound: Seq<Seq<u8>>, room: bool)
    requires
        fits(state.replies),
    ensures
        state.replies.submap_of(polled(state, inbound, room).state.replies),
        fits(polled(state, inbound, room).state.replies),
        polled(state, inbound, room).wakeups.receivers == (polled(
            state,
            inbound,
            room,
        ).state.replies.len() > state.replies.len()),
        polled(state, inbound, room).unread.len() <= inbound.len(),
        forall|id: u32|
            #![trigger polled(state, inbound, room).state.replies.contains_key(id)]
            polled(state, inbound, room).state.replies.contains_key(id)
                && !state.replies.contains_key(id) ==> exists|i: int|
                0 <= i < inbound.len() - polled(state, inbound, room).unread.len() && incoming(
                    #[trigger] inbound[i],
                ) == Some((id, polled(state, inbound, room).state.replies[id])),
{
    lemma_drain_only_adds(state, false, inbound, room);
}

proof fn lemma_drain_only_adds(
    state: MailBoxState,
    inserted: bool,
    inbound: Seq<Seq<u8>>,
    room: bool,
)
    requires
        fits(state.replies),
    ensures
        ({
            let end = drained(state, inserted, inbound, room);
            &&& state.replies.submap_of(end.state.replies)
            &&& fits(end.state.replies)
            &&& end.state.replies.len() >= state.replies.len()
            &&& end.wakeups.receivers == (inserted || end.state.replies.len()
                > state.replies.len())
            &&& end.unread.len() <= inbound.len()
            &&& forall|id: u32|
                #![trigger end.state.replies.contains_key(id)]
                end.state.replies.contains_key(id) && !state.replies.contains_key(id)
                    ==> exists|i: int|
                    0 <= i < inbound.len() - end.unread.len() && incoming(#[trigger] inbound[i])
                        == Some((id, end.state.replies[id]))
        }),
    decreases inbound.len(),
{
    let end = drained(state, inserted, inbound, room);
    if state.replies.len() < CAPACITY && inbound.len() > 0 {
        let first = inbound[0];
        let rest = inbound.skip(1);
        let next = state.offered(first);
        let stored = accepted(state.replies, first);
        lemma_drain_only_adds(next, inserted || stored, rest, room);
        assert(end == drained(next, inserted || stored, rest, room));
        assert(end.unread.len() <= rest.len());
        assert(state.replies.submap_of(next.replies));
        vstd::map_lib::lemma_submap_of_trans(state.replies, next.replies, end.state.replies);
        assert forall|id: u32|
            #![trigger end.state.replies.contains_key(id)]
            end.state.replies.contains_key(id) && !state.replies.contains_key(id) implies exists|
            i: int,
        |
            0 <= i < inbound.len() - end.unread.len() && incoming(#[trigger] inbound[i]) == Some(
                (id, end.state.replies[id]),
            ) by {
            if next.replies.contains_key(id) {
                assert(incoming(inbound[0]) == Some((id, next.replies[id])));
                assert(end.state.replies[id] == next.replies[id]);
            } else {
                let j = choose|j: int|
                    0 <= j < rest.len() - end.unread.len() && incoming(#[trigger] rest[j]) == Some(
                        (id, end.state.replies[id]),
                    );
                assert(rest[j] == inbound[j + 1]);
            }
        }
    }
}

/// A poll that finds the inbound ring empty changes nothing and wakes
/// nobody, unless sending is inhibited and the outbound ring has room.
pub proof fn lemma_poll_of_empty_ring_is_idle(state: MailBoxState, room: bool)
    requires
        !(state.inhibited && room),
    ensures
        polled(state, Seq::empty(), room) == (Polled {
            state,
            unread: Seq::empty(),
            wakeups: Wakeups { receivers: false, senders: false },
        }),
{
}

/// A frame that carries no reply is read and dropped, and the poll goes on
/// as if it had not been there: with the frame ahead of the others the poll
/// ends in the same state and with the same wakeups, and, where the table
/// had a free place, with the same frames left unread.
pub proof fn lemma_malformed_frame_is_skipped(
    state: MailBoxState,
    bad: Seq<u8>,
    rest: Seq<Seq<u8>>,
    room: bool,
)
    requires
        incoming(bad) is None,
    ensures
        polled(state, seq![bad] + rest, room).state == polled(state, rest, room).state,
        polled(state, seq![bad] + rest, room).wakeups == polled(state, rest, room).wakeups,
        state.replies.len() < CAPACITY ==> polled(state, seq![bad] + rest, room).unread == polled(
            state,
            rest,
            room,
        ).unread,
{
    let inbound = seq![bad] + rest;
    assert(inbound.skip(1) =~= rest);
    assert(inbound[0] == bad);
    if state.replies.len() < CAPACITY {
        assert(state.offered(bad) == state);
    }
}

/// While the table is full a poll reads nothing: every inbound frame stays
/// in the ring and the table stays as it is.
pub proof fn lemma_full_table_reads_nothing(state: MailBoxState, inbound: Seq<Seq<u8>>, room: bool)
    requires
        state.replies.len() >= CAPACITY,
    ensures
        polled(state, inbound, room).unread == inbound,
        polled(state, inbound, room).state.replies == state.replies,
{
}

/// Once a call has collected its reply from a full table, the next poll
/// reads again: it takes at least one frame out of an inbound ring that
/// holds any.
pub proof fn lemma_poll_reads_again_after_collect(
    state: MailBoxState,
    id: u32,
    inbound: Seq<Seq<u8>>,
    room: bool,
)
    requires
        fits(state.replies),
        state.replies.contains_key(id),
        inbound.len() > 0,
    ensures
        polled(state.send_collect(id, true).0, inbound, room).unread.len() < inbound.len(),
{
    let after = state.send_collect(id, true).0;
    state.replies.lemma_remove_key_len(id);
    lemma_drain_only_adds(
        after.offered(inbound[0]),
        accepted(after.replies, inbound[0]),
        inbound.skip(1),
        room,
    );
}

/// No reply is lost while the table has room for all: where the inbound
/// frames carry replies for ids that differ from each other and from those
/// in the table, and the table has a free place for each, one poll reads
/// them all, stores each reply under its id, keeps what the table held, and
/// wakes the receivers if there was any frame.
pub proof fn lemma_no_loss_under_capacity(state: MailBoxState, inbound: Seq<Seq<u8>>, room: bool)
    requires
        fits(state.replies),
        fresh_batch(state.replies, inbound),
        state.replies.len() + inbound.len() <= CAPACITY,
    ensures
        polled(state, inbound, room).unread.len() == 0,
        fits(polled(state, inbound, room).state.replies),
        polled(state, inbound, room).wakeups.receivers == (inbound.len() > 0),
        forall|i: int|
            0 <= i < inbound.len() ==> lookup(
                polled(state, inbound, room).state.replies,
                carried_id(#[trigger] inbound[i]),
            ) == Some(carried_reply(inbound[i])),
        forall|id: u32|
            state.replies.contains_key(id) ==> lookup(
                polled(state, inbound, room).state.replies,
                id,
            ) == lookup(state.replies, id),
{
    lemma_batch_is_stored(state, false, inbound, room);
}

proof fn lemma_batch_is_stored(
    state: MailBoxState,
    inserted: bool,
    inbound: Seq<Seq<u8>>,
    room: bool,
)
    requires
        fits(state.replies),
        fresh_batch(state.replies, inbound),
        state.replies.len() + inbound.len() <= CAPACITY,
    ensures
        ({
            let end = drained(state, inserted, inbound, room);
            &&& end.unread.len() == 0
            &&& fits(end.state.replies)
            &&& end.wakeups.receivers == (inserted || inbound.len() > 0)
            &&& forall|i: int|
                0 <= i < inbound.len() ==> lookup(
                    end.state.replies,
                    carried_id(#[trigger] inbound[i]),
                ) == Some(carried_reply(inbound[i]))
            &&& forall|id: u32|
                state.replies.contains_key(id) ==> lookup(end.state.replies, id) == lookup(
                    state.replies,
                    id,
                )
        }),
    decreases inbound.len(),
{
    if inbound.len() > 0 {
        let first = inbound[0];
        let rest = inbound.skip(1);
        let id = carried_id(first);
        assert(incoming(first) is Some);
        assert(!state.replies.contains_key(id));
        assert(accepted(state.replies, first));
        let next = state.offered(first);
        assert(next.replies == state.replies.insert(id, carried_reply(first)));
        assert forall|i: int| 0 <= i < rest.len() implies incoming(#[trigger] rest[i]) is Some
            && !next.replies.contains_key(carried_id(rest[i])) by {
            assert(rest[i] == inbound[i + 1]);
            assert(carried_id(inbound[0]) != carried_id(inbound[i + 1]));
        }
        assert forall|i: int, j: int| 0 <= i < j < rest.len() implies carried_id(
            #[trigger] rest[i],
        ) != carried_id(#[trigger] rest[j]) by {
            assert(rest[i] == inbound[i + 1]);
            assert(rest[j] == inbound[j + 1]);
        }
        lemma_batch_is_stored(next, true, rest, room);
        let end = drained(next, true, rest, room);
        assert(end == drained(state, inserted, inbound, room));
        assert forall|i: int| 0 <= i < inbound.len() implies lookup(
            end.state.replies,
            carried_id(#[trigger] inbound[i]),
        ) == Some(carried_reply(inbound[i])) by {
            if i > 0 {
                assert(inbound[i] == rest[i - 1]);
            } else {
                assert(next.replies.contains_key(id));
                assert(lookup(end.state.replies, id) == lookup(next.replies, id));
            }
        }
        assert forall|other: u32| state.replies.contains_key(other) implies lookup(
            end.state.replies,
            other,
        ) == lookup(state.replies, other) by {
            assert(next.replies.contains_key(other));
            assert(lookup(end.state.replies, other) == lookup(next.replies, other));
        }
    }
}

/// The inhibit flag is raised by a call that is refused a grant and by
/// nothing else, and lowered by a poll whose probe finds room and by
/// nothing else.
pub proof fn lemma_inhibit_flag_transitions(
    state: MailBoxState,
    call: Unsent,
    granted: bool,
    woken: bool,
    inbound: Seq<Seq<u8>>,
    room: bool,
)
    ensures
        state.send_granted(call, granted).0.inhibited == (state.inhibited || !granted),
        state.send(call.request, granted).0.inhibited == (state.inhibited || !granted),
        state.send_resumed(call, woken, granted).0.inhibited == (state.inhibited || (woken
            && !granted)),
        state.send_collect(call.id, woken).0.inhibited == state.inhibited,
        polled(state, inbound, room).state.inhibited == (state.inhibited && !room),
{
    lemma_poll_flags(state, inbound, room);
}

/// Backpressure. A call that is refused a grant inhibits sending and waits
/// for room; it does not fail. While sending is inhibited, a call that
/// begins or is woken waits and leaves the ring alone, whatever the ring
/// would answer. A poll that finds no room leaves it so. A poll that finds
/// room lifts the inhibition and wakes the senders; the call that is woken
/// then asks again and, given the grant, goes on as a call that was never
/// refused.
pub proof fn lemma_backpressure(
    state: MailBoxState,
    call: Unsent,
    inbound: Seq<Seq<u8>>,
    granted: bool,
)
    ensures
        ({
            let (refused, step) = state.send_granted(call, false);
            let stuck = polled(refused, inbound, false);
            let freed = polled(refused, inbound, true);
            &&& step == SendNext::WaitSpace(call)
            &&& refused.inhibited
            &&& refused.send_resumed(call, true, granted) == (refused, SendNext::WaitSpace(call))
            &&& refused.send(call.request, granted).1 is WaitSpace
            &&& stuck.state.inhibited
            &&& !stuck.wakeups.senders
            &&& stuck.state.send_resumed(call, true, granted).1 == SendNext::WaitSpace(call)
            &&& !freed.state.inhibited
            &&& freed.wakeups.senders
            &&& freed.state.send_resumed(call, true, true) == (
                freed.state,
                state.send_granted(call, true).1,
            )
            &&& call_frame(call) is Some ==> freed.state.send_resumed(call, true, true).1 == (
                SendNext::WaitReply { id: call.id }
            )
        }),
{
    let (refused, step) = state.send_granted(call, false);
    lemma_poll_flags(refused, inbound, false);
    lemma_poll_flags(refused, inbound, true);
}

} // verus!
