//! The response table: a fixed store of replies that wait for their calls.

use heapless::LinearMap;
use vstd::prelude::*;

verus! {

/// How many replies the table holds at most.
pub const CAPACITY: usize = 32;

/// What a call resolves to: the body of the reply, or the failure that the
/// far end reported.
pub type Reply = Result<Vec<u8>, ()>;

/// A reply in contracts: the bytes of its body, or the failure mark.
pub type ReplyView = Result<Seq<u8>, ()>;

/// The table in contracts: the replies that wait, each under its id.
pub type Replies = Map<u32, Result<Seq<u8>, ()>>;

/// `heapless::LinearMap`, a map in a fixed array of `N` places; what it
/// holds is known through `entries` alone.
#[verifier::external_type_specification]
#[verifier::external_body]
#[verifier::reject_recursive_types(K)]
#[verifier::reject_recursive_types(V)]
pub struct ExLinearMap<K, V, const N: usize>(LinearMap<K, V, N>);

/// The entries that a `heapless::LinearMap` holds: for each key that is
/// present the reply stored under it, a body by its bytes.
pub uninterp spec fn entries(map: LinearMap<u32, Result<Vec<u8>, ()>, 32>) -> Map<
    u32,
    Result<Seq<u8>, ()>,
>;

/// What a reply is in contracts.
pub open spec fn reply_view(reply: Reply) -> ReplyView {
    match reply {
        Ok(body) => Ok(body@),
        Err(_) => Err(()),
    }
}

/// What a reply that may be missing is in contracts.
pub open spec fn found_view(found: Option<Reply>) -> Option<ReplyView> {
    match found {
        Some(reply) => Some(reply_view(reply)),
        None => None,
    }
}

/// The table with nothing in it.
pub open spec fn no_replies() -> Replies {
    Map::empty()
}

/// The reply stored under `id`, if there is one.
pub open spec fn lookup(replies: Replies, id: u32) -> Option<ReplyView> {
    if replies.contains_key(id) {
        Some(replies[id])
    } else {
        None
    }
}

/// What a table may hold: finitely many replies, `CAPACITY` at most.
pub open spec fn fits(replies: Replies) -> bool {
    replies.dom().finite() && replies.len() <= CAPACITY
}

/// Whether a reply for `id` can be stored: none is there yet and a place
/// is free.
pub open spec fn admits(replies: Replies, id: u32) -> bool {
    !replies.contains_key(id) && replies.len() < CAPACITY
}

/// `LinearMap::new`: the map that it makes holds nothing.
#[verifier::external_body]
fn map_new() -> (out: LinearMap<u32, Result<Vec<u8>, ()>, 32>)
    ensures
        entries(out) == no_replies(),
{
    LinearMap::new()
}

/// `LinearMap::len`: the number of entries.
#[verifier::external_body]
fn map_len(map: &LinearMap<u32, Result<Vec<u8>, ()>, 32>) -> (n: usize)
    ensures
        n == entries(*map).len(),
{
    map.len()
}

/// `LinearMap::contains_key`: whether an entry stands under `id`.
#[verifier::external_body]
fn map_contains_key(map: &LinearMap<u32, Result<Vec<u8>, ()>, 32>, id: u32) -> (found: bool)
    ensures
        found == entries(*map).contains_key(id),
{
    map.contains_key(&id)
}

/// `LinearMap::insert`, which returns `Ok` with the reply that stood under
/// `id` before, or with `None` where a new entry was made, and `Err` where
/// the key is new and all 32 places are taken. `stored` is whether it
/// returned `Ok`: then the map holds `reply` under `id` and is otherwise as
/// before; else the map is unchanged. It does not panic.
#[verifier::external_body]
fn map_insert(
    map: &mut LinearMap<u32, Result<Vec<u8>, ()>, 32>,
    id: u32,
    reply: Result<Vec<u8>, ()>,
) -> (stored: bool)
    ensures
        stored == (entries(*old(map)).contains_key(id) || entries(*old(map)).len() < 32),
        stored ==> entries(*final(map)) == entries(*old(map)).insert(id, reply_view(reply)),
        !stored ==> entries(*final(map)) == entries(*old(map)),
    no_unwind
{
    map.insert(id, reply).is_ok()
}

/// `LinearMap::remove`: takes the entry under `id` out of the map and
/// returns its reply, or returns `None` and leaves the map as it is where
/// there is none. It does not panic.
#[verifier::external_body]
fn map_remove(map: &mut LinearMap<u32, Result<Vec<u8>, ()>, 32>, id: u32) -> (found: Option<
    Result<Vec<u8>, ()>,
>)
    ensures
        found_view(found) == lookup(entries(*old(map)), id),
        entries(*final(map)) == entries(*old(map)).remove(id),
    no_unwind
{
    map.remove(&id)
}

/// The replies that have arrived and wait for the calls that asked for
/// them, each under its correlation id. The table never holds more than
/// `CAPACITY` replies and never two for one id.
pub struct ResponseTable {
    slots: LinearMap<u32, Result<Vec<u8>, ()>, 32>,
}

impl View for ResponseTable {
    type V = Replies;

    closed spec fn view(&self) -> Replies {
        entries(self.slots)
    }
}

impl ResponseTable {
    #[verifier::type_invariant]
    spec fn within_capacity(self) -> bool {
        fits(entries(self.slots))
    }

    /// An empty table.
    pub fn new() -> (out: Self)
        ensures
            out@ == no_replies(),
    {
        ResponseTable { slots: map_new() }
    }

    /// The number of replies that wait.
    pub fn len(&self) -> (n: usize)
        ensures
            n == self@.len(),
            n <= CAPACITY,
            fits(self@),
    {
        proof {
            use_type_invariant(self);
        }
        map_len(&self.slots)
    }

    /// Whether every place is taken.
    pub fn is_full(&self) -> (full: bool)
        ensures
            full == (self@.len() >= CAPACITY),
            fits(self@),
    {
        self.len() >= CAPACITY
    }

    /// Whether a reply waits under `id`.
    pub fn contains(&self, id: u32) -> (found: bool)
        ensures
            found == self@.contains_key(id),
    {
        map_contains_key(&self.slots, id)
    }

    /// Stores `reply` under `id` where no reply waits under `id` yet and a
    /// place is free, and says whether it did. A reply for an id that is in
    /// the table already is dropped, and so is one that finds the table
    /// full.
    pub fn try_insert(&mut self, id: u32, reply: Reply) -> (inserted: bool)
        ensures
            inserted == admits(old(self)@, id),
            inserted ==> final(self)@ == old(self)@.insert(id, reply_view(reply)),
            !inserted ==> final(self)@ == old(self)@,
            fits(final(self)@),
    {
        proof {
            use_type_invariant(&*self);
        }
        if map_contains_key(&self.slots, id) {
            return false;
        }
        if map_len(&self.slots) >= CAPACITY {
            return false;
        }
        map_insert(&mut self.slots, id, reply)
    }

    /// Takes the reply that waits under `id` out of the table, if there is
    /// one; the other replies stay.
    pub fn take(&mut self, id: u32) -> (found: Option<Reply>)
        ensures
            found_view(found) == lookup(old(self)@, id),
            final(self)@ == old(self)@.remove(id),
            fits(final(self)@),
    {
        proof {
            use_type_invariant(&*self);
            if old(self)@.contains_key(id) {
                old(self)@.lemma_remove_key_len(id);
            } else {
                assert(old(self)@.remove(id) =~= old(self)@);
            }
        }
        map_remove(&mut self.slots, id)
    }
}

} // verus!
