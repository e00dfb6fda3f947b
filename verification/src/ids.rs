//! Correlation ids: a 32-bit counter that wraps.

use vstd::prelude::*;

verus! {

/// The id that is issued `calls` calls after `start` was issued.
pub open spec fn id_after(start: u32, calls: nat) -> u32 {
    ((start as nat + calls) % 0x1_0000_0000) as u32
}

/// The id that follows `id`: one more, and zero after the largest.
pub open spec fn successor(id: u32) -> u32 {
    if id == u32::MAX {
        0
    } else {
        (id + 1) as u32
    }
}

/// The counter that hands out correlation ids.
pub struct IdSource {
    next: u32,
}

impl View for IdSource {
    type V = u32;

    /// The id that the next call of `issue` returns.
    closed spec fn view(&self) -> u32 {
        self.next
    }
}

impl IdSource {
    /// A counter whose first id is zero.
    pub fn new() -> (out: Self)
        ensures
            out@ == 0,
    {
        IdSource { next: 0 }
    }

    /// A counter whose first id is `first`.
    pub fn starting_at(first: u32) -> (out: Self)
        ensures
            out@ == first,
    {
        IdSource { next: first }
    }

    /// Hands out the next id and steps the counter, which wraps to zero
    /// after `u32::MAX`.
    pub fn issue(&mut self) -> (id: u32)
        ensures
            id == old(self)@,
            final(self)@ == successor(id),
    {
        let id = self.next;
        self.next = id.wrapping_add(1);
        id
    }
}

/// The ids that a counter hands out from `start` on are `id_after(start, 0)`,
/// `id_after(start, 1)` and so on: the first is `start`, and each is the
/// successor of the one before it, one more or zero after the largest.
pub proof fn lemma_ids_step(start: u32, calls: nat)
    ensures
        id_after(start, 0) == start,
        id_after(start, calls + 1) == successor(id_after(start, calls)),
{
    let m = 0x1_0000_0000int;
    let n = start as int + calls as int;
    assert((n + 1) % m == if n % m == m - 1 {
        0
    } else {
        n % m + 1
    }) by (nonlinear_arith)
        requires
            m == 0x1_0000_0000int,
            n >= 0,
    ;
}

/// No id comes twice within fewer than 2^32 calls: two calls that are less
/// than 2^32 apart are given different ids.
pub proof fn lemma_ids_distinct_within_window(start: u32, earlier: nat, later: nat)
    requires
        earlier < later,
        later - earlier < 0x1_0000_0000,
    ensures
        id_after(start, earlier) != id_after(start, later),
{
    let m = 0x1_0000_0000int;
    let a = start as int + earlier as int;
    let b = start as int + later as int;
    assert(a % m != b % m) by (nonlinear_arith)
        requires
            m == 0x1_0000_0000int,
            0 <= a < b,
            b - a < m,
    ;
}

} // verus!
