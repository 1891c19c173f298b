//! How a pool of clients hands its clients out: in turn, round robin.
use vstd::prelude::*;

verus! {

/// The index of the client to hand out after the one at `index`, in a pool
/// of `len` clients: the next one, wrapping around to the first.
pub fn next_index(index: usize, len: usize) -> (next: usize)
    requires
        index < len,
    ensures
        next == (index + 1) % (len as int),
        next < len,
{
    (index + 1) % len
}

/// The index handed out by the `k`-th request to a pool of `len` clients
/// whose first request gets client 0, each request moving on by
/// `next_index`.
pub open spec fn handed_out(k: nat, len: int) -> int
    decreases k,
{
    if k == 0 {
        0
    } else {
        (handed_out((k - 1) as nat, len) + 1) % len
    }
}

/// A pool hands its clients out in turn: the `k`-th request gets client
/// `k % len`, so every client is handed out once in any `len` requests in a
/// row.
pub proof fn law_round_robin(k: nat, len: int)
    requires
        len > 0,
    ensures
        handed_out(k, len) == (k as int) % len,
    decreases k,
{
    if k == 0 {
        vstd::arithmetic::div_mod::lemma_small_mod(0, len as nat);
    } else {
        law_round_robin((k - 1) as nat, len);
        let j = (k - 1) as nat;
        vstd::arithmetic::div_mod::lemma_add_mod_noop_right(1, j as int, len);
    }
}

} // verus!
