//! Request identifiers handed out by the relay.

use vstd::prelude::*;
use crate::text::decimal_text;

verus! {

/// Hands out request ids: the decimal text of a counter that starts at 1.
pub struct RequestCounter {
    next: u64,
}

impl RequestCounter {
    /// The number that the next request id is made of.
    pub closed spec fn next(&self) -> u64 {
        self.next
    }

    /// A counter whose first id is `1`.
    pub fn new() -> (c: Self)
        ensures
            c.next() == 1,
    {
        RequestCounter { next: 1 }
    }

    /// The next request id; the counter moves on by one (wrapping, as an
    /// atomic `fetch_add` does).
    pub fn next_request_id(&mut self) -> (id: String)
        ensures
            id@ == crate::text::decimal(old(self).next() as nat),
            final(self).next() == old(self).next().wrapping_add(1),
    {
        let n = self.next;
        self.next = n.wrapping_add(1);
        decimal_text(n)
    }
}

/// Different counter values give different request ids, so the ids handed
/// out before the counter wraps are all distinct.
pub proof fn law_request_ids_distinct(a: u64, b: u64)
    requires
        a != b,
    ensures
        crate::text::decimal(a as nat) != crate::text::decimal(b as nat),
{
    if crate::text::decimal(a as nat) == crate::text::decimal(b as nat) {
        crate::text::lemma_decimal_injective(a as nat, b as nat);
    }
}

/// The ids of `count` successive calls, starting from counter value
/// `start`, are pairwise distinct as long as the counter does not wrap.
pub proof fn law_request_ids_pairwise_distinct(start: u64, count: nat)
    requires
        start + count <= u64::MAX + 1,
    ensures
        forall|a: nat, b: nat|
            start <= a < b < start + count ==> #[trigger] crate::text::decimal(a)
                != #[trigger] crate::text::decimal(b),
{
    assert forall|a: nat, b: nat| start <= a < b < start + count implies #[trigger] crate::text::decimal(
        a,
    ) != #[trigger] crate::text::decimal(b) by {
        if crate::text::decimal(a) == crate::text::decimal(b) {
            crate::text::lemma_decimal_injective(a, b);
        }
    }
}

} // verus!
