//! The arithmetic of byte budgets: what queued messages weigh and where reserved bytes go.

use vstd::prelude::*;

verus! {

/// A message as the queue stores it: its estimated size next to the value.
///
/// The size is kept rather than the semaphore permit that paid for it: it needs four bytes, and
/// it is all that is needed to give the bytes back later.
pub type Entry<T> = (u32, T);

/// The bytes that a sequence of messages holds in the budget.
pub open spec fn total_bytes<T>(entries: Seq<Entry<T>>) -> nat
    decreases entries.len(),
{
    if entries.len() == 0 {
        0
    } else {
        total_bytes(entries.drop_last()) + entries.last().0 as nat
    }
}

/// The sum of a sequence of sizes.
pub open spec fn total_sizes(sizes: Seq<u32>) -> nat
    decreases sizes.len(),
{
    if sizes.len() == 0 {
        0
    } else {
        total_sizes(sizes.drop_last()) + sizes.last() as nat
    }
}

/// The values of a sequence of messages, without their sizes.
pub open spec fn payloads<T>(entries: Seq<Entry<T>>) -> Seq<T> {
    entries.map_values(|entry: Entry<T>| entry.1)
}

/// The books of one reservation: how many bytes it was granted, and where they are now.
#[verifier::ext_equal]
pub struct Ledger<T> {
    /// What was taken out of the budget for the reservation.
    pub granted: nat,
    /// What the reservation still holds.
    pub remaining: nat,
    /// What went back to the budget unused.
    pub refunded: nat,
    /// The messages that were paid for, in order.
    pub paid: Seq<Entry<T>>,
}

impl<T> Ledger<T> {
    /// The books of a reservation of `bytes` bytes that has not been used yet.
    pub open spec fn opened(bytes: nat) -> Self {
        Ledger { granted: bytes, remaining: bytes, refunded: 0, paid: Seq::empty() }
    }

    /// No byte is unaccounted for.
    pub open spec fn balanced(self) -> bool {
        self.granted == self.remaining + self.refunded + total_bytes(self.paid)
    }

    /// The books after one more message was paid for.
    pub open spec fn pay(self, entry: Entry<T>) -> Self {
        Ledger {
            remaining: (self.remaining - entry.0) as nat,
            paid: self.paid.push(entry),
            ..self
        }
    }

    /// The books after everything that was left went back.
    pub open spec fn settle(self) -> Self {
        Ledger { remaining: 0, refunded: self.refunded + self.remaining, ..self }
    }
}

/// The values of messages stand in the order of the messages, one for each.
pub proof fn law_values_follow_their_messages<T>(entries: Seq<Entry<T>>, i: int)
    requires
        0 <= i < entries.len(),
    ensures
        payloads(entries).len() == entries.len(),
        payloads(entries)[i] == entries[i].1,
{
}

/// Appending one message adds exactly its size.
pub proof fn lemma_total_push<T>(entries: Seq<Entry<T>>, entry: Entry<T>)
    ensures
        total_bytes(entries.push(entry)) == total_bytes(entries) + entry.0,
{
    assert(entries.push(entry).drop_last() =~= entries);
}

/// The bytes of two sequences add up when they are joined.
pub proof fn lemma_total_concat<T>(left: Seq<Entry<T>>, right: Seq<Entry<T>>)
    ensures
        total_bytes(left + right) == total_bytes(left) + total_bytes(right),
    decreases right.len(),
{
    if right.len() == 0 {
        assert(left + right =~= left);
    } else {
        lemma_total_concat(left, right.drop_last());
        assert((left + right).drop_last() =~= left + right.drop_last());
    }
}

/// Messages weigh what their sizes add up to.
pub proof fn lemma_total_is_sum_of_sizes<T>(entries: Seq<Entry<T>>, sizes: Seq<u32>)
    requires
        entries.len() == sizes.len(),
        forall|i: int| 0 <= i < entries.len() ==> sizes[i] == (#[trigger] entries[i]).0,
    ensures
        total_bytes(entries) == total_sizes(sizes),
    decreases entries.len(),
{
    if entries.len() > 0 {
        let rest = entries.drop_last();
        assert forall|i: int| 0 <= i < rest.len() implies sizes.drop_last()[i] == (
        #[trigger] rest[i]).0 by {
            assert(rest[i] == entries[i]);
        }
        lemma_total_is_sum_of_sizes(rest, sizes.drop_last());
        assert(sizes.last() == entries[entries.len() - 1].0);
    }
}

/// More sizes add up to at least as much as fewer.
pub proof fn lemma_sum_of_sizes_grows(sizes: Seq<u32>, i: int, j: int)
    requires
        0 <= i <= j <= sizes.len(),
    ensures
        total_sizes(sizes.take(i)) <= total_sizes(sizes.take(j)),
    decreases j,
{
    if i < j {
        assert(sizes.take(j).drop_last() =~= sizes.take(j - 1));
        lemma_sum_of_sizes_grows(sizes, i, j - 1);
    }
}

} // verus!
