//! What holds of a channel as a whole, whoever uses it and in whatever order.
//!
//! The books of a channel bring together what its ends know: the ledgers of all reservations, and
//! what has been delivered and given back. They change in the few ways that [`ChannelBooks::step`]
//! lists. The first part of this module shows what every step keeps; the second, that the
//! operations of the channel are such steps; the third, what receivers hand out. No end sees the
//! books as a whole, so how much is left at a given moment is a statement about the books alone.

use vstd::prelude::*;

use crate::accounting::{lemma_total_concat, lemma_total_push, payloads, total_bytes, Entry, Ledger};
use crate::mem_bounded::{
    handed_over, sent_against, BatchReceiver, EstimatedSize, Permit, Permits, Receiver, RecvBatch,
    SendError, Sender,
};
use crate::queue::Answer;

verus! {

/// What all the reservations together were granted.
pub open spec fn total_granted<T>(ledgers: Seq<Ledger<T>>) -> nat
    decreases ledgers.len(),
{
    if ledgers.len() == 0 {
        0
    } else {
        total_granted(ledgers.drop_last()) + ledgers.last().granted
    }
}

/// What all the reservations together still hold.
pub open spec fn total_remaining<T>(ledgers: Seq<Ledger<T>>) -> nat
    decreases ledgers.len(),
{
    if ledgers.len() == 0 {
        0
    } else {
        total_remaining(ledgers.drop_last()) + ledgers.last().remaining
    }
}

/// What all the reservations together gave back unused.
pub open spec fn total_refunded<T>(ledgers: Seq<Ledger<T>>) -> nat
    decreases ledgers.len(),
{
    if ledgers.len() == 0 {
        0
    } else {
        total_refunded(ledgers.drop_last()) + ledgers.last().refunded
    }
}

/// What all the messages that were paid for weigh, reservation by reservation.
pub open spec fn total_paid<T>(ledgers: Seq<Ledger<T>>) -> nat
    decreases ledgers.len(),
{
    if ledgers.len() == 0 {
        0
    } else {
        total_paid(ledgers.drop_last()) + total_bytes(ledgers.last().paid)
    }
}

/// The books of a whole channel at one moment.
#[verifier::ext_equal]
pub struct ChannelBooks<T> {
    /// The size of the channel in bytes.
    pub capacity: nat,
    /// Every reservation that was ever granted, whether by a send of its own or up front.
    pub ledgers: Seq<Ledger<T>>,
    /// The messages that have been delivered, in order.
    pub delivered: Seq<Entry<T>>,
    /// The messages that are in the channel, in order.
    pub in_flight: Seq<Entry<T>>,
    /// The messages that were paid for and then found the channel closed.
    pub refused: Seq<Entry<T>>,
    /// How many bytes the receiving side has given back.
    pub released: nat,
}

impl<T> ChannelBooks<T> {
    /// The books of a new channel.
    pub open spec fn opened(capacity: nat) -> Self {
        ChannelBooks {
            capacity,
            ledgers: Seq::empty(),
            delivered: Seq::empty(),
            in_flight: Seq::empty(),
            refused: Seq::empty(),
            released: 0,
        }
    }

    /// The capacity that is left: what the channel started with, less what was granted, plus what
    /// came back from either side.
    pub open spec fn available(self) -> int {
        self.capacity - total_granted(self.ledgers) + total_refunded(self.ledgers) + self.released
    }

    /// The books are in order: every reservation balances, everything that was paid for was
    /// delivered, is in the channel, or was refused, what was delivered has been given back, and
    /// no more was granted than was there.
    pub open spec fn in_order(self) -> bool {
        &&& forall|i: int|
            0 <= i < self.ledgers.len() ==> (#[trigger] self.ledgers[i]).balanced()
        &&& total_paid(self.ledgers) == total_bytes(self.delivered) + total_bytes(self.in_flight)
            + total_bytes(self.refused)
        &&& self.released == total_bytes(self.delivered)
        &&& self.available() >= 0
    }

    /// The books after a reservation of `n` bytes was granted.
    pub open spec fn grant(self, n: nat) -> Self {
        ChannelBooks { ledgers: self.ledgers.push(Ledger::opened(n)), ..self }
    }

    /// The books after reservation `i` paid for `entry`, which then entered the channel or was
    /// refused.
    pub open spec fn pay(self, i: int, entry: Entry<T>, accepted: bool) -> Self {
        let ledgers = self.ledgers.update(i, self.ledgers[i].pay(entry));
        if accepted {
            ChannelBooks { ledgers, in_flight: self.in_flight.push(entry), ..self }
        } else {
            ChannelBooks { ledgers, refused: self.refused.push(entry), ..self }
        }
    }

    /// The books after reservation `i` gave back what it still held.
    pub open spec fn settle(self, i: int) -> Self {
        ChannelBooks { ledgers: self.ledgers.update(i, self.ledgers[i].settle()), ..self }
    }

    /// The books after the message that entered the channel first was delivered.
    pub open spec fn deliver(self) -> Self {
        ChannelBooks {
            delivered: self.delivered.push(self.in_flight.first()),
            in_flight: self.in_flight.drop_first(),
            released: self.released + self.in_flight.first().0 as nat,
            ..self
        }
    }

    /// One thing happened in the channel: a reservation of no more than what was left was granted,
    /// a reservation paid for a message that it could afford, a reservation was given up, or a
    /// message was delivered.
    pub open spec fn step(self, after: Self) -> bool {
        ||| exists|n: nat| n <= self.available() && after == #[trigger] self.grant(n)
        ||| exists|i: int, entry: Entry<T>, accepted: bool|
            {
                &&& 0 <= i < self.ledgers.len()
                &&& entry.0 <= self.ledgers[i].remaining
                &&& after == #[trigger] self.pay(i, entry, accepted)
            }
        ||| exists|i: int| 0 <= i < self.ledgers.len() && after == #[trigger] self.settle(i)
        ||| self.in_flight.len() > 0 && after == self.deliver()
    }
}

/// `history` is what may happen in a channel of the given size, moment by moment.
pub open spec fn is_history<T>(capacity: nat, history: Seq<ChannelBooks<T>>) -> bool {
    &&& history.len() > 0
    &&& history[0] == ChannelBooks::<T>::opened(capacity)
    &&& forall|k: int|
        0 <= k < history.len() - 1 ==> (#[trigger] history[k]).step(history[k + 1])
}

/// Balanced reservations account for everything they were granted.
proof fn lemma_ledgers_balance<T>(ledgers: Seq<Ledger<T>>)
    requires
        forall|i: int| 0 <= i < ledgers.len() ==> (#[trigger] ledgers[i]).balanced(),
    ensures
        total_granted(ledgers) == total_remaining(ledgers) + total_refunded(ledgers) + total_paid(
            ledgers,
        ),
    decreases ledgers.len(),
{
    if ledgers.len() > 0 {
        let rest = ledgers.drop_last();
        assert forall|i: int| 0 <= i < rest.len() implies (#[trigger] rest[i]).balanced() by {
            assert(rest[i] == ledgers[i]);
        }
        lemma_ledgers_balance(rest);
        assert(ledgers[ledgers.len() - 1].balanced());
    }
}

/// Replacing one reservation changes each total by the difference.
proof fn lemma_update<T>(ledgers: Seq<Ledger<T>>, i: int, ledger: Ledger<T>)
    requires
        0 <= i < ledgers.len(),
    ensures
        total_granted(ledgers.update(i, ledger)) == total_granted(ledgers) - ledgers[i].granted
            + ledger.granted,
        total_refunded(ledgers.update(i, ledger)) == total_refunded(ledgers) - ledgers[i].refunded
            + ledger.refunded,
        total_paid(ledgers.update(i, ledger)) == total_paid(ledgers) - total_bytes(ledgers[i].paid)
            + total_bytes(ledger.paid),
    decreases ledgers.len(),
{
    let updated = ledgers.update(i, ledger);
    if i == ledgers.len() - 1 {
        assert(updated.drop_last() =~= ledgers.drop_last());
    } else {
        assert(updated.drop_last() =~= ledgers.drop_last().update(i, ledger));
        lemma_update(ledgers.drop_last(), i, ledger);
    }
}

/// The first message of a sequence and the others make up its bytes.
proof fn lemma_total_first<T>(entries: Seq<Entry<T>>)
    requires
        entries.len() > 0,
    ensures
        total_bytes(entries) == entries.first().0 + total_bytes(entries.drop_first()),
{
    let first = Seq::<Entry<T>>::empty().push(entries.first());
    assert(entries =~= first + entries.drop_first());
    lemma_total_push(Seq::<Entry<T>>::empty(), entries.first());
    lemma_total_concat(first, entries.drop_first());
}

/// Paying for a message takes its size out of what a reservation holds, and nothing else, and adds
/// the message to those that were paid for; giving the reservation up returns all that is left.
pub proof fn law_reservation_bookkeeping<T>(ledger: Ledger<T>, entry: Entry<T>, bytes: nat)
    requires
        entry.0 <= ledger.remaining,
    ensures
        Ledger::<T>::opened(bytes).granted == bytes,
        Ledger::<T>::opened(bytes).remaining == bytes,
        Ledger::<T>::opened(bytes).refunded == 0,
        Ledger::<T>::opened(bytes).paid.len() == 0,
        ledger.pay(entry).remaining + entry.0 == ledger.remaining,
        ledger.pay(entry).granted == ledger.granted,
        ledger.pay(entry).refunded == ledger.refunded,
        ledger.pay(entry).paid == ledger.paid.push(entry),
        ledger.settle().remaining == 0,
        ledger.settle().refunded == ledger.refunded + ledger.remaining,
        ledger.settle().granted == ledger.granted,
        ledger.settle().paid == ledger.paid,
{
}

/// A reservation never pays for more than it was granted; paying for a message that it can afford
/// and giving up what is left keep its books balanced.
pub proof fn law_reservations_are_not_overspent<T>(ledger: Ledger<T>, entry: Entry<T>)
    requires
        ledger.balanced(),
    ensures
        total_bytes(ledger.paid) <= ledger.granted,
        entry.0 <= ledger.remaining ==> ledger.pay(entry).balanced(),
        ledger.settle().balanced(),
{
    lemma_total_push(ledger.paid, entry);
}

/// Whatever happens in a channel, its books stay in order.
pub proof fn law_every_step_keeps_the_books<T>(before: ChannelBooks<T>, after: ChannelBooks<T>)
    requires
        before.in_order(),
        before.step(after),
    ensures
        after.in_order(),
        after.capacity == before.capacity,
{
    let ledgers = before.ledgers;
    if exists|n: nat| n <= before.available() && after == #[trigger] before.grant(n) {
        let n = choose|n: nat| n <= before.available() && after == #[trigger] before.grant(n);
        let opened = Ledger::<T>::opened(n);
        assert(opened.balanced());
        assert(ledgers.push(opened).drop_last() =~= ledgers);
        assert forall|k: int| 0 <= k < after.ledgers.len() implies (
        #[trigger] after.ledgers[k]).balanced() by {
            if k < ledgers.len() {
                assert(after.ledgers[k] == ledgers[k]);
            }
        }
    } else if before.in_flight.len() > 0 && after == before.deliver() {
        lemma_total_first(before.in_flight);
        lemma_total_push(before.delivered, before.in_flight.first());
    } else if exists|i: int| 0 <= i < ledgers.len() && after == #[trigger] before.settle(i) {
        let i = choose|i: int| 0 <= i < ledgers.len() && after == #[trigger] before.settle(i);
        assert(ledgers[i].balanced());
        lemma_update(ledgers, i, ledgers[i].settle());
        assert forall|k: int| 0 <= k < after.ledgers.len() implies (
        #[trigger] after.ledgers[k]).balanced() by {
            if k != i {
                assert(after.ledgers[k] == ledgers[k]);
            }
        }
    } else {
        let (i, entry, accepted) = choose|i: int, entry: Entry<T>, accepted: bool|
            {
                &&& 0 <= i < ledgers.len()
                &&& entry.0 <= ledgers[i].remaining
                &&& after == #[trigger] before.pay(i, entry, accepted)
            };
        assert(ledgers[i].balanced());
        law_reservations_are_not_overspent(ledgers[i], entry);
        lemma_update(ledgers, i, ledgers[i].pay(entry));
        lemma_total_push(ledgers[i].paid, entry);
        lemma_total_push(before.in_flight, entry);
        lemma_total_push(before.refused, entry);
        assert forall|k: int| 0 <= k < after.ledgers.len() implies (
        #[trigger] after.ledgers[k]).balanced() by {
            if k != i {
                assert(after.ledgers[k] == ledgers[k]);
            }
        }
    }
}

/// No byte of the budget is created or destroyed: the capacity that is left, the reservations, the
/// messages in the channel, and the messages that a closed channel refused after they were paid
/// for make up the size of the channel.
pub proof fn law_capacity_is_conserved<T>(books: ChannelBooks<T>)
    requires
        books.in_order(),
    ensures
        books.available() + total_remaining(books.ledgers) + total_bytes(books.in_flight)
            + total_bytes(books.refused) == books.capacity,
{
    lemma_ledgers_balance(books.ledgers);
}

/// The channel is bounded by memory: at no moment of its history do the messages in it, together
/// with the reservations for further ones, weigh more than its size.
pub proof fn law_channel_is_bounded<T>(capacity: nat, history: Seq<ChannelBooks<T>>, k: int)
    requires
        is_history(capacity, history),
        0 <= k < history.len(),
    ensures
        history[k].in_order(),
        history[k].capacity == capacity,
        total_bytes(history[k].in_flight) + total_remaining(history[k].ledgers) <= capacity,
        history[k].available() <= capacity,
    decreases k,
{
    if k > 0 {
        law_channel_is_bounded(capacity, history, k - 1);
        assert(history[k - 1].step(history[k - 1 + 1]));
        law_every_step_keeps_the_books(history[k - 1], history[k]);
    }
    law_capacity_is_conserved(history[k]);
}

/// At every moment of its history, the books of a channel account for its whole size: the capacity
/// that is left, the reservations, the messages in the channel, and the messages that it refused
/// after they were paid for make it up.
pub proof fn law_history_conserves_capacity<T>(
    capacity: nat,
    history: Seq<ChannelBooks<T>>,
    k: int,
)
    requires
        is_history(capacity, history),
        0 <= k < history.len(),
    ensures
        history[k].available() + total_remaining(history[k].ledgers) + total_bytes(
            history[k].in_flight,
        ) + total_bytes(history[k].refused) == capacity,
{
    law_channel_is_bounded(capacity, history, k);
    law_capacity_is_conserved(history[k]);
}

/// What waits in a channel never weighs more than the size of the channel: all that was received
/// has been paid back, so the messages that waited when the receiving side was done with what it
/// did last fit into the budget.
pub proof fn law_waiting_messages_fit<T: EstimatedSize>(sender: Sender<T>, receiver: Receiver<T>)
    requires
        sender.wf(),
        receiver.wf(),
        sender.budget() == receiver.budget(),
    ensures
        receiver.taken().len() + receiver.arrived() <= receiver.stream().sizes.len(),
        receiver.stream().weight(receiver.taken().len() + receiver.arrived())
            - receiver.stream().weight(receiver.taken().len()) <= sender.max_capacity(),
{
    receiver.stream().lemma_weight(receiver.taken());
}

/// The same of a receiver in batches: the message that is set aside and those that waited fit into
/// the channel together.
pub proof fn law_buffered_messages_fit<T: EstimatedSize>(
    sender: Sender<T>,
    receiver: BatchReceiver<T>,
)
    requires
        sender.wf(),
        receiver.wf(),
        sender.budget() == receiver.budget(),
    ensures
        receiver.delivered().len() + receiver.arrived() <= receiver.stream().sizes.len(),
        receiver.stream().weight(receiver.delivered().len() + receiver.arrived())
            - receiver.stream().weight(receiver.delivered().len()) <= sender.max_capacity(),
{
    let delivered = receiver.delivered();
    assert forall|i: int| 0 <= i < delivered.len() implies receiver.stream().carries(
        i,
        #[trigger] delivered[i],
    ) by {
        assert(receiver.seen()[i] == delivered[i]);
    }
    receiver.stream().lemma_weight(delivered);
}

/// Messages leave the channel in the order in which they entered it, none twice and none skipped:
/// whatever happens, what has been delivered and what is in the channel only ever grows at its
/// end.
pub proof fn law_channel_is_fifo<T>(before: ChannelBooks<T>, after: ChannelBooks<T>)
    requires
        before.step(after),
    ensures
        before.delivered.is_prefix_of(after.delivered),
        (before.delivered + before.in_flight).is_prefix_of(after.delivered + after.in_flight),
{
    let old_messages = before.delivered + before.in_flight;
    let new_messages = after.delivered + after.in_flight;
    assert(new_messages.subrange(0, old_messages.len() as int) =~= old_messages);
    assert(after.delivered.subrange(0, before.delivered.len() as int) =~= before.delivered);
}

/// All capacity comes back: once every message has been delivered and no reservation is open, a
/// channel that never refused a message has its full size available.
pub proof fn law_drained_channel_is_whole<T>(books: ChannelBooks<T>)
    requires
        books.in_order(),
        books.in_flight.len() == 0,
        total_remaining(books.ledgers) == 0,
        books.refused.len() == 0,
    ensures
        books.available() == books.capacity,
{
    law_capacity_is_conserved(books);
}

/// Each step moves the capacity that is left by exactly what it is about: granting a reservation
/// takes its bytes, paying for a message takes nothing further, giving up a reservation returns
/// what it still holds, and consuming a message frees what the message held.
pub proof fn law_steps_move_capacity<T>(
    books: ChannelBooks<T>,
    n: nat,
    i: int,
    entry: Entry<T>,
    accepted: bool,
)
    requires
        0 <= i < books.ledgers.len(),
        books.in_flight.len() > 0,
    ensures
        books.grant(n).available() == books.available() - n,
        books.pay(i, entry, accepted).available() == books.available(),
        books.settle(i).available() == books.available() + books.ledgers[i].remaining,
        books.deliver().available() == books.available() + books.in_flight.first().0,
{
    let ledgers = books.ledgers;
    assert(ledgers.push(Ledger::<T>::opened(n)).drop_last() =~= ledgers);
    lemma_update(ledgers, i, ledgers[i].pay(entry));
    lemma_update(ledgers, i, ledgers[i].settle());
}

/// The bytes of a message are out of the budget exactly for as long as it is in the channel:
/// sending it takes its size off the capacity that is left, and nothing else, and receiving it
/// brings the capacity back to what it was.
pub proof fn law_sending_and_receiving_restore_capacity<T>(books: ChannelBooks<T>, entry: Entry<T>)
    requires
        entry.0 <= books.available(),
        books.in_flight.len() == 0,
    ensures
        ({
            let i = books.ledgers.len() as int;
            let granted = books.grant(entry.0 as nat);
            let sent = granted.pay(i, entry, true);
            let received = sent.deliver();
            &&& books.step(granted) && granted.step(sent) && sent.step(received)
            &&& sent.available() == books.available() - entry.0
            &&& sent.ledgers[i].remaining == 0
            &&& received.available() == books.available()
            &&& received.in_flight.len() == 0
            &&& received.delivered.last() == entry
        }),
{
    let i = books.ledgers.len() as int;
    let granted = books.grant(entry.0 as nat);
    let sent = granted.pay(i, entry, true);
    assert(granted.ledgers.drop_last() =~= books.ledgers);
    lemma_update(granted.ledgers, i, granted.ledgers[i].pay(entry));
    assert(sent.in_flight.first() == entry);
    assert(sent.step(sent.deliver()));
}

/// Sending one message against a reservation leaves the budget short of exactly the size of the
/// message: of what was reserved, the rest is left again, and all of it if the message does not
/// fit.
pub proof fn law_reservation_holds_what_the_message_needs<T: EstimatedSize>(
    books: ChannelBooks<T>,
    permit: Permit<'_, T>,
    entry: Entry<T>,
    accepted: bool,
)
    requires
        permit.reserved() <= books.available(),
    ensures
        ({
            let i = books.ledgers.len() as int;
            let granted = books.grant(permit.reserved());
            let settled = if entry.0 <= permit.reserved() {
                granted.pay(i, entry, accepted).settle(i)
            } else {
                granted.settle(i)
            };
            &&& granted.available() == books.available() - permit.reserved()
            &&& settled.ledgers[i] == permit.books_after(entry)
            &&& settled.available() == books.available() - if entry.0 <= permit.reserved() {
                entry.0 as int
            } else {
                0
            }
        }),
{
    let i = books.ledgers.len() as int;
    let granted = books.grant(permit.reserved());
    assert(granted.ledgers.drop_last() =~= books.ledgers);
    lemma_update(granted.ledgers, i, granted.ledgers[i].settle());
    lemma_update(granted.ledgers, i, granted.ledgers[i].pay(entry));
    let paid = granted.pay(i, entry, accepted);
    lemma_update(paid.ledgers, i, paid.ledgers[i].settle());
}

/// Of a channel that nobody ever takes a byte from, the reported capacity is its size.
pub proof fn law_unused_channel_reports_its_size<T: EstimatedSize>(sender: Sender<T>, bytes: usize)
    requires
        sender.wf(),
        sender.levels().len() == 1,
        sender.readings().contains(bytes),
    ensures
        bytes == sender.max_capacity(),
{
}

/// What is reported as the capacity is what is left at some moment: if at least `low` and at most
/// `high` bytes are left at every moment, it lies between the two. While nothing changes, every
/// report is the same.
pub proof fn law_readings_are_levels<T: EstimatedSize>(
    sender: Sender<T>,
    bytes: usize,
    low: nat,
    high: nat,
)
    requires
        sender.readings().contains(bytes),
        forall|k: int|
            0 <= k < sender.levels().len() ==> low <= #[trigger] sender.levels()[k] <= high,
    ensures
        low <= bytes <= high,
{
}

/// A reservation that does not wait is refused for want of capacity only if there is a moment with
/// fewer bytes left than it asks for: if `n` bytes are always left and the channel is never closed,
/// it is granted, with exactly `n` bytes.
pub proof fn law_reservation_is_granted_where_there_is_room<T: EstimatedSize>(
    sender: Sender<T>,
    n: u32,
    reserved: Result<Permit<'_, T>, SendError<()>>,
)
    requires
        reserved matches Ok(permit) ==> sender.reserved_one(n as nat, permit),
        reserved matches Err(error) ==> sender.may_refuse(n, error),
        n <= sender.max_capacity(),
        !sender.stream().closes,
        forall|k: int| 0 <= k < sender.levels().len() ==> n <= #[trigger] sender.levels()[k],
    ensures
        reserved matches Ok(permit) && permit.reserved() == n && permit.stream()
            == sender.stream(),
{
}

/// The same of a reservation for many messages.
pub proof fn law_reservation_for_many_is_granted_where_there_is_room<T: EstimatedSize>(
    sender: Sender<T>,
    n: u32,
    reserved: Result<Permits<'_, T>, SendError<()>>,
)
    requires
        reserved matches Ok(permits) ==> sender.reserved_many(n as nat, permits),
        reserved matches Err(error) ==> sender.may_refuse(n, error),
        n <= sender.max_capacity(),
        !sender.stream().closes,
        forall|k: int| 0 <= k < sender.levels().len() ==> n <= #[trigger] sender.levels()[k],
    ensures
        reserved matches Ok(permits) && permits.ledger().remaining == n && permits.stream()
            == sender.stream(),
{
}

/// Why a reservation fails: it asks for more than the channel can hold, and then always, or the
/// channel is closed at some time, or, unless it waits, too little is left at some moment.
pub proof fn law_reservations_fail_for_a_reason<T: EstimatedSize>(
    sender: Sender<T>,
    n: u32,
    awaited: Result<Permit<'_, T>, SendError<()>>,
    awaited_many: Result<Permits<'_, T>, SendError<()>>,
    error: SendError<()>,
)
    requires
        sender.may_reserve(n, awaited),
        sender.may_reserve_many(n, awaited_many),
        sender.may_refuse(n, error),
    ensures
        n > sender.max_capacity() ==> awaited is Err && awaited_many is Err,
        awaited is Err && n <= sender.max_capacity() ==> sender.stream().closes,
        awaited_many is Err && n <= sender.max_capacity() ==> sender.stream().closes,
        awaited matches Err(reason) ==> {
            &&& reason.kind is EntryTooLarge <==> n > sender.max_capacity()
            &&& reason.kind is Closed <==> n <= sender.max_capacity()
        },
        awaited_many matches Err(reason) ==> {
            &&& reason.kind is EntryTooLarge <==> n > sender.max_capacity()
            &&& reason.kind is Closed <==> n <= sender.max_capacity()
        },
        awaited matches Ok(permit) ==> permit.reserved() == n && permit.budget()
            == sender.budget(),
        awaited_many matches Ok(permits) ==> permits.ledger().remaining == n && permits.budget()
            == sender.budget(),
        error.kind is EntryTooLarge <==> n > sender.max_capacity(),
        error.kind is Closed ==> sender.stream().closes,
        error.kind is InsufficientCapacity ==> n > 0 && exists|k: int|
            0 <= k < sender.levels().len() && #[trigger] sender.levels()[k] < n,
        !(error.kind is PermitEntryTooLarge),
{
}

/// A send that fails hands the value back, and it fails for a reason: the value is larger than the
/// channel, and then always, or larger than the reservation, and then always, or the channel is
/// closed at some time. A send that succeeds puts the message on its way.
pub proof fn law_sends_fail_for_a_reason<T: EstimatedSize>(
    sender: Sender<T>,
    reserved: nat,
    entry: Entry<T>,
    plain: Result<(), SendError<T>>,
    against: Result<(), SendError<T>>,
)
    requires
        sender.may_send(entry, plain),
        sent_against(reserved, sender.stream(), entry, against),
    ensures
        plain is Ok ==> entry.0 <= sender.max_capacity() && sender.stream().passes(entry),
        plain matches Err(error) ==> {
            &&& error.value == entry.1
            &&& error.kind is EntryTooLarge <==> entry.0 > sender.max_capacity()
            &&& error.kind is Closed <==> entry.0 <= sender.max_capacity()
            &&& error.kind is Closed ==> sender.stream().closes
        },
        against is Ok ==> entry.0 <= reserved && sender.stream().passes(entry),
        against matches Err(error) ==> {
            &&& error.value == entry.1
            &&& error.kind is PermitEntryTooLarge <==> entry.0 > reserved
            &&& error.kind is Closed <==> entry.0 <= reserved
            &&& error.kind is Closed ==> sender.stream().closes
        },
{
}

/// A new channel has new books: nothing was delivered or given back, and its full size is left.
pub proof fn law_new_channel_has_new_books<T: EstimatedSize>(
    sender: Sender<T>,
    receiver: Receiver<T>,
)
    requires
        receiver.wf(),
        receiver.taken() == Seq::<Entry<T>>::empty(),
    ensures
        ({
            let books = ChannelBooks::<T>::opened(sender.max_capacity() as nat);
            &&& is_history(sender.max_capacity() as nat, seq![books])
            &&& books.delivered == receiver.taken()
            &&& books.released == receiver.released()
            &&& books.available() == sender.max_capacity()
        }),
{
}

/// Sending against a reservation for many messages is a step of the channel, or changes nothing:
/// a message that the reservation can afford is paid for and then enters the channel or is
/// refused.
pub proof fn law_sending_is_a_step<T: EstimatedSize>(
    books: ChannelBooks<T>,
    i: int,
    before: Permits<'_, T>,
    after: Permits<'_, T>,
    entry: Entry<T>,
    sent: Result<(), SendError<T>>,
)
    requires
        0 <= i < books.ledgers.len(),
        books.ledgers[i] == before.ledger(),
        sent_against(before.ledger().remaining, before.stream(), entry, sent),
        after.ledger() == before.books_after(entry),
    ensures
        entry.0 <= before.ledger().remaining ==> {
            &&& books.step(books.pay(i, entry, sent is Ok))
            &&& books.pay(i, entry, sent is Ok).ledgers[i] == after.ledger()
            &&& sent is Ok ==> before.stream().passes(entry)
        },
        entry.0 > before.ledger().remaining ==> {
            &&& sent matches Err(error) && error.value == entry.1
            &&& after.ledger() == before.ledger()
        },
{
}

/// Granting a reservation for many messages is a step of the channel, if no more is granted than
/// is left: the reservation joins the books, with nothing spent yet.
pub proof fn law_granting_many_is_a_step<T: EstimatedSize>(
    books: ChannelBooks<T>,
    sender: Sender<T>,
    n: nat,
    permits: Permits<'_, T>,
)
    requires
        sender.reserved_many(n, permits),
        n <= books.available(),
    ensures
        books.step(books.grant(n)),
        books.grant(n).ledgers.last() == permits.ledger(),
{
}

/// Granting a reservation for one message is a step of the channel, if no more is granted than is
/// left, and using it is one or two more: an entry that fits is paid for and what is left is given
/// up; any other entry has everything given up.
pub proof fn law_reserving_and_sending_one_are_steps<T: EstimatedSize>(
    books: ChannelBooks<T>,
    sender: Sender<T>,
    n: nat,
    permit: Permit<'_, T>,
    entry: Entry<T>,
    sent: Result<(), SendError<T>>,
)
    requires
        sender.reserved_one(n, permit),
        n <= books.available(),
        sent_against(permit.reserved(), permit.stream(), entry, sent),
    ensures
        books.step(books.grant(n)),
        ({
            let granted = books.grant(n);
            let i = books.ledgers.len() as int;
            if entry.0 <= permit.reserved() {
                let paid = granted.pay(i, entry, sent is Ok);
                &&& granted.step(paid)
                &&& paid.step(paid.settle(i))
                &&& paid.settle(i).ledgers[i] == permit.books_after(entry)
                &&& sent is Ok ==> sender.stream().passes(entry)
            } else {
                &&& granted.step(granted.settle(i))
                &&& granted.settle(i).ledgers[i] == permit.books_after(entry)
                &&& sent matches Err(error) && error.value == entry.1
            }
        }),
{
}

/// A plain send is two steps of the channel: exactly the size of the message is granted, if no less
/// is left, and the message is paid for with all of it, and then enters the channel or is refused.
pub proof fn law_plain_sending_is_two_steps<T: EstimatedSize>(
    books: ChannelBooks<T>,
    sender: Sender<T>,
    entry: Entry<T>,
    sent: Result<(), SendError<T>>,
)
    requires
        handed_over(sender.stream(), entry, sent),
        entry.0 <= books.available(),
    ensures
        ({
            let granted = books.grant(entry.0 as nat);
            let i = books.ledgers.len() as int;
            let paid = granted.pay(i, entry, sent is Ok);
            &&& books.step(granted)
            &&& granted.step(paid)
            &&& paid.ledgers[i].remaining == 0
            &&& paid.available() == books.available() - entry.0
            &&& paid.in_flight == if sent is Ok {
                books.in_flight.push(entry)
            } else {
                books.in_flight
            }
            &&& sent is Err ==> sender.stream().closes
        }),
{
    let granted = books.grant(entry.0 as nat);
    let i = books.ledgers.len() as int;
    assert(granted.ledgers.drop_last() =~= books.ledgers);
    lemma_update(granted.ledgers, i, granted.ledgers[i].pay(entry));
}

/// Using a reservation for one message settles it completely: what the message does not need goes
/// back, and everything goes back if the message does not fit.
pub proof fn law_permit_refunds_the_difference<T: EstimatedSize>(
    permit: Permit<'_, T>,
    entry: Entry<T>,
)
    ensures
        permit.books_after(entry).balanced(),
        permit.books_after(entry).remaining == 0,
        permit.books_after(entry).refunded == if entry.0 <= permit.reserved() {
            permit.reserved() - entry.0
        } else {
            permit.reserved() as int
        },
{
    lemma_total_push(Seq::<Entry<T>>::empty(), entry);
}

/// Receiving is a step of the channel: the books that agree with a receiver before it receives a
/// value agree with it afterwards, when the message that the value came in is delivered.
pub proof fn law_receiving_is_a_step<T>(
    books: ChannelBooks<T>,
    before: Receiver<T>,
    after: Receiver<T>,
    value: T,
)
    requires
        books.delivered == before.taken(),
        books.released == before.released(),
        before.wf(),
        after.wf(),
        after.received(before, value),
        books.in_flight.len() > 0,
        books.in_flight.first() == after.taken().last(),
    ensures
        books.step(books.deliver()),
        books.in_flight.first().1 == value,
        books.deliver().delivered == after.taken(),
        books.deliver().released == after.released(),
{
    assert(after.taken() =~= before.taken().push(after.taken().last()));
}

/// Receiving a message gives its bytes back, no more and no fewer, and the value that is handed out
/// is the one that came with them.
pub proof fn law_receiving_frees_the_message<T>(
    before: Receiver<T>,
    after: Receiver<T>,
    value: T,
)
    requires
        before.wf(),
        after.wf(),
        after.received(before, value),
    ensures
        after.released() == before.released() + after.taken().last().0,
        after.taken() == before.taken().push(after.taken().last()),
        after.taken().last().1 == value,
        after.stream().carries(before.taken().len() as int, after.taken().last()),
{
    assert(after.taken() =~= before.taken().push(after.taken().last()));
    lemma_total_push(before.taken(), after.taken().last());
}

/// Every message that was sent is received: once nothing of the stream is left, the place at which
/// a message entered the channel has been received, with a message of that size, and it is one
/// that may stand there.
pub proof fn law_sent_messages_are_received<T>(receiver: Receiver<T>, entry: Entry<T>)
    requires
        receiver.wf(),
        handed_over(receiver.stream(), entry, Ok(())),
        receiver.exhausted(),
    ensures
        exists|i: int|
            {
                &&& 0 <= i < receiver.taken().len()
                &&& #[trigger] receiver.stream().carries(i, entry)
                &&& receiver.stream().carries(i, receiver.taken()[i])
                &&& receiver.taken()[i].0 == entry.0
            },
{
    let i = choose|i: int| #[trigger] receiver.stream().carries(i, entry);
    assert(receiver.stream().carries(i, receiver.taken()[i]));
}

/// Messages that are sent with one reservation are received in the order in which they were sent:
/// once nothing of the stream is left, both have been received, the later one behind the earlier
/// one.
pub proof fn law_reservation_keeps_order<T: EstimatedSize>(
    permits: (Permits<'_, T>, Permits<'_, T>, Permits<'_, T>),
    entries: (Entry<T>, Entry<T>),
    receiver: Receiver<T>,
)
    requires
        permits.1.sent_in_order(permits.0, entries.0, Ok(())),
        permits.2.sent_in_order(permits.1, entries.1, Ok(())),
        permits.1.stream() == receiver.stream(),
        permits.2.stream() == receiver.stream(),
        receiver.wf(),
        receiver.exhausted(),
    ensures
        0 <= permits.1.last_place() < permits.2.last_place() < receiver.taken().len(),
        receiver.stream().carries(permits.1.last_place(), entries.0),
        receiver.stream().carries(permits.2.last_place(), entries.1),
        receiver.taken()[permits.1.last_place()].0 == entries.0.0,
        receiver.taken()[permits.2.last_place()].0 == entries.1.0,
{
    let (first, second) = (permits.1.last_place(), permits.2.last_place());
    assert(receiver.stream().carries(first, receiver.taken()[first]));
    assert(receiver.stream().carries(second, receiver.taken()[second]));
}

/// Nothing is received that was not sent: every received message entered the channel at the place
/// at which it was received.
pub proof fn law_received_messages_were_sent<T>(receiver: Receiver<T>, i: int)
    requires
        receiver.wf(),
        0 <= i < receiver.taken().len(),
    ensures
        receiver.stream().carries(i, receiver.taken()[i]),
        receiver.stream().passes(receiver.taken()[i]),
{
}

/// Batches continue where the last one ended: nothing is lost or repeated between two batches in a
/// row, whatever their limits.
pub proof fn law_batches_join<T>(
    first: BatchReceiver<T>,
    second: BatchReceiver<T>,
    third: BatchReceiver<T>,
    bufs: (Seq<T>, Seq<T>, Seq<T>),
    batches: (RecvBatch, RecvBatch),
    max_counts: (usize, usize),
    byte_limits: (usize, usize),
)
    requires
        second.received_batch(first, bufs.0, bufs.1, batches.0, max_counts.0, byte_limits.0),
        third.received_batch(second, bufs.1, bufs.2, batches.1, max_counts.1, byte_limits.1),
    ensures
        third.delivered() == first.delivered() + third.delivered_since(first),
        bufs.2 == bufs.0 + payloads(third.delivered_since(first)),
        batches.0.count + batches.1.count == third.delivered_since(first).len(),
        batches.0.bytes + batches.1.bytes == total_bytes(third.delivered_since(first)),
{
    let early = second.delivered_since(first);
    let late = third.delivered_since(second);
    assert(third.delivered_since(first) =~= early + late);
    lemma_total_concat(early, late);
    assert(payloads(early + late) =~= payloads(early) + payloads(late));
}

/// Nothing is sent between the two states: `waiting` is what can be delivered without waiting in
/// the first, and everything that is seen until the second comes from it.
pub open spec fn undisturbed<T>(
    before: BatchReceiver<T>,
    after: BatchReceiver<T>,
    waiting: Seq<Entry<T>>,
) -> bool {
    &&& waiting.len() == before.ready()
    &&& after.seen().is_prefix_of(before.delivered() + waiting)
}

/// What is delivered while nothing is sent is what waits first.
proof fn lemma_undisturbed<T>(
    before: BatchReceiver<T>,
    after: BatchReceiver<T>,
    waiting: Seq<Entry<T>>,
)
    requires
        undisturbed(before, after, waiting),
        after.delivered() == before.delivered() + after.delivered_since(before),
    ensures
        after.delivered_since(before).len() <= waiting.len(),
        after.delivered_since(before) == waiting.take(after.delivered_since(before).len() as int),
        after.pending() matches Some(entry) ==> {
            &&& after.delivered_since(before).len() < waiting.len()
            &&& entry == waiting[after.delivered_since(before).len() as int]
        },
{
    let messages = before.delivered() + waiting;
    let fresh = after.delivered_since(before);
    assert(after.seen().len() <= messages.len());
    assert forall|k: int| 0 <= k < after.seen().len() implies after.seen()[k] == messages[k] by {
        assert(messages.subrange(0, after.seen().len() as int)[k] == messages[k]);
    }
    assert forall|k: int| 0 <= k < fresh.len() implies fresh[k] == waiting[k] by {
        let place = before.delivered().len() + k;
        assert(after.delivered()[place] == fresh[k]);
        assert(after.seen()[place] == fresh[k]);
        assert(messages[place] == waiting[k]);
    }
    assert(fresh =~= waiting.take(fresh.len() as int));
    if let Some(entry) = after.pending() {
        let place = after.delivered().len() as int;
        assert(after.seen()[place] == entry);
        assert(messages[place] == waiting[fresh.len() as int]);
    }
}

/// More messages weigh at least as much as fewer.
proof fn lemma_total_take<T>(entries: Seq<Entry<T>>, i: int, j: int)
    requires
        0 <= i <= j <= entries.len(),
    ensures
        total_bytes(entries.take(i)) <= total_bytes(entries.take(j)),
{
    assert(entries.take(j) =~= entries.take(i) + entries.subrange(i, j));
    lemma_total_concat(entries.take(i), entries.subrange(i, j));
}

/// Of two batches that start from the same messages with the same limits, the first is not the
/// shorter one.
proof fn lemma_batch_is_not_shorter<T>(
    before: BatchReceiver<T>,
    ends: (BatchReceiver<T>, BatchReceiver<T>),
    filled: Seq<T>,
    bufs: (Seq<T>, Seq<T>),
    batches: (RecvBatch, RecvBatch),
    max_count: usize,
    byte_limit: usize,
    waiting: Seq<Entry<T>>,
)
    requires
        ends.0.received_batch(before, filled, bufs.0, batches.0, max_count, byte_limit),
        ends.1.received_batch(before, filled, bufs.1, batches.1, max_count, byte_limit),
        undisturbed(before, ends.0, waiting),
        undisturbed(before, ends.1, waiting),
    ensures
        batches.0.count >= batches.1.count,
{
    lemma_undisturbed(before, ends.0, waiting);
    lemma_undisturbed(before, ends.1, waiting);
    let (few, many) = (batches.0.count as int, batches.1.count as int);
    if few < many {
        if let Some(entry) = ends.0.pending() {
            assert(waiting.take(few + 1) =~= waiting.take(few).push(entry));
            lemma_total_push(waiting.take(few), entry);
            lemma_total_take(waiting, few + 1, many);
        }
    }
}

/// A batch is determined by what waits and by its limits: from one state, and while nothing is
/// sent, there is one batch only that can be received. Its result, the buffer, the messages that
/// are left, and the bytes that go back are the same every time.
pub proof fn law_batch_is_determined<T>(
    before: BatchReceiver<T>,
    ends: (BatchReceiver<T>, BatchReceiver<T>),
    filled: Seq<T>,
    bufs: (Seq<T>, Seq<T>),
    batches: (RecvBatch, RecvBatch),
    max_count: usize,
    byte_limit: usize,
    waiting: Seq<Entry<T>>,
)
    requires
        ends.0.wf(),
        ends.1.wf(),
        ends.0.received_batch(before, filled, bufs.0, batches.0, max_count, byte_limit),
        ends.1.received_batch(before, filled, bufs.1, batches.1, max_count, byte_limit),
        undisturbed(before, ends.0, waiting),
        undisturbed(before, ends.1, waiting),
    ensures
        batches.0 == batches.1,
        bufs.0 == bufs.1,
        ends.0.delivered() == ends.1.delivered(),
        ends.0.pending() == ends.1.pending(),
        ends.0.released() == ends.1.released(),
{
    assert(batches.0.count == batches.1.count) by {
        lemma_batch_is_not_shorter(
            before,
            ends,
            filled,
            bufs,
            batches,
            max_count,
            byte_limit,
            waiting,
        );
        lemma_batch_is_not_shorter(
            before,
            (ends.1, ends.0),
            filled,
            (bufs.1, bufs.0),
            (batches.1, batches.0),
            max_count,
            byte_limit,
            waiting,
        );
    }
    lemma_undisturbed(before, ends.0, waiting);
    lemma_undisturbed(before, ends.1, waiting);
    assert(ends.0.delivered_since(before) == ends.1.delivered_since(before));
    assert(ends.0.pending() == ends.1.pending());
    assert(batches.0.next_entry_bytes == batches.1.next_entry_bytes);
}

/// A receive that waits gives what one that does not wait gives: from one state, and while nothing
/// is sent, both end with the same batch, the same buffer, the same messages left, and the same
/// bytes given back.
pub proof fn law_waiting_receives_what_trying_receives<T>(
    before: BatchReceiver<T>,
    ends: (BatchReceiver<T>, BatchReceiver<T>),
    filled: Seq<T>,
    bufs: (Seq<T>, Seq<T>),
    batches: (RecvBatch, RecvBatch),
    byte_limit: usize,
    max_count: usize,
    seen: (nat, nat),
    waiting: Seq<Entry<T>>,
)
    requires
        ends.0.wf(),
        ends.1.wf(),
        ends.0.received_some_batch(
            before,
            filled,
            bufs.0,
            batches.0,
            byte_limit,
            max_count,
            seen.0,
        ),
        ends.1.received_some_batch(
            before,
            filled,
            bufs.1,
            batches.1,
            byte_limit,
            max_count,
            seen.1,
        ),
        undisturbed(before, ends.0, waiting),
        undisturbed(before, ends.1, waiting),
    ensures
        batches.0 == batches.1,
        bufs.0 == bufs.1,
        ends.0.delivered() == ends.1.delivered(),
        ends.0.pending() == ends.1.pending(),
        ends.0.released() == ends.1.released(),
{
    let unlimited = byte_limit == usize::MAX && max_count == usize::MAX;
    lemma_undisturbed(before, ends.0, waiting);
    lemma_undisturbed(before, ends.1, waiting);
    let limit = if unlimited {
        batches.0.count
    } else {
        max_count
    };
    law_batch_is_determined(before, ends, filled, bufs, batches, limit, byte_limit, waiting);
}

/// A batch is the longest that fits: while nothing is sent, it holds the messages that wait first,
/// as many as the limits allow, and one more would break a limit or is not there. The size of the
/// next one is reported exactly if it is the byte limit that stopped the batch.
pub proof fn law_batch_is_the_longest_that_fits<T>(
    before: BatchReceiver<T>,
    after: BatchReceiver<T>,
    filled: Seq<T>,
    buf: Seq<T>,
    batch: RecvBatch,
    max_count: usize,
    byte_limit: usize,
    waiting: Seq<Entry<T>>,
)
    requires
        after.received_batch(before, filled, buf, batch, max_count, byte_limit),
        undisturbed(before, after, waiting),
    ensures
        batch.count <= waiting.len(),
        buf == filled + payloads(waiting.take(batch.count as int)),
        batch.bytes == total_bytes(waiting.take(batch.count as int)),
        batch.count <= max_count,
        batch.bytes <= byte_limit,
        batch.count < max_count && batch.count < waiting.len() ==> total_bytes(
            waiting.take(batch.count + 1),
        ) > byte_limit,
        batch.next_entry_bytes matches Some(size) ==> {
            &&& batch.count < max_count
            &&& batch.count < waiting.len()
            &&& size == waiting[batch.count as int].0
            &&& batch.bytes + size > byte_limit
        },
        batch.next_entry_bytes is None ==> batch.count == max_count || batch.count
            == waiting.len(),
{
    lemma_undisturbed(before, after, waiting);
    let count = batch.count as int;
    if batch.next_entry_bytes is Some {
        let entry = after.pending()->0;
        assert(waiting.take(count + 1) =~= waiting.take(count).push(entry));
        lemma_total_push(waiting.take(count), entry);
    }
}

/// Without any limit, a batch takes all that waits and nothing else: while nothing is sent, it
/// holds exactly the messages that wait, and nothing is left.
pub proof fn law_unlimited_batch_drains<T>(
    before: BatchReceiver<T>,
    after: BatchReceiver<T>,
    filled: Seq<T>,
    buf: Seq<T>,
    batch: RecvBatch,
    seen: nat,
    waiting: Seq<Entry<T>>,
)
    requires
        after.received_some_batch(before, filled, buf, batch, usize::MAX, usize::MAX, seen),
        undisturbed(before, after, waiting),
    ensures
        batch.count == before.ready(),
        batch.bytes == total_bytes(waiting),
        batch.next_entry_bytes is None,
        buf == filled + payloads(waiting),
        after.delivered() == before.delivered() + waiting,
{
    lemma_undisturbed(before, after, waiting);
    assert(waiting.take(waiting.len() as int) =~= waiting);
}

/// Without any limit, a batch takes what was counted once, and nothing that came later: the queue
/// was asked one time how many messages wait, and those that had been seen or waited then are
/// exactly those that have been delivered now.
pub proof fn law_unlimited_batch_is_counted_once<T>(
    before: BatchReceiver<T>,
    after: BatchReceiver<T>,
    filled: Seq<T>,
    buf: Seq<T>,
    batch: RecvBatch,
    seen: nat,
)
    requires
        after.received_some_batch(before, filled, buf, batch, usize::MAX, usize::MAX, seen),
    ensures
        after.log().len() == before.log().len() + 1,
        after.log().drop_last() == before.log(),
        after.log().last() matches Answer::Count { taken, waiting } && {
            &&& taken == seen
            &&& taken + waiting == after.delivered().len()
        },
        before.ready() <= batch.count,
        after.delivered().len() == before.delivered().len() + batch.count,
        batch.next_entry_bytes is None,
{
    assert(after.log().drop_last() =~= before.log());
}

/// Two batches in a row are one: without a byte limit and while nothing is sent, receiving up to
/// `counts.0` and then up to `counts.1` elements ends as receiving up to as many as both together
/// does, with the same buffer, the same messages left, and the same bytes given back.
pub proof fn law_two_batches_make_one<T>(
    before: BatchReceiver<T>,
    between: BatchReceiver<T>,
    ends: (BatchReceiver<T>, BatchReceiver<T>),
    filled: Seq<T>,
    partly: Seq<T>,
    bufs: (Seq<T>, Seq<T>),
    pair: (RecvBatch, RecvBatch),
    single: RecvBatch,
    counts: (usize, usize),
    together: usize,
    waiting: Seq<Entry<T>>,
)
    requires
        before.wf(),
        ends.0.wf(),
        ends.1.wf(),
        together == counts.0 + counts.1,
        between.received_batch(before, filled, partly, pair.0, counts.0, usize::MAX),
        ends.0.received_batch(between, partly, bufs.0, pair.1, counts.1, usize::MAX),
        ends.1.received_batch(before, filled, bufs.1, single, together, usize::MAX),
        undisturbed(before, ends.0, waiting),
        undisturbed(before, ends.1, waiting),
    ensures
        bufs.0 == bufs.1,
        ends.0.delivered() == ends.1.delivered(),
        ends.0.pending() == ends.1.pending(),
        ends.0.released() == ends.1.released(),
        pair.0.count + pair.1.count == single.count,
        pair.0.bytes + pair.1.bytes == single.bytes,
        pair.0.next_entry_bytes is None,
        pair.1.next_entry_bytes is None,
        single.next_entry_bytes is None,
{
    let fresh = ends.0.delivered_since(before);
    let fresh_at_once = ends.1.delivered_since(before);
    // No batch can weigh too much without a byte limit.
    assert(pair.0.next_entry_bytes is None);
    assert(pair.1.next_entry_bytes is None);
    assert(single.next_entry_bytes is None);
    law_batches_join(
        before,
        between,
        ends.0,
        (filled, partly, bufs.0),
        pair,
        counts,
        (usize::MAX, usize::MAX),
    );
    lemma_undisturbed(before, ends.0, waiting);
    lemma_undisturbed(before, ends.1, waiting);
    // Either way ends when it is full or when everything that waited has been delivered.
    assert(pair.0.count < counts.0 ==> pair.0.count >= before.ready());
    assert(pair.1.count < counts.1 ==> pair.0.count + pair.1.count >= before.ready());
    assert(single.count < together ==> single.count >= before.ready());
    assert(fresh.len() == fresh_at_once.len());
    assert(fresh == fresh_at_once);
    assert(ends.0.pending() == ends.1.pending());
}

/// Two receives in a row are one: the same of the receives that a caller makes, each of which may
/// count what waits before it starts.
pub proof fn law_two_receives_make_one<T>(
    before: BatchReceiver<T>,
    between: BatchReceiver<T>,
    ends: (BatchReceiver<T>, BatchReceiver<T>),
    filled: Seq<T>,
    partly: Seq<T>,
    bufs: (Seq<T>, Seq<T>),
    pair: (RecvBatch, RecvBatch),
    single: RecvBatch,
    counts: (usize, usize),
    together: usize,
    seen: (nat, nat, nat),
    waiting: Seq<Entry<T>>,
)
    requires
        before.wf(),
        ends.0.wf(),
        ends.1.wf(),
        counts.0 > 0,
        counts.1 > 0,
        together == counts.0 + counts.1,
        between.received_some_batch(
            before,
            filled,
            partly,
            pair.0,
            usize::MAX,
            counts.0,
            seen.0,
        ),
        ends.0.received_some_batch(
            between,
            partly,
            bufs.0,
            pair.1,
            usize::MAX,
            counts.1,
            seen.1,
        ),
        ends.1.received_some_batch(
            before,
            filled,
            bufs.1,
            single,
            usize::MAX,
            together,
            seen.2,
        ),
        undisturbed(before, ends.0, waiting),
        undisturbed(before, ends.1, waiting),
    ensures
        bufs.0 == bufs.1,
        ends.0.delivered() == ends.1.delivered(),
        ends.0.pending() == ends.1.pending(),
        ends.0.released() == ends.1.released(),
        pair.0.count + pair.1.count == single.count,
        pair.0.bytes + pair.1.bytes == single.bytes,
        pair.0.next_entry_bytes is None,
        pair.1.next_entry_bytes is None,
        single.next_entry_bytes is None,
{
    // A receive that could hold as many messages as can be counted ends when nothing is left.
    assert(ends.1.received_batch(before, filled, bufs.1, single, together, usize::MAX)) by {
        lemma_undisturbed(before, ends.1, waiting);
    }
    law_two_batches_make_one(
        before,
        between,
        ends,
        filled,
        partly,
        bufs,
        pair,
        single,
        counts,
        together,
        waiting,
    );
}

/// A batch gives back exactly what it delivers, as receiving its messages one by one would have
/// done.
pub proof fn law_batch_frees_what_it_delivers<T>(
    before: BatchReceiver<T>,
    after: BatchReceiver<T>,
    filled: Seq<T>,
    buf: Seq<T>,
    batch: RecvBatch,
    max_count: usize,
    byte_limit: usize,
)
    requires
        before.wf(),
        after.wf(),
        after.received_batch(before, filled, buf, batch, max_count, byte_limit),
    ensures
        after.released() == before.released() + batch.bytes,
        buf.len() == filled.len() + batch.count,
{
    lemma_total_concat(before.delivered(), after.delivered_since(before));
}

/// An element that did not fit is not lost: a later batch that has room for it delivers it first.
pub proof fn law_set_aside_element_comes_next<T>(
    before: BatchReceiver<T>,
    after: BatchReceiver<T>,
    filled: Seq<T>,
    buf: Seq<T>,
    batch: RecvBatch,
    max_count: usize,
    byte_limit: usize,
)
    requires
        after.received_batch(before, filled, buf, batch, max_count, byte_limit),
        before.pending() matches Some(entry) && entry.0 <= byte_limit,
        max_count > 0,
    ensures
        batch.count > 0,
        buf.len() > filled.len(),
        buf[filled.len() as int] == before.pending().unwrap().1,
{
    let fresh = after.delivered_since(before);
    if batch.count == 0 {
        assert(fresh =~= Seq::empty());
    } else {
        assert(payloads(fresh)[0] == fresh[0].1);
    }
}

} // verus!
