//! An mpsc channel bounded by the estimated memory footprint of in-flight messages
//! rather than by message count.
//!
//! A send or a reservation that has to wait for capacity hands out a future; its two halves, what
//! is decided before the wait and what is done after it, are functions of their own (`begin_*` and
//! `finish_*`). A receive that has to wait for a message is a `poll_*` function.

use std::future::Future;
use std::task::{Context, Poll};
use tokio::sync::mpsc;
use tokio::sync::{AcquireError, Semaphore, SemaphorePermit, TryAcquireError};
use vstd::future::FutureAdditionalSpecFns;
use vstd::prelude::*;

use crate::accounting::{lemma_total_push, payloads, total_bytes, Entry, Ledger};
use crate::queue::{Answer, Errand, Inbox, Outbox, Place, Stream};
use crate::semaphore::{
    asking, forget, give_up, initial_permits, is_grant, paying, permit_source, permits_in, Amount,
    Refund, Request, MAX_PERMITS,
};

verus! {

/// The maximum size the channel can have in bytes.
/// That's 2.3 Exabytes.
pub const MAX_SIZE_BYTES: usize = MAX_PERMITS;

/// The maximum size of a single entry in the channel.
/// That's a max of ~4 Gigabytes per item.
pub const MAX_ENTRY_SIZE_BYTES: usize = u32::MAX as usize;

/// Why a message was not sent or a reservation not granted.
#[derive(Debug, Clone, Copy, PartialEq, Eq, Structural)]
pub enum SendErrorKind {
    /// Not enough capacity in the channel right now to send the value.
    InsufficientCapacity,
    /// The channel has been closed.
    Closed,
    /// The entry is larger than the channel's max capacity. This send will never succeed.
    EntryTooLarge,
    /// The entry is larger than remaining capacity in the permit.
    PermitEntryTooLarge,
}

impl SendErrorKind {
    /// The error as a message to a reader.
    pub fn message(&self) -> (text: &'static str)
        ensures
            text@ == match self {
                SendErrorKind::InsufficientCapacity => "insufficient capacity"@,
                SendErrorKind::Closed => "channel has been closed"@,
                SendErrorKind::EntryTooLarge =>
                    "entry is langer than the channel's max capacity. This send will never succeed"@,
                SendErrorKind::PermitEntryTooLarge =>
                    "entry is larger than remaining capacity in the permit"@,
            },
    {
        match self {
            SendErrorKind::InsufficientCapacity => "insufficient capacity",
            SendErrorKind::Closed => "channel has been closed",
            SendErrorKind::EntryTooLarge =>
                "entry is langer than the channel's max capacity. This send will never succeed",
            SendErrorKind::PermitEntryTooLarge =>
                "entry is larger than remaining capacity in the permit",
        }
    }
}

impl From<TryAcquireError> for SendErrorKind {
    fn from(src: TryAcquireError) -> (kind: Self) {
        refusal(&src)
    }
}

/// Why a request for capacity that does not wait was refused.
fn refusal(src: &TryAcquireError) -> (kind: SendErrorKind)
    ensures
        match src {
            TryAcquireError::Closed => kind is Closed,
            TryAcquireError::NoPermits => kind is InsufficientCapacity,
        },
    opens_invariants none
{
    match src {
        TryAcquireError::Closed => SendErrorKind::Closed,
        TryAcquireError::NoPermits => SendErrorKind::InsufficientCapacity,
    }
}

impl vstd::std_specs::convert::FromSpecImpl<TryAcquireError> for SendErrorKind {
    open spec fn obeys_from_spec() -> bool {
        true
    }

    open spec fn from_spec(src: TryAcquireError) -> Self {
        match src {
            TryAcquireError::Closed => SendErrorKind::Closed,
            TryAcquireError::NoPermits => SendErrorKind::InsufficientCapacity,
        }
    }
}

/// A failed send, with the value that was not sent.
#[derive(Debug)]
pub struct SendError<T> {
    /// What went wrong.
    pub kind: SendErrorKind,
    /// The element, back in the sender's hands.
    pub value: T,
}

impl<T> From<mpsc::error::SendError<T>> for SendError<T> {
    fn from(src: mpsc::error::SendError<T>) -> (error: Self) {
        SendError { kind: SendErrorKind::Closed, value: src.0 }
    }
}

impl<T> vstd::std_specs::convert::FromSpecImpl<mpsc::error::SendError<T>> for SendError<T> {
    open spec fn obeys_from_spec() -> bool {
        true
    }

    open spec fn from_spec(src: mpsc::error::SendError<T>) -> Self {
        SendError { kind: SendErrorKind::Closed, value: src.0 }
    }
}

impl From<AcquireError> for SendError<()> {
    fn from(_src: AcquireError) -> (error: Self) {
        SendError { kind: SendErrorKind::Closed, value: () }
    }
}

impl vstd::std_specs::convert::FromSpecImpl<AcquireError> for SendError<()> {
    open spec fn obeys_from_spec() -> bool {
        true
    }

    open spec fn from_spec(_src: AcquireError) -> Self {
        SendError { kind: SendErrorKind::Closed, value: () }
    }
}

impl<T> From<mpsc::error::SendError<Entry<T>>> for SendError<T> {
    fn from(src: mpsc::error::SendError<Entry<T>>) -> (error: Self) {
        let entry = src.0;
        SendError { kind: SendErrorKind::Closed, value: entry.1 }
    }
}

impl<T> vstd::std_specs::convert::FromSpecImpl<mpsc::error::SendError<Entry<T>>> for SendError<T> {
    open spec fn obeys_from_spec() -> bool {
        true
    }

    open spec fn from_spec(src: mpsc::error::SendError<Entry<T>>) -> Self {
        SendError { kind: SendErrorKind::Closed, value: src.0.1 }
    }
}

impl From<TryAcquireError> for SendError<()> {
    fn from(src: TryAcquireError) -> (error: Self) {
        SendError { kind: SendErrorKind::from(src), value: () }
    }
}

impl vstd::std_specs::convert::FromSpecImpl<TryAcquireError> for SendError<()> {
    open spec fn obeys_from_spec() -> bool {
        true
    }

    open spec fn from_spec(src: TryAcquireError) -> Self {
        SendError {
            kind: <SendErrorKind as vstd::std_specs::convert::FromSpec<
                TryAcquireError,
            >>::from_spec(src),
            value: (),
        }
    }
}

/// A value whose memory footprint can be estimated.
pub trait EstimatedSize {
    /// The estimated size of the value in bytes.
    fn estimated_size(&self) -> (size: u32)
        opens_invariants none
    ;
}

/// What may come of handing `entry`, paid for in full, to a queue with the given stream: it enters
/// the queue, or the channel turns out to be closed and the value comes back.
pub open spec fn handed_over<T>(
    stream: Stream<T>,
    entry: Entry<T>,
    sent: Result<(), SendError<T>>,
) -> bool {
    match sent {
        Ok(()) => stream.passes(entry),
        Err(error) => stream.closes && error.kind is Closed && error.value == entry.1,
    }
}

/// What may come of sending `entry` against a reservation of `reserved` bytes: an entry that does
/// not fit is refused and comes back, any other is handed over.
pub open spec fn sent_against<T>(
    reserved: nat,
    stream: Stream<T>,
    entry: Entry<T>,
    sent: Result<(), SendError<T>>,
) -> bool {
    if entry.0 > reserved {
        sent matches Err(error) && error.kind is PermitEntryTooLarge && error.value == entry.1
    } else {
        handed_over(stream, entry, sent)
    }
}

/// What a send answers once the queue has accepted or refused its message: a refused value comes
/// back.
pub fn sent_or_returned<T>(pushed: Result<(), mpsc::error::SendError<Entry<T>>>) -> (sent: Result<
    (),
    SendError<T>,
>)
    ensures
        match pushed {
            Ok(()) => sent is Ok,
            Err(refused) => sent matches Err(error) && error.kind is Closed && error.value
                == refused.0.1,
        },
    opens_invariants none
{
    match pushed {
        Ok(()) => Ok(()),
        Err(refused) => {
            let entry = refused.0;
            Err(SendError { kind: SendErrorKind::Closed, value: entry.1 })
        },
    }
}

/// Pays for `value` with `permit` and hands it to the queue, behind the message at `place`.
///
/// The bytes stay out of the budget until the message is consumed.
fn hand_over<T>(
    tx: &Outbox<T>,
    permit: SemaphorePermit<'_>,
    size: u32,
    value: T,
    place: &mut Place<T>,
) -> (sent: Result<(), SendError<T>>)
    requires
        is_grant(tx.budget(), size as nat, permit),
        old(place).stream() == tx.stream(),
    ensures
        handed_over(tx.stream(), (size, value), sent),
        final(place).stream() == tx.stream(),
        match sent {
            Ok(()) => {
                &&& old(place).at() < final(place).at()
                &&& tx.stream().carries(final(place).at(), (size, value))
            },
            Err(_) => final(place).at() == old(place).at(),
        },
    opens_invariants [paying()]
{
    let payment = forget(permit);
    sent_or_returned(tx.push((size, value), payment, place))
}

/// A reservation of channel capacity for a single message.
///
/// The reserved bytes are held until the message is sent (and later consumed by the
/// receiver) or until the permit is dropped.
#[verifier::reject_recursive_types(T)]
pub struct Permit<'a, T: EstimatedSize> {
    permit: SemaphorePermit<'a>,
    tx: &'a Outbox<T>,
}

impl<'a, T: EstimatedSize> Permit<'a, T> {
    /// The number of bytes that are reserved.
    pub closed spec fn reserved(self) -> nat {
        permits_in(self.permit)
    }

    /// The budget that the bytes were taken from.
    pub closed spec fn source(self) -> Semaphore {
        permit_source(self.permit)
    }

    /// The budget of the channel that the reservation is for.
    pub closed spec fn budget(self) -> Semaphore {
        self.tx.budget()
    }

    /// The stream of the channel that the reservation is for.
    pub closed spec fn stream(self) -> Stream<T> {
        self.tx.stream()
    }

    /// The bytes were taken from the budget of the channel.
    pub open spec fn wf(self) -> bool {
        self.source() == self.budget()
    }

    /// The books of the reservation once it was used for `entry`: with an entry that fits, its
    /// size pays for it and the rest goes back; with any other, everything goes back.
    pub open spec fn books_after(self, entry: Entry<T>) -> Ledger<T> {
        let opened = Ledger::opened(self.reserved());
        if entry.0 <= self.reserved() {
            opened.pay(entry).settle()
        } else {
            opened.settle()
        }
    }

    /// Sends `value` on the channel using the reserved capacity.
    ///
    /// Sending a value bigger than the reserved capacity will fail and return the value back.
    /// Sending a value smaller than the reserved capacity will return the difference to the
    /// channel capacity.
    /// If the receiver has been dropped in the meantime, the send will error and the
    /// the value will be returned.
    pub fn send(self, value: T) -> (sent: Result<(), SendError<T>>)
        requires
            self.wf(),
        ensures
            exists|size: u32, refund: Refund|
                {
                    &&& call_ensures(T::estimated_size, (&value,), size)
                    &&& #[trigger] call_ensures(
                        Permit::<'a, T>::send_sized,
                        (self, size, value),
                        (sent, refund),
                    )
                    &&& sent_against(self.reserved(), self.stream(), (size, value), sent)
                    &&& refund.bytes() == self.books_after((size, value)).refunded
                    &&& refund.budget() == self.budget()
                },
        opens_invariants [paying()]
    {
        let size = value.estimated_size();
        let (sent, _) = self.send_sized(size, value);
        sent
    }

    /// [`Permit::send`] for a value whose estimated size is known, with the receipt for what went
    /// back to the channel: the difference if the value fits, and everything if it does not.
    pub fn send_sized(self, size: u32, value: T) -> (outcome: (Result<(), SendError<T>>, Refund))
        requires
            self.wf(),
        ensures
            sent_against(self.reserved(), self.stream(), (size, value), outcome.0),
            outcome.1.bytes() == self.books_after((size, value)).refunded,
            outcome.1.budget() == self.budget(),
        opens_invariants [paying()]
    {
        let Permit { mut permit, tx } = self;
        match permit.split(size as usize) {
            Some(part) => {
                // Let's refund the difference by releasing the rest of the permit.
                let refund = give_up(permit);
                // The bytes of the message stay out of the budget; the receiver adds them back
                // when it consumes the message.
                (hand_over(tx, part, size, value, &mut tx.start()), refund)
            },
            None => {
                // The caller didn't reserve enough capacity for this message.
                let refund = give_up(permit);
                (Err(SendError { kind: SendErrorKind::PermitEntryTooLarge, value }), refund)
            },
        }
    }
}

/// A reservation of channel capacity for multiple messages.
///
/// Each [`Permits::send`] consumes the sent message's estimated size from the reservation.
#[verifier::reject_recursive_types(T)]
pub struct Permits<'a, T: EstimatedSize> {
    permit: SemaphorePermit<'a>,
    tx: &'a Outbox<T>,
    place: Place<T>,
    granted: Ghost<nat>,
    paid: Ghost<Seq<Entry<T>>>,
}

impl<'a, T: EstimatedSize> Permits<'a, T> {
    /// The books of the reservation. Nothing goes back before the reservation is dropped.
    pub closed spec fn ledger(self) -> Ledger<T> {
        Ledger {
            granted: self.granted@,
            remaining: permits_in(self.permit),
            refunded: 0,
            paid: self.paid@,
        }
    }

    /// The budget that the bytes were taken from.
    pub closed spec fn source(self) -> Semaphore {
        permit_source(self.permit)
    }

    /// The budget of the channel that the reservation is for.
    pub closed spec fn budget(self) -> Semaphore {
        self.tx.budget()
    }

    /// The stream of the channel that the reservation is for.
    pub closed spec fn stream(self) -> Stream<T> {
        self.tx.stream()
    }

    /// The place at which the last message that was sent with this reservation entered the channel,
    /// or -1 if none was.
    pub closed spec fn last_place(self) -> int {
        self.place.at()
    }

    /// The last place is one of the channel.
    pub closed spec fn keeps_place(self) -> bool {
        self.place.stream() == self.tx.stream()
    }

    /// The bytes were taken from the budget of the channel, and the books balance.
    pub open spec fn wf(self) -> bool {
        &&& self.source() == self.budget()
        &&& self.ledger().balanced()
        &&& self.keeps_place()
    }

    /// Between the two states, `entry` was offered to the channel, with the outcome `sent`. If it
    /// was sent, it entered behind all that had been sent with this reservation.
    pub open spec fn sent_in_order(
        self,
        before: Self,
        entry: Entry<T>,
        sent: Result<(), SendError<T>>,
    ) -> bool {
        match sent {
            Ok(()) => {
                &&& before.last_place() < self.last_place()
                &&& self.stream().carries(self.last_place(), entry)
            },
            Err(_) => self.last_place() == before.last_place(),
        }
    }

    /// The books of a reservation after an attempt to send `entry`: an entry that fits is paid
    /// for, any other leaves them untouched.
    pub open spec fn books_after(self, entry: Entry<T>) -> Ledger<T> {
        if entry.0 <= self.ledger().remaining {
            self.ledger().pay(entry)
        } else {
            self.ledger()
        }
    }

    /// Both states are of the same reservation, on the same channel.
    pub open spec fn same_channel(self, other: Self) -> bool {
        &&& self.budget() == other.budget()
        &&& self.stream() == other.stream()
    }

    /// Sends `value`, consuming its estimated size from the reserved capacity.
    ///
    /// Sending a value bigger than the reserved capacity will fail and return the value back.
    /// If the receiver has been dropped in the meantime, the send will error and the
    /// the value will be returned.
    pub fn send(&mut self, value: T) -> (sent: Result<(), SendError<T>>)
        requires
            old(self).wf(),
        ensures
            final(self).wf(),
            final(self).same_channel(*old(self)),
            exists|size: u32| #[trigger]
                call_ensures(T::estimated_size, (&value,), size) && sent_against(
                    old(self).ledger().remaining,
                    old(self).stream(),
                    (size, value),
                    sent,
                ) && final(self).ledger() == old(self).books_after((size, value))
                    && final(self).sent_in_order(*old(self), (size, value), sent),
        opens_invariants [paying()]
    {
        let size = value.estimated_size();
        self.send_sized(size, value)
    }

    /// [`Permits::send`] for a value whose estimated size is known.
    pub fn send_sized(&mut self, size: u32, value: T) -> (sent: Result<(), SendError<T>>)
        requires
            old(self).wf(),
        ensures
            final(self).wf(),
            final(self).same_channel(*old(self)),
            sent_against(
                old(self).ledger().remaining,
                old(self).stream(),
                (size, value),
                sent,
            ),
            final(self).ledger() == old(self).books_after((size, value)),
            final(self).sent_in_order(*old(self), (size, value), sent),
        opens_invariants [paying()]
    {
        match self.permit.split(size as usize) {
            Some(part) => {
                // Consume the permits here. The receiver adds them back when it consumes the
                // message.
                proof {
                    lemma_total_push(self.paid@, (size, value));
                }
                self.paid = Ghost(self.paid@.push((size, value)));
                hand_over(self.tx, part, size, value, &mut self.place)
            },
            // The caller didn't reserve enough capacity for this message.
            None => Err(SendError { kind: SendErrorKind::PermitEntryTooLarge, value }),
        }
    }

    /// The number of bytes left in this permit.
    pub fn capacity(&self) -> (bytes: usize)
        ensures
            bytes == self.ledger().remaining,
        opens_invariants none
    {
        self.permit.num_permits()
    }
}

/// The sending side of a channel. Clones send on the same channel.
#[verifier::reject_recursive_types(T)]
pub struct Sender<T: EstimatedSize> {
    max_capacity: usize,
    tx: Outbox<T>,
}

/// A message that may be sent as soon as the channel has room for it.
pub struct PendingSend<T> {
    size: u32,
    value: T,
}

impl<T> PendingSend<T> {
    /// The message, with the size to acquire for it.
    pub closed spec fn entry(self) -> Entry<T> {
        (self.size, self.value)
    }

    /// The number of bytes to acquire before the message can be sent.
    pub fn size(&self) -> (size: u32)
        ensures
            size == self.entry().0,
        opens_invariants none
    {
        self.size
    }
}

impl<T: EstimatedSize> Clone for Sender<T> {
    fn clone(&self) -> (other: Self)
        ensures
            other.max_capacity() == self.max_capacity(),
            other.budget() == self.budget(),
            other.stream() == self.stream(),
            other.levels() == self.levels(),
            other.readings() == self.readings(),
            other.waits() == self.waits(),
    {
        Sender { max_capacity: self.max_capacity, tx: self.tx.duplicate() }
    }
}

impl<T: EstimatedSize> Sender<T> {
    /// The size of the channel in bytes.
    pub closed spec fn max_capacity(self) -> usize {
        self.max_capacity
    }

    /// The budget that messages are paid from.
    pub closed spec fn budget(self) -> Semaphore {
        self.tx.budget()
    }

    /// What passes through the channel over its lifetime.
    pub closed spec fn stream(self) -> Stream<T> {
        self.tx.stream()
    }

    /// How many bytes are left in the channel, moment by moment over its lifetime.
    pub closed spec fn levels(self) -> Seq<nat> {
        self.tx.levels()
    }

    /// What the senders of the channel may be told of its capacity over its lifetime: what is left
    /// in it at some moment.
    pub open spec fn readings(self) -> Set<usize> {
        Set::new(
            |bytes: usize|
                exists|k: int| 0 <= k < self.levels().len() && #[trigger] self.levels()[k] == bytes,
        )
    }

    /// At some moment, fewer than `n` bytes are left in the channel.
    pub open spec fn falls_short_of(self, n: u32) -> bool {
        exists|k: int| 0 <= k < self.levels().len() && #[trigger] self.levels()[k] < n
    }

    /// How many bytes the senders of the channel wait for over its lifetime, each time that one of
    /// them waits until it has them or is refused.
    pub closed spec fn waits(self) -> Set<u32> {
        self.tx.waits()
    }

    /// The budget started out with the size of the channel.
    pub open spec fn wf(self) -> bool {
        &&& initial_permits(self.budget()) == self.max_capacity()
        &&& self.max_capacity() <= MAX_SIZE_BYTES
        &&& self.levels().len() > 0
        &&& self.levels()[0] == self.max_capacity()
    }

    /// What may come of sending `entry`: one that the channel could not even hold when empty is
    /// refused and comes back, any other is handed over once there is room for it, or comes back
    /// because the channel has been closed.
    pub open spec fn may_send(self, entry: Entry<T>, sent: Result<(), SendError<T>>) -> bool {
        if entry.0 > self.max_capacity() {
            sent matches Err(error) && error.kind is EntryTooLarge && error.value == entry.1
        } else {
            handed_over(self.stream(), entry, sent)
        }
    }

    /// Sends the value `t` to the channel, and waits until there is enough capacity to hold
    /// the estimated size of `t`.
    /// Fails if the channel has been closed.
    /// Sending a value bigger than the max capacity of the channel will fail with
    /// `SendErrorKind::EntryTooLarge`.
    pub fn send<'a>(&'a self, t: T) -> (sent: impl Future<Output = Result<(), SendError<T>>> + 'a)
        requires
            self.wf(),
        ensures
            exists|size: u32| #[trigger]
                call_ensures(T::estimated_size, (&t,), size) && (sent.awaited() ==> {
                    &&& self.may_send((size, t), sent@)
                    &&& size <= self.max_capacity() ==> self.waits().contains(size)
                }),
        opens_invariants none
    {
        let size = t.estimated_size();
        let begun = self.begin_send(size, t);
        let wanted = match &begun {
            Ok(pending) => Some(pending.size()),
            Err(_) => None,
        };
        self.tx.acquire_then(wanted, Sending { sender: self, begun })
    }

    /// Starts to send `t`, whose estimated size is `size`: the channel accepts any value that it
    /// could hold when empty. The message is sent by [`Sender::finish_send`], once its size has
    /// been acquired.
    /// Sending a value bigger than the max capacity of the channel will fail with
    /// `SendErrorKind::EntryTooLarge`.
    pub fn begin_send(&self, size: u32, t: T) -> (begun: Result<PendingSend<T>, SendError<T>>)
        ensures
            match begun {
                Ok(pending) => size <= self.max_capacity() && pending.entry() == (size, t),
                Err(error) => {
                    &&& size > self.max_capacity()
                    &&& error.kind is EntryTooLarge
                    &&& error.value == t
                },
            },
        opens_invariants none
    {
        if size as usize > self.max_capacity {
            return Err(SendError { kind: SendErrorKind::EntryTooLarge, value: t });
        }
        Ok(PendingSend { size, value: t })
    }

    /// Sends a message that [`Sender::begin_send`] accepted, with the permits that were acquired
    /// for it. Without permits the channel is closed, and the value comes back.
    pub fn finish_send(
        &self,
        pending: PendingSend<T>,
        acquired: Result<SemaphorePermit<'_>, AcquireError>,
    ) -> (sent: Result<(), SendError<T>>)
        requires
            acquired matches Ok(permit) ==> is_grant(
                self.budget(),
                pending.entry().0 as nat,
                permit,
            ),
        ensures
            match acquired {
                Ok(_) => handed_over(self.stream(), pending.entry(), sent),
                Err(_) => sent matches Err(error) && error.kind is Closed && error.value
                    == pending.entry().1,
            },
        opens_invariants [paying()]
    {
        let PendingSend { size, value } = pending;
        match acquired {
            Ok(permit) => hand_over(&self.tx, permit, size, value, &mut self.tx.start()),
            // The semaphore has been closed, this means the channel is as well.
            Err(_) => Err(SendError { kind: SendErrorKind::Closed, value }),
        }
    }

    /// Whether a reservation of `n` bytes can ever be granted: the first step of
    /// every reservation.
    ///
    /// Reserving a value bigger than the max capacity of the channel will fail with
    /// `SendErrorKind::EntryTooLarge`.
    pub fn begin_reserve(&self, n: u32) -> (begun: Result<(), SendError<()>>)
        ensures
            begun is Ok <==> n <= self.max_capacity(),
            begun matches Err(error) ==> error.kind is EntryTooLarge,
        opens_invariants none
    {
        if n as usize > self.max_capacity {
            return Err(SendError { kind: SendErrorKind::EntryTooLarge, value: () });
        }
        Ok(())
    }

    /// `permit` is an unused reservation of `n` bytes on this channel, for one message.
    pub open spec fn reserved_one(self, n: nat, permit: Permit<'_, T>) -> bool {
        &&& permit.wf()
        &&& permit.reserved() == n
        &&& permit.budget() == self.budget()
        &&& permit.stream() == self.stream()
    }

    /// `permits` is an unused reservation of `n` bytes on this channel, for many messages.
    pub open spec fn reserved_many(self, n: nat, permits: Permits<'_, T>) -> bool {
        &&& permits.wf()
        &&& permits.ledger() == Ledger::<T>::opened(n)
        &&& permits.last_place() == -1
        &&& permits.budget() == self.budget()
        &&& permits.stream() == self.stream()
    }

    /// `wrapped` reserves what `permit` holds, for one message on this channel.
    pub open spec fn wraps_one(self, permit: SemaphorePermit<'_>, wrapped: Permit<'_, T>) -> bool {
        &&& wrapped.reserved() == permits_in(permit)
        &&& wrapped.source() == permit_source(permit)
        &&& wrapped.budget() == self.budget()
        &&& wrapped.stream() == self.stream()
    }

    /// `wrapped` reserves what `permit` holds, for many messages on this channel.
    pub open spec fn wraps_many(
        self,
        permit: SemaphorePermit<'_>,
        wrapped: Permits<'_, T>,
    ) -> bool {
        &&& wrapped.ledger() == Ledger::<T>::opened(permits_in(permit))
        &&& wrapped.last_place() == -1
        &&& wrapped.keeps_place()
        &&& wrapped.source() == permit_source(permit)
        &&& wrapped.budget() == self.budget()
        &&& wrapped.stream() == self.stream()
    }

    /// Wraps permits into an unused reservation for one message.
    fn permit<'a>(&'a self, permit: SemaphorePermit<'a>) -> (wrapped: Permit<'a, T>)
        ensures
            self.wraps_one(permit, wrapped),
        opens_invariants none
    {
        Permit { permit, tx: &self.tx }
    }

    /// Wraps permits into an unused reservation for many messages.
    fn permits<'a>(&'a self, permit: SemaphorePermit<'a>) -> (wrapped: Permits<'a, T>)
        ensures
            self.wraps_many(permit, wrapped),
        opens_invariants none
    {
        let ghost granted = permits_in(permit);
        Permits {
            permit,
            tx: &self.tx,
            place: self.tx.start(),
            granted: Ghost(granted),
            paid: Ghost(Seq::empty()),
        }
    }

    /// What may come of reserving `n` bytes for one message and waiting for them.
    pub open spec fn may_reserve(
        self,
        n: u32,
        reserved: Result<Permit<'_, T>, SendError<()>>,
    ) -> bool {
        match reserved {
            Ok(permit) => n <= self.max_capacity() && self.reserved_one(n as nat, permit),
            Err(error) => if n > self.max_capacity() {
                error.kind is EntryTooLarge
            } else {
                error.kind is Closed && self.stream().closes
            },
        }
    }

    /// What may come of reserving `n` bytes for many messages and waiting for them.
    pub open spec fn may_reserve_many(
        self,
        n: u32,
        reserved: Result<Permits<'_, T>, SendError<()>>,
    ) -> bool {
        match reserved {
            Ok(permits) => n <= self.max_capacity() && self.reserved_many(n as nat, permits),
            Err(error) => if n > self.max_capacity() {
                error.kind is EntryTooLarge
            } else {
                error.kind is Closed && self.stream().closes
            },
        }
    }

    /// Reserves `n` bytes from the channel capacity. Completes where there is enough capacity.
    /// Fails if the channel has been closed.
    /// Reserving a value bigger than the max capacity of the channel will fail with
    /// `SendErrorKind::EntryTooLarge`.
    pub fn reserve<'a>(&'a self, n: u32) -> (reserved: impl Future<
        Output = Result<Permit<'a, T>, SendError<()>>,
    > + 'a)
        requires
            self.wf(),
        ensures
            reserved.awaited() ==> self.may_reserve(n, reserved@),
            reserved.awaited() && n <= self.max_capacity() ==> self.waits().contains(n),
        opens_invariants none
    {
        let begun = self.begin_reserve(n);
        let wanted = match &begun {
            Ok(()) => Some(n),
            Err(_) => None,
        };
        self.tx.acquire_then(wanted, Reserving { sender: self, begun })
    }

    /// Returns a [`Permits`] that reserves `n` bytes from the channel capacity. Or an error
    /// if the channel has been closed.
    /// Reserving a value bigger than the max capacity of the channel will fail with
    /// `SendErrorKind::EntryTooLarge`.
    pub fn reserve_many<'a>(&'a self, n: u32) -> (reserved: impl Future<
        Output = Result<Permits<'a, T>, SendError<()>>,
    > + 'a)
        requires
            self.wf(),
        ensures
            reserved.awaited() ==> self.may_reserve_many(n, reserved@),
            reserved.awaited() && n <= self.max_capacity() ==> self.waits().contains(n),
        opens_invariants none
    {
        let begun = self.begin_reserve(n);
        let wanted = match &begun {
            Ok(()) => Some(n),
            Err(_) => None,
        };
        self.tx.acquire_then(wanted, ReservingMany { sender: self, begun })
    }

    /// Turns the permits that were awaited for a reservation into one for a single message.
    /// Fails if the channel has been closed.
    pub fn finish_reserve<'a>(
        &'a self,
        acquired: Result<SemaphorePermit<'a>, AcquireError>,
    ) -> (reserved: Result<Permit<'a, T>, SendError<()>>)
        ensures
            match acquired {
                Ok(permit) => reserved matches Ok(wrapped) && self.wraps_one(permit, wrapped),
                Err(_) => reserved matches Err(error) && error.kind is Closed,
            },
        opens_invariants none
    {
        match acquired {
            Ok(permit) => Ok(self.permit(permit)),
            Err(_) => Err(SendError { kind: SendErrorKind::Closed, value: () }),
        }
    }

    /// Turns the permits that were awaited for a reservation into one for many messages.
    /// Fails if the channel has been closed.
    pub fn finish_reserve_many<'a>(
        &'a self,
        acquired: Result<SemaphorePermit<'a>, AcquireError>,
    ) -> (reserved: Result<Permits<'a, T>, SendError<()>>)
        ensures
            match acquired {
                Ok(permit) => reserved matches Ok(wrapped) && self.wraps_many(permit, wrapped),
                Err(_) => reserved matches Err(error) && error.kind is Closed,
            },
        opens_invariants none
    {
        match acquired {
            Ok(permit) => Ok(self.permits(permit)),
            Err(_) => Err(SendError { kind: SendErrorKind::Closed, value: () }),
        }
    }

    /// `reserved` is what comes of an attempt to acquire permits for one message that ended with
    /// `acquired`.
    pub open spec fn granted_one(
        self,
        acquired: Result<SemaphorePermit<'_>, TryAcquireError>,
        reserved: Result<Permit<'_, T>, SendError<()>>,
    ) -> bool {
        match acquired {
            Ok(permit) => reserved matches Ok(wrapped) && self.wraps_one(permit, wrapped),
            Err(TryAcquireError::Closed) => reserved matches Err(error) && error.kind is Closed,
            Err(TryAcquireError::NoPermits) => reserved matches Err(error)
                && error.kind is InsufficientCapacity,
        }
    }

    /// Turns the outcome of an attempt to acquire permits into a reservation for one message.
    pub fn grant<'a>(
        &'a self,
        acquired: Result<SemaphorePermit<'a>, TryAcquireError>,
    ) -> (reserved: Result<Permit<'a, T>, SendError<()>>)
        ensures
            self.granted_one(acquired, reserved),
        opens_invariants none
    {
        match acquired {
            Ok(permit) => Ok(self.permit(permit)),
            Err(error) => Err(SendError { kind: refusal(&error), value: () }),
        }
    }

    /// `reserved` is what comes of an attempt to acquire permits for many messages that ended with
    /// `acquired`.
    pub open spec fn granted_many(
        self,
        acquired: Result<SemaphorePermit<'_>, TryAcquireError>,
        reserved: Result<Permits<'_, T>, SendError<()>>,
    ) -> bool {
        match acquired {
            Ok(permit) => reserved matches Ok(wrapped) && self.wraps_many(permit, wrapped),
            Err(TryAcquireError::Closed) => reserved matches Err(error) && error.kind is Closed,
            Err(TryAcquireError::NoPermits) => reserved matches Err(error)
                && error.kind is InsufficientCapacity,
        }
    }

    /// Turns the outcome of an attempt to acquire permits into a reservation for many messages.
    pub fn grant_many<'a>(
        &'a self,
        acquired: Result<SemaphorePermit<'a>, TryAcquireError>,
    ) -> (reserved: Result<Permits<'a, T>, SendError<()>>)
        ensures
            self.granted_many(acquired, reserved),
        opens_invariants none
    {
        match acquired {
            Ok(permit) => Ok(self.permits(permit)),
            Err(error) => Err(SendError { kind: refusal(&error), value: () }),
        }
    }

    /// Why a reservation of `n` bytes that does not wait may fail. A reservation of nothing finds
    /// enough capacity for as long as the channel is open, and any other one does if so many bytes
    /// are left.
    pub open spec fn may_refuse(self, n: u32, error: SendError<()>) -> bool {
        if n > self.max_capacity() {
            error.kind is EntryTooLarge
        } else {
            ||| error.kind is Closed && self.stream().closes
            ||| error.kind is InsufficientCapacity && n > 0 && self.falls_short_of(n)
        }
    }

    /// `acquired` is what the budget of the channel answers to the one request that `n` turns into,
    /// without waiting.
    pub closed spec fn answers<N: Amount>(
        self,
        n: N,
        acquired: Result<SemaphorePermit<'_>, TryAcquireError>,
    ) -> bool {
        exists|request: Request<N>|
            request.amount() == n.amount() && #[trigger] call_ensures(
                Outbox::<T>::try_acquire::<N>,
                (&self.tx, request),
                acquired,
            )
    }

    /// Tries to reserved `n` bytes from the channel capacity.
    /// Fails if there isn't enough capacity or the channel has been closed.
    /// Reserving a value bigger than the max capacity of the channel will fail with
    /// `SendErrorKind::EntryTooLarge`.
    ///
    /// Whether there is enough capacity depends on everyone else who uses the channel.
    pub fn try_reserve<N: Amount>(&self, n: N) -> (reserved: Result<Permit<'_, T>, SendError<()>>)
        requires
            self.wf(),
        ensures
            match reserved {
                Ok(permit) => {
                    &&& n.amount() <= self.max_capacity()
                    &&& self.reserved_one(n.amount() as nat, permit)
                },
                Err(error) => self.may_refuse(n.amount(), error),
            },
            n.amount() <= self.max_capacity() ==> exists|acquired|
                #[trigger] self.answers(n, acquired) && self.granted_one(acquired, reserved),
        opens_invariants [asking::<N>()]
    {
        let request = n.request();
        match self.begin_reserve(request.size()) {
            Ok(()) => {
                let acquired = self.tx.try_acquire(request);
                assert(self.answers(n, acquired));
                self.grant(acquired)
            },
            Err(error) => Err(error),
        }
    }

    /// Returns a [`Permits`] that reserves `n` bytes from the channel capacity. Or an error
    /// if the channel has been closed or doesn't have enough capacity.
    /// Reserving a value bigger than the max capacity of the channel will fail with
    /// `SendErrorKind::EntryTooLarge`.
    ///
    /// Whether there is enough capacity depends on everyone else who uses the channel.
    pub fn try_reserve_many<N: Amount>(&self, n: N) -> (reserved: Result<
        Permits<'_, T>,
        SendError<()>,
    >)
        requires
            self.wf(),
        ensures
            match reserved {
                Ok(permits) => {
                    &&& n.amount() <= self.max_capacity()
                    &&& self.reserved_many(n.amount() as nat, permits)
                },
                Err(error) => self.may_refuse(n.amount(), error),
            },
            n.amount() <= self.max_capacity() ==> exists|acquired|
                #[trigger] self.answers(n, acquired) && self.granted_many(acquired, reserved),
        opens_invariants [asking::<N>()]
    {
        let request = n.request();
        match self.begin_reserve(request.size()) {
            Ok(()) => {
                let acquired = self.tx.try_acquire(request);
                assert(self.answers(n, acquired));
                self.grant_many(acquired)
            },
            Err(error) => Err(error),
        }
    }

    /// Completes when the receiver has dropped.
    ///
    /// That depends on the receiver alone; when it happens is not a matter of this side.
    pub fn closed<'a>(&'a self) -> (closed: impl Future<Output = ()> + 'a)
        ensures
            closed.awaited() ==> self.stream().closes,
        opens_invariants none
    {
        self.tx.closed()
    }

    /// The current capacity of the channel in bytes.
    /// Capacity gets consumed as messages get sent to the channel
    /// and returned when a message are consumed from the channel.
    ///
    /// It is the capacity at the moment of the call: others may change it right after. It never
    /// exceeds the size of the channel.
    pub fn capacity(&self) -> (bytes: usize)
        ensures
            self.readings().contains(bytes),
            bytes <= MAX_SIZE_BYTES,
            self.wf() ==> bytes <= self.max_capacity(),
        opens_invariants none
    {
        self.tx.available()
    }
}

/// What is left of a send once its size has been awaited.
#[verifier::reject_recursive_types(T)]
struct Sending<'a, T: EstimatedSize> {
    sender: &'a Sender<T>,
    begun: Result<PendingSend<T>, SendError<T>>,
}

impl<'a, T: EstimatedSize> Errand<'a> for Sending<'a, T> {
    type Outcome = Result<(), SendError<T>>;

    closed spec fn expects(
        self,
        acquired: Option<Result<SemaphorePermit<'a>, AcquireError>>,
    ) -> bool {
        match self.begun {
            Ok(pending) => acquired matches Some(Ok(permit)) ==> is_grant(
                self.sender.budget(),
                pending.entry().0 as nat,
                permit,
            ),
            Err(_) => true,
        }
    }

    closed spec fn allows(
        self,
        acquired: Option<Result<SemaphorePermit<'a>, AcquireError>>,
        outcome: Result<(), SendError<T>>,
    ) -> bool {
        match self.begun {
            Ok(pending) => match acquired {
                Some(Ok(_)) => handed_over(self.sender.stream(), pending.entry(), outcome),
                _ => outcome matches Err(error) && error.kind is Closed && error.value
                    == pending.entry().1,
            },
            Err(error) => outcome == Err::<(), _>(error),
        }
    }

    fn run(self, acquired: Option<Result<SemaphorePermit<'a>, AcquireError>>) -> (outcome: Result<
        (),
        SendError<T>,
    >) {
        match self.begun {
            Ok(pending) => match acquired {
                Some(acquired) => self.sender.finish_send(pending, acquired),
                None => {
                    let PendingSend { value, .. } = pending;
                    Err(SendError { kind: SendErrorKind::Closed, value })
                },
            },
            Err(error) => Err(error),
        }
    }
}

/// What is left of a reservation for one message once its bytes have been awaited.
#[verifier::reject_recursive_types(T)]
struct Reserving<'a, T: EstimatedSize> {
    sender: &'a Sender<T>,
    begun: Result<(), SendError<()>>,
}

impl<'a, T: EstimatedSize> Errand<'a> for Reserving<'a, T> {
    type Outcome = Result<Permit<'a, T>, SendError<()>>;

    closed spec fn expects(
        self,
        acquired: Option<Result<SemaphorePermit<'a>, AcquireError>>,
    ) -> bool {
        true
    }

    closed spec fn allows(
        self,
        acquired: Option<Result<SemaphorePermit<'a>, AcquireError>>,
        outcome: Result<Permit<'a, T>, SendError<()>>,
    ) -> bool {
        match self.begun {
            Ok(()) => match acquired {
                Some(Ok(permit)) => outcome matches Ok(wrapped) && self.sender.wraps_one(
                    permit,
                    wrapped,
                ),
                _ => outcome matches Err(error) && error.kind is Closed,
            },
            Err(error) => outcome == Err::<Permit<'a, T>, _>(error),
        }
    }

    fn run(self, acquired: Option<Result<SemaphorePermit<'a>, AcquireError>>) -> (outcome: Result<
        Permit<'a, T>,
        SendError<()>,
    >) {
        match self.begun {
            Ok(()) => match acquired {
                Some(acquired) => self.sender.finish_reserve(acquired),
                None => Err(SendError { kind: SendErrorKind::Closed, value: () }),
            },
            Err(error) => Err(error),
        }
    }
}

/// What is left of a reservation for many messages once its bytes have been awaited.
#[verifier::reject_recursive_types(T)]
struct ReservingMany<'a, T: EstimatedSize> {
    sender: &'a Sender<T>,
    begun: Result<(), SendError<()>>,
}

impl<'a, T: EstimatedSize> Errand<'a> for ReservingMany<'a, T> {
    type Outcome = Result<Permits<'a, T>, SendError<()>>;

    closed spec fn expects(
        self,
        acquired: Option<Result<SemaphorePermit<'a>, AcquireError>>,
    ) -> bool {
        true
    }

    closed spec fn allows(
        self,
        acquired: Option<Result<SemaphorePermit<'a>, AcquireError>>,
        outcome: Result<Permits<'a, T>, SendError<()>>,
    ) -> bool {
        match self.begun {
            Ok(()) => match acquired {
                Some(Ok(permit)) => outcome matches Ok(wrapped) && self.sender.wraps_many(
                    permit,
                    wrapped,
                ),
                _ => outcome matches Err(error) && error.kind is Closed,
            },
            Err(error) => outcome == Err::<Permits<'a, T>, _>(error),
        }
    }

    fn run(self, acquired: Option<Result<SemaphorePermit<'a>, AcquireError>>) -> (outcome: Result<
        Permits<'a, T>,
        SendError<()>,
    >) {
        match self.begun {
            Ok(()) => match acquired {
                Some(acquired) => self.sender.finish_reserve_many(acquired),
                None => Err(SendError { kind: SendErrorKind::Closed, value: () }),
            },
            Err(error) => Err(error),
        }
    }
}

/// The receiving side of a channel. Dropping it closes the channel.
#[verifier::reject_recursive_types(T)]
pub struct Receiver<T> {
    rx: Inbox<T>,
}

impl<T> Receiver<T> {
    /// The budget that messages were paid from.
    pub closed spec fn budget(self) -> Semaphore {
        self.rx.budget()
    }

    /// What passes through the channel over its lifetime.
    pub closed spec fn stream(self) -> Stream<T> {
        self.rx.stream()
    }

    /// The messages that have been received, in order.
    pub closed spec fn taken(self) -> Seq<Entry<T>> {
        self.rx.taken()
    }

    /// How many messages waited to be received when this side was done with what it did last.
    pub closed spec fn arrived(self) -> nat {
        self.rx.arrived()
    }

    /// How many messages wait to be received by the time this side next acts.
    pub closed spec fn ready(self) -> nat {
        self.rx.ready()
    }

    /// How many bytes have been given back to the budget.
    pub closed spec fn released(self) -> nat {
        self.rx.released()
    }

    /// What the queue answered so far when it did not hand out a message, in order.
    pub closed spec fn log(self) -> Seq<Answer> {
        self.rx.log()
    }

    /// Whether the channel has been closed from this side.
    pub closed spec fn closed(self) -> bool {
        self.rx.closed()
    }

    /// Whether the budget has been closed from this side: no capacity is granted any more.
    pub closed spec fn budget_closed(self) -> bool {
        self.rx.budget_closed()
    }

    /// The messages that were received or wait, and whose bytes are still out, do not weigh more
    /// than the channel can hold.
    pub open spec fn within_budget(self) -> bool {
        &&& self.taken().len() + self.arrived() <= self.stream().sizes.len()
        &&& self.stream().weight(self.taken().len() + self.arrived()) <= self.released()
            + initial_permits(self.budget())
    }

    /// What was received is what was sent first, and every byte of it has been paid back. The
    /// budget is that of a channel, and what waited goes on waiting.
    pub open spec fn wf(self) -> bool {
        &&& self.stream().starts_with(self.taken())
        &&& self.released() == total_bytes(self.taken())
        &&& self.within_budget()
        &&& initial_permits(self.budget()) <= MAX_SIZE_BYTES
        &&& self.arrived() <= self.ready()
    }

    /// Both states belong to the same channel.
    pub open spec fn same_channel(self, other: Self) -> bool {
        &&& self.budget() == other.budget()
        &&& self.stream() == other.stream()
    }

    /// Both states agree on what is closed.
    pub open spec fn as_closed_as(self, other: Self) -> bool {
        &&& self.closed() == other.closed()
        &&& self.budget_closed() == other.budget_closed()
    }

    /// Between the two states, the queue was asked once for a message and gave `answer` instead.
    pub open spec fn missed(self, before: Self, answer: Answer) -> bool {
        &&& self.same_channel(before)
        &&& self.as_closed_as(before)
        &&& self.taken() == before.taken()
        &&& before.ready() <= self.arrived() <= self.ready()
        &&& self.log() == before.log().push(answer)
        &&& self.released() == before.released()
    }

    /// Between the two states, `value` was received.
    pub open spec fn received(self, before: Self, value: T) -> bool {
        &&& self.same_channel(before)
        &&& self.as_closed_as(before)
        &&& self.taken().len() == before.taken().len() + 1
        &&& self.taken().drop_last() == before.taken()
        &&& self.taken().last().1 == value
        &&& before.ready() <= self.arrived() + 1
        &&& self.arrived() <= self.ready()
        &&& self.log() == before.log()
    }

    /// Nothing of the stream is left: no message waits, and none can come any more.
    pub open spec fn exhausted(self) -> bool {
        self.taken().len() == self.stream().sizes.len()
    }

    /// Nothing more can be sent: what is left of the stream waits by the time this side next acts.
    pub open spec fn complete(self) -> bool {
        self.taken().len() + self.ready() == self.stream().sizes.len()
    }

    /// Consumes the message that was just taken: its bytes go back to the budget.
    fn consume(&mut self, entry: Entry<T>) -> (value: T)
        requires
            old(self).taken().len() > 0,
            old(self).taken().last() == entry,
            old(self).released() == total_bytes(old(self).taken().drop_last()),
        ensures
            value == entry.1,
            final(self).same_channel(*old(self)),
            final(self).taken() == old(self).taken(),
            old(self).ready() <= final(self).arrived() <= final(self).ready(),
            final(self).released() == total_bytes(old(self).taken()),
            final(self).within_budget(),
            final(self).log() == old(self).log(),
            final(self).as_closed_as(*old(self)),
    {
        let (size, value) = entry;
        self.rx.release(size as usize);
        value
    }

    /// Receives a value from the channel. Freeing up the capacity held by that item.
    ///
    /// `None` says that the channel is closed and that everything sent on it has been received.
    /// `Pending` says that the task in `cx` is woken when there is something to receive.
    pub fn poll_recv(&mut self, cx: &mut Context<'_>) -> (polled: Poll<Option<T>>)
        requires
            old(self).wf(),
        ensures
            final(self).wf(),
            match polled {
                Poll::Ready(Some(value)) => final(self).received(*old(self), value),
                Poll::Ready(None) => {
                    &&& final(self).missed(*old(self), Answer::Over)
                    &&& old(self).exhausted()
                },
                Poll::Pending => final(self).missed(*old(self), Answer::Wake),
            },
    {
        match self.rx.poll_recv(cx) {
            Poll::Ready(Some(entry)) => {
                assert(self.taken().drop_last() =~= old(self).taken());
                Poll::Ready(Some(self.consume(entry)))
            },
            Poll::Ready(None) => Poll::Ready(None),
            Poll::Pending => Poll::Pending,
        }
    }

    /// Receives a value if there is one right now. Freeing up the capacity held by that item.
    ///
    /// A value that waits is always received. Without one, `Empty` leaves open whether more comes,
    /// and `Disconnected` says that the channel is closed and that everything sent on it has been
    /// received.
    pub fn try_recv(&mut self) -> (received: Result<T, mpsc::error::TryRecvError>)
        requires
            old(self).wf(),
        ensures
            final(self).wf(),
            match received {
                Ok(value) => final(self).received(*old(self), value),
                Err(mpsc::error::TryRecvError::Empty) => {
                    &&& final(self).missed(*old(self), Answer::Empty)
                    &&& old(self).ready() == 0
                },
                Err(mpsc::error::TryRecvError::Disconnected) => {
                    &&& final(self).missed(*old(self), Answer::Over)
                    &&& old(self).ready() == 0
                    &&& old(self).exhausted()
                },
            },
    {
        match self.rx.try_recv() {
            Ok(entry) => {
                assert(self.taken().drop_last() =~= old(self).taken());
                Ok(self.consume(entry))
            },
            Err(error) => Err(error),
        }
    }

    /// Closes the channel: nothing can be sent any more, and whoever waits for capacity is told.
    /// What is in the channel can still be received.
    pub fn close(&mut self)
        ensures
            final(self).same_channel(*old(self)),
            final(self).taken() == old(self).taken(),
            old(self).ready() <= final(self).arrived() <= final(self).ready(),
            final(self).within_budget(),
            final(self).log() == old(self).log(),
            final(self).released() == old(self).released(),
            final(self).closed(),
            final(self).stream().closes,
            final(self).budget_closed(),
        opens_invariants none
        no_unwind
    {
        self.rx.close();
    }

    /// Whether the channel has been closed or all its senders are gone.
    pub fn is_closed(&self) -> (closed: bool)
        ensures
            self.closed() ==> closed,
            closed ==> self.closed() || self.complete(),
    {
        self.rx.is_closed()
    }

    /// The number of messages currently buffered in the channel.
    pub fn len(&self) -> (waiting: usize)
        ensures
            self.arrived() <= waiting <= self.ready(),
            self.taken().len() + waiting <= self.stream().sizes.len(),
            waiting <= usize::MAX / 2,
    {
        self.rx.len()
    }

    /// Whether no message is currently buffered in the channel.
    pub fn is_empty(&self) -> (empty: bool)
        ensures
            empty ==> self.arrived() == 0,
            !empty ==> self.ready() > 0 && !self.exhausted(),
    {
        self.rx.is_empty()
    }
}

impl<T> Drop for Receiver<T> {
    fn drop(&mut self)
        ensures
            final(self).closed(),
            final(self).budget_closed(),
            final(self).stream().closes,
        opens_invariants none
        no_unwind
    {
        self.close();
    }
}

/// What one batched receive achieved.
#[derive(Debug, Clone, Copy, PartialEq, Eq, Structural)]
pub struct RecvBatch {
    /// The number of elements added to the buffer.
    pub count: usize,
    /// The total estimated size of the elements added to the buffer.
    pub bytes: usize,
    /// The size of the next element when it could not fit within the byte limit.
    pub next_entry_bytes: Option<usize>,
}

impl RecvBatch {
    /// A batch of nothing.
    pub open spec fn empty() -> Self {
        RecvBatch { count: 0, bytes: 0, next_entry_bytes: None }
    }
}

impl Default for RecvBatch {
    fn default() -> (batch: Self)
        ensures
            batch == RecvBatch::empty(),
    {
        RecvBatch { count: 0, bytes: 0, next_entry_bytes: None }
    }
}

/// A receiver that receives messages in batches bounded by byte and element counts.
#[verifier::reject_recursive_types(T)]
pub struct BatchReceiver<T> {
    receiver: Receiver<T>,
    pending: Option<Entry<T>>,
}

impl<T> BatchReceiver<T> {
    /// The budget that messages were paid from.
    pub closed spec fn budget(self) -> Semaphore {
        self.receiver.budget()
    }

    /// What passes through the channel over its lifetime.
    pub closed spec fn stream(self) -> Stream<T> {
        self.receiver.stream()
    }

    /// The message that has been set aside, if any: it was taken out of the queue, but it has not
    /// been delivered, and its bytes still count.
    pub closed spec fn pending(self) -> Option<Entry<T>> {
        self.pending
    }

    /// The messages that have been delivered, in order.
    pub closed spec fn delivered(self) -> Seq<Entry<T>> {
        if self.pending is Some {
            self.receiver.taken().drop_last()
        } else {
            self.receiver.taken()
        }
    }

    /// How many messages could be delivered without waiting when this side was done with what it
    /// did last.
    pub closed spec fn arrived(self) -> nat {
        self.receiver.arrived() + if self.pending is Some { 1nat } else { 0 }
    }

    /// How many messages can be delivered without waiting by the time this side next acts.
    pub closed spec fn ready(self) -> nat {
        self.receiver.ready() + if self.pending is Some { 1nat } else { 0 }
    }

    /// How many bytes have been given back to the budget.
    pub closed spec fn released(self) -> nat {
        self.receiver.released()
    }

    /// What the queue answered so far when it did not hand out a message, in order.
    pub closed spec fn log(self) -> Seq<Answer> {
        self.receiver.log()
    }

    /// Whether the channel has been closed from this side.
    pub closed spec fn closed(self) -> bool {
        self.receiver.closed()
    }

    /// Whether the budget has been closed from this side: no capacity is granted any more.
    pub closed spec fn budget_closed(self) -> bool {
        self.receiver.budget_closed()
    }

    /// The message that has been set aside is the last one that was taken.
    pub closed spec fn pending_is_last_taken(self) -> bool {
        self.pending matches Some(entry) ==> {
            &&& self.receiver.taken().len() > 0
            &&& self.receiver.taken().last() == entry
        }
    }

    /// The messages that have been delivered, and the one that has been set aside behind them.
    pub open spec fn seen(self) -> Seq<Entry<T>> {
        match self.pending() {
            Some(entry) => self.delivered().push(entry),
            None => self.delivered(),
        }
    }

    /// The messages that were delivered, are set aside or wait, and whose bytes are still out, do
    /// not weigh more than the channel can hold.
    pub open spec fn within_budget(self) -> bool {
        &&& self.delivered().len() + self.arrived() <= self.stream().sizes.len()
        &&& self.stream().weight(self.delivered().len() + self.arrived()) <= self.released()
            + initial_permits(self.budget())
    }

    /// What was seen is what was sent first, and what was delivered of it has been paid back. The
    /// budget is that of a channel, and what waited goes on waiting.
    pub open spec fn wf(self) -> bool {
        &&& self.pending_is_last_taken()
        &&& self.stream().starts_with(self.seen())
        &&& self.released() == total_bytes(self.delivered())
        &&& self.within_budget()
        &&& initial_permits(self.budget()) <= MAX_SIZE_BYTES
        &&& self.arrived() <= self.ready()
    }

    /// Both states belong to the same channel, and neither closed it in between.
    pub open spec fn same_channel(self, other: Self) -> bool {
        &&& self.budget() == other.budget()
        &&& self.stream() == other.stream()
        &&& self.closed() == other.closed()
        &&& self.budget_closed() == other.budget_closed()
    }

    /// Between the two states, the queue was asked once for a message and gave `answer` instead.
    pub open spec fn missed(self, before: Self, answer: Answer) -> bool {
        &&& self.same_channel(before)
        &&& self.delivered() == before.delivered()
        &&& self.pending() == before.pending()
        &&& before.ready() <= self.arrived() <= self.ready()
        &&& self.log() == before.log().push(answer)
        &&& self.released() == before.released()
    }

    /// Nothing of the stream is left: no message waits, and none can come any more.
    pub open spec fn exhausted(self) -> bool {
        &&& self.delivered().len() == self.stream().sizes.len()
        &&& self.pending() is None
    }

    /// Nothing more can be sent: what is left of the stream can be delivered without waiting by the
    /// time this side next acts.
    pub open spec fn complete(self) -> bool {
        self.delivered().len() + self.ready() == self.stream().sizes.len()
    }

    /// The messages that were delivered between the two states.
    pub open spec fn delivered_since(self, before: Self) -> Seq<Entry<T>> {
        self.delivered().skip(before.delivered().len() as int)
    }

    /// Between the two states, `batch` was received within the limits, and the buffer grew from
    /// `filled` to `buf`.
    ///
    /// The batch holds the next messages of the stream, in order. It ends when it is full, when
    /// the next message does not fit, or when the queue was asked and had none. A message that
    /// does not fit is set aside for a later receive.
    pub open spec fn received_batch(
        self,
        before: Self,
        filled: Seq<T>,
        buf: Seq<T>,
        batch: RecvBatch,
        max_count: usize,
        max_bytes: usize,
    ) -> bool {
        let fresh = self.delivered_since(before);
        &&& self.same_channel(before)
        &&& self.delivered() == before.delivered() + fresh
        &&& batch.count == fresh.len()
        &&& batch.bytes == total_bytes(fresh)
        &&& buf == filled + payloads(fresh)
        &&& batch.count <= max_count
        &&& batch.bytes <= max_bytes
        // No batch weighs more than the channel can hold.
        &&& batch.bytes <= initial_permits(self.budget())
        // What waits goes on waiting until it is delivered.
        &&& before.ready() <= self.arrived() + batch.count
        &&& self.arrived() <= self.ready()
        // An element that was set aside comes first.
        &&& before.pending() matches Some(entry) ==> {
            ||| batch.count > 0 && fresh[0] == entry
            ||| batch.count == 0 && self.pending() == before.pending()
        }
        &&& if batch.count == max_count {
            // The batch is full.
            &&& batch.next_entry_bytes is None
            &&& self.pending() == if max_count == 0 { before.pending() } else { None }
        } else if batch.next_entry_bytes is Some {
            // The next element does not fit.
            &&& self.pending() matches Some(entry)
            &&& batch.next_entry_bytes == Some(entry.0 as usize)
            &&& batch.bytes + entry.0 > max_bytes
            &&& batch.bytes + entry.0 <= initial_permits(self.budget())
        } else {
            // There was no next element: everything that waited has been delivered.
            &&& self.pending() is None
            &&& batch.count >= before.ready()
        }
    }

    /// `batch` was received after the queue had answered what is in `log`: it ended because the
    /// queue had no next message to give, or without asking for one.
    pub open spec fn ended_after(
        self,
        log: Seq<Answer>,
        batch: RecvBatch,
        max_count: usize,
    ) -> bool {
        if batch.count == max_count || batch.next_entry_bytes is Some {
            self.log() == log
        } else {
            ||| self.log() == log.push(Answer::Empty)
            ||| self.log() == log.push(Answer::Over)
        }
    }

    /// Receives from `receiver` in batches.
    pub fn new(receiver: Receiver<T>) -> (batches: Self)
        requires
            receiver.wf(),
        ensures
            batches.wf(),
            batches.budget() == receiver.budget(),
            batches.stream() == receiver.stream(),
            batches.delivered() == receiver.taken(),
            batches.pending() is None,
            batches.arrived() == receiver.arrived(),
            batches.ready() == receiver.ready(),
            batches.log() == receiver.log(),
            batches.released() == receiver.released(),
            batches.closed() == receiver.closed(),
            batches.budget_closed() == receiver.budget_closed(),
    {
        BatchReceiver { receiver, pending: None }
    }

    /// Takes the next message: the one that was set aside, or else what the queue has to give.
    fn next_entry(&mut self) -> (next: Option<Entry<T>>)
        requires
            old(self).pending_is_last_taken(),
            old(self).stream().starts_with(old(self).seen()),
            old(self).within_budget(),
        ensures
            final(self).same_channel(*old(self)),
            final(self).pending_is_last_taken(),
            final(self).stream().starts_with(final(self).seen()),
            final(self).within_budget(),
            final(self).pending() is None,
            final(self).released() == old(self).released(),
            match next {
                Some(entry) => {
                    &&& final(self).delivered() == old(self).delivered().push(entry)
                    &&& final(self).ready() + 1 >= old(self).ready()
                    &&& final(self).log() == old(self).log()
                    &&& old(self).pending() matches Some(pending) ==> pending == entry
                },
                None => {
                    &&& final(self).delivered() == old(self).delivered()
                    &&& {
                        ||| final(self).log() == old(self).log().push(Answer::Empty)
                        ||| final(self).log() == old(self).log().push(Answer::Over)
                    }
                    &&& old(self).ready() == 0
                    &&& old(self).pending() is None
                },
            },
    {
        match self.pending.take() {
            Some(entry) => {
                assert(self.delivered() =~= old(self).delivered().push(entry));
                Some(entry)
            },
            None => match self.receiver.rx.try_recv() {
                Ok(entry) => Some(entry),
                Err(_) => None,
            },
        }
    }

    /// Sets aside the message that was just taken.
    fn set_aside(&mut self, entry: Entry<T>)
        requires
            old(self).pending() is None,
            old(self).delivered().len() > 0,
            old(self).delivered().last() == entry,
            old(self).stream().starts_with(old(self).seen()),
            old(self).within_budget(),
        ensures
            final(self).same_channel(*old(self)),
            final(self).pending_is_last_taken(),
            final(self).stream().starts_with(final(self).seen()),
            final(self).within_budget(),
            final(self).pending() == Some(entry),
            final(self).delivered() == old(self).delivered().drop_last(),
            final(self).ready() == old(self).ready() + 1,
            final(self).released() == old(self).released(),
            final(self).log() == old(self).log(),
    {
        self.pending = Some(entry);
        assert(self.seen() =~= old(self).delivered());
    }

    /// What was seen, and whose bytes are still out, does not weigh more than the channel can hold.
    proof fn lemma_seen_within_budget(self)
        requires
            self.stream().starts_with(self.seen()),
            self.within_budget(),
        ensures
            total_bytes(self.seen()) <= self.released() + initial_permits(self.budget()),
    {
        self.stream().lemma_weight(self.seen());
        self.stream().lemma_weight_grows(
            self.seen().len(),
            self.delivered().len() + self.arrived(),
        );
    }

    /// Moves messages into `buf` for as long as they are there and fit the limits, and gives all
    /// their bytes back in one go.
    fn recv_many_internal(
        &mut self,
        buf: &mut Vec<T>,
        max_count: usize,
        max_bytes: usize,
    ) -> (batch: RecvBatch)
        requires
            old(self).wf(),
        ensures
            final(self).wf(),
            final(self).received_batch(
                *old(self),
                old(buf)@,
                final(buf)@,
                batch,
                max_count,
                max_bytes,
            ),
            final(self).ended_after(old(self).log(), batch, max_count),
    {
        let mut batch = RecvBatch::default();
        let ghost before = *self;
        let ghost mut fresh: Seq<Entry<T>> = Seq::empty();
        proof {
            assert(before.delivered() + fresh =~= before.delivered());
            assert(old(buf)@ + payloads(fresh) =~= old(buf)@);
        }
        while batch.count < max_count
            invariant_except_break
                batch.next_entry_bytes is None,
                self.log() == before.log(),
                self.pending() == if batch.count == 0 { before.pending() } else { None },
            invariant
                before == *old(self),
                self.same_channel(before),
                self.pending_is_last_taken(),
                self.stream().starts_with(self.seen()),
                self.within_budget(),
                self.delivered() == before.delivered() + fresh,
                self.released() == total_bytes(before.delivered()),
                buf@ == old(buf)@ + payloads(fresh),
                batch.count == fresh.len(),
                batch.bytes == total_bytes(fresh),
                batch.count <= max_count,
                batch.bytes <= max_bytes,
                self.ready() + batch.count >= before.ready(),
                batch.count > 0 ==> (before.pending() matches Some(entry) ==> fresh[0] == entry),
            ensures
                self.ended_after(before.log(), batch, max_count),
                before.pending() is Some && batch.count == 0 ==> self.pending()
                    == before.pending(),
                if batch.count == max_count {
                    &&& batch.next_entry_bytes is None
                    &&& self.pending() == if max_count == 0 { before.pending() } else { None }
                } else if batch.next_entry_bytes is Some {
                    &&& self.pending() matches Some(entry)
                    &&& batch.next_entry_bytes == Some(entry.0 as usize)
                    &&& batch.bytes + entry.0 > max_bytes
                } else {
                    &&& self.pending() is None
                    &&& batch.count >= before.ready()
                },
            decreases max_count - batch.count,
        {
            let entry = match self.next_entry() {
                Some(entry) => entry,
                None => {
                    break;
                },
            };
            let size = entry.0 as usize;
            if size > max_bytes.saturating_sub(batch.bytes) {
                self.set_aside(entry);
                batch.next_entry_bytes = Some(size);
                assert(self.delivered() =~= before.delivered() + fresh);
                break;
            }
            proof {
                lemma_total_push(fresh, entry);
                assert(payloads(fresh.push(entry)) =~= payloads(fresh).push(entry.1));
                assert((before.delivered() + fresh).push(entry) =~= before.delivered()
                    + fresh.push(entry));
                fresh = fresh.push(entry);
            }
            buf.push(entry.1);
            batch.bytes += size;
            batch.count += 1;
        }
        proof {
            crate::accounting::lemma_total_concat(before.delivered(), fresh);
            assert(self.delivered_since(before) =~= fresh);
            self.lemma_seen_within_budget();
            if let Some(entry) = self.pending() {
                let taken = self.receiver.taken();
                assert(taken.drop_last() == self.delivered());
                lemma_total_push(self.delivered(), entry);
            }
        }
        // Batch return the permit returns here
        self.receiver.rx.release(batch.bytes);
        batch
    }

    /// How many messages a batch may hold, when `buffered` are buffered in the channel. Without any
    /// limit, that is what is buffered: messages that enter the channel later wait for the next
    /// batch.
    pub fn batch_limit(byte_limit: usize, max_count: usize, buffered: usize) -> (limit: usize)
        ensures
            limit == if byte_limit == usize::MAX && max_count == usize::MAX {
                buffered
            } else {
                max_count
            },
    {
        if byte_limit == usize::MAX && max_count == usize::MAX {
            buffered
        } else {
            max_count
        }
    }

    /// After it had answered what is in `log`, the queue was asked once how many messages wait. At
    /// that time `seen` messages had been taken, and up to the last one that waited there were
    /// `all`.
    pub open spec fn counted(self, log: Seq<Answer>, seen: nat, all: int) -> bool {
        &&& seen <= all
        &&& self.log() == log.push(
            Answer::Count { taken: seen, waiting: (all - seen) as nat },
        )
    }

    /// Counts the messages that are buffered in the channel, for a batch that is to follow.
    fn count(&mut self) -> (buffered: usize)
        requires
            old(self).wf(),
        ensures
            final(self).wf(),
            final(self).same_channel(*old(self)),
            final(self).delivered() == old(self).delivered(),
            final(self).pending() == old(self).pending(),
            final(self).counted(
                old(self).log(),
                old(self).seen().len(),
                old(self).delivered().len() + buffered,
            ),
            old(self).ready() <= buffered <= final(self).arrived(),
    {
        let waiting = self.receiver.rx.count();
        self.len_given(waiting)
    }

    /// Settles how many messages the next batch may hold, and makes room for them in `buf` where
    /// their number is the only limit.
    fn prepare(&mut self, buf: &mut Vec<T>, byte_limit: usize, max_count: usize) -> (limit: usize)
        requires
            old(self).wf(),
        ensures
            final(self).wf(),
            final(self).same_channel(*old(self)),
            final(self).delivered() == old(self).delivered(),
            final(self).pending() == old(self).pending(),
            final(self).ready() >= old(self).ready(),
            old(self).looked(final(self).log(), byte_limit, old(self).seen().len()),
            if byte_limit == usize::MAX && max_count == usize::MAX {
                &&& final(self).counted(
                    old(self).log(),
                    old(self).seen().len(),
                    old(self).delivered().len() + limit,
                )
                &&& old(self).ready() <= limit <= final(self).ready()
            } else {
                limit == max_count
            },
            final(buf)@ == old(buf)@,
    {
        if byte_limit == usize::MAX {
            let buffered = self.count();
            let limit = Self::batch_limit(byte_limit, max_count, buffered);
            // If we have a max count set, and no byte limit, it's fair to
            // just reserve the vector capacity beforehand.
            buf.reserve(if limit < buffered { limit } else { buffered });
            limit
        } else {
            max_count
        }
    }

    /// A batch within the limits was received between the two states.
    ///
    /// Without any limit, the queue was asked once how many messages wait, when `seen` messages had
    /// been taken, and the batch holds exactly those that had been buffered by then: all that
    /// waited from the start are among them, and none that entered the channel later.
    pub open spec fn received_some_batch(
        self,
        before: Self,
        filled: Seq<T>,
        buf: Seq<T>,
        batch: RecvBatch,
        byte_limit: usize,
        max_count: usize,
        seen: nat,
    ) -> bool {
        if byte_limit == usize::MAX && max_count == usize::MAX {
            &&& self.received_batch(before, filled, buf, batch, batch.count, byte_limit)
            &&& self.counted(before.log(), seen, before.delivered().len() + batch.count)
            &&& batch.count >= before.ready()
        } else {
            &&& self.received_batch(before, filled, buf, batch, max_count, byte_limit)
            &&& exists|log: Seq<Answer>|
                {
                    &&& self.ended_after(log, batch, max_count)
                    &&& #[trigger] before.looked(log, byte_limit, seen)
                }
        }
    }

    /// `log` is what the queue has answered once room has been made for a batch: without a byte
    /// limit, it was asked once how many messages wait, when `seen` messages had been taken.
    pub open spec fn looked(self, log: Seq<Answer>, byte_limit: usize, seen: nat) -> bool {
        if byte_limit == usize::MAX {
            exists|waiting: nat|
                log == #[trigger] self.log().push(Answer::Count { taken: seen, waiting })
        } else {
            log == self.log()
        }
    }

    /// Same as [`BatchReceiver::try_recv_many_with_buf`] but waits until at least one element is
    /// available.
    ///
    /// The batch is empty, with no element that did not fit, only if `max_count` is zero or if
    /// the channel is closed and everything sent on it has been received. `Pending` says that the
    /// task in `cx` is woken when there is something to receive.
    pub fn poll_recv_many_with_buf(
        &mut self,
        cx: &mut Context<'_>,
        buf: &mut Vec<T>,
        byte_limit: usize,
        max_count: usize,
    ) -> (polled: Poll<RecvBatch>)
        requires
            old(self).wf(),
        ensures
            final(self).wf(),
            match polled {
                Poll::Pending => {
                    &&& max_count > 0
                    &&& old(self).pending() is None
                    &&& final(self).missed(*old(self), Answer::Wake)
                    &&& final(buf)@ == old(buf)@
                },
                Poll::Ready(batch) if batch == RecvBatch::empty() => {
                    &&& if max_count == 0 {
                        *final(self) == *old(self)
                    } else {
                        final(self).missed(*old(self), Answer::Over) && old(self).exhausted()
                    }
                    &&& final(buf)@ == old(buf)@
                },
                Poll::Ready(batch) => {
                    &&& max_count > 0
                    &&& batch.count > 0 || batch.next_entry_bytes is Some
                    &&& final(self).received_some_batch(
                        *old(self),
                        old(buf)@,
                        final(buf)@,
                        batch,
                        byte_limit,
                        max_count,
                        old(self).delivered().len() + 1,
                    )
                },
            },
    {
        if max_count == 0 {
            return Poll::Ready(RecvBatch::default());
        }
        if self.pending.is_none() {
            match self.receiver.rx.poll_recv(cx) {
                Poll::Ready(Some(entry)) => {
                    self.pending = Some(entry);
                    assert(self.delivered() =~= old(self).delivered());
                    assert(self.seen() =~= self.receiver.taken());
                },
                Poll::Ready(None) => {
                    return Poll::Ready(RecvBatch::default());
                },
                Poll::Pending => {
                    return Poll::Pending;
                },
            }
        }
        assert(self.log() == old(self).log());
        assert(self.seen().len() == old(self).delivered().len() + 1);
        let limit = self.prepare(buf, byte_limit, max_count);
        assert(old(self).looked(self.log(), byte_limit, old(self).delivered().len() + 1));
        Poll::Ready(self.recv_many_internal(buf, limit, byte_limit))
    }

    /// Attempts to receive as much elements into buffer for as long as:
    /// - The channel has elements to receive. It stops if receiving from the channel would block
    ///   (or if the channel is closed).
    /// - Adding the next element would exceed `byte_limit`.
    /// - The number of received elements reaches `max_count`.
    /// - If both limits are [`usize::MAX`], this will drain all the elements that are available in
    ///   the channel at the moment of the call. Newly enqueued elements after the draining has
    ///   started will not be included in the batch. This is a safety mechanism to avoid blowing up
    ///   the memory usage if there's an active sender.
    ///
    /// If the next element does not fit within `byte_limit`, its size is returned in
    /// [`RecvBatch::next_entry_bytes`] and the element remains available for a later receive.
    ///
    /// Note: This is more efficient than calling `try_recv` repeatedly as it releases all the
    /// permits in one go.
    pub fn try_recv_many_with_buf(
        &mut self,
        buf: &mut Vec<T>,
        byte_limit: usize,
        max_count: usize,
    ) -> (batch: RecvBatch)
        requires
            old(self).wf(),
        ensures
            final(self).wf(),
            max_count == 0 ==> {
                &&& batch == RecvBatch::empty()
                &&& *final(self) == *old(self)
                &&& final(buf)@ == old(buf)@
            },
            max_count > 0 ==> final(self).received_some_batch(
                *old(self),
                old(buf)@,
                final(buf)@,
                batch,
                byte_limit,
                max_count,
                old(self).seen().len(),
            ),
    {
        if max_count == 0 {
            return RecvBatch::default();
        }
        let limit = self.prepare(buf, byte_limit, max_count);
        self.recv_many_internal(buf, limit, byte_limit)
    }

    /// Closes the channel: nothing can be sent any more, and whoever waits for capacity is told.
    /// What is in the channel can still be received.
    pub fn close(&mut self)
        requires
            old(self).wf(),
        ensures
            final(self).wf(),
            final(self).closed(),
            final(self).stream().closes,
            final(self).budget_closed(),
            final(self).budget() == old(self).budget(),
            final(self).stream() == old(self).stream(),
            final(self).delivered() == old(self).delivered(),
            final(self).pending() == old(self).pending(),
            old(self).ready() <= final(self).arrived() <= final(self).ready(),
            final(self).log() == old(self).log(),
            final(self).released() == old(self).released(),
    {
        self.receiver.close();
    }

    /// Whether the channel has been closed or all its senders are gone.
    pub fn is_closed(&self) -> (closed: bool)
        ensures
            self.closed() ==> closed,
            self.wf() && closed ==> self.closed() || self.complete(),
    {
        self.receiver.is_closed()
    }

    /// The number of messages currently buffered in the channel.
    pub fn len(&self) -> (buffered: usize)
        requires
            self.wf(),
        ensures
            self.arrived() <= buffered <= self.ready(),
            self.delivered().len() + buffered <= self.stream().sizes.len(),
            self.pending() is Some ==> buffered > 0,
    {
        self.len_given(self.receiver.len())
    }

    /// [`BatchReceiver::len`] when `waiting` messages wait in the queue.
    pub fn len_given(&self, waiting: usize) -> (buffered: usize)
        requires
            waiting < usize::MAX,
        ensures
            buffered == if self.pending() is Some { waiting + 1 } else { waiting as int },
    {
        if self.pending.is_some() {
            waiting + 1
        } else {
            waiting
        }
    }

    /// Whether no message is currently buffered in the channel.
    pub fn is_empty(&self) -> (empty: bool)
        requires
            self.wf(),
        ensures
            empty ==> self.arrived() == 0,
            !empty ==> self.ready() > 0 && !self.exhausted(),
            self.pending() is Some ==> !empty,
    {
        self.is_empty_given(self.receiver.is_empty())
    }

    /// [`BatchReceiver::is_empty`] when the queue is or is not empty.
    pub fn is_empty_given(&self, queue_empty: bool) -> (empty: bool)
        ensures
            empty == (self.pending() is None && queue_empty),
    {
        self.pending.is_none() && queue_empty
    }
}

/// Creates a channel with the given size in bytes.
pub fn channel<T: EstimatedSize>(size: usize) -> (ends: (Sender<T>, Receiver<T>))
    requires
        size <= MAX_SIZE_BYTES,
    ensures
        ends.0.wf(),
        ends.0.max_capacity() == size,
        ends.1.wf(),
        ends.1.taken() == Seq::<Entry<T>>::empty(),
        ends.1.arrived() == 0,
        ends.1.log() == Seq::<Answer>::empty(),
        !ends.1.closed(),
        !ends.1.budget_closed(),
        ends.0.budget() == ends.1.budget(),
        ends.0.stream() == ends.1.stream(),
    opens_invariants none
{
    let (tx, rx) = crate::queue::open(Semaphore::new(size));
    proof {
        rx.stream().lemma_weight(rx.taken());
    }
    (Sender { max_capacity: size, tx }, Receiver { rx })
}

} // verus!
