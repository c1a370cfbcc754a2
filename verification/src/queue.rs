//! The message queue: the two ends of `tokio`'s unbounded channel, each with the budget that
//! messages are paid from.
//!
//! Messages enter a queue from many places at once, so neither end can say what the queue holds
//! right now. What both ends can speak of is the queue's [`Stream`]: what enters it over its
//! lifetime, in the order in which it enters. The stream is fixed in hindsight only. It is
//! therefore made of what a running program can tell, the sizes of the messages and whether the
//! queue is closed, and of a relation that says which message may stand at which place. A function
//! in its place could contradict itself, since a message may carry ghost state that was made up by
//! looking at the stream.

use futures::future::{FutureExt, OptionFuture};
use std::future::Future;
use std::sync::Arc;
use std::task::{Context, Poll};
use tokio::sync::mpsc::error::{SendError as Refused, TryRecvError};
use tokio::sync::mpsc::{UnboundedReceiver, UnboundedSender};
use tokio::sync::{AcquireError, Semaphore, SemaphorePermit, TryAcquireError};
use vstd::future::FutureAdditionalSpecFns;
use vstd::prelude::*;

use crate::accounting::{
    lemma_sum_of_sizes_grows, lemma_total_is_sum_of_sizes, total_bytes, total_sizes, Entry,
};
use crate::semaphore::{asking, initial_permits, is_grant, paying, Payment, Request, MAX_PERMITS};

verus! {

/// `tokio::sync::mpsc::UnboundedSender`.
#[verifier::external_type_specification]
#[verifier::external_body]
#[verifier::reject_recursive_types(T)]
pub struct ExUnboundedSender<T>(UnboundedSender<T>);

/// `tokio::sync::mpsc::UnboundedReceiver`.
#[verifier::external_type_specification]
#[verifier::external_body]
#[verifier::reject_recursive_types(T)]
pub struct ExUnboundedReceiver<T>(UnboundedReceiver<T>);

/// `tokio::sync::mpsc::error::SendError`, with the message that it hands back.
#[verifier::external_type_specification]
#[verifier::reject_recursive_types(T)]
pub struct ExRefused<T>(Refused<T>);

/// `tokio::sync::mpsc::error::TryRecvError`, with both of its variants.
#[verifier::external_type_specification]
pub struct ExTryRecvError(TryRecvError);

/// `std::task::Context`: the task to wake when a poll can make progress.
#[verifier::external_type_specification]
#[verifier::external_body]
pub struct ExContext<'a>(Context<'a>);

/// `std::task::Poll`, with both of its variants.
#[verifier::external_type_specification]
#[verifier::reject_recursive_types(T)]
pub struct ExPoll<T>(Poll<T>);

/// What enters a queue over its lifetime, in order.
#[verifier::reject_recursive_types(T)]
pub struct Stream<T> {
    /// The sizes of the messages.
    pub sizes: Seq<u32>,
    /// Which message may stand at which place.
    pub holds: spec_fn(int, Entry<T>) -> bool,
    /// Whether the receiving end is closed or dropped at some time.
    pub closes: bool,
}

impl<T> Stream<T> {
    /// `entry` enters the queue at place `i`.
    pub open spec fn carries(self, i: int, entry: Entry<T>) -> bool {
        &&& 0 <= i < self.sizes.len()
        &&& self.sizes[i] == entry.0
        &&& (self.holds)(i, entry)
    }

    /// `entry` enters the queue.
    pub open spec fn passes(self, entry: Entry<T>) -> bool {
        exists|i: int| #[trigger] self.carries(i, entry)
    }

    /// `entries` is what enters the queue first.
    pub open spec fn starts_with(self, entries: Seq<Entry<T>>) -> bool {
        &&& entries.len() <= self.sizes.len()
        &&& forall|i: int| 0 <= i < entries.len() ==> self.carries(i, #[trigger] entries[i])
    }

    /// What the first `n` messages weigh.
    #[verifier::opaque]
    pub open spec fn weight(self, n: nat) -> nat {
        total_sizes(self.sizes.take(n as int))
    }

    /// What enters the queue first weighs what its messages weigh.
    pub proof fn lemma_weight(self, entries: Seq<Entry<T>>)
        requires
            self.starts_with(entries),
        ensures
            self.weight(entries.len()) == total_bytes(entries),
    {
        reveal(Stream::weight);
        let sizes = self.sizes.take(entries.len() as int);
        assert forall|i: int| 0 <= i < entries.len() implies sizes[i] == (
        #[trigger] entries[i]).0 by {
            assert(self.carries(i, entries[i]));
        }
        lemma_total_is_sum_of_sizes(entries, sizes);
    }

    /// More messages weigh at least as much as fewer.
    pub proof fn lemma_weight_grows(self, few: nat, many: nat)
        requires
            few <= many <= self.sizes.len(),
        ensures
            self.weight(few) <= self.weight(many),
    {
        reveal(Stream::weight);
        lemma_sum_of_sizes_grows(self.sizes, few as int, many as int);
    }
}

/// What a queue answers when it does not hand out a message.
pub enum Answer {
    /// No message waited. It was left open whether more comes.
    Empty,
    /// No message was handed out. The task that asked is woken when there may be one.
    Wake,
    /// Nothing can follow any more.
    Over,
    /// So many messages waited when so many had been taken.
    Count { taken: nat, waiting: nat },
}

/// The sending end of a queue.
#[verifier::reject_recursive_types(T)]
pub struct Outbox<T> {
    semaphore: Arc<Semaphore>,
    tx: UnboundedSender<Entry<T>>,
    stream: Ghost<Stream<T>>,
    levels: Ghost<Seq<nat>>,
    waits: Ghost<Set<u32>>,
}

/// The place at which a message entered a queue.
///
/// Only [`Outbox::push`] moves one on. Whoever has one knows that the message at its place has been
/// sent.
#[verifier::reject_recursive_types(T)]
pub struct Place<T> {
    at: Ghost<int>,
    stream: Ghost<Stream<T>>,
}

impl<T> Place<T> {
    /// The number of messages before it, or -1 before the first message.
    pub closed spec fn at(self) -> int {
        self.at@
    }

    /// What enters the queue over its lifetime.
    pub closed spec fn stream(self) -> Stream<T> {
        self.stream@
    }
}

/// The receiving end of a queue.
#[verifier::reject_recursive_types(T)]
pub struct Inbox<T> {
    semaphore: Arc<Semaphore>,
    rx: UnboundedReceiver<Entry<T>>,
    stream: Ghost<Stream<T>>,
    taken: Ghost<Seq<Entry<T>>>,
    arrived: Ghost<nat>,
    ready: Ghost<nat>,
    released: Ghost<nat>,
    log: Ghost<Seq<Answer>>,
    closed: Ghost<bool>,
    budget_closed: Ghost<bool>,
}

/// What is to be done once bytes of a budget have been awaited.
///
/// It may pay with them, but it takes nothing further out of a budget.
pub trait Errand<'a>: Sized {
    /// What comes of it.
    type Outcome;

    /// The errand can be run with `acquired`.
    spec fn expects(self, acquired: Option<Result<SemaphorePermit<'a>, AcquireError>>) -> bool;

    /// Run with `acquired`, the errand may end with `outcome`.
    spec fn allows(
        self,
        acquired: Option<Result<SemaphorePermit<'a>, AcquireError>>,
        outcome: Self::Outcome,
    ) -> bool;

    /// Runs the errand.
    fn run(self, acquired: Option<Result<SemaphorePermit<'a>, AcquireError>>) -> (outcome:
        Self::Outcome)
        requires
            self.expects(acquired),
        ensures
            self.allows(acquired, outcome),
        opens_invariants [paying()]
    ;
}

impl<T> Outbox<T> {
    /// The budget that messages are paid from.
    pub closed spec fn budget(self) -> Semaphore {
        *self.semaphore
    }

    /// What enters the queue over its lifetime.
    pub closed spec fn stream(self) -> Stream<T> {
        self.stream@
    }

    /// How many bytes are left in the budget, moment by moment over its lifetime, from what it
    /// started with on. This, too, is fixed in hindsight only.
    pub closed spec fn levels(self) -> Seq<nat> {
        self.levels@
    }

    /// At some moment, so many bytes are left in the budget.
    pub open spec fn is_level(self, bytes: nat) -> bool {
        exists|k: int| 0 <= k < self.levels().len() && #[trigger] self.levels()[k] == bytes
    }

    /// At some moment, fewer than `n` bytes are left in the budget.
    pub open spec fn falls_short_of(self, n: nat) -> bool {
        exists|k: int| 0 <= k < self.levels().len() && #[trigger] self.levels()[k] < n
    }

    /// At some moment, `n` bytes leave the budget, of at least as many that are left in it.
    pub open spec fn gives_out(self, n: nat) -> bool {
        exists|k: int|
            {
                &&& 0 <= k < self.levels().len() - 1
                &&& n <= #[trigger] self.levels()[k]
                &&& self.levels()[k + 1] == self.levels()[k] - n
            }
    }

    /// What the budget has available over its lifetime.
    pub open spec fn readings(self) -> Set<usize> {
        Set::new(|bytes: usize| self.is_level(bytes as nat))
    }

    /// How many bytes of the budget are awaited over its lifetime, each time that a sending end of
    /// the queue waits for some until it has them or is refused. This, too, is fixed in hindsight
    /// only.
    pub closed spec fn waits(self) -> Set<u32> {
        self.waits@
    }

    /// The place before the first message.
    pub(crate) fn start(&self) -> (place: Place<T>)
        ensures
            place.at() == -1,
            place.stream() == self.stream(),
        opens_invariants none
    {
        Place { at: Ghost(-1), stream: Ghost(self.stream@) }
    }

    /// What awaiting `wanted` bytes of the budget may end with: nothing if nothing was wanted, and
    /// otherwise the permits, or an error because the receiving end was closed.
    pub open spec fn may_acquire(
        self,
        wanted: Option<u32>,
        acquired: Option<Result<SemaphorePermit<'_>, AcquireError>>,
    ) -> bool {
        match acquired {
            None => wanted is None,
            Some(Ok(permit)) => wanted matches Some(n) && is_grant(self.budget(), n as nat, permit),
            Some(Err(_)) => wanted is Some && self.stream().closes,
        }
    }

    /// What a future that awaits `wanted` bytes of the budget and runs `errand` with them may
    /// complete with.
    pub open spec fn may_complete<'a, K: Errand<'a>>(
        self,
        wanted: Option<u32>,
        errand: K,
        outcome: K::Outcome,
    ) -> bool {
        exists|acquired: Option<Result<SemaphorePermit<'a>, AcquireError>>| #[trigger]
            self.may_acquire(wanted, acquired) && errand.allows(acquired, outcome)
    }

    /// `Semaphore::acquire_many`, followed by `errand`: a future that waits for the `wanted`
    /// permits, if any are wanted, and, if it is awaited, completes with what the errand makes of
    /// them. It waits for so many permits, no more and no fewer. `acquire_many` panics above
    /// `MAX_PERMITS`. It fails only on a closed semaphore, and only the receiving end closes this
    /// one, once it has closed the queue. Nothing happens before the future is awaited.
    ///
    /// Around it stand two combinators of `futures`: an `OptionFuture` of nothing completes at once
    /// with nothing, and `FutureExt::map` applies a function to what a future completes with.
    #[verifier::external_body]
    pub(crate) fn acquire_then<'a, K>(&'a self, wanted: Option<u32>, errand: K) -> (done:
        impl Future<Output = K::Outcome> + 'a) where
        K: Errand<'a> + 'a,
        K::Outcome: 'a,

        requires
            wanted matches Some(n) ==> n <= MAX_PERMITS,
            forall|acquired: Option<Result<SemaphorePermit<'a>, AcquireError>>| #[trigger]
                self.may_acquire(wanted, acquired) ==> errand.expects(acquired),
        ensures
            done.awaited() ==> self.may_complete(wanted, errand, done@),
            done.awaited() ==> (wanted matches Some(n) ==> self.waits().contains(n)),
        opens_invariants none
    {
        OptionFuture::from(wanted.map(|n| self.semaphore.acquire_many(n)))
            .map(|acquired| errand.run(acquired))
    }

    /// `Semaphore::try_acquire_many`: takes as many permits as `request` is for at once, or none.
    /// Whether they are to be had depends on the other users of the budget: they are if so many are
    /// left at that moment, and else there are too few. It panics above `MAX_PERMITS`. It reports a
    /// closed semaphore, and only the receiving end closes this one, once it has closed the queue.
    #[verifier::external_body]
    pub(crate) fn try_acquire<N>(&self, request: Request<N>) -> (acquired: Result<
        SemaphorePermit<'_>,
        TryAcquireError,
    >)
        requires
            request.amount() <= initial_permits(self.budget()),
            request.amount() <= MAX_PERMITS,
        ensures
            match acquired {
                Ok(permit) => {
                    &&& is_grant(self.budget(), request.amount() as nat, permit)
                    &&& self.gives_out(request.amount() as nat)
                },
                Err(TryAcquireError::NoPermits) => self.falls_short_of(request.amount() as nat),
                Err(TryAcquireError::Closed) => self.stream().closes,
            },
        opens_invariants [asking::<N>()]
    {
        self.semaphore.try_acquire_many(request.size())
    }

    /// `Semaphore::available_permits`: how many bytes are available at the moment of the call. How
    /// many these are depends on everyone who uses the budget.
    ///
    /// They are never more than the budget started with: a permit only ever gives back what it
    /// holds, and [`Inbox::release`] only what messages have been paid with.
    #[verifier::external_body]
    pub(crate) fn available(&self) -> (bytes: usize)
        ensures
            self.readings().contains(bytes),
            bytes <= initial_permits(self.budget()),
            bytes <= MAX_PERMITS,
        opens_invariants none
    {
        self.semaphore.available_permits()
    }

    /// `UnboundedSender::send`: the message enters the queue, or comes back because the receiving
    /// end was closed. Which of the two depends on the receiving end. A message that enters comes
    /// behind all those that entered before, so behind the one at `place`, which moves on to it.
    ///
    /// The message has to be paid for: the receiving end will add its size back to the budget.
    #[verifier::external_body]
    pub(crate) fn push(&self, entry: Entry<T>, payment: Payment, place: &mut Place<T>) -> (pushed:
        Result<(), Refused<Entry<T>>>)
        requires
            payment.bytes() == entry.0,
            payment.budget() == self.budget(),
            old(place).stream() == self.stream(),
        ensures
            final(place).stream() == old(place).stream(),
            match pushed {
                Ok(()) => {
                    &&& old(place).at() < final(place).at()
                    &&& self.stream().carries(final(place).at(), entry)
                },
                Err(refused) => {
                    &&& final(place).at() == old(place).at()
                    &&& refused.0 == entry
                    &&& self.stream().closes
                },
            },
        opens_invariants none
    {
        self.tx.send(entry)
    }

    /// `UnboundedSender::clone`: another sending end of the same queue, with the same budget.
    #[verifier::external_body]
    pub(crate) fn duplicate(&self) -> (other: Outbox<T>)
        ensures
            other.budget() == self.budget(),
            other.stream() == self.stream(),
            other.levels() == self.levels(),
            other.waits() == self.waits(),
        opens_invariants none
    {
        Outbox {
            semaphore: Arc::clone(&self.semaphore),
            tx: self.tx.clone(),
            stream: Ghost(self.stream@),
            levels: Ghost(self.levels@),
            waits: Ghost(self.waits@),
        }
    }

    /// `UnboundedSender::closed`: completes when the receiving end has been closed or dropped. When
    /// that is, the contract does not say.
    #[verifier::external_body]
    pub(crate) fn closed<'a>(&'a self) -> (closed: impl Future<Output = ()> + 'a)
        ensures
            closed.awaited() ==> self.stream().closes,
        opens_invariants none
    {
        self.tx.closed()
    }
}

impl<T> Inbox<T> {
    /// The budget that messages were paid from.
    pub closed spec fn budget(self) -> Semaphore {
        *self.semaphore
    }

    /// What enters the queue over its lifetime.
    pub closed spec fn stream(self) -> Stream<T> {
        self.stream@
    }

    /// The messages that have been taken out of the queue, in order.
    pub closed spec fn taken(self) -> Seq<Entry<T>> {
        self.taken@
    }

    /// How many messages waited in the queue when this end was done with what it did last. They
    /// go on waiting until this end acts again.
    pub closed spec fn arrived(self) -> nat {
        self.arrived@
    }

    /// How many messages wait in the queue by the time this end next acts. This, too, is fixed in
    /// hindsight only.
    pub closed spec fn ready(self) -> nat {
        self.ready@
    }

    /// How many bytes have been given back to the budget.
    pub closed spec fn released(self) -> nat {
        self.released@
    }

    /// What the queue answered so far when it did not hand out a message, in order.
    pub closed spec fn log(self) -> Seq<Answer> {
        self.log@
    }

    /// Whether this end has closed the queue.
    pub closed spec fn closed(self) -> bool {
        self.closed@
    }

    /// Whether this end has closed the budget.
    pub closed spec fn budget_closed(self) -> bool {
        self.budget_closed@
    }

    /// Both states are of the same end of the same queue.
    pub open spec fn same_queue(self, other: Self) -> bool {
        &&& self.budget() == other.budget()
        &&& self.stream() == other.stream()
    }

    /// Both states agree on what is closed.
    pub open spec fn as_closed_as(self, other: Self) -> bool {
        &&& self.closed() == other.closed()
        &&& self.budget_closed() == other.budget_closed()
    }

    /// Nothing of the stream is left: no message waits, and none can come any more.
    pub open spec fn exhausted(self) -> bool {
        self.taken().len() == self.stream().sizes.len()
    }

    /// Nothing more enters the queue: what is left of the stream waits by the time this end next
    /// acts.
    pub open spec fn complete(self) -> bool {
        self.taken().len() + self.ready() == self.stream().sizes.len()
    }

    /// Every message is paid for until its bytes are given back: those that were taken or wait, and
    /// whose bytes are still out, do not weigh more than the budget started with.
    pub open spec fn within_budget(self) -> bool {
        &&& self.taken().len() + self.arrived() <= self.stream().sizes.len()
        &&& self.stream().weight(self.taken().len() + self.arrived()) <= self.released()
            + initial_permits(self.budget())
    }

    /// Between the two states, this end acted and took nothing. What waited goes on waiting.
    pub open spec fn took_nothing(self, before: Self) -> bool {
        &&& self.same_queue(before)
        &&& self.taken() == before.taken()
        &&& before.ready() <= self.arrived() <= self.ready()
        &&& self.within_budget()
    }

    /// Between the two states, the queue was asked once for a message and gave `answer` instead.
    pub open spec fn missed(self, before: Self, answer: Answer) -> bool {
        &&& self.took_nothing(before)
        &&& self.as_closed_as(before)
        &&& self.released() == before.released()
        &&& self.log() == before.log().push(answer)
    }

    /// Between the two states, `entry` was taken: the next message of the stream.
    pub open spec fn took(self, before: Self, entry: Entry<T>) -> bool {
        &&& self.same_queue(before)
        &&& self.as_closed_as(before)
        &&& before.stream().carries(before.taken().len() as int, entry)
        &&& self.taken() == before.taken().push(entry)
        &&& before.ready() <= self.arrived() + 1
        &&& self.arrived() <= self.ready()
        &&& self.within_budget()
        &&& self.released() == before.released()
        &&& self.log() == before.log()
    }

    /// `UnboundedReceiver::try_recv`: the next message of the stream, if it is there already: one
    /// that waits is always received. Without one, the channel is reported as empty, or as
    /// disconnected, but that only when nothing can follow any more.
    #[verifier::external_body]
    pub(crate) fn try_recv(&mut self) -> (received: Result<Entry<T>, TryRecvError>)
        ensures
            match received {
                Ok(entry) => final(self).took(*old(self), entry),
                Err(TryRecvError::Empty) => {
                    &&& final(self).missed(*old(self), Answer::Empty)
                    &&& old(self).ready() == 0
                },
                Err(TryRecvError::Disconnected) => {
                    &&& final(self).missed(*old(self), Answer::Over)
                    &&& old(self).ready() == 0
                    &&& old(self).exhausted()
                },
            },
    {
        self.rx.try_recv()
    }

    /// `UnboundedReceiver::poll_recv`: the next message of the stream once it is there, `None`
    /// when nothing can follow any more, and a registered wake-up otherwise.
    #[verifier::external_body]
    pub(crate) fn poll_recv(&mut self, cx: &mut Context<'_>) -> (received: Poll<Option<Entry<T>>>)
        ensures
            match received {
                Poll::Ready(Some(entry)) => final(self).took(*old(self), entry),
                Poll::Ready(None) => {
                    &&& final(self).missed(*old(self), Answer::Over)
                    &&& old(self).exhausted()
                },
                Poll::Pending => final(self).missed(*old(self), Answer::Wake),
            },
    {
        self.rx.poll_recv(cx)
    }

    /// `UnboundedReceiver::len`, asked by an end that acts on the answer: how many messages wait in
    /// the queue between the start and the end of the call. In between, more of them can only
    /// come. What [`Inbox::len`] states of the number holds here, too.
    #[verifier::external_body]
    pub(crate) fn count(&mut self) -> (waiting: usize)
        ensures
            old(self).ready() <= waiting <= final(self).arrived(),
            final(self).took_nothing(*old(self)),
            final(self).as_closed_as(*old(self)),
            final(self).released() == old(self).released(),
            final(self).log() == old(self).log().push(
                Answer::Count { taken: old(self).taken().len(), waiting: waiting as nat },
            ),
            final(self).taken().len() + waiting <= final(self).stream().sizes.len(),
            waiting <= usize::MAX / 2,
    {
        self.rx.len()
    }

    /// `Semaphore::add_permits`: gives `bytes` bytes back to the budget.
    ///
    /// The semaphore panics if that takes it over its limit. Every message is paid for from this
    /// budget before it enters the queue, so giving back no more than what the messages taken so
    /// far have cost cannot lift the budget above what it started with.
    #[verifier::external_body]
    pub(crate) fn release(&mut self, bytes: usize)
        requires
            old(self).released() + bytes <= total_bytes(old(self).taken()),
        ensures
            final(self).took_nothing(*old(self)),
            final(self).as_closed_as(*old(self)),
            final(self).released() == old(self).released() + bytes,
            final(self).log() == old(self).log(),
    {
        self.semaphore.add_permits(bytes);
    }

    /// `UnboundedReceiver::close`: no message enters the queue from now on; those that are in it
    /// can still be taken.
    #[verifier::external_body]
    fn close_queue(&mut self)
        ensures
            final(self).took_nothing(*old(self)),
            final(self).closed(),
            final(self).stream().closes,
            final(self).budget_closed() == old(self).budget_closed(),
            final(self).released() == old(self).released(),
            final(self).log() == old(self).log(),
        opens_invariants none
        no_unwind
    {
        self.rx.close();
    }

    /// `Semaphore::close`: no permit is issued from now on, and everyone who waits for one is told.
    /// The queue has to be closed before: that the budget is closed tells the senders that the
    /// queue is as well.
    #[verifier::external_body]
    fn close_budget(&mut self)
        requires
            old(self).closed(),
        ensures
            final(self).took_nothing(*old(self)),
            final(self).closed(),
            final(self).budget_closed(),
            final(self).released() == old(self).released(),
            final(self).log() == old(self).log(),
        opens_invariants none
        no_unwind
    {
        self.semaphore.close();
    }

    /// Closes the queue, and the budget with it.
    pub(crate) fn close(&mut self)
        ensures
            final(self).took_nothing(*old(self)),
            final(self).closed(),
            final(self).stream().closes,
            final(self).budget_closed(),
            final(self).released() == old(self).released(),
            final(self).log() == old(self).log(),
        opens_invariants none
        no_unwind
    {
        self.close_queue();
        self.close_budget();
    }

    /// `UnboundedReceiver::is_closed`: whether this end was closed or every sending end is gone.
    /// Without a sending end, everything that was sent is in the queue, and nothing follows. The
    /// sending ends are not counted here, so the contract does not say when they are gone.
    #[verifier::external_body]
    pub(crate) fn is_closed(&self) -> (closed: bool)
        ensures
            self.closed() ==> closed,
            closed ==> self.closed() || self.complete(),
    {
        self.rx.is_closed()
    }

    /// `UnboundedReceiver::len`: how many messages wait in the queue at the moment of the call.
    /// They go on waiting until this end takes them, as do those that were there before, and all of
    /// them belong to the part of the stream that has not been taken. The queue counts them in the
    /// upper bits of a `usize`, whose lowest bit it needs for itself.
    #[verifier::external_body]
    pub(crate) fn len(&self) -> (waiting: usize)
        ensures
            self.arrived() <= waiting <= self.ready(),
            self.taken().len() + waiting <= self.stream().sizes.len(),
            waiting <= usize::MAX / 2,
    {
        self.rx.len()
    }

    /// `UnboundedReceiver::is_empty`: whether no message waits in the queue at the moment of the
    /// call. One that does goes on waiting until this end takes it, and it belongs to the part of
    /// the stream that has not been taken. So none waits now only if none did when this end was
    /// done with what it did last.
    #[verifier::external_body]
    pub(crate) fn is_empty(&self) -> (empty: bool)
        ensures
            empty ==> self.arrived() == 0,
            !empty ==> self.ready() > 0 && self.taken().len() < self.stream().sizes.len(),
    {
        self.rx.is_empty()
    }
}

/// `tokio::sync::mpsc::unbounded_channel`: both ends of a new queue, with the given budget, which
/// is theirs alone. They share its stream, of which nothing has been taken.
#[verifier::external_body]
pub(crate) fn open<T>(semaphore: Semaphore) -> (ends: (Outbox<T>, Inbox<T>))
    ensures
        ends.0.budget() == semaphore,
        ends.1.budget() == semaphore,
        ends.0.stream() == ends.1.stream(),
        ends.1.taken() == Seq::<Entry<T>>::empty(),
        ends.1.arrived() == 0,
        ends.1.released() == 0,
        ends.1.log() == Seq::<Answer>::empty(),
        !ends.1.closed(),
        !ends.1.budget_closed(),
        ends.0.levels().len() > 0,
        ends.0.levels()[0] == initial_permits(semaphore),
    opens_invariants none
{
    let (semaphore, (tx, rx)) = (Arc::new(semaphore), tokio::sync::mpsc::unbounded_channel());
    let sending = Outbox {
        semaphore: Arc::clone(&semaphore),
        tx,
        stream: Ghost(arbitrary()),
        levels: Ghost(arbitrary()),
        waits: Ghost(arbitrary()),
    };
    let (stream, taken, arrived) = (Ghost(arbitrary()), Ghost(Seq::empty()), Ghost(0));
    let (ready, released, log) = (Ghost(arbitrary()), Ghost(0), Ghost(Seq::empty()));
    let (closed, budget_closed) = (Ghost(false), Ghost(false));
    let receiving = Inbox {
        semaphore, rx, stream, taken, arrived, ready, released, log, closed, budget_closed,
    };
    (sending, receiving)
}

} // verus!
