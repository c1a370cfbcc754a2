//! The byte budget: `tokio`'s counting semaphore, as far as the channel relies on it.
//!
//! One permit stands for one byte. A semaphore is shared, so what is available in it may change
//! at any moment, and no contract here speaks of it. A permit is owned: the number of bytes that
//! it holds changes only through the calls below.
//!
//! What a call does to a budget is therefore told by its contract in another way: by the
//! namespaces that it opens. Taking bytes out of a budget without waiting opens [`asking`], paying
//! with bytes for good opens [`paying`], and everything else opens none. A function that opens none
//! neither takes anything out of a budget nor loses any of it. One that opens `asking` for a type of
//! amount takes what the amount that it was given stands for, once: asking uses the amount up.

use tokio::sync::{AcquireError, Semaphore, SemaphorePermit, TryAcquireError};
use vstd::prelude::*;

verus! {

/// The most permits that a semaphore can hold. `tokio` documents its
/// `Semaphore::MAX_PERMITS` as `usize::MAX >> 3`.
pub const MAX_PERMITS: usize = usize::MAX / 8;

/// `tokio::sync::Semaphore`: a shared counter of permits.
#[verifier::external_type_specification]
#[verifier::external_body]
pub struct ExSemaphore(Semaphore);

/// `tokio::sync::SemaphorePermit`: permits taken out of a semaphore. They go back when the value
/// is dropped.
#[verifier::external_type_specification]
#[verifier::external_body]
pub struct ExSemaphorePermit<'a>(SemaphorePermit<'a>);

/// `tokio::sync::TryAcquireError`, with both of its variants.
#[verifier::external_type_specification]
pub struct ExTryAcquireError(TryAcquireError);

/// `tokio::sync::AcquireError`: the semaphore was closed while permits were awaited.
#[verifier::external_type_specification]
#[verifier::external_body]
pub struct ExAcquireError(AcquireError);

/// The number of permits that `permit` holds, as `SemaphorePermit::num_permits` reports it.
pub uninterp spec fn permits_in(permit: SemaphorePermit<'_>) -> nat;

/// The semaphore that `permit` was taken out of, as `SemaphorePermit::semaphore` reports it.
pub uninterp spec fn permit_source(permit: SemaphorePermit<'_>) -> Semaphore;

/// The number of permits that `semaphore` was created with. It never changes, unlike the number
/// of those that are available.
pub uninterp spec fn initial_permits(semaphore: Semaphore) -> nat;

/// The namespace that a call opens to pay with bytes of a budget for good.
pub open spec fn paying() -> int {
    0
}

/// The namespace that a call opens to take bytes out of a budget without waiting, by means of the
/// request that an `N` turns into. Each type of amount has one of its own.
pub open spec fn asking<N>() -> int {
    1int + arbitrary::<(N, nat)>().1
}

/// Paying with bytes and asking for more are told apart: a call that may do the one may not
/// therefore do the other.
pub proof fn law_paying_is_not_asking<N>()
    ensures
        paying() != asking::<N>(),
{
}

/// An amount of bytes to ask a budget for. Asking uses the amount up.
pub trait Amount: Sized {
    /// The number of bytes.
    spec fn amount(self) -> u32;

    /// The request for so many bytes.
    fn request(self) -> (request: Request<Self>)
        ensures
            request.amount() == self.amount(),
        opens_invariants none
    ;
}

/// A request for bytes of a budget. Only an [`Amount`] turns into one.
#[verifier::reject_recursive_types(N)]
pub struct Request<N> {
    size: u32,
    maker: Ghost<Option<N>>,
}

impl<N> Request<N> {
    /// The number of bytes that are asked for.
    pub closed spec fn amount(self) -> u32 {
        self.size
    }

    /// The number of bytes that are asked for.
    pub fn size(&self) -> (size: u32)
        ensures
            size == self.amount(),
        opens_invariants none
    {
        self.size
    }
}

impl Amount for u32 {
    open spec fn amount(self) -> u32 {
        self
    }

    fn request(self) -> (request: Request<u32>) {
        Request { size: self, maker: Ghost(None) }
    }
}

/// `permit` holds `n` permits of `semaphore`.
pub open spec fn is_grant(semaphore: Semaphore, n: nat, permit: SemaphorePermit<'_>) -> bool {
    &&& permits_in(permit) == n
    &&& permit_source(permit) == semaphore
}

/// `Semaphore::new`: a semaphore that starts out with `permits` permits. It panics above
/// `MAX_PERMITS`.
pub assume_specification[ Semaphore::new ](permits: usize) -> (semaphore: Semaphore)
    requires
        permits <= MAX_PERMITS,
    ensures
        initial_permits(semaphore) == permits,
    opens_invariants none
;

/// `SemaphorePermit::num_permits`.
pub assume_specification<'a>[ SemaphorePermit::<'a>::num_permits ](permit: &SemaphorePermit<
    'a,
>) -> (n: usize)
    ensures
        n == permits_in(*permit),
    opens_invariants none
;

/// `SemaphorePermit::split`: moves `n` permits into a permit of their own. With fewer than `n` in
/// hand it returns `None` and leaves the permit as it was.
pub assume_specification<'a>[ SemaphorePermit::<'a>::split ](
    permit: &mut SemaphorePermit<'a>,
    n: usize,
) -> (part: Option<SemaphorePermit<'a>>)
    ensures
        part is Some <==> n <= permits_in(*old(permit)),
        part matches Some(split_off) ==> {
            &&& is_grant(permit_source(*old(permit)), n as nat, split_off)
            &&& permits_in(*final(permit)) == permits_in(*old(permit)) - n
            &&& permit_source(*final(permit)) == permit_source(*old(permit))
        },
        part is None ==> *final(permit) == *old(permit),
    opens_invariants none
;

/// Bytes that have left a budget: a receipt for a forgotten permit.
///
/// Only [`forget`] makes one, and a message enters the queue only against one of its own size.
pub struct Payment {
    bytes: Ghost<nat>,
    budget: Ghost<Semaphore>,
}

impl Payment {
    /// How many bytes were paid.
    pub closed spec fn bytes(self) -> nat {
        self.bytes@
    }

    /// The budget that the bytes came from.
    pub closed spec fn budget(self) -> Semaphore {
        self.budget@
    }
}

/// Bytes that have gone back to a budget: a receipt for a dropped permit.
///
/// Only [`give_up`] makes one.
pub struct Refund {
    bytes: Ghost<nat>,
    budget: Ghost<Semaphore>,
}

impl Refund {
    /// How many bytes went back.
    pub closed spec fn bytes(self) -> nat {
        self.bytes@
    }

    /// The budget that the bytes went back to.
    pub closed spec fn budget(self) -> Semaphore {
        self.budget@
    }
}

/// `SemaphorePermit::forget`: consumes `permit` without returning what it holds, so that its
/// semaphore is short of exactly that many permits until someone adds them back.
#[verifier::external_body]
pub(crate) fn forget(permit: SemaphorePermit<'_>) -> (payment: Payment)
    ensures
        payment.bytes() == permits_in(permit),
        payment.budget() == permit_source(permit),
    opens_invariants [paying()]
{
    let payment = Payment {
        bytes: Ghost(permits_in(permit)),
        budget: Ghost(permit_source(permit)),
    };
    permit.forget();
    payment
}

/// The destructor of `SemaphorePermit`: everything that `permit` still holds goes back to its
/// semaphore.
#[verifier::external_body]
pub(crate) fn give_up(permit: SemaphorePermit<'_>) -> (refund: Refund)
    ensures
        refund.bytes() == permits_in(permit),
        refund.budget() == permit_source(permit),
    opens_invariants none
{
    let refund = Refund {
        bytes: Ghost(permits_in(permit)),
        budget: Ghost(permit_source(permit)),
    };
    std::mem::drop(permit);
    refund
}

} // verus!
