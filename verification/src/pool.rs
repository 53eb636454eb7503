//! The pool of pre-bound forwarding listeners, and the permits that guard it.
//!
//! [`ListenerPool`] is a stack of ready-to-accept listeners. [`ListenerLeases`]
//! pairs it with a `tokio` semaphore holding one permit per free listener: a
//! session first takes a permit (waiting while none is free) and then checks
//! a listener out; when the session ends the listener goes back and its
//! permit is restored. Free permits never outnumber the pooled listeners, so
//! a session holding a permit always finds a listener.
use crate::server::ServerError;
use tokio::sync::Semaphore;
use vstd::prelude::*;

verus! {

/// One operation on a listener pool.
pub enum PoolOp<L> {
    /// Check out the most recently returned listener, if any.
    Acquire,
    /// Put this listener back.
    Release(L),
}

/// The pooled listeners after one operation on `s`.
pub open spec fn pool_step<L>(s: Seq<L>, op: PoolOp<L>) -> Seq<L> {
    match op {
        PoolOp::Acquire => if s.len() > 0 {
            s.drop_last()
        } else {
            s
        },
        PoolOp::Release(l) => s.push(l),
    }
}

/// The pooled listeners after the operations `ops`, in order, on `s`.
pub open spec fn pool_after<L>(s: Seq<L>, ops: Seq<PoolOp<L>>) -> Seq<L>
    decreases ops.len(),
{
    if ops.len() == 0 {
        s
    } else {
        pool_step(pool_after(s, ops.drop_last()), ops.last())
    }
}

/// How many of the acquisitions among `ops`, applied to `s`, handed out a listener.
pub open spec fn granted_acquires<L>(s: Seq<L>, ops: Seq<PoolOp<L>>) -> nat
    decreases ops.len(),
{
    if ops.len() == 0 {
        0
    } else {
        let before = pool_after(s, ops.drop_last());
        granted_acquires(s, ops.drop_last()) + (if ops.last() is Acquire && before.len() > 0 {
            1nat
        } else {
            0nat
        })
    }
}

/// How many releases `ops` holds.
pub open spec fn releases<L>(ops: Seq<PoolOp<L>>) -> nat
    decreases ops.len(),
{
    if ops.len() == 0 {
        0
    } else {
        releases(ops.drop_last()) + (if ops.last() is Release {
            1nat
        } else {
            0nat
        })
    }
}

/// Pool of pre-bound, ready-to-accept listeners; the last one returned is the
/// next one handed out.
pub struct ListenerPool<L> {
    listeners: Vec<L>,
}

impl<L> ListenerPool<L> {
    /// The listeners in the pool; the last one is the next to be checked out.
    pub closed spec fn contents(&self) -> Seq<L> {
        self.listeners@
    }

    /// A pool holding `listeners`.
    pub fn new(listeners: Vec<L>) -> (pool: Self)
        ensures
            pool.contents() == listeners@,
    {
        ListenerPool { listeners }
    }

    /// Checks out the most recently returned listener; `None` when the pool
    /// is empty.
    pub fn acquire(&mut self) -> (listener: Option<L>)
        ensures
            listener is Some <==> old(self).contents().len() > 0,
            listener is Some ==> listener == Some(old(self).contents().last()),
            final(self).contents() == pool_step(old(self).contents(), PoolOp::Acquire),
    {
        let listener = self.listeners.pop();
        proof {
            if old(self).listeners@.len() > 0 {
                assert(self.listeners@ == old(self).listeners@.drop_last());
            }
        }
        listener
    }

    /// Puts a listener back.
    pub fn release(&mut self, listener: L)
        ensures
            final(self).contents() == pool_step(old(self).contents(), PoolOp::Release(listener)),
    {
        self.listeners.push(listener);
    }

    /// How many listeners the pool holds.
    pub fn available(&self) -> (n: usize)
        ensures
            n == self.contents().len(),
    {
        self.listeners.len()
    }
}

/// The number of permits a semaphore has available.
pub uninterp spec fn semaphore_permits(s: Semaphore) -> nat;

/// The most permits a `tokio` semaphore can hold (`Semaphore::MAX_PERMITS`).
pub open spec fn max_permits() -> nat {
    (usize::MAX / 8) as nat
}

/// The most permits a `tokio` semaphore can hold, as a number.
pub fn max_permits_value() -> (n: usize)
    ensures
        n == max_permits(),
{
    usize::MAX / 8
}

#[verifier::external_type_specification]
#[verifier::external_body]
pub struct ExSemaphore(Semaphore);

/// Calls `Semaphore::new`. Claimed, from `tokio`'s source: the semaphore
/// starts with `permits` permits; it panics above `MAX_PERMITS`
/// (`usize::MAX >> 3`), which `requires` rules out.
#[verifier::external_body]
fn semaphore_new(permits: usize) -> (s: Semaphore)
    requires
        permits <= max_permits(),
    ensures
        semaphore_permits(s) == permits,
{
    Semaphore::new(permits)
}

/// Calls `Semaphore::forget_permits`. Claimed, from `tokio`'s source: the
/// available permits drop by at most `n`, never below zero, and the number
/// actually removed is returned.
#[verifier::external_body]
fn semaphore_forget(s: &mut Semaphore, n: usize) -> (taken: usize)
    ensures
        taken == (if semaphore_permits(*old(s)) < n {
            semaphore_permits(*old(s))
        } else {
            n as nat
        }),
        semaphore_permits(*final(s)) == semaphore_permits(*old(s)) - taken,
{
    s.forget_permits(n)
}

/// Calls `Semaphore::add_permits`. Claimed, from `tokio`'s source: the
/// available permits grow by `n` (it panics past `MAX_PERMITS`, which
/// `requires` rules out). Permits are handed straight to tasks queued in
/// `Semaphore::acquire` instead, when there are any; the semaphore of a
/// [`ListenerLeases`] is a private field and nothing queues on it, so this
/// case does not arise here and is not stated.
#[verifier::external_body]
fn semaphore_add(s: &mut Semaphore, n: usize)
    requires
        semaphore_permits(*old(s)) + n <= max_permits(),
    ensures
        semaphore_permits(*final(s)) == semaphore_permits(*old(s)) + n,
{
    s.add_permits(n)
}

/// The listener pool of a server, with a semaphore holding one permit for
/// each listener that is free for a new session.
pub struct ListenerLeases<L> {
    listeners: ListenerPool<L>,
    pool_permits: Semaphore,
}

impl<L> ListenerLeases<L> {
    /// The listeners in the pool; the last one is the next to be checked out.
    pub closed spec fn pooled(&self) -> Seq<L> {
        self.listeners.contents()
    }

    /// Permits that can still be taken.
    pub closed spec fn free_permits(&self) -> nat {
        semaphore_permits(self.pool_permits)
    }

    /// Permits never outnumber pooled listeners, and the pool stays within
    /// the semaphore's limit.
    pub open spec fn wf(&self) -> bool {
        &&& self.free_permits() <= self.pooled().len()
        &&& self.pooled().len() <= max_permits()
    }

    /// Permits taken whose listener is still in the pool.
    pub open spec fn reserved(&self) -> nat {
        (self.pooled().len() - self.free_permits()) as nat
    }

    /// A pool holding `listeners`, with one free permit for each.
    pub fn new(listeners: Vec<L>) -> (leases: Self)
        requires
            listeners@.len() <= max_permits(),
        ensures
            leases.wf(),
            leases.pooled() == listeners@,
            leases.free_permits() == listeners@.len(),
    {
        let n = listeners.len();
        ListenerLeases { listeners: ListenerPool::new(listeners), pool_permits: semaphore_new(n) }
    }

    /// Takes a permit if one is free, and keeps it (the permit is not
    /// returned to the semaphore when the session ends; [`Self::give_back`]
    /// adds a new one). A caller that gets `false` waits for a listener to be
    /// given back and tries again.
    pub fn try_reserve(&mut self) -> (granted: bool)
        requires
            old(self).wf(),
        ensures
            final(self).wf(),
            granted == (old(self).free_permits() > 0),
            granted ==> final(self).free_permits() == old(self).free_permits() - 1,
            !granted ==> final(self).free_permits() == old(self).free_permits(),
            final(self).pooled() == old(self).pooled(),
    {
        let taken = semaphore_forget(&mut self.pool_permits, 1);
        taken == 1
    }

    /// Checks out the listener that a taken permit stands for. In a
    /// well-formed pool a taken permit always finds one; the error is the
    /// one the server reports should the two ever disagree.
    pub fn take_reserved(&mut self) -> (r: Result<L, ServerError>)
        ensures
            r is Ok <==> old(self).pooled().len() > 0,
            r matches Ok(l) ==> l == old(self).pooled().last(),
            r is Err ==> r == Err::<L, ServerError>(ServerError::PoolOutOfSync),
            final(self).pooled() == pool_step(old(self).pooled(), PoolOp::Acquire),
            final(self).free_permits() == old(self).free_permits(),
            old(self).wf() && old(self).reserved() > 0 ==> r is Ok && final(self).wf()
                && final(self).reserved() == old(self).reserved() - 1,
    {
        match self.listeners.acquire() {
            Some(l) => Ok(l),
            None => Err(ServerError::PoolOutOfSync),
        }
    }

    /// Puts a listener back and adds a permit for it.
    pub fn give_back(&mut self, listener: L)
        requires
            old(self).wf(),
            old(self).pooled().len() < max_permits(),
        ensures
            final(self).wf(),
            final(self).pooled() == old(self).pooled().push(listener),
            final(self).free_permits() == old(self).free_permits() + 1,
            final(self).reserved() == old(self).reserved(),
    {
        self.listeners.release(listener);
        semaphore_add(&mut self.pool_permits, 1);
    }

    /// How many listeners the pool holds.
    pub fn available(&self) -> (n: usize)
        ensures
            n == self.pooled().len(),
    {
        self.listeners.available()
    }
}

/// The pool hands listeners out last-in, first-out: a listener that has just
/// been released is the next one checked out, and checking it out leaves the
/// pool as it was before the release.
pub proof fn lemma_released_listener_is_next<L>(contents: Seq<L>, listener: L)
    ensures
        pool_step(contents, PoolOp::Release(listener)).last() == listener,
        pool_step(pool_step(contents, PoolOp::Release(listener)), PoolOp::Acquire) == contents,
{
}

/// Over any run of operations, the pool holds its initial listeners, less
/// those handed out, plus those released.
pub proof fn lemma_pool_size_after<L>(s: Seq<L>, ops: Seq<PoolOp<L>>)
    ensures
        pool_after(s, ops).len() + granted_acquires(s, ops) == s.len() + releases(ops),
    decreases ops.len(),
{
    if ops.len() > 0 {
        lemma_pool_size_after(s, ops.drop_last());
    }
}

/// A lease and its return restore the listeners: checking out the last
/// listener of a non-empty pool and giving that listener back leaves the same
/// listeners, so the next lease hands out the same listener again. (The
/// permit count goes down by one in `try_reserve` and up by one in
/// `give_back`.)
pub proof fn lemma_lease_then_give_back_restores<L>(pooled: Seq<L>)
    requires
        pooled.len() > 0,
    ensures
        pool_step(pool_step(pooled, PoolOp::Acquire), PoolOp::Release(pooled.last())) == pooled,
{
    assert(pooled.drop_last().push(pooled.last()) == pooled);
}

} // verus!
