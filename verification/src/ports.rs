//! Choosing the forwarding ports that the server binds at startup.
//!
//! The server draws ports from its range in random order and tries to bind
//! each, skipping those it cannot bind, until it holds `capacity` listeners or
//! has tried every port of the range. Binding itself is left to the caller:
//! [`PortBinder::next_port`] names the next port to try and
//! [`PortBinder::port_bound`] records a success.
use crate::config::MIN_POOL_SIZE;
use crate::text::{decimal, decimal_text};
use vstd::string::StringExecFns;
use vstd::prelude::*;

verus! {

/// The ports `min..=max`, in increasing order.
pub open spec fn port_range(min: u16, max: u16) -> Seq<u16> {
    Seq::new(
        if min <= max {
            (max - min + 1) as nat
        } else {
            0
        },
        |i: int| (min + i) as u16,
    )
}

/// Calls `fastrand::shuffle` on the ports. Claimed, from its source (a
/// Fisher-Yates shuffle made of swaps): the ports are reordered, none added
/// and none lost. Nothing is claimed of the order, which is random.
#[verifier::external_body]
fn shuffle_ports(ports: &mut Vec<u16>)
    ensures
        final(ports)@.to_multiset() == old(ports)@.to_multiset(),
{
    fastrand::shuffle(&mut ports[..]);
}

/// Why the server's options are refused.
#[derive(Debug, Clone, Copy, PartialEq, Eq)]
pub enum OptionError {
    /// The lowest port lies above the highest.
    EmptyRange,
    /// No listener was asked for.
    ZeroCapacity,
}

impl OptionError {
    /// The error's message.
    pub fn message(&self) -> (s: &'static str)
        ensures
            *self == OptionError::EmptyRange ==> s@ == "min_port must be <= max_port"@,
            *self == OptionError::ZeroCapacity ==> s@ == "capacity must be > 0"@,
    {
        match self {
            OptionError::EmptyRange => "min_port must be <= max_port",
            OptionError::ZeroCapacity => "capacity must be > 0",
        }
    }
}

/// Checks the server's port range and capacity, the range first.
pub fn check_server_options(min_port: u16, max_port: u16, capacity: usize) -> (r: Result<
    (),
    OptionError,
>)
    ensures
        min_port > max_port ==> r == Err::<(), OptionError>(OptionError::EmptyRange),
        min_port <= max_port && capacity == 0 ==> r == Err::<(), OptionError>(
            OptionError::ZeroCapacity,
        ),
        min_port <= max_port && capacity > 0 ==> r is Ok,
{
    if min_port > max_port {
        Err(OptionError::EmptyRange)
    } else if capacity == 0 {
        Err(OptionError::ZeroCapacity)
    } else {
        Ok(())
    }
}

/// Why the forwarding ports could not be set up.
#[derive(Debug, Clone, Copy, PartialEq, Eq)]
pub enum BindError {
    /// Fewer than [`MIN_POOL_SIZE`] ports could be bound.
    TooFewPorts { bound: usize },
}

/// The message of a binding error.
pub open spec fn bind_error_text(e: BindError) -> Seq<char> {
    match e {
        BindError::TooFewPorts { bound } => "only bound "@ + decimal(bound as nat)
            + " port(s), minimum required is "@ + decimal(MIN_POOL_SIZE as nat)
            + "; check that the port range is wide enough and ports are not all taken"@,
    }
}

impl BindError {
    /// The error's message.
    pub fn message(&self) -> (s: String)
        ensures
            s@ == bind_error_text(*self),
    {
        match self {
            BindError::TooFewPorts { bound } => String::from_str("only bound ").concat(
                decimal_text(*bound).as_str(),
            ).concat(" port(s), minimum required is ").concat(
                decimal_text(MIN_POOL_SIZE).as_str(),
            ).concat("; check that the port range is wide enough and ports are not all taken"),
        }
    }
}

/// How the binding went, when enough ports were bound.
#[derive(Debug, Clone, Copy, PartialEq, Eq)]
pub struct BindSummary {
    /// Number of listeners bound.
    pub bound: usize,
    /// Number of listeners asked for.
    pub requested: usize,
}

impl BindSummary {
    /// The pool is smaller than asked for (the range was too narrow or its
    /// ports were taken).
    pub fn is_short(&self) -> (short: bool)
        ensures
            short == (self.bound < self.requested),
    {
        self.bound < self.requested
    }
}

/// Decides which port to bind next and when to stop.
pub struct PortBinder {
    candidates: Vec<u16>,
    next: usize,
    bound: usize,
    capacity: usize,
    min: u16,
    max: u16,
}

impl PortBinder {
    /// The ports of the range, in the random order in which they are tried.
    pub closed spec fn candidates(&self) -> Seq<u16> {
        self.candidates@
    }

    /// The ports handed out so far.
    pub closed spec fn tried(&self) -> Seq<u16> {
        self.candidates@.take(self.next as int)
    }

    /// Number of ports bound so far.
    pub closed spec fn bound_count(&self) -> nat {
        self.bound as nat
    }

    /// Number of listeners asked for.
    pub closed spec fn capacity(&self) -> nat {
        self.capacity as nat
    }

    /// Lowest port of the range.
    pub closed spec fn range_min(&self) -> u16 {
        self.min
    }

    /// Highest port of the range.
    pub closed spec fn range_max(&self) -> u16 {
        self.max
    }

    /// The candidates are the ports of the range, each once, and no more
    /// ports have been bound than were asked for or tried.
    pub closed spec fn wf(&self) -> bool {
        &&& self.candidates@.to_multiset() == port_range(self.min, self.max).to_multiset()
        &&& self.next <= self.candidates@.len()
        &&& self.bound <= self.capacity
        &&& self.bound <= self.next
    }

    /// In a well-formed binder every candidate lies in the range, every port
    /// of the range is a candidate, and no port is a candidate twice; the
    /// ports tried are the first candidates, so no port is ever tried twice.
    pub proof fn lemma_candidates_cover_range_once(&self)
        requires
            self.wf(),
        ensures
            self.candidates().no_duplicates(),
            forall|p: u16|
                self.candidates().contains(p) <==> self.range_min() <= p <= self.range_max(),
            self.bound_count() <= self.capacity(),
            self.bound_count() <= self.tried().len(),
            self.tried().len() <= self.candidates().len(),
            self.tried() == self.candidates().take(self.tried().len() as int),
            self.tried().no_duplicates(),
    {
        lemma_shuffled_range(self.candidates@, self.min, self.max);
        assert(self.tried().len() == self.next);
        assert forall|i: int, j: int|
            0 <= i < self.tried().len() && 0 <= j < self.tried().len() && i != j implies self.tried()[i]
            != self.tried()[j] by {
            assert(self.tried()[i] == self.candidates@[i]);
            assert(self.tried()[j] == self.candidates@[j]);
        }
        lemma_shuffled_range(self.candidates@, self.min, self.max);
    }

    /// A binder for `capacity` listeners drawn from the ports `min..=max`.
    pub fn new(min: u16, max: u16, capacity: usize) -> (b: Self)
        ensures
            b.wf(),
            b.range_min() == min,
            b.range_max() == max,
            b.capacity() == capacity,
            b.bound_count() == 0,
            b.tried() == Seq::<u16>::empty(),
    {
        let mut candidates = collect_ports(min, max);
        shuffle_ports(&mut candidates);
        proof {
            vstd::seq_lib::to_multiset_len(candidates@);
            vstd::seq_lib::to_multiset_len(port_range(min, max));
        }
        PortBinder { candidates, next: 0, bound: 0, capacity, min, max }
    }

    /// The next port to try, or `None` once `capacity` ports are bound or
    /// every port of the range has been tried.
    pub fn next_port(&mut self) -> (port: Option<u16>)
        requires
            old(self).wf(),
        ensures
            final(self).wf(),
            final(self).candidates() == old(self).candidates(),
            final(self).bound_count() == old(self).bound_count(),
            final(self).capacity() == old(self).capacity(),
            final(self).range_min() == old(self).range_min(),
            final(self).range_max() == old(self).range_max(),
            port is None <==> (old(self).bound_count() >= old(self).capacity()
                || old(self).tried().len() == old(self).candidates().len()),
            port is None ==> final(self).tried() == old(self).tried(),
            port matches Some(p) ==> {
                &&& p == old(self).candidates()[old(self).tried().len() as int]
                &&& final(self).tried() == old(self).tried().push(p)
            },
    {
        if self.bound >= self.capacity || self.next >= self.candidates.len() {
            return None;
        }
        let p = self.candidates[self.next];
        self.next = self.next + 1;
        assert(self.candidates@.take(self.next as int) == old(self).candidates@.take(
            old(self).next as int,
        ).push(p));
        Some(p)
    }

    /// Records that the port last handed out was bound.
    pub fn port_bound(&mut self)
        requires
            old(self).wf(),
        ensures
            final(self).wf(),
            final(self).candidates() == old(self).candidates(),
            final(self).tried() == old(self).tried(),
            final(self).capacity() == old(self).capacity(),
            final(self).range_min() == old(self).range_min(),
            final(self).range_max() == old(self).range_max(),
            old(self).bound_count() < old(self).capacity() && old(self).bound_count()
                < old(self).tried().len() ==> final(self).bound_count() == old(
                self,
            ).bound_count() + 1,
            !(old(self).bound_count() < old(self).capacity() && old(self).bound_count() < old(
                self,
            ).tried().len()) ==> final(self).bound_count() == old(self).bound_count(),
    {
        if self.bound < self.capacity && self.bound < self.next {
            self.bound = self.bound + 1;
        }
    }

    /// The outcome once no port is left to try: an error when fewer than
    /// [`MIN_POOL_SIZE`] ports were bound.
    pub fn finish(&self) -> (r: Result<BindSummary, BindError>)
        requires
            self.wf(),
        ensures
            r is Err <==> self.bound_count() < MIN_POOL_SIZE,
            r matches Err(BindError::TooFewPorts { bound }) ==> bound == self.bound_count(),
            r matches Ok(s) ==> s.bound == self.bound_count() && s.requested == self.capacity(),
    {
        if self.bound < MIN_POOL_SIZE {
            Err(BindError::TooFewPorts { bound: self.bound })
        } else {
            Ok(BindSummary { bound: self.bound, requested: self.capacity })
        }
    }
}

/// The ports `min..=max` in increasing order.
fn collect_ports(min: u16, max: u16) -> (v: Vec<u16>)
    ensures
        v@ == port_range(min, max),
{
    let mut v: Vec<u16> = Vec::new();
    if min > max {
        assert(v@ == port_range(min, max));
        return v;
    }
    let mut p: u32 = min as u32;
    while p <= max as u32
        invariant
            min <= max,
            min as u32 <= p <= max as u32 + 1,
            v@ == port_range(min, max).take(p - min),
        decreases max as u32 + 1 - p,
    {
        v.push(p as u16);
        p = p + 1;
        assert(v@ == port_range(min, max).take(p - min));
    }
    assert(v@ == port_range(min, max));
    v
}

/// The ports of a range hold no port twice.
proof fn lemma_port_range_no_duplicates(min: u16, max: u16)
    ensures
        port_range(min, max).no_duplicates(),
{
}

/// A reordering of the range holds each port of the range exactly once and
/// nothing else.
proof fn lemma_shuffled_range(s: Seq<u16>, min: u16, max: u16)
    requires
        s.to_multiset() == port_range(min, max).to_multiset(),
    ensures
        s.no_duplicates(),
        forall|p: u16| s.contains(p) <==> min <= p <= max,
{
    let r = port_range(min, max);
    lemma_port_range_no_duplicates(min, max);
    r.lemma_multiset_has_no_duplicates();
    s.lemma_multiset_has_no_duplicates_conv();
    assert forall|p: u16| s.contains(p) <==> min <= p <= max by {
        vstd::seq_lib::to_multiset_contains(s, p);
        vstd::seq_lib::to_multiset_contains(r, p);
        if min <= p <= max {
            assert(r[p - min] == p);
        }
    }
}

} // verus!
