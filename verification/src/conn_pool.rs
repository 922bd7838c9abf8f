use vstd::prelude::*;

verus! {

/// Accounting model of one upstream's connection pool. A live connection is
/// in exactly one of three states: parked in the idle queue, leased to a
/// request, or closing — torn down while its driver task still holds its
/// slot. The runtime enforces the cap with a semaphore and a bounded queue;
/// this model carries the counts the cap speaks of.
pub struct ConnPool {
    /// Cap on simultaneously live connections.
    pub max_connections: usize,
    /// Connections parked in the idle queue.
    pub idle: usize,
    /// Connections held by a leaseholder.
    pub leased: usize,
    /// Dead connections whose driver task has not yet released its slot.
    pub closing: usize,
    /// Authority (`host:port`) this pool dials.
    pub authority: String,
}

/// The pool never tracks more connections than its cap.
pub open spec fn pool_wf(p: &ConnPool) -> bool {
    p.idle + p.leased + p.closing <= p.max_connections
}

/// What the lease loop does with a candidate connection.
pub enum LeaseStep {
    /// The candidate is open: use it for the request.
    Use,
    /// The candidate was dead: drop it and try again.
    Retry,
}

impl ConnPool {
    /// An empty pool for one upstream.
    pub fn new(authority: String, max_connections: usize) -> (p: ConnPool)
        ensures
            pool_wf(&p),
            p.max_connections == max_connections,
            p.idle == 0,
            p.leased == 0,
            p.closing == 0,
            p.authority@ == authority@,
    {
        ConnPool { max_connections, idle: 0, leased: 0, closing: 0, authority }
    }

    /// One round of the lease loop: a candidate arrived, either from the idle
    /// queue or freshly dialed under a free slot, and its readiness check
    /// said whether the transport is still open. An open candidate is leased;
    /// a dead one starts closing and the loop retries. A new connection is
    /// admitted only when a slot is free.
    pub fn lease_round(&mut self, from_idle: bool, ready: bool) -> (s: LeaseStep)
        requires
            pool_wf(&*old(self)),
            from_idle ==> old(self).idle > 0,
            !from_idle ==> old(self).idle + old(self).leased + old(self).closing < old(
                self,
            ).max_connections,
        ensures
            pool_wf(&*final(self)),
            s is Use <==> ready,
            final(self).max_connections == old(self).max_connections,
            final(self).authority == old(self).authority,
            final(self).idle == if from_idle {
                old(self).idle - 1
            } else {
                old(self).idle as int
            },
            final(self).leased == if ready {
                old(self).leased + 1
            } else {
                old(self).leased as int
            },
            final(self).closing == if ready {
                old(self).closing as int
            } else {
                old(self).closing + 1
            },
    {
        if from_idle {
            self.idle = self.idle - 1;
        }
        if ready {
            self.leased = self.leased + 1;
            LeaseStep::Use
        } else {
            self.closing = self.closing + 1;
            LeaseStep::Retry
        }
    }

    /// A lease was dropped with its connection still usable: the connection
    /// is parked back in the idle queue.
    pub fn release_idle(&mut self)
        requires
            pool_wf(&*old(self)),
            old(self).leased > 0,
        ensures
            pool_wf(&*final(self)),
            final(self).idle == old(self).idle + 1,
            final(self).leased == old(self).leased - 1,
            final(self).closing == old(self).closing,
            final(self).max_connections == old(self).max_connections,
            final(self).authority == old(self).authority,
    {
        self.leased = self.leased - 1;
        self.idle = self.idle + 1;
    }

    /// A lease was dropped with its connection dead: the connection is
    /// discarded and starts closing until its driver releases the slot.
    pub fn discard(&mut self)
        requires
            pool_wf(&*old(self)),
            old(self).leased > 0,
        ensures
            pool_wf(&*final(self)),
            final(self).idle == old(self).idle,
            final(self).leased == old(self).leased - 1,
            final(self).closing == old(self).closing + 1,
            final(self).max_connections == old(self).max_connections,
            final(self).authority == old(self).authority,
    {
        self.leased = self.leased - 1;
        self.closing = self.closing + 1;
    }

    /// A closing connection's driver task ended and released its slot.
    pub fn driver_done(&mut self)
        requires
            pool_wf(&*old(self)),
            old(self).closing > 0,
        ensures
            pool_wf(&*final(self)),
            final(self).idle == old(self).idle,
            final(self).leased == old(self).leased,
            final(self).closing == old(self).closing - 1,
            final(self).max_connections == old(self).max_connections,
            final(self).authority == old(self).authority,
    {
        self.closing = self.closing - 1;
    }
}

/// The pool bound: in every well-formed pool state, leased, idle and closing
/// connections together never exceed the cap — and every pool operation above
/// keeps the state well-formed.
pub proof fn lemma_pool_bounded(p: &ConnPool)
    requires
        pool_wf(p),
    ensures
        p.leased + p.idle + p.closing <= p.max_connections,
{
}

} // verus!
