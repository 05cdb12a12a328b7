use vstd::prelude::*;

verus! {

/// How a shotover peer is configured: its address, its rack and the broker id it
/// presents to Kafka clients.
#[derive(Debug, Clone)]
pub struct ShotoverNodeConfig {
    pub address: String,
    pub rack: String,
    pub broker_id: i32,
}

/// Whether a shotover peer was reachable when last checked.
#[derive(Debug, Clone, Copy, PartialEq, Eq, Structural)]
pub enum ShotoverNodeState {
    Up,
    Down,
}

impl ShotoverNodeState {
    /// The state a peer is in after a check: up when a connection to it could be opened.
    pub fn after_check(connected: bool) -> (s: Self)
        ensures
            s == (if connected { ShotoverNodeState::Up } else { ShotoverNodeState::Down }),
    {
        if connected {
            ShotoverNodeState::Up
        } else {
            ShotoverNodeState::Down
        }
    }

    pub fn is_up(&self) -> (r: bool)
        ensures
            r == (*self == ShotoverNodeState::Up),
    {
        match self {
            ShotoverNodeState::Up => true,
            ShotoverNodeState::Down => false,
        }
    }
}

/// The outcome of checking one peer: which peer, and the state it is now in.
#[derive(Debug, Clone, Copy, PartialEq, Eq, Structural)]
pub struct PeerUpdate {
    pub peer: usize,
    pub state: ShotoverNodeState,
}

/// Where the peer health check stands in its endless round over the peers: it checks
/// them one after the other and starts again with the first after the last.
pub struct PeerCheckCursor {
    peer_count: usize,
    next: usize,
    checks: Ghost<nat>,
}

impl PeerCheckCursor {
    /// The cursor is at the peer the number of checks so far selects, going round the
    /// peers in order; without peers it stays at the start.
    #[verifier::type_invariant]
    spec fn at_checked_peer(self) -> bool {
        if self.peer_count == 0 {
            self.next == 0
        } else {
            self.next < self.peer_count && self.next == self.checks@ % (self.peer_count as nat)
        }
    }

    pub closed spec fn spec_peer_count(&self) -> nat {
        self.peer_count as nat
    }

    /// The peer to check next.
    pub closed spec fn spec_next(&self) -> nat {
        self.next as nat
    }

    /// How many checks have been recorded.
    pub closed spec fn spec_checks(&self) -> nat {
        self.checks@
    }

    /// A check that starts at the first of `peer_count` peers.
    pub fn new(peer_count: usize) -> (c: Self)
        ensures
            c.spec_peer_count() == peer_count,
            c.spec_checks() == 0,
            c.spec_next() == 0,
    {
        proof {
            if peer_count > 0 {
                vstd::arithmetic::div_mod::lemma_small_mod(0, peer_count as nat);
            }
        }
        PeerCheckCursor { peer_count, next: 0, checks: Ghost(0) }
    }

    /// The peer to check next, if there are any peers: after `k` checks of `n` peers,
    /// peer `k mod n`.
    pub fn next_peer(&self) -> (r: Option<usize>)
        ensures
            r == (if self.spec_peer_count() == 0 {
                None
            } else {
                Some((self.spec_checks() % self.spec_peer_count()) as usize)
            }),
            self.spec_peer_count() > 0 ==> self.spec_next() == self.spec_checks()
                % self.spec_peer_count(),
    {
        proof {
            use_type_invariant(self);
        }
        if self.peer_count == 0 {
            None
        } else {
            Some(self.next)
        }
    }

    /// Records the check of the next peer, which could or could not be connected to,
    /// and moves on to the peer after it, or to the first after the last. The `k`-th
    /// check (counting from 0) of `n` peers is a check of peer `k mod n`.
    pub fn record_check(&mut self, connected: bool) -> (u: PeerUpdate)
        requires
            old(self).spec_peer_count() > 0,
        ensures
            final(self).spec_peer_count() == old(self).spec_peer_count(),
            final(self).spec_checks() == old(self).spec_checks() + 1,
            final(self).spec_next() == final(self).spec_checks() % final(self).spec_peer_count(),
            final(self).spec_next() == (old(self).spec_next() + 1) % old(self).spec_peer_count(),
            u == (PeerUpdate {
                peer: (old(self).spec_checks() % old(self).spec_peer_count()) as usize,
                state: if connected { ShotoverNodeState::Up } else { ShotoverNodeState::Down },
            }),
    {
        proof {
            use_type_invariant(&*self);
        }
        let peer = self.next;
        let peer_count = self.peer_count;
        let ghost checks = self.checks@ + 1;
        let next = if self.next + 1 == self.peer_count { 0 } else { self.next + 1 };
        proof {
            let n = peer_count as nat;
            if peer + 1 < peer_count {
                vstd::arithmetic::div_mod::lemma_small_mod((peer + 1) as nat, n);
            } else {
                vstd::arithmetic::div_mod::lemma_mod_self_0(n as int);
            }
            vstd::arithmetic::div_mod::lemma_add_mod_noop_right(1, self.checks@ as int, n as int);
            assert(next == checks % n);
        }
        *self = PeerCheckCursor { peer_count, next, checks: Ghost(checks) };
        PeerUpdate { peer, state: ShotoverNodeState::after_check(connected) }
    }
}

} // verus!
