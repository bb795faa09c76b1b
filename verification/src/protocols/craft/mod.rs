//! Replication protocol: CRaft (Coded-Raft).
//!
//! Raft with erasure coding: each follower keeps one shard of an entry,
//! until the leader suspects failures and falls back to full copies.
//!
//! The replica is a value: each handler takes what happened, moves the
//! replica to its next state and returns the actions that its driver is to
//! carry out, in order, on the heartbeater, the log store, the transport
//! and the control channel to the cluster manager.

pub mod leadership;

use crate::protocols::raft::{log_view, LogEntry, LogEntryView, Role, Term};
use crate::server::ReplicaId;
use std::collections::{HashMap, HashSet};
use vstd::prelude::*;

verus! {

/// Configuration parameters struct.
#[derive(Debug, Clone, Copy, PartialEq, Eq, Structural)]
pub struct ReplicaConfigCRaft {
    /// Whether to call `fsync()`/`fdatasync()` on logger.
    pub logger_sync: bool,
    /// Disable heartbeat timer (to force a deterministic leader during tests).
    pub disable_hb_timer: bool,
    /// Disallow step-up as leader.
    pub disallow_step_up: bool,
    /// Fault-tolerance level: with this many peers not alive, the leader
    /// falls back to full copies.
    pub fault_tolerance: u8,
}

/// What a handler asks the replica's driver to do.
#[derive(Debug, Clone, Copy, PartialEq, Eq, Structural)]
pub enum Action {
    /// Heartbeater: a peer was heard from; count it.
    UpdateHeardCnt { peer: ReplicaId },
    /// Heartbeater: restart the timer that fires when nothing is heard.
    KickoffHearTimer { peer: ReplicaId },
    /// Heartbeater: start or stop the timer that has heartbeats sent.
    SetSending { sending: bool },
    /// Heartbeater: forget what the peers have replied so far.
    ClearReplyCnts,
    /// Heartbeater: a round of heartbeats has gone out; update the reply
    /// counters and, by them, which peers are alive.
    UpdateBcastCnts,
    /// Control channel: tell the manager that this replica has stepped up
    /// as leader, or down.
    ReportLeaderStatus { step_up: bool },
    /// Log store: write the term and the vote to the head of the durable
    /// log and wait until that is done.
    PersistMeta { term: Term, voted_for: Option<ReplicaId>, sync: bool },
    /// Transport: broadcast a RequestVote message to all peers.
    BcastRequestVote { term: Term, last_slot: usize, last_term: Term },
    /// Transport: send a heartbeat, an AppendEntries message without
    /// entries, to a peer.
    SendHeartbeat {
        peer: ReplicaId,
        term: Term,
        prev_slot: usize,
        prev_term: Term,
        leader_commit: usize,
        last_snap: usize,
    },
    /// Transport: send a peer that lags behind the start of the log the
    /// snapshot up to `last_snap`, an InstallSnapshot message. The driver
    /// adds the image of the state machine.
    InstallSnapshot { peer: ReplicaId, term: Term, last_snap: usize },
}

impl Action {
    /// Whether carrying out the action changes what is on disk.
    pub open spec fn is_durable(self) -> bool {
        self is PersistMeta
    }
}

/// CRaft server replica module: the replica's own state.
#[derive(Debug, PartialEq, Eq)]
pub struct CRaftReplica {
    /// Replica ID in cluster.
    pub id: ReplicaId,
    /// Total number of replicas in cluster.
    pub population: u8,
    /// Configuration parameters struct.
    pub config: ReplicaConfigCRaft,
    /// Which role am I in right now?
    pub role: Role,
    /// Who do I think is the effective leader of the cluster right now?
    pub leader: Option<ReplicaId>,
    /// Latest term seen.
    pub curr_term: Term,
    /// Candidate ID that I voted for in current term.
    pub voted_for: Option<ReplicaId>,
    /// Replica IDs that voted for me in current election.
    pub votes_granted: HashSet<ReplicaId>,
    /// In-memory log of entries. Slot 0 is a dummy entry to make indexing
    /// happy, so the log is never empty.
    pub log: Vec<LogEntry>,
    /// Start slot index of in-mem log after latest snapshot.
    pub start_slot: usize,
    /// Slot index of highest log entry known to be committed.
    pub last_commit: usize,
    /// Slot index of highest log entry applied to state machine.
    pub last_exec: usize,
    /// Slot index up to which it is safe to take snapshot.
    pub last_snap: usize,
    /// For each peer, index of the next log entry to send.
    pub next_slot: HashMap<ReplicaId, usize>,
    /// For each peer, the approximate next index to move on to.
    pub try_next_slot: HashMap<ReplicaId, usize>,
    /// For each peer, index of the highest log entry known to be
    /// replicated.
    pub match_slot: HashMap<ReplicaId, usize>,
    /// True if every follower gets all shards of an entry; false if each
    /// gets its own shard only.
    pub full_copy_mode: bool,
}

/// The state of a replica as a mathematical value.
pub struct CRaftView {
    pub id: ReplicaId,
    pub population: u8,
    pub config: ReplicaConfigCRaft,
    pub role: Role,
    pub leader: Option<ReplicaId>,
    pub curr_term: Term,
    pub voted_for: Option<ReplicaId>,
    pub votes_granted: Set<ReplicaId>,
    pub log: Seq<LogEntryView>,
    pub start_slot: usize,
    pub last_commit: usize,
    pub last_exec: usize,
    pub last_snap: usize,
    pub next_slot: Map<ReplicaId, usize>,
    pub try_next_slot: Map<ReplicaId, usize>,
    pub match_slot: Map<ReplicaId, usize>,
    pub full_copy_mode: bool,
}

impl View for CRaftReplica {
    type V = CRaftView;

    open spec fn view(&self) -> CRaftView {
        CRaftView {
            id: self.id,
            population: self.population,
            config: self.config,
            role: self.role,
            leader: self.leader,
            curr_term: self.curr_term,
            voted_for: self.voted_for,
            votes_granted: self.votes_granted@,
            log: log_view(self.log@),
            start_slot: self.start_slot,
            last_commit: self.last_commit,
            last_exec: self.last_exec,
            last_snap: self.last_snap,
            next_slot: self.next_slot@,
            try_next_slot: self.try_next_slot@,
            match_slot: self.match_slot@,
            full_copy_mode: self.full_copy_mode,
        }
    }
}

impl CRaftReplica {
    /// Whether the state is one that a replica can be in: see
    /// [`CRaftView::inv`]. Code that is not verified checks this before it
    /// calls a handler that asks for it.
    pub fn is_valid(&self) -> (valid: bool)
        ensures
            valid == self@.inv(),
    {
        broadcast use vstd::std_specs::hash::group_hash_axioms;

        if !(self.id < self.population && self.log.len() >= 1 && self.start_slot <= self.last_snap
            && self.last_snap <= self.last_exec && self.last_exec <= self.last_commit
            && self.last_commit >= self.start_slot && self.last_commit - self.start_slot
            <= self.log.len() && usize::MAX - self.start_slot >= self.log.len()) {
            return false;
        }
        let mut peer: u8 = 0;
        while peer < self.population
            invariant
                peer <= self.population,
                forall|p: ReplicaId| p < peer && self@.peers().contains(p) ==> #[trigger] self@.tracks(p),
            decreases self.population - peer,
        {
            if peer != self.id {
                let kept = self.next_slot.contains_key(&peer) && self.try_next_slot.contains_key(
                    &peer,
                ) && self.match_slot.contains_key(&peer);
                if !kept {
                    assert(self@.peers().contains(peer) && !self@.tracks(peer));
                    return false;
                }
            }
            peer = peer + 1;
        }
        true
    }
}

impl CRaftView {
    /// The peers of this replica: every replica of the cluster but itself.
    pub open spec fn peers(self) -> Set<ReplicaId> {
        Set::new(|peer: ReplicaId| peer < self.population && peer != self.id)
    }

    /// The slot of the last entry of the log.
    pub open spec fn last_slot(self) -> int {
        self.start_slot + self.log.len() - 1
    }

    /// Whether the replication progress is kept for a peer.
    pub open spec fn tracks(self, peer: ReplicaId) -> bool {
        &&& self.next_slot.contains_key(peer)
        &&& self.try_next_slot.contains_key(peer)
        &&& self.match_slot.contains_key(peer)
    }

    /// What holds of the state of every replica: its ID is one of the
    /// cluster's, the log is not empty, the watermarks are in order within
    /// the log, and the replication progress is kept for each peer.
    pub open spec fn inv(self) -> bool {
        &&& self.id < self.population
        &&& self.log.len() >= 1
        &&& self.start_slot <= self.last_snap <= self.last_exec <= self.last_commit
            <= self.start_slot + self.log.len() <= usize::MAX
        &&& forall|peer: ReplicaId| self.peers().contains(peer) ==> #[trigger] self.tracks(peer)
    }

    /// A state that differs from a valid one in the role, the leader, the
    /// term, the votes, the mode, the contents of log entries or the slots
    /// kept for the peers only is valid too.
    pub proof fn lemma_inv_frame(self, next: CRaftView)
        requires
            self.inv(),
            next.id == self.id,
            next.population == self.population,
            next.log.len() == self.log.len(),
            next.start_slot == self.start_slot,
            next.last_snap == self.last_snap,
            next.last_exec == self.last_exec,
            next.last_commit == self.last_commit,
            next.next_slot.dom() == self.next_slot.dom(),
            next.try_next_slot.dom() == self.try_next_slot.dom(),
            next.match_slot.dom() == self.match_slot.dom(),
        ensures
            next.inv(),
    {
        assert(next.peers() == self.peers());
        assert forall|peer: ReplicaId| next.peers().contains(peer) implies #[trigger] next.tracks(
            peer,
        ) by {
            assert(self.tracks(peer));
        }
    }

    /// The progress map with the slot of every peer set to `slot`.
    pub open spec fn peers_at(self, slots: Map<ReplicaId, usize>, slot: usize) -> Map<
        ReplicaId,
        usize,
    > {
        Map::new(
            |peer: ReplicaId| slots.contains_key(peer),
            |peer: ReplicaId|
                if self.peers().contains(peer) {
                    slot
                } else {
                    slots[peer]
                },
        )
    }

    /// No term or watermark of `next` lies below that of `self`.
    pub open spec fn not_after(self, next: CRaftView) -> bool {
        &&& self.curr_term <= next.curr_term
        &&& self.start_slot <= next.start_slot
        &&& self.last_commit <= next.last_commit
        &&& self.last_exec <= next.last_exec
        &&& self.last_snap <= next.last_snap
    }
}

} // verus!
