//! Replication protocol: Raft.
//!
//! The replica is a value: each handler takes what happened, moves the
//! replica to its next state and returns what its driver is to do.

pub mod election;
pub mod execution;
pub mod replication;

use crate::client::ClientId;
use crate::server::{batch_view, ApiRequestView, ReplicaId, ReqBatch};
use vstd::prelude::*;

verus! {

/// Term number type, defined for better code readability.
pub type Term = u64;

/// Replica role type.
#[derive(Debug, Clone, Copy, PartialEq, Eq, Structural)]
pub enum Role {
    Follower,
    Candidate,
    Leader,
}

/// Reply to an AppendEntries message.
#[derive(Debug, Clone, Copy, PartialEq, Eq, Structural)]
pub struct AppendEntriesReply {
    /// The term of the replica that replies.
    pub term: Term,
    /// Whether the entries were taken into the log.
    pub success: bool,
    /// On success, the slot up to which the log now matches the leader's.
    pub match_slot: Option<usize>,
    /// On a mismatch, the slot from which the leader is to send again.
    pub conflict_slot: Option<usize>,
    /// On a mismatch, the term of the entry that did not match, or 0 if
    /// the log has no entry there.
    pub conflict_term: Option<Term>,
}

/// What a handler asks the replica's driver to do.
#[derive(Debug, Clone, Copy, PartialEq, Eq, Structural)]
pub enum Action {
    /// Heartbeater: the leader was heard from; restart the hear timer.
    HeardHeartbeat { peer: ReplicaId },
    /// Log store: write the term and the vote to the head of the durable
    /// log and wait until that is done.
    PersistMeta { term: Term, voted_for: Option<ReplicaId> },
    /// Log store: cut the durable log before the entry of this slot, which
    /// stands at this offset.
    TruncateLog { slot: usize, offset: usize },
    /// Log store: append the entry that the log holds at this slot and
    /// wait until that is done.
    PersistEntry { slot: usize },
    /// State machine: execute the commands of the entry at this slot.
    ExecEntry { slot: usize },
    /// Transport: answer a RequestVote message.
    SendVoteReply { peer: ReplicaId, term: Term, granted: bool },
    /// Transport: answer an AppendEntries message.
    SendAppendReply { peer: ReplicaId, reply: AppendEntriesReply },
}

impl Action {
    /// Whether carrying out the action writes to disk.
    pub open spec fn is_durable(self) -> bool {
        self is PersistMeta || self is TruncateLog || self is PersistEntry
    }

    /// Whether carrying out the action tells a peer that something was
    /// accepted: a vote granted, or entries taken into the log.
    pub open spec fn is_ack(self) -> bool {
        ||| self matches Action::SendVoteReply { granted: true, .. }
        ||| self matches Action::SendAppendReply { reply, .. } && reply.success
    }
}

/// In-mem + persistent entry of log, containing a term and a commands batch.
#[derive(Debug, PartialEq, Eq)]
pub struct LogEntry {
    /// Term number.
    pub term: Term,
    /// Batch of client requests.
    pub reqs: ReqBatch,
    /// True if from external client, else false.
    pub external: bool,
    /// Offset in durable log file of this entry. This field is not
    /// maintained in durable storage itself, where it is typically 0.
    pub log_offset: usize,
}

/// A log entry as a mathematical value.
pub struct LogEntryView {
    pub term: Term,
    pub reqs: Seq<(ClientId, ApiRequestView)>,
    pub external: bool,
    pub log_offset: usize,
}

impl View for LogEntry {
    type V = LogEntryView;

    open spec fn view(&self) -> LogEntryView {
        LogEntryView {
            term: self.term,
            reqs: batch_view(self.reqs@),
            external: self.external,
            log_offset: self.log_offset,
        }
    }
}

/// A log as a sequence of mathematical values.
pub open spec fn log_view(log: Seq<LogEntry>) -> Seq<LogEntryView> {
    log.map_values(|entry: LogEntry| entry@)
}

/// Raft server replica module: the replica's own state.
#[derive(Debug, PartialEq, Eq)]
pub struct RaftReplica {
    /// Replica ID in cluster.
    pub id: ReplicaId,
    /// Total number of replicas in cluster.
    pub population: u8,
    /// Which role am I in right now?
    pub role: Role,
    /// Who do I think is the effective leader of the cluster right now?
    pub leader: Option<ReplicaId>,
    /// Latest term seen.
    pub curr_term: Term,
    /// Candidate ID that I voted for in current term.
    pub voted_for: Option<ReplicaId>,
    /// In-memory log of entries, the first of them at `start_slot`.
    pub log: Vec<LogEntry>,
    /// Start slot index of in-mem log after latest snapshot.
    pub start_slot: usize,
    /// Slot index of highest log entry known to be committed.
    pub last_commit: usize,
    /// Slot index of highest log entry applied to state machine.
    pub last_exec: usize,
    /// Slot index up to which it is safe to take snapshot.
    pub last_snap: usize,
}

/// The state of a replica as a mathematical value.
pub struct RaftView {
    pub id: ReplicaId,
    pub population: u8,
    pub role: Role,
    pub leader: Option<ReplicaId>,
    pub curr_term: Term,
    pub voted_for: Option<ReplicaId>,
    pub log: Seq<LogEntryView>,
    pub start_slot: usize,
    pub last_commit: usize,
    pub last_exec: usize,
    pub last_snap: usize,
}

impl View for RaftReplica {
    type V = RaftView;

    open spec fn view(&self) -> RaftView {
        RaftView {
            id: self.id,
            population: self.population,
            role: self.role,
            leader: self.leader,
            curr_term: self.curr_term,
            voted_for: self.voted_for,
            log: log_view(self.log@),
            start_slot: self.start_slot,
            last_commit: self.last_commit,
            last_exec: self.last_exec,
            last_snap: self.last_snap,
        }
    }
}

impl RaftReplica {
    /// Whether the state is one that a replica can be in: see
    /// [`RaftView::inv`].
    pub fn is_valid(&self) -> (valid: bool)
        ensures
            valid == self@.inv(),
    {
        self.id < self.population && self.log.len() >= 1 && self.start_slot <= self.last_snap
            && self.last_snap
            <= self.last_exec && self.last_exec <= self.last_commit && self.last_commit
            - self.start_slot <= self.log.len() && usize::MAX - self.start_slot >= self.log.len()
    }
}

impl RaftView {
    /// What holds of the state of every replica: its ID is one of the
    /// cluster's, the log is not empty (its first entry is a dummy that
    /// stands for what came before), and the watermarks are in order
    /// within the log.
    pub open spec fn inv(self) -> bool {
        &&& self.id < self.population
        &&& self.log.len() >= 1
        &&& self.start_slot <= self.last_snap <= self.last_exec <= self.last_commit
            <= self.start_slot + self.log.len() <= usize::MAX
    }

    /// The slot of the last entry of the log.
    pub open spec fn last_slot(self) -> int {
        self.start_slot + self.log.len() - 1
    }

    /// No term or watermark of `next` lies below that of `self`.
    pub open spec fn not_after(self, next: RaftView) -> bool {
        &&& self.curr_term <= next.curr_term
        &&& self.start_slot <= next.start_slot
        &&& self.last_commit <= next.last_commit
        &&& self.last_exec <= next.last_exec
        &&& self.last_snap <= next.last_snap
    }
}

} // verus!
