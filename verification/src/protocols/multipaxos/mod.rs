//! Replication protocol: MultiPaxos.
//!
//! The replica is a value: each handler takes what happened, moves the
//! replica to its next state and returns the actions that its driver is to
//! carry out, in order, on the log store, the transport and the client API.

pub mod accept;
pub mod leaderlease;
pub mod request;

use crate::client::ClientId;
use crate::server::{
    batch_view, ApiReply, ApiReplyView, ApiRequestView, LeaseMsg, LeaseNum, LogActionId,
    ReplicaId, ReqBatch, RequestId,
};
use crate::utils::bitmap::Bitmap;
use vstd::prelude::*;

verus! {

/// Ballot number type. Use 0 as a null ballot number.
pub type Ballot = u64;

/// Configuration parameters struct.
#[derive(Debug, Clone, Copy, PartialEq, Eq, Structural)]
pub struct ReplicaConfigMultiPaxos {
    /// Whether to call `fsync()`/`fdatasync()` on logger.
    pub logger_sync: bool,
    /// Whether the leader reads locally while a majority holds its lease.
    pub enable_leader_leases: bool,
    /// Serve reads locally regardless of leases; for benchmarking only.
    pub sim_read_lease: bool,
}

/// Instance status enum, in the order in which an instance goes through
/// them.
#[derive(Debug, Clone, Copy, PartialEq, Eq, Structural)]
pub enum Status {
    Null,
    Preparing,
    Accepting,
    Committed,
    Executed,
}

impl Status {
    /// Whether the instance has been chosen: it is committed or executed.
    pub open spec fn spec_is_committed(self) -> bool {
        self == Status::Committed || self == Status::Executed
    }

    /// Whether the instance has been chosen: it is committed or executed.
    #[verifier::when_used_as_spec(spec_is_committed)]
    pub fn is_committed(self) -> (r: bool)
        ensures
            r == self.spec_is_committed(),
    {
        match self {
            Status::Committed | Status::Executed => true,
            _ => false,
        }
    }
}

/// Leader-side bookkeeping info for each instance initiated.
#[derive(Debug, PartialEq, Eq)]
pub struct LeaderBookkeeping {
    /// If in Preparing status, the trigger_slot of this Prepare phase.
    pub trigger_slot: usize,
    /// If in Preparing status, the upper bound slot of this Prepare phase.
    pub endprep_slot: usize,
    /// Replicas from which I have received Prepare confirmations.
    pub prepare_acks: Bitmap,
    /// Max ballot among received Prepare replies.
    pub prepare_max_bal: Ballot,
    /// Replicas from which I have received Accept confirmations.
    pub accept_acks: Bitmap,
}

/// Leader-side bookkeeping as a mathematical value.
pub struct LeaderBookkeepingView {
    pub trigger_slot: usize,
    pub endprep_slot: usize,
    pub prepare_acks: Seq<bool>,
    pub prepare_max_bal: Ballot,
    pub accept_acks: Seq<bool>,
}

impl View for LeaderBookkeeping {
    type V = LeaderBookkeepingView;

    open spec fn view(&self) -> LeaderBookkeepingView {
        LeaderBookkeepingView {
            trigger_slot: self.trigger_slot,
            endprep_slot: self.endprep_slot,
            prepare_acks: self.prepare_acks@,
            prepare_max_bal: self.prepare_max_bal,
            accept_acks: self.accept_acks@,
        }
    }
}

/// Follower-side bookkeeping info for each instance received.
#[derive(Debug, Clone, Copy, PartialEq, Eq, Structural)]
pub struct ReplicaBookkeeping {
    /// Source leader replica ID for replying to Prepares and Accepts.
    pub source: ReplicaId,
}

/// In-memory instance containing a complete commands batch.
#[derive(Debug, PartialEq, Eq)]
pub struct Instance {
    /// Ballot number.
    pub bal: Ballot,
    /// Instance status.
    pub status: Status,
    /// Batch of client requests.
    pub reqs: ReqBatch,
    /// Highest ballot and associated value I have accepted.
    pub voted: (Ballot, ReqBatch),
    /// Leader-side bookkeeping info.
    pub leader_bk: Option<LeaderBookkeeping>,
    /// Follower-side bookkeeping info.
    pub replica_bk: Option<ReplicaBookkeeping>,
    /// True if from external client, else false.
    pub external: bool,
}

/// An instance as a mathematical value.
pub struct InstanceView {
    pub bal: Ballot,
    pub status: Status,
    pub reqs: Seq<(ClientId, ApiRequestView)>,
    pub voted: (Ballot, Seq<(ClientId, ApiRequestView)>),
    pub leader_bk: Option<LeaderBookkeepingView>,
    pub replica_bk: Option<ReplicaBookkeeping>,
    pub external: bool,
}

impl View for Instance {
    type V = InstanceView;

    open spec fn view(&self) -> InstanceView {
        InstanceView {
            bal: self.bal,
            status: self.status,
            reqs: batch_view(self.reqs@),
            voted: (self.voted.0, batch_view(self.voted.1@)),
            leader_bk: match self.leader_bk {
                Some(bk) => Some(bk@),
                None => None,
            },
            replica_bk: self.replica_bk,
            external: self.external,
        }
    }
}

/// The instances of a replica as mathematical values.
pub open spec fn insts_view(insts: Seq<Instance>) -> Seq<InstanceView> {
    insts.map_values(|inst: Instance| inst@)
}

/// What a handler asks the replica's driver to do.
#[derive(Debug, PartialEq, Eq)]
pub enum Action {
    /// Send a reply to a client through the external API.
    SendReply { reply: ApiReply, client: ClientId },
    /// Run a read of `key` through the state machine at once, out of the
    /// log, and reply to the client with what it returns.
    ExecRead { id: RequestId, key: String, client: ClientId },
    /// Append an accepted batch to the durable log.
    LogAccept { slot: usize, ballot: Ballot, reqs: ReqBatch, sync: bool },
    /// Broadcast an Accept message to all peers.
    BcastAccept { slot: usize, ballot: Ballot, reqs: ReqBatch },
    /// Append the record that a slot is committed to the durable log.
    LogCommit { slot: usize, sync: bool },
    /// Hand the commands of the instance at a slot to the state machine.
    ExecSlot { slot: usize },
    /// Send a lease message to a peer on the lease lane of `purpose`.
    SendLeaseMsg { purpose: usize, lease_num: LeaseNum, msg: LeaseMsg, peer: ReplicaId },
    /// Broadcast a lease message to a set of peers on the lease lane of
    /// `purpose`.
    BcastLeaseMsgs { purpose: usize, lease_num: LeaseNum, msg: LeaseMsg, peers: Bitmap },
    /// Broadcast a heartbeat to all peers.
    BcastHeartbeat { ballot: Ballot, commit_bar: usize, exec_bar: usize, snap_bar: usize },
}

/// An action as a mathematical value.
pub enum ActionView {
    SendReply { reply: ApiReplyView, client: ClientId },
    ExecRead { id: RequestId, key: Seq<char>, client: ClientId },
    LogAccept { slot: usize, ballot: Ballot, reqs: Seq<(ClientId, ApiRequestView)>, sync: bool },
    BcastAccept { slot: usize, ballot: Ballot, reqs: Seq<(ClientId, ApiRequestView)> },
    LogCommit { slot: usize, sync: bool },
    ExecSlot { slot: usize },
    SendLeaseMsg { purpose: usize, lease_num: LeaseNum, msg: LeaseMsg, peer: ReplicaId },
    BcastLeaseMsgs { purpose: usize, lease_num: LeaseNum, msg: LeaseMsg, peers: Seq<bool> },
    BcastHeartbeat { ballot: Ballot, commit_bar: usize, exec_bar: usize, snap_bar: usize },
}

impl View for Action {
    type V = ActionView;

    open spec fn view(&self) -> ActionView {
        match self {
            Action::SendReply { reply, client } => ActionView::SendReply {
                reply: reply@,
                client: *client,
            },
            Action::ExecRead { id, key, client } => ActionView::ExecRead {
                id: *id,
                key: key@,
                client: *client,
            },
            Action::LogAccept { slot, ballot, reqs, sync } => ActionView::LogAccept {
                slot: *slot,
                ballot: *ballot,
                reqs: batch_view(reqs@),
                sync: *sync,
            },
            Action::BcastAccept { slot, ballot, reqs } => ActionView::BcastAccept {
                slot: *slot,
                ballot: *ballot,
                reqs: batch_view(reqs@),
            },
            Action::LogCommit { slot, sync } => ActionView::LogCommit { slot: *slot, sync: *sync },
            Action::ExecSlot { slot } => ActionView::ExecSlot { slot: *slot },
            Action::SendLeaseMsg { purpose, lease_num, msg, peer } => ActionView::SendLeaseMsg {
                purpose: *purpose,
                lease_num: *lease_num,
                msg: *msg,
                peer: *peer,
            },
            Action::BcastLeaseMsgs { purpose, lease_num, msg, peers } => ActionView::BcastLeaseMsgs {
                purpose: *purpose,
                lease_num: *lease_num,
                msg: *msg,
                peers: peers@,
            },
            Action::BcastHeartbeat { ballot, commit_bar, exec_bar, snap_bar } => {
                ActionView::BcastHeartbeat {
                    ballot: *ballot,
                    commit_bar: *commit_bar,
                    exec_bar: *exec_bar,
                    snap_bar: *snap_bar,
                }
            },
        }
    }
}

/// A list of actions as mathematical values.
pub open spec fn actions_view(actions: Seq<Action>) -> Seq<ActionView> {
    actions.map_values(|action: Action| action@)
}

/// The view of a list of actions grows with the list.
pub proof fn lemma_actions_view_push(actions: Seq<Action>, last: Action)
    ensures
        actions_view(actions.push(last)) == actions_view(actions).push(last@),
{
    assert(actions_view(actions.push(last)) =~= actions_view(actions).push(last@));
}

/// MultiPaxos server replica module: the replica's own state.
#[derive(Debug, PartialEq, Eq)]
pub struct MultiPaxosReplica {
    /// Replica ID in cluster.
    pub id: ReplicaId,
    /// Total number of replicas in cluster.
    pub population: u8,
    /// Majority quorum size.
    pub quorum_cnt: u8,
    /// Configuration parameters struct.
    pub config: ReplicaConfigMultiPaxos,
    /// Who do I think is the effective leader of the cluster right now?
    pub leader: Option<ReplicaId>,
    /// Largest ballot number that a leader has sent Prepare messages in.
    pub bal_prepared: Ballot,
    /// Largest ballot number seen as acceptor.
    pub bal_max_seen: Ballot,
    /// In-memory log of instances, the first of them at `start_slot`.
    pub insts: Vec<Instance>,
    /// Start slot index of in-mem log after latest snapshot.
    pub start_slot: usize,
    /// Index of the first non-committed instance.
    pub commit_bar: usize,
    /// Index of the first non-executed instance.
    pub exec_bar: usize,
    /// Index of the first instance not covered by the latest snapshot.
    pub snap_bar: usize,
    /// Highest slot that a peer is known to have accepted.
    pub peer_accept_max: usize,
}

/// The state of a replica as a mathematical value.
pub struct MultiPaxosView {
    pub id: ReplicaId,
    pub population: u8,
    pub quorum_cnt: u8,
    pub config: ReplicaConfigMultiPaxos,
    pub leader: Option<ReplicaId>,
    pub bal_prepared: Ballot,
    pub bal_max_seen: Ballot,
    pub insts: Seq<InstanceView>,
    pub start_slot: usize,
    pub commit_bar: usize,
    pub exec_bar: usize,
    pub snap_bar: usize,
    pub peer_accept_max: usize,
}

impl View for MultiPaxosReplica {
    type V = MultiPaxosView;

    open spec fn view(&self) -> MultiPaxosView {
        MultiPaxosView {
            id: self.id,
            population: self.population,
            quorum_cnt: self.quorum_cnt,
            config: self.config,
            leader: self.leader,
            bal_prepared: self.bal_prepared,
            bal_max_seen: self.bal_max_seen,
            insts: insts_view(self.insts@),
            start_slot: self.start_slot,
            commit_bar: self.commit_bar,
            exec_bar: self.exec_bar,
            snap_bar: self.snap_bar,
            peer_accept_max: self.peer_accept_max,
        }
    }
}

impl MultiPaxosView {
    /// What holds of the state of every replica: its ID is one of the
    /// cluster's, a quorum is a majority, and the watermarks are in order
    /// within the log.
    pub open spec fn inv(self) -> bool {
        &&& self.id < self.population
        &&& self.quorum_cnt == self.population / 2 + 1
        &&& self.start_slot <= self.snap_bar <= self.exec_bar <= self.commit_bar
            <= self.start_slot + self.insts.len() <= usize::MAX
    }

    /// Do I think I am the current effective leader?
    pub open spec fn is_leader(self) -> bool {
        self.leader == Some(self.id)
    }
}

/// The number that stands for a kind of log record in a log action ID: the
/// status that an instance has when the record is written.
pub open spec fn entry_type_num(entry_type: Status) -> u64 {
    match entry_type {
        Status::Preparing => 1,
        Status::Accepting => 2,
        Status::Committed => 3,
        _ => 0,
    }
}

/// The log action ID of a record: the slot, and in the lowest two bits the
/// kind of the record.
pub open spec fn log_action_id(slot: usize, entry_type: Status) -> LogActionId {
    ((slot as u64) << 2) | entry_type_num(entry_type)
}

impl MultiPaxosReplica {
    /// Compose LogActionId from slot index & entry type. The status of an
    /// instance stands for the kind of the record; only a record of the
    /// Prepare, the Accept or the Commit phase has an ID.
    pub fn make_log_action_id(slot: usize, entry_type: Status) -> (id: LogActionId)
        requires
            entry_type is Preparing || entry_type is Accepting || entry_type is Committed,
        ensures
            id == log_action_id(slot, entry_type),
            slot < 0x4000_0000_0000_0000 ==> id == slot * 4 + entry_type_num(entry_type),
    {
        let type_num: u64 = match entry_type {
            Status::Preparing => 1,
            Status::Accepting => 2,
            _ => 3,
        };
        let high: u64 = slot as u64;
        assert(high < 0x4000_0000_0000_0000 && type_num < 4 ==> ((high << 2) | type_num) == high
            * 4 + type_num) by (bit_vector);
        (high << 2) | type_num
    }

    /// Whether the state is one that a replica can be in: see
    /// [`MultiPaxosView::inv`]. Code that is not verified checks this
    /// before it calls a handler that asks for it.
    pub fn is_valid(&self) -> (valid: bool)
        ensures
            valid == self@.inv(),
    {
        self.id < self.population && self.quorum_cnt == self.population / 2 + 1 && self.start_slot
            <= self.snap_bar && self.snap_bar <= self.exec_bar && self.exec_bar <= self.commit_bar
            && self.commit_bar - self.start_slot <= self.insts.len() && usize::MAX
            - self.start_slot >= self.insts.len()
    }

    /// Do I think I am the current effective leader?
    pub fn is_leader(&self) -> (r: bool)
        ensures
            r == self@.is_leader(),
    {
        match self.leader {
            Some(leader) => leader == self.id,
            None => false,
        }
    }
}

} // verus!
