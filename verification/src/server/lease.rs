//! What the lease manager asks the replica to do.

use crate::server::ReplicaId;
use crate::utils::bitmap::Bitmap;
use vstd::prelude::*;

verus! {

/// Monotonically non-decreasing lease number type.
pub type LeaseNum = u64;

/// Lease-related peer-to-peer messages, carried on the lease lane.
#[derive(Debug, Clone, Copy, PartialEq, Eq, Structural)]
pub enum LeaseMsg {
    /// A grantor offers a lease that runs out at `expiry`.
    LeaseGrant { num: LeaseNum, expiry: u64 },
    /// A grantor takes a lease back.
    LeaseRevoke { num: LeaseNum },
    /// A grantee accepts a lease.
    LeasePromise { num: LeaseNum },
    /// A grantor extends a lease.
    LeaseRefresh { num: LeaseNum },
}

/// Actions that the lease manager hands to the replica.
#[derive(Debug, PartialEq, Eq)]
pub enum LeaseAction {
    /// Send a lease message to a peer.
    SendLeaseMsg { peer: ReplicaId, msg: LeaseMsg },
    /// Broadcast a lease message to a set of peers.
    BcastLeaseMsgs { peers: Bitmap, msg: LeaseMsg },
    /// The lease granted to a peer has run out.
    GrantTimeout { peer: ReplicaId },
    /// The grant to a peer was revoked explicitly.
    GrantRemoved { peer: ReplicaId },
    /// A higher lease number was observed.
    HigherNumber,
    /// Scheduling hint: when the next lease runs out.
    NextExpiration { when: u64 },
}

/// A lease action as a mathematical value.
pub enum LeaseActionView {
    SendLeaseMsg { peer: ReplicaId, msg: LeaseMsg },
    BcastLeaseMsgs { peers: Seq<bool>, msg: LeaseMsg },
    GrantTimeout { peer: ReplicaId },
    GrantRemoved { peer: ReplicaId },
    HigherNumber,
    NextExpiration { when: u64 },
}

impl View for LeaseAction {
    type V = LeaseActionView;

    open spec fn view(&self) -> LeaseActionView {
        match self {
            LeaseAction::SendLeaseMsg { peer, msg } => LeaseActionView::SendLeaseMsg {
                peer: *peer,
                msg: *msg,
            },
            LeaseAction::BcastLeaseMsgs { peers, msg } => LeaseActionView::BcastLeaseMsgs {
                peers: peers@,
                msg: *msg,
            },
            LeaseAction::GrantTimeout { peer } => LeaseActionView::GrantTimeout { peer: *peer },
            LeaseAction::GrantRemoved { peer } => LeaseActionView::GrantRemoved { peer: *peer },
            LeaseAction::HigherNumber => LeaseActionView::HigherNumber,
            LeaseAction::NextExpiration { when } => LeaseActionView::NextExpiration { when: *when },
        }
    }
}

} // verus!
