//! MultiPaxos -- lease-related operations.

use crate::protocols::multipaxos::{
    actions_view, lemma_actions_view_push, Action, ActionView, MultiPaxosReplica, MultiPaxosView,
};
use crate::server::{LeaseAction, LeaseActionView, LeaseNum, ReplicaId};
use crate::utils::bitmap::Bitmap;
use crate::utils::error::SummersetError;
use vstd::prelude::*;

verus! {

/// Whether a lease action may mean that the set of peers that this replica
/// grants a lease to has shrunk.
pub open spec fn may_shrink_grants(lease_action: LeaseActionView) -> bool {
    lease_action is GrantRemoved || lease_action is GrantTimeout || lease_action is HigherNumber
}

/// The traffic that a lease action asks for, on the one lease lane there
/// is: that of purpose 0.
pub open spec fn lease_traffic(lease_num: LeaseNum, lease_action: LeaseActionView) -> Seq<
    ActionView,
> {
    match lease_action {
        LeaseActionView::SendLeaseMsg { peer, msg } => seq![
            ActionView::SendLeaseMsg { purpose: 0, lease_num, msg, peer },
        ],
        LeaseActionView::BcastLeaseMsgs { peers, msg } => seq![
            ActionView::BcastLeaseMsgs { purpose: 0, lease_num, msg, peers },
        ],
        _ => Seq::empty(),
    }
}

/// A lease event as a mathematical value.
pub open spec fn event_view(event: Option<(LeaseNum, LeaseAction)>) -> Option<
    (LeaseNum, LeaseActionView),
> {
    match event {
        Some((lease_num, lease_action)) => Some((lease_num, lease_action@)),
        None => None,
    }
}

/// Whether a step of the wait for a revoked lease looks at the grant set:
/// it does at the start of the wait and after a lease action that may have
/// shrunk the set.
pub open spec fn looks_at_grants(event: Option<(LeaseNum, LeaseActionView)>) -> bool {
    match event {
        Some((_, lease_action)) => may_shrink_grants(lease_action),
        None => true,
    }
}

impl MultiPaxosView {
    /// Whether this replica is a stable, majority-leased, up-to-date
    /// leader. Unlike on the request path, the leader itself is not
    /// counted towards the quorum of lease holders here.
    pub open spec fn is_stable_leader(self, lease_cnt: u8) -> bool {
        self.is_leader() && self.bal_prepared > 0 && ((self.config.enable_leader_leases
            && self.bal_max_seen == self.bal_prepared && lease_cnt >= self.quorum_cnt
            && self.commit_bar >= self.peer_accept_max) || self.config.sim_read_lease)
    }

    /// The heartbeat that a leader broadcasts while it waits on its lease
    /// manager.
    pub open spec fn heartbeat(self) -> ActionView {
        ActionView::BcastHeartbeat {
            ballot: self.bal_max_seen,
            commit_bar: self.commit_bar,
            exec_bar: self.exec_bar,
            snap_bar: self.snap_bar,
        }
    }

    /// One step of waiting until no lease is granted to `peer` any more:
    /// whether the wait is over, and what the driver is to do.
    ///
    /// At the start of the wait (`event` is `None`) nothing is done, and
    /// the wait is over if `peer` is not in the grant set. A lease action
    /// that may have shrunk the grant set has the set looked at again. Any
    /// other has its traffic sent, followed by a heartbeat to all peers so
    /// that they do not starve while leases run out, and the wait goes on.
    pub open spec fn step_ensure_lease_revoked(
        self,
        peer: ReplicaId,
        grant_set: Seq<bool>,
        event: Option<(LeaseNum, LeaseActionView)>,
    ) -> (bool, Seq<ActionView>) {
        match event {
            Some((lease_num, lease_action)) if !looks_at_grants(event) => (
                false,
                lease_traffic(lease_num, lease_action).push(self.heartbeat()),
            ),
            _ => (!grant_set[peer as int], Seq::empty()),
        }
    }
}

impl MultiPaxosReplica {
    /// Checks if I'm a stable, majority-leased, up-to-date leader.
    ///
    /// `lease_cnt` is the number of peers that hold a lease of this
    /// replica, as its lease manager counts them.
    pub fn is_stable_leader(&self, lease_cnt: u8) -> (r: bool)
        ensures
            r == self@.is_stable_leader(lease_cnt),
    {
        self.is_leader() && self.bal_prepared > 0 && ((self.config.enable_leader_leases
            && self.bal_max_seen == self.bal_prepared && lease_cnt >= self.quorum_cnt
            && self.commit_bar >= self.peer_accept_max)
        // [for benchmarking purposes only]
         || self.config.sim_read_lease)
    }

    /// Wait on lease actions until I'm sure I'm no longer granting to a peer.
    ///
    /// This is one step of that wait. The driver calls it with no event
    /// first, and then with each lease action that its lease manager hands
    /// out, together with the grant set as it is after that action, until
    /// the answer is true. Fails where the grant set has to be looked at
    /// and has no slot for `peer`.
    pub fn ensure_lease_revoked(
        &self,
        peer: ReplicaId,
        grant_set: &Bitmap,
        event: Option<(LeaseNum, LeaseAction)>,
    ) -> (r: Result<(bool, Vec<Action>), SummersetError>)
        ensures
            match r {
                Ok((revoked, actions)) => {
                    &&& !looks_at_grants(event_view(event)) || peer < grant_set@.len()
                    &&& (revoked, actions_view(actions@)) == self@.step_ensure_lease_revoked(
                        peer,
                        grant_set@,
                        event_view(event),
                    )
                },
                Err(e) => {
                    &&& looks_at_grants(event_view(event)) && peer >= grant_set@.len()
                    &&& e == (SummersetError::IndexOutOfBound { idx: peer })
                },
            },
    {
        if let Some((lease_num, lease_action)) = event {
            let (shrunk, mut actions) = self.handle_lease_action(lease_num, lease_action);
            if !shrunk {
                // promptively broadcast heartbeats here to prevent temporary
                // starving due to possibly having to wait on lease expirations
                let heartbeat = Action::BcastHeartbeat {
                    ballot: self.bal_max_seen,
                    commit_bar: self.commit_bar,
                    exec_bar: self.exec_bar,
                    snap_bar: self.snap_bar,
                };
                proof {
                    lemma_actions_view_push(actions@, heartbeat);
                }
                actions.push(heartbeat);
                return Ok((false, actions));
            }
        }
        // grant_set might have shrunk, re-check

        match grant_set.get(peer) {
            Ok(granted) => {
                let actions: Vec<Action> = Vec::new();
                assert(actions_view(actions@) =~= Seq::empty());
                Ok((!granted, actions))
            },
            Err(e) => Err(e),
        }
    }

    /// Synthesized handler of lease-related actions from LeaseManager.
    /// Returns true if this action is a possible indicator that the grant_set
    /// shrunk; otherwise returns false. With it come the messages that the
    /// driver is to send.
    pub fn handle_lease_action(&self, lease_num: LeaseNum, lease_action: LeaseAction) -> (r: (
        bool,
        Vec<Action>,
    ))
        ensures
            r.0 == may_shrink_grants(lease_action@),
            actions_view(r.1@) == lease_traffic(lease_num, lease_action@),
    {
        let mut actions: Vec<Action> = Vec::new();
        assert(actions_view(actions@) =~= Seq::empty());
        match lease_action {
            LeaseAction::SendLeaseMsg { peer, msg } => {
                actions.push(
                    Action::SendLeaseMsg {
                        purpose: 0,  // only one lease purpose exists in the system
                        lease_num,
                        msg,
                        peer,
                    },
                );
                assert(actions_view(actions@) =~= lease_traffic(lease_num, lease_action@));
                (false, actions)
            },
            LeaseAction::BcastLeaseMsgs { peers, msg } => {
                actions.push(
                    Action::BcastLeaseMsgs {
                        purpose: 0,  // only one lease purpose exists in the system
                        lease_num,
                        msg,
                        peers,
                    },
                );
                assert(actions_view(actions@) =~= lease_traffic(lease_num, lease_action@));
                (false, actions)
            },
            LeaseAction::GrantRemoved { .. }
            | LeaseAction::GrantTimeout { .. }
            | LeaseAction::HigherNumber => {
                // tell revoker that it might want to double check grant_set
                (true, actions)
            },
            _ => {
                // nothing special protocol-specific to do for other actions
                (false, actions)
            },
        }
    }
}

} // verus!
