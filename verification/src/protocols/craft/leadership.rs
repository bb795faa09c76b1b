//! CRaft -- leader election.

use crate::protocols::craft::{Action, CRaftReplica, CRaftView};
use crate::protocols::raft::{log_view, LogEntry, LogEntryView, Role, Term};
use crate::server::{LogResult, ReplicaId};
use crate::utils::bitmap::{count_true, Bitmap};
use crate::utils::error::SummersetError;
use std::collections::{HashMap, HashSet};
use vstd::prelude::*;

verus! {

/// Whether the log store reports that the term and the vote were written.
pub open spec fn meta_written(result: LogResult) -> bool {
    result matches LogResult::Write { offset_ok: true, .. }
}

impl CRaftView {
    /// What the heartbeater is to do when a heartbeat of `peer` is heard:
    /// count it, unless it is this replica's own, and restart the hear
    /// timer, unless the timer is disabled.
    pub open spec fn heard_heartbeat(self, peer: ReplicaId) -> Seq<Action> {
        (if peer != self.id {
            seq![Action::UpdateHeardCnt { peer }]
        } else {
            Seq::empty()
        }) + (if !self.config.disable_hb_timer {
            seq![Action::KickoffHearTimer { peer }]
        } else {
            Seq::empty()
        })
    }

    /// The state after a message of `peer` with `term` was seen, and what
    /// the driver is to do.
    ///
    /// A term above the replica's own is adopted: the vote and the votes
    /// granted are cleared, `peer` becomes the known leader, the hear timer
    /// is refreshed, and the term and the vote are written to disk. Any
    /// other term changes nothing.
    pub open spec fn step_check_term(self, peer: ReplicaId, term: Term) -> (CRaftView, Seq<Action>) {
        if term > self.curr_term {
            (
                CRaftView {
                    curr_term: term,
                    voted_for: None,
                    votes_granted: Set::empty(),
                    leader: Some(peer),
                    ..self
                },
                self.heard_heartbeat(peer).push(
                    Action::PersistMeta { term, voted_for: None, sync: self.config.logger_sync },
                ),
            )
        } else {
            (self, Seq::empty())
        }
    }

    /// The state after the log store has answered the write of a newly
    /// adopted term, whether the replica has stepped down by it, and what
    /// the driver is to do.
    ///
    /// A failed write is an error. After a good one, a replica that was no
    /// follower becomes one: it stops sending heartbeats and reports to
    /// the manager that it has stepped down.
    pub open spec fn step_term_persisted(self, result: LogResult) -> (
        CRaftView,
        Result<(bool, Seq<Action>), SummersetError>,
    ) {
        if !meta_written(result) {
            (self, Err(SummersetError::UnexpectedLogResult))
        } else if self.role != Role::Follower {
            (
                CRaftView { role: Role::Follower, ..self },
                Ok(
                    (
                        true,
                        seq![
                            Action::SetSending { sending: false },
                            Action::ReportLeaderStatus { step_up: false },
                        ],
                    ),
                ),
            )
        } else {
            (self, Ok((false, Seq::empty())))
        }
    }

    /// Whether the replica may stand for election when the hear timer of
    /// `timeout_source` fires: it is a follower, it knows of no leader
    /// other than the one that timed out, and stepping up is allowed.
    pub open spec fn may_stand(self, timeout_source: ReplicaId) -> bool {
        &&& self.role == Role::Follower
        &&& self.leader matches Some(leader) ==> leader == timeout_source
        &&& !self.config.disallow_step_up
    }

    /// The state after the hear timer of `timeout_source` has fired, and
    /// what the driver is to do.
    ///
    /// A replica that may stand becomes a candidate of the next term and
    /// votes for itself. It restarts its hear timer, asks all peers for
    /// their votes, naming the slot and the term of its last log entry, and
    /// writes the term and the vote to disk. Where no next term exists,
    /// nothing changes and the step fails.
    pub open spec fn step_become_a_candidate(self, timeout_source: ReplicaId) -> (
        CRaftView,
        Result<Seq<Action>, SummersetError>,
    ) {
        if !self.may_stand(timeout_source) {
            (self, Ok(Seq::empty()))
        } else if self.curr_term == u64::MAX {
            (self, Err(SummersetError::CountOverflow))
        } else {
            let term = (self.curr_term + 1) as Term;
            (
                CRaftView {
                    role: Role::Candidate,
                    curr_term: term,
                    voted_for: Some(self.id),
                    votes_granted: Set::empty().insert(self.id),
                    ..self
                },
                Ok(
                    self.heard_heartbeat(self.id).push(
                        Action::BcastRequestVote {
                            term,
                            last_slot: self.last_slot() as usize,
                            last_term: self.log.last().term,
                        },
                    ).push(
                        Action::PersistMeta {
                            term,
                            voted_for: Some(self.id),
                            sync: self.config.logger_sync,
                        },
                    ),
                ),
            )
        }
    }

    /// Whether a round of heartbeats can be made up: the log is not empty,
    /// its slots have numbers, and a slot to try next is kept for each
    /// peer.
    pub open spec fn can_heartbeat(self) -> bool {
        &&& self.log.len() >= 1
        &&& self.start_slot + self.log.len() <= usize::MAX
        &&& forall|peer: ReplicaId|
            self.peers().contains(peer) ==> self.try_next_slot.contains_key(peer)
    }

    /// Whether `peer` lags behind the start of the log: the entry before
    /// the one to try next for it has been compacted away.
    pub open spec fn lags_behind_log(self, peer: ReplicaId) -> bool {
        self.try_next_slot[peer] <= self.start_slot
    }

    /// The heartbeat for `peer`: it names the entry before the one to try
    /// next for that peer, or the last entry of the log if that comes
    /// first. A peer that lags behind the start of the log is sent the
    /// snapshot in its place.
    pub open spec fn heartbeat_to(self, peer: ReplicaId) -> Action {
        if self.lags_behind_log(peer) {
            Action::InstallSnapshot { peer, term: self.curr_term, last_snap: self.last_snap }
        } else {
            let prev_slot = if self.try_next_slot[peer] - 1 < self.last_slot() {
                self.try_next_slot[peer] - 1
            } else {
                self.last_slot()
            };
            Action::SendHeartbeat {
                peer,
                term: self.curr_term,
                prev_slot: prev_slot as usize,
                prev_term: self.log[prev_slot - self.start_slot].term,
                leader_commit: self.last_commit,
                last_snap: self.last_snap,
            }
        }
    }

    /// The heartbeats for the peers with an ID below `upto`, by rising ID.
    pub open spec fn heartbeats(self, upto: nat) -> Seq<Action>
        decreases upto,
    {
        if upto == 0 {
            Seq::empty()
        } else if upto - 1 == self.id {
            self.heartbeats((upto - 1) as nat)
        } else {
            self.heartbeats((upto - 1) as nat).push(self.heartbeat_to((upto - 1) as ReplicaId))
        }
    }

    /// What the driver is to do for a round of heartbeats: send one to each
    /// peer, have the heartbeater update its reply counters, and count the
    /// round as a heartbeat heard from this replica itself.
    pub open spec fn bcast_heartbeats(self) -> Seq<Action> {
        self.heartbeats(self.population as nat).push(Action::UpdateBcastCnts)
            + self.heard_heartbeat(self.id)
    }

    /// Whether the leader is to fall back to full copies: it sends shards,
    /// and as many replicas as the fault tolerance are not alive.
    pub open spec fn must_fall_back(self, peer_alive: Seq<bool>) -> bool {
        !self.full_copy_mode && self.population - count_true(peer_alive)
            >= self.config.fault_tolerance
    }

    /// The log with every entry past the last committed one marked as
    /// external.
    pub open spec fn log_owed_replies(self) -> Seq<LogEntryView> {
        Seq::new(
            self.log.len(),
            |i: int|
                if self.start_slot + i > self.last_commit {
                    LogEntryView { external: true, ..self.log[i] }
                } else {
                    self.log[i]
                },
        )
    }

    /// The state after the replica has won an election, and what the
    /// driver is to do.
    ///
    /// The replica becomes leader. For every peer the next slot, and the
    /// one to try next, is the one past the end of the log, and no slot is
    /// known to match. Every entry past the last committed one is marked
    /// external, so that a client that sends its request again gets a
    /// reply. It starts sending heartbeats, reports to the manager that it
    /// has stepped up, forgets the reply counters and, with the progress
    /// reset, sends a round of heartbeats at once.
    pub open spec fn step_become_the_leader(self) -> (CRaftView, Seq<Action>) {
        let end = (self.start_slot + self.log.len()) as usize;
        let next = CRaftView {
            role: Role::Leader,
            next_slot: self.peers_at(self.next_slot, end),
            try_next_slot: self.peers_at(self.try_next_slot, end),
            match_slot: self.peers_at(self.match_slot, 0),
            log: self.log_owed_replies(),
            ..self
        };
        (
            next,
            seq![
                Action::SetSending { sending: true },
                Action::ReportLeaderStatus { step_up: true },
                Action::ClearReplyCnts,
            ] + next.bcast_heartbeats(),
        )
    }
}

/// Stepping down on a higher term is minimal in its effects: the log and
/// the watermarks stay as they are, and the one thing written to disk is
/// the new term with the cleared vote.
pub proof fn lemma_step_down_minimal(state: CRaftView, peer: ReplicaId, term: Term)
    ensures
        ({
            let (next, actions) = state.step_check_term(peer, term);
            &&& next.log == state.log
            &&& next.start_slot == state.start_slot
            &&& next.last_commit == state.last_commit
            &&& next.last_exec == state.last_exec
            &&& next.last_snap == state.last_snap
            &&& forall|i: int|
                0 <= i < actions.len() && (#[trigger] actions[i]).is_durable() ==> actions[i] == (
                Action::PersistMeta {
                    term: next.curr_term,
                    voted_for: next.voted_for,
                    sync: state.config.logger_sync,
                })
        }),
{
}

/// Leadership is regained by election only: whenever the timer makes a
/// replica change at all, it becomes the candidate of the term after its
/// own, holds its own vote and no other, and asks every peer for a vote by
/// one message that names that term and the last entry of its log. It does
/// not become leader by it.
pub proof fn lemma_candidate_of_next_term(state: CRaftView, timeout_source: ReplicaId)
    ensures
        ({
            let (next, r) = state.step_become_a_candidate(timeout_source);
            &&& next.role == Role::Leader ==> state.role == Role::Leader
            &&& r is Err ==> next == state
            &&& next != state ==> {
                &&& state.role == Role::Follower
                &&& next.role == Role::Candidate
                &&& next.curr_term == state.curr_term + 1
                &&& next.voted_for == Some(state.id)
                &&& next.votes_granted == Set::<ReplicaId>::empty().insert(state.id)
                &&& next.log == state.log
                &&& r matches Ok(actions) && actions.contains(
                    Action::BcastRequestVote {
                        term: next.curr_term,
                        last_slot: state.last_slot() as usize,
                        last_term: state.log.last().term,
                    },
                )
            }
        }),
{
    let (next, r) = state.step_become_a_candidate(timeout_source);
    if next != state {
        let actions = r->Ok_0;
        assert(actions[actions.len() - 2] == (Action::BcastRequestVote {
            term: next.curr_term,
            last_slot: state.last_slot() as usize,
            last_term: state.log.last().term,
        }));
    }
}

impl CRaftView {
    /// Whether what an action sends a peer agrees with the log: a heartbeat
    /// goes to a peer that does not lag behind the start of the log and
    /// names an entry of the log, and the snapshot goes to a peer that
    /// lags behind it.
    pub open spec fn agrees_with_log(self, action: Action) -> bool {
        match action {
            Action::SendHeartbeat { peer, prev_slot, .. } => !self.lags_behind_log(peer)
                && self.start_slot <= prev_slot <= self.last_slot(),
            Action::InstallSnapshot { peer, .. } => self.lags_behind_log(peer),
            _ => true,
        }
    }

    /// The heartbeats for the peers below `upto` hold the one of each such
    /// peer, and each of them agrees with the log.
    pub proof fn lemma_heartbeats(self, upto: nat)
        requires
            self.log.len() >= 1,
            upto <= 256,
        ensures
            forall|peer: ReplicaId|
                peer < upto && peer != self.id ==> self.heartbeats(upto).contains(
                    #[trigger] self.heartbeat_to(peer),
                ),
            forall|i: int|
                0 <= i < self.heartbeats(upto).len() ==> self.agrees_with_log(
                    #[trigger] self.heartbeats(upto)[i],
                ),
        decreases upto,
    {
        if upto > 0 {
            let before = self.heartbeats((upto - 1) as nat);
            self.lemma_heartbeats((upto - 1) as nat);
            if upto - 1 != self.id {
                let last = self.heartbeat_to((upto - 1) as ReplicaId);
                let all = before.push(last);
                assert(all[before.len() as int] == last);
                assert forall|peer: ReplicaId| peer < upto && peer != self.id implies all.contains(
                    #[trigger] self.heartbeat_to(peer),
                ) by {
                    if peer < upto - 1 {
                        let at = choose|at: int|
                            0 <= at < before.len() && before[at] == self.heartbeat_to(peer);
                        assert(all[at] == self.heartbeat_to(peer));
                    }
                }
            }
        }
    }
}

/// In a round of heartbeats, a peer that lags behind the start of the log
/// is sent the snapshot up to `last_snap`, and no heartbeat names an entry
/// before the start of the log.
pub proof fn lemma_lagging_peer_gets_snapshot(state: CRaftView, peer: ReplicaId)
    requires
        state.log.len() >= 1,
        state.peers().contains(peer),
    ensures
        state.bcast_heartbeats().contains(state.heartbeat_to(peer)),
        state.lags_behind_log(peer) ==> state.heartbeat_to(peer) == (Action::InstallSnapshot {
            peer,
            term: state.curr_term,
            last_snap: state.last_snap,
        }),
        forall|i: int|
            0 <= i < state.bcast_heartbeats().len() ==> state.agrees_with_log(
                #[trigger] state.bcast_heartbeats()[i],
            ),
{
    let sent = state.heartbeats(state.population as nat);
    let round = state.bcast_heartbeats();
    state.lemma_heartbeats(state.population as nat);
    let at = choose|at: int| 0 <= at < sent.len() && sent[at] == state.heartbeat_to(peer);
    assert(round[at] == state.heartbeat_to(peer));
    assert forall|i: int| 0 <= i < round.len() implies state.agrees_with_log(
        #[trigger] round[i],
    ) by {
        if i < sent.len() {
            assert(round[i] == sent[i]);
        }
    }
}

/// The slot kept for a peer.
fn slot_of(slots: &HashMap<ReplicaId, usize>, peer: ReplicaId) -> (slot: usize)
    requires
        slots@.contains_key(peer),
    ensures
        slot == slots@[peer],
{
    broadcast use vstd::std_specs::hash::group_hash_axioms;

    match slots.get(&peer) {
        Some(slot) => *slot,
        None => unreached(),
    }
}

impl CRaftReplica {
    /// Check if the given term is larger than mine. If so, adopt it and
    /// have it written to disk; the driver then hands the log store's
    /// answer to `finish_check_term`. The actions are empty if and only if
    /// the term is not larger.
    pub fn check_term(&mut self, peer: ReplicaId, term: Term) -> (actions: Vec<Action>)
        ensures
            (final(self)@, actions@) == old(self)@.step_check_term(peer, term),
            old(self)@.inv() ==> final(self)@.inv(),
            old(self)@.not_after(final(self)@),
    {
        broadcast use vstd::std_specs::hash::group_hash_axioms;

        if term > self.curr_term {
            self.curr_term = term;
            self.voted_for = None;
            self.votes_granted.clear();

            // refresh heartbeat hearing timer
            self.leader = Some(peer);
            let mut actions = self.heard_heartbeat(peer, term);

            // also make the two critical fields durable, synchronously
            actions.push(
                Action::PersistMeta {
                    term: self.curr_term,
                    voted_for: self.voted_for,
                    sync: self.config.logger_sync,
                },
            );
            proof {
                if old(self)@.inv() {
                    old(self)@.lemma_inv_frame(self@);
                }
            }
            actions
        } else {
            Vec::new()
        }
    }

    /// Convert my role back to follower once a newly adopted term is on
    /// disk. Returns true if my role was not follower but now converted to
    /// follower, and false otherwise.
    pub fn finish_check_term(&mut self, result: LogResult) -> (r: Result<
        (bool, Vec<Action>),
        SummersetError,
    >)
        ensures
            (
                final(self)@,
                match r {
                    Ok((converted, actions)) => Ok((converted, actions@)),
                    Err(e) => Err(e),
                },
            ) == old(self)@.step_term_persisted(result),
            old(self)@.inv() ==> final(self)@.inv(),
            old(self)@.not_after(final(self)@),
    {
        match Self::expect_meta_written(result) {
            Ok(_) => {},
            Err(e) => { return Err(e); },
        }
        let mut actions: Vec<Action> = Vec::new();
        if self.role != Role::Follower {
            self.role = Role::Follower;
            actions.push(Action::SetSending { sending: false });
            actions.push(Action::ReportLeaderStatus { step_up: false });
            proof {
                if old(self)@.inv() {
                    old(self)@.lemma_inv_frame(self@);
                }
            }
            assert(actions@ =~= seq![
                Action::SetSending { sending: false },
                Action::ReportLeaderStatus { step_up: false },
            ]);
            Ok((true, actions))
        } else {
            Ok((false, actions))
        }
    }

    /// Checks what the log store answered to the write of the term and the
    /// vote: anything but a good write is an error.
    pub fn expect_meta_written(result: LogResult) -> (r: Result<(), SummersetError>)
        ensures
            match r {
                Ok(_) => meta_written(result),
                Err(e) => !meta_written(result) && e == SummersetError::UnexpectedLogResult,
            },
    {
        if let LogResult::Write { offset_ok: true, .. } = result {
            Ok(())
        } else {
            Err(SummersetError::UnexpectedLogResult)
        }
    }

    /// Switch between normal "1 shard per replica" mode and full-copy mode.
    /// Nothing else changes: shards that are in the log already are neither
    /// written nor sent again.
    pub fn switch_assignment_mode(&mut self, to_full_copy: bool) -> (r: Result<(), SummersetError>)
        ensures
            r is Ok,
            final(self)@ == (CRaftView { full_copy_mode: to_full_copy, ..old(self)@ }),
    {
        if self.full_copy_mode == to_full_copy {
            return Ok(());  // invalid this mode, ignore
        }
        self.full_copy_mode = to_full_copy;
        Ok(())
    }

    /// If current leader is not me but times out, becomes a candidate and
    /// starts the election procedure. The driver hands the log store's
    /// answer to the write to `expect_meta_written`. The actions are empty
    /// if and only if the replica does not stand.
    pub fn become_a_candidate(&mut self, timeout_source: ReplicaId) -> (r: Result<
        Vec<Action>,
        SummersetError,
    >)
        requires
            old(self)@.log.len() >= 1,
            old(self).start_slot + old(self)@.log.len() <= usize::MAX,
        ensures
            (
                final(self)@,
                match r {
                    Ok(actions) => Ok(actions@),
                    Err(e) => Err(e),
                },
            ) == old(self)@.step_become_a_candidate(timeout_source),
            old(self)@.inv() ==> final(self)@.inv(),
            old(self)@.not_after(final(self)@),
    {
        broadcast use vstd::std_specs::hash::group_hash_axioms;

        let other_leader = match self.leader {
            Some(leader) => leader != timeout_source,
            None => false,
        };
        if self.role != Role::Follower || other_leader || self.config.disallow_step_up {
            return Ok(Vec::new());
        }
        if self.curr_term == u64::MAX {
            return Err(SummersetError::CountOverflow);
        }
        self.role = Role::Candidate;

        // increment current term and vote for myself
        self.curr_term = self.curr_term + 1;
        self.voted_for = Some(self.id);
        self.votes_granted = HashSet::new();
        self.votes_granted.insert(self.id);

        // reset election timeout timer
        let mut actions = self.heard_heartbeat(self.id, self.curr_term);

        // send RequestVote messages to all other peers
        let last_slot = self.start_slot + self.log.len() - 1;
        let last_term = self.log[last_slot - self.start_slot].term;
        actions.push(Action::BcastRequestVote { term: self.curr_term, last_slot, last_term });

        // also make the two critical fields durable, synchronously
        actions.push(
            Action::PersistMeta {
                term: self.curr_term,
                voted_for: self.voted_for,
                sync: self.config.logger_sync,
            },
        );
        proof {
            if old(self)@.inv() {
                old(self)@.lemma_inv_frame(self@);
            }
        }
        assert(self@.log.last() == self.log@[last_slot - self.start_slot]@);
        Ok(actions)
    }

    /// Becomes the leader after enough votes granted for me.
    pub fn become_the_leader(&mut self) -> (actions: Vec<Action>)
        requires
            old(self)@.inv(),
        ensures
            (final(self)@, actions@) == old(self)@.step_become_the_leader(),
            final(self)@.inv(),
            old(self)@.not_after(final(self)@),
    {
        broadcast use vstd::std_specs::hash::group_hash_axioms;

        self.role = Role::Leader;
        let mut actions: Vec<Action> = Vec::new();
        actions.push(Action::SetSending { sending: true });
        actions.push(Action::ReportLeaderStatus { step_up: true });

        // clear peers' heartbeat reply counters
        actions.push(Action::ClearReplyCnts);

        // re-initialize next_slot and match_slot information
        let end = self.start_slot + self.log.len();
        let ghost peers = self@.peers();
        let mut peer: u8 = 0;
        while peer < self.population
            invariant
                peer <= self.population,
                peers == old(self)@.peers(),
                peers == self@.peers(),
                old(self)@.inv(),
                self.next_slot@ == Map::new(
                    |p: ReplicaId| old(self).next_slot@.contains_key(p),
                    |p: ReplicaId|
                        if p < peer && peers.contains(p) {
                            end
                        } else {
                            old(self).next_slot@[p]
                        },
                ),
                self.try_next_slot@ == Map::new(
                    |p: ReplicaId| old(self).try_next_slot@.contains_key(p),
                    |p: ReplicaId|
                        if p < peer && peers.contains(p) {
                            end
                        } else {
                            old(self).try_next_slot@[p]
                        },
                ),
                self.match_slot@ == Map::new(
                    |p: ReplicaId| old(self).match_slot@.contains_key(p),
                    |p: ReplicaId|
                        if p < peer && peers.contains(p) {
                            0usize
                        } else {
                            old(self).match_slot@[p]
                        },
                ),
                self@ == (CRaftView {
                    next_slot: self.next_slot@,
                    try_next_slot: self.try_next_slot@,
                    match_slot: self.match_slot@,
                    role: Role::Leader,
                    ..old(self)@
                }),
            decreases self.population - peer,
        {
            if peer != self.id {
                assert(peers.contains(peer) && old(self)@.tracks(peer));
                self.next_slot.insert(peer, end);
                self.try_next_slot.insert(peer, end);
                self.match_slot.insert(peer, 0);
            }
            peer = peer + 1;
        }
        assert(self.next_slot@ =~= old(self)@.peers_at(old(self)@.next_slot, end));
        assert(self.try_next_slot@ =~= old(self)@.peers_at(old(self)@.try_next_slot, end));
        assert(self.match_slot@ =~= old(self)@.peers_at(old(self)@.match_slot, 0));

        // mark some possibly unreplied entries as external
        let committed = self.last_commit - self.start_slot;
        let mut idx: usize = 0;
        while idx < self.log.len()
            invariant
                idx <= self.log.len(),
                self.log.len() == old(self).log.len(),
                committed == old(self).last_commit - old(self).start_slot,
                forall|i: int|
                    0 <= i < idx ==> (#[trigger] self@.log[i]) == old(self)@.log_owed_replies()[i],
                forall|i: int|
                    idx <= i < self.log.len() ==> (#[trigger] self@.log[i]) == old(self)@.log[i],
                self@ == (CRaftView { log: self@.log, ..old(self)@.step_become_the_leader().0 }),
            decreases self.log.len() - idx,
        {
            let ghost before = self.log@;
            assert(self@.log[idx as int] == old(self)@.log[idx as int]);
            assert(log_view(before)[idx as int] == before[idx as int]@);
            if idx > committed {
                self.log[idx].external = true;
                assert(self.log@[idx as int].reqs == before[idx as int].reqs);
                assert(self.log@[idx as int]@ == (LogEntryView {
                    external: true,
                    ..before[idx as int]@
                }));
            }
            assert forall|i: int| 0 <= i < self.log.len() && i != idx implies (
            #[trigger] self@.log[i]) == log_view(before)[i] by {
                assert(self.log@[i] == before[i]);
            }
            assert(self@.log[idx as int] == old(self)@.log_owed_replies()[idx as int]);
            idx = idx + 1;
        }
        assert(self@.log =~= old(self)@.log_owed_replies());
        assert(self@ == old(self)@.step_become_the_leader().0);
        proof {
            assert(self@.next_slot.dom() =~= old(self)@.next_slot.dom());
            assert(self@.try_next_slot.dom() =~= old(self)@.try_next_slot.dom());
            assert(self@.match_slot.dom() =~= old(self)@.match_slot.dom());
            old(self)@.lemma_inv_frame(self@);
            assert forall|peer: ReplicaId| self@.peers().contains(peer) implies self@
                .try_next_slot.contains_key(peer) by {
                assert(self@.tracks(peer));
            }
        }

        // broadcast a heartbeat now
        let mut heartbeats = self.bcast_heartbeats();
        actions.append(&mut heartbeats);
        actions
    }

    /// Whether a round of heartbeats can be made up: see
    /// [`CRaftView::can_heartbeat`]. Code that is not verified checks this
    /// before it has heartbeats sent.
    pub fn can_heartbeat(&self) -> (can: bool)
        ensures
            can == self@.can_heartbeat(),
    {
        broadcast use vstd::std_specs::hash::group_hash_axioms;

        if self.log.len() == 0 || usize::MAX - self.start_slot < self.log.len() {
            return false;
        }
        let mut peer: u8 = 0;
        while peer < self.population
            invariant
                peer <= self.population,
                forall|p: ReplicaId|
                    p < peer && self@.peers().contains(p) ==> self@.try_next_slot.contains_key(p),
            decreases self.population - peer,
        {
            if peer != self.id && !self.try_next_slot.contains_key(&peer) {
                assert(self@.peers().contains(peer));
                return false;
            }
            peer = peer + 1;
        }
        true
    }

    /// Broadcasts empty AppendEntries messages as heartbeats to all peers;
    /// a peer that lags behind the start of the log is sent the snapshot.
    /// Once the driver has carried this out, it hands the heartbeater's
    /// view of which peers are alive to `check_fallback`.
    pub fn bcast_heartbeats(&self) -> (actions: Vec<Action>)
        requires
            self@.can_heartbeat(),
        ensures
            actions@ == self@.bcast_heartbeats(),
    {
        let mut actions: Vec<Action> = Vec::new();
        let last_slot = self.start_slot + self.log.len() - 1;
        let mut peer: u8 = 0;
        while peer < self.population
            invariant
                self@.can_heartbeat(),
                peer <= self.population,
                last_slot == self@.last_slot(),
                actions@ == self@.heartbeats(peer as nat),
            decreases self.population - peer,
        {
            if peer != self.id {
                assert(self@.peers().contains(peer));
                let next = slot_of(&self.try_next_slot, peer);
                if next <= self.start_slot {
                    actions.push(
                        Action::InstallSnapshot {
                            peer,
                            term: self.curr_term,
                            last_snap: self.last_snap,
                        },
                    );
                } else {
                    let prev_slot = if next - 1 < last_slot {
                        next - 1
                    } else {
                        last_slot
                    };
                    let prev_term = self.log[prev_slot - self.start_slot].term;
                    actions.push(
                        Action::SendHeartbeat {
                            peer,
                            term: self.curr_term,
                            prev_slot,
                            prev_term,
                            leader_commit: self.last_commit,
                            last_snap: self.last_snap,
                        },
                    );
                }
            }
            peer = peer + 1;
        }
        // update max heartbeat reply counters and their repetitions seen,
        // and peers' liveness status accordingly
        actions.push(Action::UpdateBcastCnts);

        // I also heard this heartbeat from myself
        let mut heard = self.heard_heartbeat(self.id, self.curr_term);
        actions.append(&mut heard);
        actions
    }

    /// Check if we need to fall back to full-copy replication, by which
    /// peers the heartbeater holds to be alive after a round of heartbeats.
    /// The bitmap has a slot for each replica of the cluster.
    pub fn check_fallback(&mut self, peer_alive: &Bitmap) -> (r: Result<(), SummersetError>)
        requires
            peer_alive@.len() == old(self).population,
        ensures
            r is Ok,
            final(self)@ == (CRaftView {
                full_copy_mode: old(self).full_copy_mode || old(self)@.must_fall_back(peer_alive@),
                ..old(self)@
            }),
    {
        if !self.full_copy_mode && self.population - peer_alive.count()
            >= self.config.fault_tolerance {
            self.switch_assignment_mode(true)
        } else {
            Ok(())
        }
    }

    /// Heard a heartbeat from some other replica. Resets election timer.
    pub fn heard_heartbeat(&self, peer: ReplicaId, _term: Term) -> (actions: Vec<Action>)
        ensures
            actions@ == self@.heard_heartbeat(peer),
    {
        let mut actions: Vec<Action> = Vec::new();
        if peer != self.id {
            // update the peer's reply cnt and its liveness status accordingly
            actions.push(Action::UpdateHeardCnt { peer });
        }
        // reset hearing timer

        if !self.config.disable_hb_timer {
            actions.push(Action::KickoffHearTimer { peer });
        }
        assert(actions@ =~= self@.heard_heartbeat(peer));
        actions
    }
}

} // verus!
