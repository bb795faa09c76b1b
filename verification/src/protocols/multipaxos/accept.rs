//! MultiPaxos -- the leader's tally of acceptances: when an instance is
//! committed.

use crate::protocols::multipaxos::{
    actions_view, insts_view, lemma_actions_view_push, Action, ActionView, Ballot, Instance,
    InstanceView, LeaderBookkeeping, LeaderBookkeepingView, MultiPaxosReplica, MultiPaxosView,
    Status,
};
use crate::server::{batch_view, clone_batch, ReplicaId};
use crate::utils::bitmap::count_true;
use crate::utils::error::SummersetError;
use vstd::prelude::*;

verus! {

/// The slot up to which, from `bar` on, every instance is committed: the
/// slot of the first one that is not, or the slot past the last instance.
pub open spec fn committed_until(insts: Seq<InstanceView>, start_slot: int, bar: int) -> int
    decreases start_slot + insts.len() - bar,
{
    if start_slot <= bar < start_slot + insts.len() && insts[bar - start_slot].status.is_committed() {
        committed_until(insts, start_slot, bar + 1)
    } else {
        bar
    }
}

/// An `ExecSlot` for each slot from `from` up to, but without, `end`.
pub open spec fn exec_slots(from: int, end: int) -> Seq<ActionView>
    decreases end - from,
{
    if end <= from {
        Seq::empty()
    } else {
        exec_slots(from, end - 1).push(ActionView::ExecSlot { slot: (end - 1) as usize })
    }
}

impl MultiPaxosView {
    /// Whether an acceptance of `ballot` counts for the instance at
    /// `slot`: the log holds the slot, and this replica, as its leader, is
    /// collecting acceptances for it in that ballot.
    pub open spec fn collects(self, slot: usize, ballot: Ballot) -> bool {
        &&& self.start_slot <= slot < self.start_slot + self.insts.len()
        &&& self.insts[slot - self.start_slot].status == Status::Accepting
        &&& self.insts[slot - self.start_slot].bal == ballot
        &&& self.insts[slot - self.start_slot].leader_bk is Some
    }

    /// The state after replica `from` has accepted the instance at `slot`
    /// in `ballot`, and what the driver is to do. The leader's own
    /// acceptance comes in when its own write of the instance is on disk.
    ///
    /// An acceptance that does not count is ignored. One of a replica that
    /// the cluster does not have is an error. One that counts is noted;
    /// once a quorum has accepted, the instance is committed: that is
    /// written to the durable log, the commit bar moves past every
    /// instance that is committed without a gap, and those instances go to
    /// the state machine.
    pub open spec fn step_accept_ack(self, slot: usize, ballot: Ballot, from: ReplicaId) -> (
        MultiPaxosView,
        Result<Seq<ActionView>, SummersetError>,
    ) {
        if !self.collects(slot, ballot) {
            (self, Ok(Seq::empty()))
        } else {
            let idx = slot - self.start_slot;
            let inst = self.insts[idx];
            let bk = inst.leader_bk->Some_0;
            if from >= bk.accept_acks.len() {
                (self, Err(SummersetError::IndexOutOfBound { idx: from }))
            } else {
                let acks = bk.accept_acks.update(from as int, true);
                let chosen = count_true(acks) >= self.quorum_cnt;
                let insts = self.insts.update(
                    idx,
                    InstanceView {
                        status: if chosen {
                            Status::Committed
                        } else {
                            Status::Accepting
                        },
                        leader_bk: Some(LeaderBookkeepingView { accept_acks: acks, ..bk }),
                        ..inst
                    },
                );
                if chosen {
                    let bar = committed_until(insts, self.start_slot as int, self.commit_bar as int);
                    (
                        MultiPaxosView { insts, commit_bar: bar as usize, ..self },
                        Ok(
                            seq![ActionView::LogCommit { slot, sync: self.config.logger_sync }]
                                + exec_slots(self.commit_bar as int, bar),
                        ),
                    )
                } else {
                    (MultiPaxosView { insts, ..self }, Ok(Seq::empty()))
                }
            }
        }
    }
}

/// The commit bar never moves back, and it stays within the log.
pub proof fn lemma_committed_until(insts: Seq<InstanceView>, start_slot: int, bar: int)
    requires
        start_slot <= bar <= start_slot + insts.len(),
    ensures
        bar <= committed_until(insts, start_slot, bar) <= start_slot + insts.len(),
    decreases start_slot + insts.len() - bar,
{
    if bar < start_slot + insts.len() && insts[bar - start_slot].status.is_committed() {
        lemma_committed_until(insts, start_slot, bar + 1);
    }
}

/// An instance is committed by a quorum only: where an acceptance makes
/// the leader commit an instance, a majority of the replicas has accepted
/// it in the ballot of the instance.
pub proof fn lemma_committed_by_quorum(
    state: MultiPaxosView,
    slot: usize,
    ballot: Ballot,
    from: ReplicaId,
)
    requires
        state.inv(),
        state.collects(slot, ballot),
    ensures
        ({
            let next = state.step_accept_ack(slot, ballot, from).0;
            let inst = next.insts[slot - state.start_slot];
            inst.status == Status::Committed ==> inst.bal == ballot && 2 * count_true(
                inst.leader_bk->Some_0.accept_acks,
            ) > state.population
        }),
{
}

impl MultiPaxosReplica {
    /// Moves the commit bar past every instance that is committed without
    /// a gap and has those instances handed to the state machine.
    fn advance_commit_bar(&mut self, actions: &mut Vec<Action>)
        requires
            old(self)@.inv(),
        ensures
            final(self)@ == (MultiPaxosView {
                commit_bar: committed_until(
                    old(self)@.insts,
                    old(self).start_slot as int,
                    old(self).commit_bar as int,
                ) as usize,
                ..old(self)@
            }),
            final(self)@.inv(),
            actions_view(final(actions)@) == actions_view(old(actions)@) + exec_slots(
                old(self).commit_bar as int,
                final(self).commit_bar as int,
            ),
    {
        let ghost from = self.commit_bar;
        let ghost pre = actions_view(actions@);
        assert(pre =~= pre + exec_slots(from as int, from as int));
        while self.commit_bar - self.start_slot < self.insts.len() && self.insts[self.commit_bar
            - self.start_slot].status.is_committed()
            invariant
                self@ == (MultiPaxosView { commit_bar: self.commit_bar, ..old(self)@ }),
                self@.inv(),
                from <= self.commit_bar,
                committed_until(self@.insts, self.start_slot as int, from as int)
                    == committed_until(self@.insts, self.start_slot as int, self.commit_bar as int),
                actions_view(actions@) == pre + exec_slots(from as int, self.commit_bar as int),
            decreases self.start_slot + self.insts.len() - self.commit_bar,
        {
            proof {
                assert(self@.insts[self.commit_bar - self.start_slot] == self.insts@[
                    self.commit_bar - self.start_slot]@);
            }
            let exec = Action::ExecSlot { slot: self.commit_bar };
            proof {
                lemma_actions_view_push(actions@, exec);
            }
            actions.push(exec);
            self.commit_bar = self.commit_bar + 1;
            assert(actions_view(actions@) =~= pre + exec_slots(
                from as int,
                self.commit_bar as int,
            ));
        }
        proof {
            if self.commit_bar - self.start_slot < self.insts.len() {
                assert(self@.insts[self.commit_bar - self.start_slot] == self.insts@[
                    self.commit_bar - self.start_slot]@);
            }
        }
    }

    /// Handler of the acceptance of an instance by a replica: of a peer
    /// when its AcceptReply message comes in, of this replica itself when
    /// its own write of the instance is on disk.
    pub fn handle_accept_ack(&mut self, slot: usize, ballot: Ballot, from: ReplicaId) -> (r:
        Result<Vec<Action>, SummersetError>)
        requires
            old(self)@.inv(),
        ensures
            (
                final(self)@,
                match r {
                    Ok(actions) => Ok(actions_view(actions@)),
                    Err(e) => Err(e),
                },
            ) == old(self)@.step_accept_ack(slot, ballot, from),
            final(self)@.inv(),
            old(self).commit_bar <= final(self).commit_bar,
    {
        let mut actions: Vec<Action> = Vec::new();
        assert(actions_view(actions@) =~= Seq::empty());
        if slot < self.start_slot || slot - self.start_slot >= self.insts.len() {
            return Ok(actions);
        }
        let idx = slot - self.start_slot;
        let inst = &self.insts[idx];
        assert(self@.insts[idx as int] == inst@);
        let counts = match inst.status {
            Status::Accepting => inst.bal == ballot && inst.leader_bk.is_some(),
            _ => false,
        };
        if !counts {
            return Ok(actions);
        }
        let bk = match &inst.leader_bk {
            Some(bk) => bk,
            None => { return Ok(actions); },
        };
        let mut accept_acks = bk.accept_acks.clone();
        match accept_acks.set(from, true) {
            Ok(_) => {},
            Err(e) => { return Err(e); },
        }
        let chosen = accept_acks.count() >= self.quorum_cnt;
        let noted = Instance {
            bal: inst.bal,
            status: if chosen {
                Status::Committed
            } else {
                Status::Accepting
            },
            reqs: clone_batch(&inst.reqs),
            voted: (inst.voted.0, clone_batch(&inst.voted.1)),
            leader_bk: Some(
                LeaderBookkeeping {
                    trigger_slot: bk.trigger_slot,
                    endprep_slot: bk.endprep_slot,
                    prepare_acks: bk.prepare_acks.clone(),
                    prepare_max_bal: bk.prepare_max_bal,
                    accept_acks,
                },
            ),
            replica_bk: inst.replica_bk,
            external: inst.external,
        };
        let ghost before = self@;
        let ghost noted_view = noted@;
        self.insts.set(idx, noted);
        assert(self@.insts =~= before.insts.update(idx as int, noted_view));
        if chosen {
            let log = Action::LogCommit { slot, sync: self.config.logger_sync };
            proof {
                lemma_actions_view_push(actions@, log);
                lemma_committed_until(
                    self@.insts,
                    self.start_slot as int,
                    self.commit_bar as int,
                );
            }
            actions.push(log);
            self.advance_commit_bar(&mut actions);
            assert(actions_view(actions@) =~= seq![
                ActionView::LogCommit { slot, sync: self.config.logger_sync },
            ] + exec_slots(before.commit_bar as int, self.commit_bar as int));
        }
        Ok(actions)
    }
}

} // verus!
