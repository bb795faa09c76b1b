//! Raft -- voting in leader elections.

use crate::protocols::raft::{Action, RaftReplica, RaftView, Term};
use crate::server::ReplicaId;
use vstd::prelude::*;

verus! {

impl RaftView {
    /// Whether a log that ends with an entry of `last_term` at `last_slot`
    /// is at least as up-to-date as this replica's: its last term is
    /// higher, or the same with a last slot that is not lower.
    pub open spec fn up_to_date(self, last_slot: usize, last_term: Term) -> bool {
        last_term > self.log.last().term || (last_term == self.log.last().term && last_slot
            >= self.last_slot())
    }

    /// Whether the replica grants its vote to `candidate`: the candidate
    /// stands in the replica's own term, the replica has not voted for
    /// another in that term, and the candidate's log is at least as
    /// up-to-date as its own.
    pub open spec fn grants_vote(
        self,
        candidate: ReplicaId,
        term: Term,
        last_slot: usize,
        last_term: Term,
    ) -> bool {
        &&& term == self.curr_term
        &&& self.voted_for is None || self.voted_for == Some(candidate)
        &&& self.up_to_date(last_slot, last_term)
    }

    /// The state after a RequestVote message of `candidate`, and what the
    /// driver is to do.
    ///
    /// A vote that is granted is recorded and written to disk before the
    /// reply goes out. A vote that is refused changes nothing; the reply
    /// names the replica's own term.
    pub open spec fn step_request_vote(
        self,
        candidate: ReplicaId,
        term: Term,
        last_slot: usize,
        last_term: Term,
    ) -> (RaftView, Seq<Action>) {
        if self.grants_vote(candidate, term, last_slot, last_term) {
            (
                RaftView { voted_for: Some(candidate), ..self },
                seq![
                    Action::PersistMeta { term: self.curr_term, voted_for: Some(candidate) },
                    Action::SendVoteReply { peer: candidate, term: self.curr_term, granted: true },
                ],
            )
        } else {
            (
                self,
                seq![
                    Action::SendVoteReply { peer: candidate, term: self.curr_term, granted: false },
                ],
            )
        }
    }
}

/// A replica votes for one candidate in a term at most: once it has granted
/// its vote, it refuses every other candidate that stands in that term,
/// whatever the log of that candidate holds.
pub proof fn lemma_one_vote_per_term(
    state: RaftView,
    first: ReplicaId,
    second: ReplicaId,
    term: Term,
    first_log: (usize, Term),
    second_log: (usize, Term),
)
    requires
        first != second,
        state.grants_vote(first, term, first_log.0, first_log.1),
    ensures
        !state.step_request_vote(first, term, first_log.0, first_log.1).0.grants_vote(
            second,
            term,
            second_log.0,
            second_log.1,
        ),
{
}

/// A vote is on disk before the candidate hears of it: the reply that
/// grants a vote comes after the write of that vote, and no reply grants
/// what was not written.
pub proof fn lemma_vote_persisted_before_reply(
    state: RaftView,
    candidate: ReplicaId,
    term: Term,
    last_slot: usize,
    last_term: Term,
)
    ensures
        ({
            let (next, actions) = state.step_request_vote(candidate, term, last_slot, last_term);
            forall|i: int|
                0 <= i < actions.len() && (#[trigger] actions[i]).is_ack() ==> i > 0 && actions[0]
                    == (Action::PersistMeta { term: next.curr_term, voted_for: Some(candidate) })
        }),
{
}

impl RaftReplica {
    /// Handler of a RequestVote message. The caller has looked at the term
    /// of the message first and adopted it if it was higher.
    pub fn handle_request_vote(
        &mut self,
        candidate: ReplicaId,
        term: Term,
        last_slot: usize,
        last_term: Term,
    ) -> (actions: Vec<Action>)
        requires
            old(self)@.inv(),
        ensures
            (final(self)@, actions@) == old(self)@.step_request_vote(
                candidate,
                term,
                last_slot,
                last_term,
            ),
            final(self)@.inv(),
            old(self)@.not_after(final(self)@),
    {
        let free = match self.voted_for {
            None => true,
            Some(voted) => voted == candidate,
        };
        let my_last_slot = self.start_slot + self.log.len() - 1;
        let my_last_term = self.log[self.log.len() - 1].term;
        assert(self@.log.last() == self.log@[self.log.len() - 1]@);
        let up_to_date = last_term > my_last_term || (last_term == my_last_term && last_slot
            >= my_last_slot);
        let mut actions: Vec<Action> = Vec::new();
        if term == self.curr_term && free && up_to_date {
            self.voted_for = Some(candidate);
            actions.push(Action::PersistMeta { term: self.curr_term, voted_for: self.voted_for });
            actions.push(
                Action::SendVoteReply { peer: candidate, term: self.curr_term, granted: true },
            );
        } else {
            actions.push(
                Action::SendVoteReply { peer: candidate, term: self.curr_term, granted: false },
            );
        }
        assert(actions@ =~= old(self)@.step_request_vote(candidate, term, last_slot, last_term).1);
        actions
    }
}

} // verus!
