//! Raft -- the follower's side of log replication.

use crate::protocols::raft::{
    log_view, Action, AppendEntriesReply, LogEntry, LogEntryView, RaftReplica, RaftView, Role,
    Term,
};
use crate::server::external::clone_batch;
use crate::server::ReplicaId;
use crate::utils::error::SummersetError;
use vstd::prelude::*;

verus! {

/// An entry as a follower keeps it: no client of the follower waits for
/// it, and its place in the durable log is not known yet.
pub open spec fn stored(entry: LogEntryView) -> LogEntryView {
    LogEntryView { external: false, log_offset: 0, ..entry }
}

/// The index at which the run of entries of one term begins that the entry
/// at `idx` belongs to.
pub open spec fn run_start(log: Seq<LogEntryView>, idx: int) -> int
    decreases idx,
{
    if idx > 0 && idx < log.len() && log[idx - 1].term == log[idx].term {
        run_start(log, idx - 1)
    } else {
        idx
    }
}

/// An `ExecEntry` for each slot after `from` up to `upto`, by rising slot.
pub open spec fn exec_entries(from: int, upto: int) -> Seq<Action>
    decreases upto - from,
{
    if upto <= from {
        Seq::empty()
    } else {
        exec_entries(from, upto - 1).push(Action::ExecEntry { slot: upto as usize })
    }
}

/// A `PersistEntry` for each slot from `from` up to, but without, `end`.
pub open spec fn persist_entries(from: int, end: int) -> Seq<Action>
    decreases end - from,
{
    if end <= from {
        Seq::empty()
    } else {
        persist_entries(from, end - 1).push(Action::PersistEntry { slot: (end - 1) as usize })
    }
}

impl RaftView {
    /// Whether the log holds an entry at `slot`.
    pub open spec fn holds(self, slot: int) -> bool {
        self.start_slot <= slot < self.start_slot + self.log.len()
    }

    /// The term of the entry that the log holds at `slot`.
    pub open spec fn term_at(self, slot: int) -> Term {
        self.log[slot - self.start_slot].term
    }

    /// How many of the entries, the first of them meant for `slot`, the log
    /// holds already: the length of the longest prefix of them that agrees
    /// with the log in slot and term.
    pub open spec fn known(self, slot: int, entries: Seq<LogEntryView>) -> nat
        decreases entries.len(),
    {
        if entries.len() > 0 && self.holds(slot) && self.term_at(slot) == entries[0].term {
            1 + self.known(slot + 1, entries.drop_first())
        } else {
            0
        }
    }

    /// The state after the term of an AppendEntries message of `leader`
    /// was looked at: a higher term is adopted and the vote cleared; a
    /// candidate gives up its candidacy; the sender is the leader.
    pub open spec fn follow(self, leader: ReplicaId, term: Term) -> RaftView {
        RaftView {
            curr_term: term,
            voted_for: if term > self.curr_term {
                None
            } else {
                self.voted_for
            },
            role: if term > self.curr_term || self.role == Role::Candidate {
                Role::Follower
            } else {
                self.role
            },
            leader: Some(leader),
            ..self
        }
    }

    /// What is done about the term of an AppendEntries message that is not
    /// stale: the hear timer is restarted, and a term that was adopted is
    /// written to disk.
    pub open spec fn follow_actions(self, leader: ReplicaId, term: Term) -> Seq<Action> {
        if term > self.curr_term {
            seq![
                Action::HeardHeartbeat { peer: leader },
                Action::PersistMeta { term, voted_for: None },
            ]
        } else {
            seq![Action::HeardHeartbeat { peer: leader }]
        }
    }

    /// The reply to entries that do not fit the log at `prev_slot`: it
    /// names the term of the entry that the log holds there and the slot
    /// at which the entries of that term begin; where the log has no entry
    /// there, term 0 and the slot from which the log lacks entries.
    pub open spec fn mismatch(self, prev_slot: usize) -> AppendEntriesReply {
        AppendEntriesReply {
            term: self.curr_term,
            success: false,
            match_slot: None,
            conflict_slot: Some(
                if prev_slot < self.start_slot {
                    self.start_slot
                } else if !self.holds(prev_slot as int) {
                    (self.start_slot + self.log.len()) as usize
                } else {
                    (self.start_slot + run_start(self.log, prev_slot - self.start_slot)) as usize
                },
            ),
            conflict_term: Some(
                if self.holds(prev_slot as int) {
                    self.term_at(prev_slot as int)
                } else {
                    0
                },
            ),
        }
    }

    /// The state after an AppendEntries message of `leader`, and what the
    /// driver is to do, in order.
    ///
    /// A message of a lower term is refused with the replica's own term.
    /// Any other makes the replica follow the sender. Entries that do not
    /// fit the log at `prev_slot` are refused with a hint for the leader.
    /// Of entries that fit, those that the log holds already are skipped;
    /// from the first one that it does not hold, the log is cut and the
    /// rest is appended, each entry written to disk. Cutting the log at a
    /// committed slot is an error that changes nothing. The commit mark
    /// advances to the leader's, as far as the entries reach; the entries
    /// that are committed by that go to the state machine. The reply that
    /// accepts the entries comes last. A message whose entries would reach
    /// the last slot that a number can name is an error that changes
    /// nothing.
    pub open spec fn step_append_entries(
        self,
        leader: ReplicaId,
        term: Term,
        prev_slot: usize,
        prev_term: Term,
        entries: Seq<LogEntryView>,
        leader_commit: usize,
    ) -> (RaftView, Result<Seq<Action>, SummersetError>) {
        if prev_slot + entries.len() >= usize::MAX {
            (self, Err(SummersetError::CountOverflow))
        } else if term < self.curr_term {
            (
                self,
                Ok(
                    seq![
                        Action::SendAppendReply {
                            peer: leader,
                            reply: AppendEntriesReply {
                                term: self.curr_term,
                                success: false,
                                match_slot: None,
                                conflict_slot: None,
                                conflict_term: None,
                            },
                        },
                    ],
                ),
            )
        } else {
            let me = self.follow(leader, term);
            let heard = self.follow_actions(leader, term);
            if !(me.holds(prev_slot as int) && me.term_at(prev_slot as int) == prev_term) {
                (
                    me,
                    Ok(
                        heard.push(
                            Action::SendAppendReply { peer: leader, reply: me.mismatch(prev_slot) },
                        ),
                    ),
                )
            } else {
                let known = me.known(prev_slot + 1, entries);
                let cut = prev_slot + 1 + known;
                let last = prev_slot + entries.len();
                if known < entries.len() && me.holds(cut) && cut <= me.last_commit {
                    (self, Err(SummersetError::CommittedConflict { slot: cut as usize }))
                } else {
                    let log = if known < entries.len() {
                        me.log.take(cut - me.start_slot) + entries.skip(known as int).map_values(
                            |entry: LogEntryView| stored(entry),
                        )
                    } else {
                        me.log
                    };
                    let target = if leader_commit < last {
                        leader_commit as int
                    } else {
                        last
                    };
                    let commit = if target > me.last_commit {
                        target
                    } else {
                        me.last_commit as int
                    };
                    (
                        RaftView { log, last_commit: commit as usize, ..me },
                        Ok(
                            heard + (if known < entries.len() && me.holds(cut) {
                                seq![
                                    Action::TruncateLog {
                                        slot: cut as usize,
                                        offset: me.log[cut - me.start_slot].log_offset,
                                    },
                                ]
                            } else {
                                Seq::empty()
                            }) + (if known < entries.len() {
                                persist_entries(cut, last + 1)
                            } else {
                                Seq::empty()
                            }) + exec_entries(me.last_commit as int, commit).push(
                                Action::SendAppendReply {
                                    peer: leader,
                                    reply: AppendEntriesReply {
                                        term,
                                        success: true,
                                        match_slot: Some(last as usize),
                                        conflict_slot: None,
                                        conflict_term: None,
                                    },
                                },
                            ),
                        ),
                    )
                }
            }
        }
    }
}

/// The view of a log grows with the log.
pub proof fn lemma_log_view_push(log: Seq<LogEntry>, last: LogEntry)
    ensures
        log_view(log.push(last)) == log_view(log).push(last@),
{
    assert(log_view(log.push(last)) =~= log_view(log).push(last@));
}

impl RaftReplica {
    /// How many of the entries, the first of them meant for the slot after
    /// `prev_slot`, the log holds already.
    fn count_known(&self, prev_slot: usize, entries: &Vec<LogEntry>) -> (known: usize)
        requires
            self@.inv(),
            self@.holds(prev_slot as int),
            prev_slot + entries.len() < usize::MAX,
        ensures
            known == self@.known(prev_slot + 1, log_view(entries@)),
            known <= entries.len(),
            self@.holds(prev_slot + known),
    {
        let ghost ents = log_view(entries@);
        let mut known: usize = 0;
        assert(ents.skip(0) == ents);
        while known < entries.len() && prev_slot + 1 + known - self.start_slot < self.log.len()
            && self.log[prev_slot + 1 + known - self.start_slot].term == entries[known].term
            invariant
                self@.inv(),
                self@.holds(prev_slot as int),
                prev_slot + entries.len() < usize::MAX,
                ents == log_view(entries@),
                known <= entries.len(),
                self@.holds(prev_slot + known),
                self@.known(prev_slot + 1, ents) == known + self@.known(
                    prev_slot + 1 + known,
                    ents.skip(known as int),
                ),
            decreases entries.len() - known,
        {
            proof {
                let rest = ents.skip(known as int);
                assert(rest[0] == ents[known as int]);
                assert(rest.drop_first() == ents.skip(known as int + 1));
                assert(self@.log[prev_slot + 1 + known - self.start_slot]
                    == self.log@[prev_slot + 1 + known - self.start_slot]@);
            }
            known = known + 1;
        }
        proof {
            let rest = ents.skip(known as int);
            if known < entries.len() {
                assert(rest[0] == ents[known as int]);
                if self@.holds(prev_slot + 1 + known) {
                    assert(self@.log[prev_slot + 1 + known - self.start_slot]
                        == self.log@[prev_slot + 1 + known - self.start_slot]@);
                }
            }
            assert(self@.known(prev_slot + 1 + known, rest) == 0);
        }
        known
    }

    /// The slot at which the entries of one term begin that the entry at
    /// slot `slot` of the log belongs to.
    fn conflict_slot(&self, slot: usize) -> (first: usize)
        requires
            self@.inv(),
            self@.holds(slot as int),
        ensures
            first == self.start_slot + run_start(self@.log, slot - self.start_slot),
    {
        let mut idx: usize = slot - self.start_slot;
        while idx > 0 && self.log[idx - 1].term == self.log[idx].term
            invariant
                idx < self.log.len(),
                run_start(self@.log, slot - self.start_slot) == run_start(self@.log, idx as int),
            decreases idx,
        {
            proof {
                assert(self@.log[idx - 1] == self.log@[idx - 1]@);
                assert(self@.log[idx as int] == self.log@[idx as int]@);
            }
            idx = idx - 1;
        }
        proof {
            if idx > 0 {
                assert(self@.log[idx - 1] == self.log@[idx - 1]@);
                assert(self@.log[idx as int] == self.log@[idx as int]@);
            }
        }
        self.start_slot + idx
    }

    /// Follows the sender of an AppendEntries message that is not stale.
    fn follow(&mut self, leader: ReplicaId, term: Term) -> (heard: Vec<Action>)
        requires
            term >= old(self).curr_term,
        ensures
            final(self)@ == old(self)@.follow(leader, term),
            heard@ == old(self)@.follow_actions(leader, term),
    {
        let mut heard: Vec<Action> = Vec::new();
        heard.push(Action::HeardHeartbeat { peer: leader });
        if term > self.curr_term {
            self.voted_for = None;
            self.role = Role::Follower;
            heard.push(Action::PersistMeta { term, voted_for: None });
        } else if let Role::Candidate = self.role {
            self.role = Role::Follower;
        }
        self.curr_term = term;
        self.leader = Some(leader);
        assert(heard@ =~= old(self)@.follow_actions(leader, term));
        heard
    }

    /// The reply to entries that do not fit the log at `prev_slot`.
    fn mismatch(&self, prev_slot: usize) -> (reply: AppendEntriesReply)
        requires
            self@.inv(),
        ensures
            reply == self@.mismatch(prev_slot),
    {
        let held = prev_slot >= self.start_slot && prev_slot - self.start_slot < self.log.len();
        let conflict_slot = if prev_slot < self.start_slot {
            self.start_slot
        } else if !held {
            self.start_slot + self.log.len()
        } else {
            self.conflict_slot(prev_slot)
        };
        let conflict_term = if held {
            assert(self@.log[prev_slot - self.start_slot] == self.log@[prev_slot
                - self.start_slot]@);
            self.log[prev_slot - self.start_slot].term
        } else {
            0
        };
        AppendEntriesReply {
            term: self.curr_term,
            success: false,
            match_slot: None,
            conflict_slot: Some(conflict_slot),
            conflict_term: Some(conflict_term),
        }
    }

    /// Cuts the log before the slot of the first entry that it does not
    /// hold and appends the entries from that one on.
    fn store_entries(
        &mut self,
        prev_slot: usize,
        known: usize,
        entries: &Vec<LogEntry>,
        actions: &mut Vec<Action>,
    )
        requires
            old(self)@.inv(),
            old(self)@.holds(prev_slot + known),
            known < entries.len(),
            prev_slot + entries.len() < usize::MAX,
        ensures
            final(self)@ == (RaftView {
                log: old(self)@.log.take(prev_slot + 1 + known - old(self).start_slot) + log_view(
                    entries@,
                ).skip(known as int).map_values(|entry: LogEntryView| stored(entry)),
                ..old(self)@
            }),
            final(actions)@ == old(actions)@ + (if old(self)@.holds(prev_slot + 1 + known) {
                seq![
                    Action::TruncateLog {
                        slot: (prev_slot + 1 + known) as usize,
                        offset: old(self)@.log[prev_slot + 1 + known - old(self).start_slot].log_offset,
                    },
                ]
            } else {
                Seq::empty()
            }) + persist_entries(prev_slot + 1 + known, prev_slot + entries.len() + 1),
    {
        let ghost ents = log_view(entries@);
        let ghost me = self@;
        let ghost before = actions@;
        let cut = prev_slot + 1 + known;
        let ghost whole = self.log@;
        if cut - self.start_slot < self.log.len() {
            let offset = self.log[cut - self.start_slot].log_offset;
            self.log.truncate(cut - self.start_slot);
            actions.push(Action::TruncateLog { slot: cut, offset });
        }
        let ghost base = self@.log;
        let ghost pre = actions@;
        proof {
            assert(self.log@ =~= whole.subrange(0, cut - self.start_slot));
            assert forall|i: int| 0 <= i < base.len() implies base[i] == me.log[i] by {
                assert(self.log@[i] == whole[i]);
            }
            assert(base =~= me.log.take(cut - me.start_slot));
            assert(ents.subrange(known as int, known as int).map_values(
                |entry: LogEntryView| stored(entry),
            ) =~= Seq::<LogEntryView>::empty());
            assert(pre =~= pre + persist_entries(cut as int, cut as int));
        }
        let mut at: usize = known;
        while at < entries.len()
            invariant
                known <= at <= entries.len(),
                cut == prev_slot + 1 + known,
                prev_slot + entries.len() < usize::MAX,
                ents == log_view(entries@),
                self@ == (RaftView { log: self@.log, ..me }),
                self@.log == base + ents.subrange(known as int, at as int).map_values(
                    |entry: LogEntryView| stored(entry),
                ),
                actions@ == pre + persist_entries(cut as int, prev_slot + 1 + at),
            decreases entries.len() - at,
        {
            let entry = LogEntry {
                term: entries[at].term,
                reqs: clone_batch(&entries[at].reqs),
                external: false,
                log_offset: 0,
            };
            proof {
                lemma_log_view_push(self.log@, entry);
                assert(entry@ == stored(ents[at as int]));
                assert(ents.subrange(known as int, at as int + 1).map_values(
                    |entry: LogEntryView| stored(entry),
                ) =~= ents.subrange(known as int, at as int).map_values(
                    |entry: LogEntryView| stored(entry),
                ).push(stored(ents[at as int])));
            }
            self.log.push(entry);
            actions.push(Action::PersistEntry { slot: prev_slot + 1 + at });
            assert(self@.log =~= base + ents.subrange(known as int, at as int + 1).map_values(
                |entry: LogEntryView| stored(entry),
            ));
            assert(actions@ =~= pre + persist_entries(cut as int, prev_slot + 1 + at + 1));
            at = at + 1;
        }
        proof {
            assert(ents.subrange(known as int, at as int) == ents.skip(known as int));
            assert(actions@ =~= before + (if me.holds(cut as int) {
                seq![
                    Action::TruncateLog {
                        slot: cut,
                        offset: me.log[cut - me.start_slot].log_offset,
                    },
                ]
            } else {
                Seq::empty()
            }) + persist_entries(cut as int, prev_slot + entries.len() + 1));
        }
    }

    /// Moves the commit mark up to `target`, if that is above it, and has
    /// the entries that are committed by that handed to the state machine.
    fn advance_commit(&mut self, target: usize, actions: &mut Vec<Action>)
        ensures
            final(self)@ == (RaftView {
                last_commit: if target > old(self).last_commit {
                    target
                } else {
                    old(self).last_commit
                },
                ..old(self)@
            }),
            final(actions)@ == old(actions)@ + exec_entries(
                old(self).last_commit as int,
                final(self).last_commit as int,
            ),
    {
        let ghost pre = actions@;
        let ghost from = self.last_commit;
        assert(pre =~= pre + exec_entries(from as int, from as int));
        if target > self.last_commit {
            let mut slot: usize = self.last_commit;
            while slot < target
                invariant
                    from <= slot <= target,
                    actions@ == pre + exec_entries(from as int, slot as int),
                decreases target - slot,
            {
                slot = slot + 1;
                actions.push(Action::ExecEntry { slot });
                assert(actions@ =~= pre + exec_entries(from as int, slot as int));
            }
            self.last_commit = target;
        }
    }

    /// Handler of an AppendEntries message from a leader.
    pub fn handle_append_entries(
        &mut self,
        leader: ReplicaId,
        term: Term,
        prev_slot: usize,
        prev_term: Term,
        entries: &Vec<LogEntry>,
        leader_commit: usize,
    ) -> (r: Result<Vec<Action>, SummersetError>)
        requires
            old(self)@.inv(),
        ensures
            (
                final(self)@,
                match r {
                    Ok(actions) => Ok(actions@),
                    Err(e) => Err(e),
                },
            ) == old(self)@.step_append_entries(
                leader,
                term,
                prev_slot,
                prev_term,
                log_view(entries@),
                leader_commit,
            ),
            final(self)@.inv(),
            old(self)@.not_after(final(self)@),
    {
        let ghost ents = log_view(entries@);
        let ghost before = self@;
        if entries.len() >= usize::MAX - prev_slot {
            return Err(SummersetError::CountOverflow);
        }
        if term < self.curr_term {
            let mut actions: Vec<Action> = Vec::new();
            actions.push(
                Action::SendAppendReply {
                    peer: leader,
                    reply: AppendEntriesReply {
                        term: self.curr_term,
                        success: false,
                        match_slot: None,
                        conflict_slot: None,
                        conflict_term: None,
                    },
                },
            );
            assert(actions@ =~= before.step_append_entries(
                leader,
                term,
                prev_slot,
                prev_term,
                ents,
                leader_commit,
            ).1->Ok_0);
            return Ok(actions);
        }
        // look at the log before anything is changed: a conflict in a
        // committed slot leaves the replica as it is

        let fits = prev_slot >= self.start_slot && prev_slot - self.start_slot < self.log.len()
            && self.log[prev_slot - self.start_slot].term == prev_term;
        proof {
            if before.holds(prev_slot as int) {
                assert(self@.log[prev_slot - self.start_slot] == self.log@[prev_slot
                    - self.start_slot]@);
            }
            lemma_known_frame(before, before.follow(leader, term), prev_slot + 1, ents);
        }
        let known = if fits {
            self.count_known(prev_slot, entries)
        } else {
            0
        };
        let cut = prev_slot + 1 + known;
        let last = prev_slot + entries.len();
        if fits && known < entries.len() && cut - self.start_slot < self.log.len() && cut
            <= self.last_commit {
            return Err(SummersetError::CommittedConflict { slot: cut });
        }
        let mut actions = self.follow(leader, term);
        if !fits {
            let reply = self.mismatch(prev_slot);
            actions.push(Action::SendAppendReply { peer: leader, reply });
            return Ok(actions);
        }
        // cut the log where it differs and append what is new

        if known < entries.len() {
            self.store_entries(prev_slot, known, entries, &mut actions);
        }
        // advance the commit mark and hand what is committed by that to
        // the state machine

        let target = if leader_commit < last {
            leader_commit
        } else {
            last
        };
        self.advance_commit(target, &mut actions);
        let reply = Action::SendAppendReply {
            peer: leader,
            reply: AppendEntriesReply {
                term,
                success: true,
                match_slot: Some(last),
                conflict_slot: None,
                conflict_term: None,
            },
        };
        actions.push(reply);
        proof {
            let want = before.step_append_entries(
                leader,
                term,
                prev_slot,
                prev_term,
                ents,
                leader_commit,
            );
            assert(self@.log == want.0.log);
            assert(actions@ =~= want.1->Ok_0);
        }
        Ok(actions)
    }
}

/// How many entries are known depends on the log alone.
pub proof fn lemma_known_frame(a: RaftView, b: RaftView, slot: int, entries: Seq<LogEntryView>)
    requires
        a.log == b.log,
        a.start_slot == b.start_slot,
    ensures
        a.known(slot, entries) == b.known(slot, entries),
    decreases entries.len(),
{
    if entries.len() > 0 {
        lemma_known_frame(a, b, slot + 1, entries.drop_first());
    }
}

/// What `persist_entries` holds: one write for each slot, by rising slot.
pub proof fn lemma_persist_entries(from: int, end: int)
    requires
        0 <= from,
    ensures
        persist_entries(from, end).len() == if end > from {
            end - from
        } else {
            0
        },
        forall|i: int|
            0 <= i < persist_entries(from, end).len() ==> #[trigger] persist_entries(from, end)[i]
                == (Action::PersistEntry { slot: (from + i) as usize }),
    decreases end - from,
{
    if end > from {
        lemma_persist_entries(from, end - 1);
    }
}

/// What `exec_entries` holds: one execution for each slot, by rising slot.
pub proof fn lemma_exec_entries(from: int, upto: int)
    requires
        0 <= from,
    ensures
        exec_entries(from, upto).len() == if upto > from {
            upto - from
        } else {
            0
        },
        forall|i: int|
            0 <= i < exec_entries(from, upto).len() ==> #[trigger] exec_entries(from, upto)[i] == (
            Action::ExecEntry { slot: (from + 1 + i) as usize }),
    decreases upto - from,
{
    if upto > from {
        lemma_exec_entries(from, upto - 1);
    }
}

/// The entries that are known are held by the log, slot by slot with the
/// same term, and the one after them is not.
pub proof fn lemma_known_held(state: RaftView, slot: int, entries: Seq<LogEntryView>)
    requires
        state.holds(slot - 1),
    ensures
        state.known(slot, entries) <= entries.len(),
        state.holds(slot - 1 + state.known(slot, entries)),
        forall|i: int|
            0 <= i < state.known(slot, entries) ==> state.holds(slot + i) && #[trigger] state.term_at(
                slot + i,
            ) == entries[i].term,
    decreases entries.len(),
{
    if entries.len() > 0 && state.holds(slot) && state.term_at(slot) == entries[0].term {
        let rest = entries.drop_first();
        lemma_known_held(state, slot + 1, rest);
        assert forall|i: int| 0 <= i < state.known(slot, entries) implies state.holds(slot + i)
            && #[trigger] state.term_at(slot + i) == entries[i].term by {
            if i > 0 {
                assert(state.term_at(slot + 1 + (i - 1)) == rest[i - 1].term);
            }
        }
    }
}

/// What is committed stays: when entries of a leader are taken into the
/// log, every entry up to the commit mark is left as it was. (Entries of a
/// leader that would change one are refused with an error.)
pub proof fn lemma_committed_entries_kept(
    state: RaftView,
    leader: ReplicaId,
    term: Term,
    prev_slot: usize,
    prev_term: Term,
    entries: Seq<LogEntryView>,
    leader_commit: usize,
    slot: int,
)
    requires
        state.inv(),
        state.holds(slot),
        slot <= state.last_commit,
    ensures
        ({
            let next = state.step_append_entries(
                leader,
                term,
                prev_slot,
                prev_term,
                entries,
                leader_commit,
            ).0;
            next.holds(slot) && next.log[slot - next.start_slot] == state.log[slot
                - state.start_slot]
        }),
{
    if term >= state.curr_term {
        let me = state.follow(leader, term);
        if me.holds(prev_slot as int) {
            lemma_known_held(me, prev_slot + 1, entries);
        }
    }
}

/// After entries of a leader were taken into the log, the log agrees with
/// them: it holds an entry of the same term at the slot of each.
pub proof fn lemma_log_matches_entries(
    state: RaftView,
    leader: ReplicaId,
    term: Term,
    prev_slot: usize,
    prev_term: Term,
    entries: Seq<LogEntryView>,
    leader_commit: usize,
    i: int,
)
    requires
        state.inv(),
        0 <= i < entries.len(),
        term >= state.curr_term,
        state.holds(prev_slot as int) && state.term_at(prev_slot as int) == prev_term,
        state.step_append_entries(leader, term, prev_slot, prev_term, entries, leader_commit).1
            is Ok,
    ensures
        ({
            let next = state.step_append_entries(
                leader,
                term,
                prev_slot,
                prev_term,
                entries,
                leader_commit,
            ).0;
            next.holds(prev_slot + 1 + i) && next.term_at(prev_slot + 1 + i) == entries[i].term
        }),
{
    let me = state.follow(leader, term);
    lemma_known_held(me, prev_slot + 1, entries);
    let known = me.known(prev_slot + 1, entries);
    if i < known {
        assert(me.term_at(prev_slot + 1 + i) == entries[i].term);
    }
}

/// Nothing is acknowledged before it is on disk: in what the driver is to
/// do about an AppendEntries message, the reply that accepts the entries
/// comes after every write to the durable log.
pub proof fn lemma_persisted_before_ack(
    state: RaftView,
    leader: ReplicaId,
    term: Term,
    prev_slot: usize,
    prev_term: Term,
    entries: Seq<LogEntryView>,
    leader_commit: usize,
)
    requires
        state.inv(),
    ensures
        state.step_append_entries(leader, term, prev_slot, prev_term, entries, leader_commit).1
            matches Ok(actions) ==> forall|i: int, j: int|
            0 <= i < actions.len() && 0 <= j < actions.len() && (#[trigger] actions[i]).is_ack() && (
            #[trigger] actions[j]).is_durable() ==> j < i,
{
    if term >= state.curr_term {
        let me = state.follow(leader, term);
        if me.holds(prev_slot as int) {
            lemma_known_held(me, prev_slot + 1, entries);
            let known = me.known(prev_slot + 1, entries);
            lemma_persist_entries(prev_slot + 1 + known, prev_slot + entries.len() + 1);
            let last = prev_slot + entries.len();
            let target = if leader_commit < last {
                leader_commit as int
            } else {
                last
            };
            let commit = if target > me.last_commit {
                target
            } else {
                me.last_commit as int
            };
            lemma_exec_entries(me.last_commit as int, commit);
        }
    }
}

} // verus!
