use summerset::protocols::raft::{
    Action, AppendEntriesReply, LogEntry, RaftReplica, Role,
};
use summerset::server::{ApiRequest, Command};
use summerset::utils::SummersetError;

fn put(id: u64, key: &str, value: &str) -> ApiRequest {
    ApiRequest::Req {
        id,
        cmd: Command::Put {
            key: key.to_string(),
            value: value.to_string(),
        },
    }
}

fn entry(term: u64, value: &str) -> LogEntry {
    LogEntry {
        term,
        reqs: vec![(1, put(term, "x", value))],
        external: false,
        log_offset: 0,
    }
}

fn dummy() -> LogEntry {
    LogEntry {
        term: 0,
        reqs: vec![],
        external: false,
        log_offset: 0,
    }
}

/// A follower of three replicas at term 2 with slots 1 and 2 in its log,
/// slot 1 committed.
fn follower(id: u8) -> RaftReplica {
    RaftReplica {
        id,
        population: 3,
        role: Role::Follower,
        leader: Some(0),
        curr_term: 2,
        voted_for: None,
        log: vec![dummy(), entry(1, "a"), entry(2, "b")],
        start_slot: 0,
        last_commit: 1,
        last_exec: 1,
        last_snap: 0,
    }
}

fn accepted(peer: u8, term: u64, match_slot: usize) -> Action {
    Action::SendAppendReply {
        peer,
        reply: AppendEntriesReply {
            term,
            success: true,
            match_slot: Some(match_slot),
            conflict_slot: None,
            conflict_term: None,
        },
    }
}

fn refused(peer: u8, term: u64, conflict: Option<(usize, u64)>) -> Action {
    Action::SendAppendReply {
        peer,
        reply: AppendEntriesReply {
            term,
            success: false,
            match_slot: None,
            conflict_slot: conflict.map(|c| c.0),
            conflict_term: conflict.map(|c| c.1),
        },
    }
}

#[test]
fn vote_is_granted_once_per_term() {
    let mut me = follower(1);
    assert!(me.is_valid());
    let actions = me.handle_request_vote(2, 2, 2, 2);
    assert_eq!(
        actions,
        vec![
            Action::PersistMeta { term: 2, voted_for: Some(2) },
            Action::SendVoteReply { peer: 2, term: 2, granted: true },
        ]
    );
    assert_eq!(me.voted_for, Some(2));
    // another candidate of the same term is refused, even with a longer log
    let actions = me.handle_request_vote(0, 2, 9, 2);
    assert_eq!(
        actions,
        vec![Action::SendVoteReply { peer: 0, term: 2, granted: false }]
    );
    assert_eq!(me.voted_for, Some(2));
    // the same candidate is granted again
    let actions = me.handle_request_vote(2, 2, 2, 2);
    assert_eq!(actions.len(), 2);
    assert_eq!(actions[1], Action::SendVoteReply { peer: 2, term: 2, granted: true });
}

#[test]
fn vote_needs_an_up_to_date_log() {
    // a shorter log of the same last term
    let mut me = follower(1);
    assert_eq!(
        me.handle_request_vote(2, 2, 1, 2),
        vec![Action::SendVoteReply { peer: 2, term: 2, granted: false }]
    );
    // a longer log of a lower last term
    assert_eq!(
        me.handle_request_vote(2, 2, 9, 1),
        vec![Action::SendVoteReply { peer: 2, term: 2, granted: false }]
    );
    assert_eq!(me.voted_for, None);
    // a shorter log of a higher last term
    assert_eq!(
        me.handle_request_vote(2, 2, 0, 3)[1],
        Action::SendVoteReply { peer: 2, term: 2, granted: true }
    );
}

#[test]
fn vote_needs_the_current_term() {
    let mut me = follower(1);
    assert_eq!(
        me.handle_request_vote(2, 1, 9, 9),
        vec![Action::SendVoteReply { peer: 2, term: 2, granted: false }]
    );
    assert_eq!(
        me.handle_request_vote(2, 3, 9, 9),
        vec![Action::SendVoteReply { peer: 2, term: 2, granted: false }]
    );
    assert_eq!(me, follower(1));
}

#[test]
fn stale_append_entries_is_refused() {
    let mut me = follower(1);
    let r = me.handle_append_entries(2, 1, 2, 2, &vec![entry(1, "z")], 2);
    assert_eq!(r, Ok(vec![refused(2, 2, None)]));
    assert_eq!(me, follower(1));
}

#[test]
fn entries_are_appended_and_committed() {
    let mut me = follower(1);
    let r = me.handle_append_entries(0, 2, 2, 2, &vec![entry(2, "c"), entry(2, "d")], 3);
    assert_eq!(
        r,
        Ok(vec![
            Action::HeardHeartbeat { peer: 0 },
            Action::PersistEntry { slot: 3 },
            Action::PersistEntry { slot: 4 },
            Action::ExecEntry { slot: 2 },
            Action::ExecEntry { slot: 3 },
            accepted(0, 2, 4),
        ])
    );
    let mut expected = follower(1);
    expected.log.push(entry(2, "c"));
    expected.log.push(entry(2, "d"));
    expected.last_commit = 3;
    assert_eq!(me, expected);
    assert!(me.is_valid());
}

#[test]
fn heartbeat_advances_commit_only() {
    let mut me = follower(1);
    let r = me.handle_append_entries(0, 2, 2, 2, &vec![], 9);
    assert_eq!(
        r,
        Ok(vec![
            Action::HeardHeartbeat { peer: 0 },
            Action::ExecEntry { slot: 2 },
            accepted(0, 2, 2),
        ])
    );
    assert_eq!(me.last_commit, 2);
    assert_eq!(me.log, follower(1).log);
    // the commit mark never moves back
    let r = me.handle_append_entries(0, 2, 1, 1, &vec![], 0);
    assert_eq!(r, Ok(vec![Action::HeardHeartbeat { peer: 0 }, accepted(0, 2, 1)]));
    assert_eq!(me.last_commit, 2);
}

#[test]
fn entries_that_are_held_are_not_written_again() {
    let mut me = follower(1);
    let r = me.handle_append_entries(0, 2, 0, 0, &vec![entry(1, "a"), entry(2, "b")], 1);
    assert_eq!(r, Ok(vec![Action::HeardHeartbeat { peer: 0 }, accepted(0, 2, 2)]));
    assert_eq!(me, follower(1));
    // held in part
    let r = me.handle_append_entries(0, 2, 1, 1, &vec![entry(2, "b"), entry(2, "c")], 1);
    assert_eq!(
        r,
        Ok(vec![
            Action::HeardHeartbeat { peer: 0 },
            Action::PersistEntry { slot: 3 },
            accepted(0, 2, 3),
        ])
    );
    assert_eq!(me.log.len(), 4);
    assert_eq!(me.log[3], entry(2, "c"));
}

#[test]
fn split_log_suffix_is_overwritten() {
    // L1 wrote slot 3 = Put(x, A) at term 2, locally only
    let mut l1 = follower(1);
    l1.role = Role::Leader;
    l1.leader = Some(1);
    l1.voted_for = Some(1);
    l1.log.push(LogEntry { external: true, log_offset: 96, ..entry(2, "A") });
    l1.last_commit = 2;
    // L2, leader of term 3, wrote slot 3 = Put(x, B) and committed it
    let r = l1.handle_append_entries(2, 3, 2, 2, &vec![entry(3, "B")], 3);
    assert_eq!(
        r,
        Ok(vec![
            Action::HeardHeartbeat { peer: 2 },
            Action::PersistMeta { term: 3, voted_for: None },
            Action::TruncateLog { slot: 3, offset: 96 },
            Action::PersistEntry { slot: 3 },
            Action::ExecEntry { slot: 3 },
            accepted(2, 3, 3),
        ])
    );
    assert_eq!(l1.role, Role::Follower);
    assert_eq!(l1.leader, Some(2));
    assert_eq!(l1.curr_term, 3);
    assert_eq!(l1.voted_for, None);
    assert_eq!(l1.log.len(), 4);
    assert_eq!(l1.log[3], entry(3, "B"));
    assert_eq!(l1.log[..3], follower(1).log[..]);
    assert_eq!(l1.last_commit, 3);
}

#[test]
fn conflict_cuts_everything_after_it() {
    let mut me = follower(1);
    me.log[2].log_offset = 40;
    me.log.push(LogEntry { log_offset: 72, ..entry(2, "c") });
    me.log.push(LogEntry { log_offset: 104, ..entry(2, "d") });
    let r = me.handle_append_entries(0, 3, 1, 1, &vec![entry(3, "n")], 1);
    assert_eq!(
        r,
        Ok(vec![
            Action::HeardHeartbeat { peer: 0 },
            Action::PersistMeta { term: 3, voted_for: None },
            Action::TruncateLog { slot: 2, offset: 40 },
            Action::PersistEntry { slot: 2 },
            accepted(0, 3, 2),
        ])
    );
    assert_eq!(me.log, vec![dummy(), entry(1, "a"), entry(3, "n")]);
}

#[test]
fn conflict_in_committed_slot_is_an_error() {
    let mut me = follower(1);
    me.role = Role::Candidate;
    let r = me.handle_append_entries(0, 3, 0, 0, &vec![entry(3, "n")], 1);
    assert_eq!(r, Err(SummersetError::CommittedConflict { slot: 1 }));
    // nothing has changed, not even the term
    let mut unchanged = follower(1);
    unchanged.role = Role::Candidate;
    assert_eq!(me, unchanged);
}

#[test]
fn mismatch_names_the_start_of_the_term() {
    let mut me = follower(1);
    me.log = vec![dummy(), entry(1, "a"), entry(2, "b"), entry(2, "c"), entry(2, "d")];
    // the leader holds an entry of term 3 at slot 4
    let r = me.handle_append_entries(0, 3, 4, 3, &vec![entry(3, "n")], 1);
    assert_eq!(
        r,
        Ok(vec![
            Action::HeardHeartbeat { peer: 0 },
            Action::PersistMeta { term: 3, voted_for: None },
            refused(0, 3, Some((2, 2))),
        ])
    );
    assert_eq!(me.curr_term, 3);
    assert_eq!(me.log.len(), 5);
    // the log has no entry at that slot
    let r = me.handle_append_entries(0, 3, 7, 3, &vec![], 1);
    assert_eq!(
        r,
        Ok(vec![Action::HeardHeartbeat { peer: 0 }, refused(0, 3, Some((5, 0)))])
    );
    // the slot was compacted away
    me.start_slot = 10;
    me.last_snap = 10;
    me.last_exec = 10;
    me.last_commit = 10;
    let r = me.handle_append_entries(0, 3, 7, 3, &vec![], 1);
    assert_eq!(
        r,
        Ok(vec![Action::HeardHeartbeat { peer: 0 }, refused(0, 3, Some((10, 0)))])
    );
}

#[test]
fn candidate_steps_down_for_leader_of_its_term() {
    let mut me = follower(1);
    me.role = Role::Candidate;
    me.voted_for = Some(1);
    me.leader = None;
    let r = me.handle_append_entries(2, 2, 2, 2, &vec![], 1);
    assert_eq!(r, Ok(vec![Action::HeardHeartbeat { peer: 2 }, accepted(2, 2, 2)]));
    assert_eq!(me.role, Role::Follower);
    assert_eq!(me.leader, Some(2));
    // the vote of the term stands
    assert_eq!(me.voted_for, Some(1));
}

#[test]
fn entries_past_the_last_slot_number_are_an_error() {
    let mut me = follower(1);
    let before = format!("{:?}", me);
    let r = me.handle_append_entries(0, 9, usize::MAX, 1, &vec![], 0);
    assert_eq!(r, Err(SummersetError::CountOverflow));
    let r = me.handle_append_entries(0, 9, usize::MAX - 1, 1, &vec![entry(9, "z")], 0);
    assert_eq!(r, Err(SummersetError::CountOverflow));
    assert_eq!(format!("{:?}", me), before);
    // one slot before that the message is taken in: it does not fit the log
    let r = me.handle_append_entries(0, 9, usize::MAX - 1, 1, &vec![], 0);
    assert!(r.is_ok());
    assert_eq!(me.curr_term, 9);
}
