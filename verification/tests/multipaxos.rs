use summerset::protocols::multipaxos::{
    Action, Instance, LeaderBookkeeping, MultiPaxosReplica, ReplicaConfigMultiPaxos, Status,
};
use summerset::server::{
    ApiReply, ApiRequest, Command, LeaseAction, LeaseMsg, ReqBatch,
};
use summerset::utils::{Bitmap, SummersetError};

fn replica(id: u8, population: u8) -> MultiPaxosReplica {
    MultiPaxosReplica {
        id,
        population,
        quorum_cnt: population / 2 + 1,
        config: ReplicaConfigMultiPaxos {
            logger_sync: false,
            enable_leader_leases: true,
            sim_read_lease: false,
        },
        leader: None,
        bal_prepared: 0,
        bal_max_seen: 0,
        insts: vec![],
        start_slot: 0,
        commit_bar: 0,
        exec_bar: 0,
        snap_bar: 0,
        peer_accept_max: 0,
    }
}

fn leader(id: u8, population: u8, ballot: u64) -> MultiPaxosReplica {
    let mut me = replica(id, population);
    me.leader = Some(id);
    me.bal_prepared = ballot;
    me.bal_max_seen = ballot;
    me
}

fn get(id: u64, key: &str) -> ApiRequest {
    ApiRequest::Req {
        id,
        cmd: Command::Get {
            key: key.to_string(),
        },
    }
}

fn put(id: u64, key: &str, value: &str) -> ApiRequest {
    ApiRequest::Req {
        id,
        cmd: Command::Put {
            key: key.to_string(),
            value: value.to_string(),
        },
    }
}

fn inst(status: Status, reqs: ReqBatch) -> Instance {
    Instance {
        bal: 1,
        status,
        reqs,
        voted: (0, vec![]),
        leader_bk: None,
        replica_bk: None,
        external: false,
    }
}

fn accepting(ballot: u64, population: u8, reqs: ReqBatch) -> Instance {
    Instance {
        bal: ballot,
        status: Status::Accepting,
        reqs: reqs.clone(),
        voted: (ballot, reqs),
        leader_bk: Some(LeaderBookkeeping {
            trigger_slot: 0,
            endprep_slot: 0,
            prepare_acks: Bitmap::new(population, false),
            prepare_max_bal: 0,
            accept_acks: Bitmap::new(population, false),
        }),
        replica_bk: None,
        external: true,
    }
}

#[test]
fn req_batch_redirects_to_known_leader() {
    let mut me = replica(0, 3);
    me.leader = Some(2);
    let batch = vec![
        (7, put(1, "k", "v")),
        (8, ApiRequest::Leave { permanent: false }),
        (9, get(4, "k")),
    ];
    let actions = me.handle_req_batch(batch, 0).unwrap();
    assert_eq!(
        actions,
        vec![
            Action::SendReply {
                reply: ApiReply::Reply {
                    id: 1,
                    result: None,
                    redirect: Some(2)
                },
                client: 7
            },
            Action::SendReply {
                reply: ApiReply::Reply {
                    id: 4,
                    result: None,
                    redirect: Some(2)
                },
                client: 9
            },
        ]
    );
    let mut unchanged = replica(0, 3);
    unchanged.leader = Some(2);
    assert_eq!(me, unchanged);
}

#[test]
fn req_batch_redirects_to_next_replica_when_leader_unknown() {
    let mut me = replica(1, 3);
    let actions = me.handle_req_batch(vec![(7, get(1, "k"))], 0).unwrap();
    assert_eq!(
        actions,
        vec![Action::SendReply {
            reply: ApiReply::redirect(1, 2),
            client: 7
        }]
    );
    // the replica of the highest ID points to replica 0
    let mut me = replica(2, 3);
    let actions = me.handle_req_batch(vec![(7, get(1, "k"))], 0).unwrap();
    assert_eq!(
        actions,
        vec![Action::SendReply {
            reply: ApiReply::redirect(1, 0),
            client: 7
        }]
    );
}

#[test]
fn req_batch_redirects_when_leader_is_not_prepared() {
    // I think I am the leader, but no ballot of mine is prepared yet
    let mut me = replica(1, 3);
    me.leader = Some(1);
    let actions = me.handle_req_batch(vec![(7, put(3, "k", "v"))], 2).unwrap();
    assert_eq!(
        actions,
        vec![Action::SendReply {
            reply: ApiReply::redirect(3, 1),
            client: 7
        }]
    );
    assert!(me.insts.is_empty());
}

#[test]
fn req_batch_enters_accept_phase_in_new_slot() {
    let mut me = leader(0, 3, 5);
    me.config.logger_sync = true;
    me.config.enable_leader_leases = false;
    let batch = vec![(7, put(1, "k1", "v1")), (8, get(2, "k1"))];
    let actions = me.handle_req_batch(batch.clone(), 0).unwrap();
    assert_eq!(
        actions,
        vec![
            Action::LogAccept {
                slot: 0,
                ballot: 5,
                reqs: batch.clone(),
                sync: true
            },
            Action::BcastAccept {
                slot: 0,
                ballot: 5,
                reqs: batch.clone()
            },
        ]
    );
    assert_eq!(me.insts, vec![accepting(5, 3, batch)]);
    assert_eq!(me.commit_bar, 0);
    assert_eq!(me.exec_bar, 0);
}

#[test]
fn req_batch_fills_first_null_slot() {
    let mut me = leader(1, 3, 9);
    me.start_slot = 10;
    me.snap_bar = 10;
    me.exec_bar = 10;
    me.commit_bar = 11;
    me.insts = vec![
        inst(Status::Committed, vec![(1, put(1, "a", "1"))]),
        Instance {
            replica_bk: Some(summerset::protocols::multipaxos::ReplicaBookkeeping { source: 2 }),
            ..inst(Status::Null, vec![])
        },
        inst(Status::Accepting, vec![(1, put(2, "b", "2"))]),
        inst(Status::Null, vec![]),
    ];
    let batch = vec![(4, put(3, "c", "3"))];
    let actions = me.handle_req_batch(batch.clone(), 0).unwrap();
    assert_eq!(
        actions,
        vec![
            Action::LogAccept {
                slot: 11,
                ballot: 9,
                reqs: batch.clone(),
                sync: false
            },
            Action::BcastAccept {
                slot: 11,
                ballot: 9,
                reqs: batch.clone()
            },
        ]
    );
    assert_eq!(me.insts.len(), 4);
    assert_eq!(
        me.insts[1],
        Instance {
            replica_bk: Some(summerset::protocols::multipaxos::ReplicaBookkeeping { source: 2 }),
            ..accepting(9, 3, batch)
        }
    );
    assert_eq!(me.insts[3], inst(Status::Null, vec![]));
    assert_eq!(me.insts[0].status, Status::Committed);
    assert_eq!(me.insts[2].status, Status::Accepting);
}

#[test]
fn leader_lease_read_fast_path() {
    // P=5 with a lease quorum of 3: two peers hold the lease, the leader
    // itself makes the third
    let mut me = leader(0, 5, 7);
    let actions = me.handle_req_batch(vec![(11, get(1, "k"))], 2).unwrap();
    assert_eq!(
        actions,
        vec![Action::ExecRead {
            id: 1,
            key: "k".to_string(),
            client: 11
        }]
    );
    assert_eq!(me, leader(0, 5, 7));

    // the lease count drops below the quorum: the same request goes
    // through replication
    let actions = me.handle_req_batch(vec![(11, get(1, "k"))], 1).unwrap();
    assert_eq!(
        actions,
        vec![
            Action::LogAccept {
                slot: 0,
                ballot: 7,
                reqs: vec![(11, get(1, "k"))],
                sync: false
            },
            Action::BcastAccept {
                slot: 0,
                ballot: 7,
                reqs: vec![(11, get(1, "k"))]
            },
        ]
    );
    assert_eq!(me.insts, vec![accepting(7, 5, vec![(11, get(1, "k"))])]);
}

#[test]
fn lease_fast_path_needs_an_unchallenged_ballot() {
    let mut me = leader(0, 5, 7);
    me.bal_max_seen = 8;
    let actions = me.handle_req_batch(vec![(11, get(1, "k"))], 4).unwrap();
    assert_eq!(actions.len(), 2);
    assert!(matches!(actions[0], Action::LogAccept { slot: 0, .. }));
    assert_eq!(me.insts.len(), 1);
}

#[test]
fn simulated_read_lease_serves_reads_without_leases() {
    let mut me = leader(0, 5, 7);
    me.bal_max_seen = 8;
    me.config.sim_read_lease = true;
    let actions = me.handle_req_batch(vec![(11, get(1, "k"))], 0).unwrap();
    assert_eq!(
        actions,
        vec![Action::ExecRead {
            id: 1,
            key: "k".to_string(),
            client: 11
        }]
    );
    assert!(me.insts.is_empty());
}

#[test]
fn fast_path_serves_reads_and_replicates_the_rest() {
    let mut me = leader(2, 3, 4);
    let batch = vec![
        (1, get(10, "a")),
        (2, put(20, "a", "x")),
        (3, ApiRequest::Leave { permanent: true }),
        (1, get(11, "b")),
    ];
    let left = vec![
        (2, put(20, "a", "x")),
        (3, ApiRequest::Leave { permanent: true }),
    ];
    let actions = me.handle_req_batch(batch, 1).unwrap();
    assert_eq!(
        actions,
        vec![
            Action::ExecRead {
                id: 10,
                key: "a".to_string(),
                client: 1
            },
            Action::ExecRead {
                id: 11,
                key: "b".to_string(),
                client: 1
            },
            Action::LogAccept {
                slot: 0,
                ballot: 4,
                reqs: left.clone(),
                sync: false
            },
            Action::BcastAccept {
                slot: 0,
                ballot: 4,
                reqs: left.clone()
            },
        ]
    );
    assert_eq!(me.insts, vec![accepting(4, 3, left)]);
}

#[test]
fn is_stable_leader_counts_peers_only() {
    // on the request path the leader counts itself towards the quorum of
    // lease holders; here it does not
    let mut me = leader(0, 5, 7);
    assert!(!me.is_stable_leader(2));
    assert!(me.is_stable_leader(3));
    me.peer_accept_max = 1;
    assert!(!me.is_stable_leader(3));
    me.commit_bar = 1;
    me.insts = vec![inst(Status::Committed, vec![])];
    assert!(me.is_stable_leader(3));
    me.bal_max_seen = 8;
    assert!(!me.is_stable_leader(3));
    me.bal_max_seen = 7;
    me.config.enable_leader_leases = false;
    assert!(!me.is_stable_leader(5));
    me.config.sim_read_lease = true;
    assert!(me.is_stable_leader(0));
    me.leader = Some(1);
    assert!(!me.is_stable_leader(5));
    me.leader = Some(0);
    me.bal_prepared = 0;
    assert!(!me.is_stable_leader(5));
}

#[test]
fn val_ver_of_first_key_counts_later_committed_puts() {
    let mut me = replica(0, 3);
    assert_eq!(me.val_ver_of_first_key(), Ok(None));
    me.insts = vec![
        // not committed: does not count
        inst(Status::Accepting, vec![(1, put(1, "z", "0"))]),
        inst(
            Status::Committed,
            vec![(1, get(2, "a")), (1, put(3, "a", "1")), (2, put(4, "b", "1"))],
        ),
        inst(Status::Null, vec![(1, put(5, "a", "9"))]),
        inst(
            Status::Executed,
            vec![(1, put(6, "a", "2")), (1, put(7, "a", "3"))],
        ),
        inst(Status::Preparing, vec![(1, put(8, "a", "9"))]),
        inst(Status::Committed, vec![(1, put(9, "a", "4"))]),
    ];
    assert_eq!(me.val_ver_of_first_key(), Ok(Some(("a".to_string(), 3))));
    me.insts[1].status = Status::Preparing;
    assert_eq!(me.val_ver_of_first_key(), Ok(Some(("a".to_string(), 2))));
    me.insts.truncate(1);
    assert_eq!(me.val_ver_of_first_key(), Ok(None));
}

#[test]
fn status_is_committed() {
    assert!(!Status::Null.is_committed());
    assert!(!Status::Preparing.is_committed());
    assert!(!Status::Accepting.is_committed());
    assert!(Status::Committed.is_committed());
    assert!(Status::Executed.is_committed());
}

#[test]
fn lease_action_traffic() {
    let me = leader(0, 3, 1);
    let msg = LeaseMsg::LeaseGrant { num: 4, expiry: 99 };
    assert_eq!(
        me.handle_lease_action(4, LeaseAction::SendLeaseMsg { peer: 2, msg }),
        (
            false,
            vec![Action::SendLeaseMsg {
                purpose: 0,
                lease_num: 4,
                msg,
                peer: 2
            }]
        )
    );
    let peers = Bitmap::from_vec(3, &vec![1, 2]);
    assert_eq!(
        me.handle_lease_action(
            5,
            LeaseAction::BcastLeaseMsgs {
                peers: peers.clone(),
                msg: LeaseMsg::LeaseRevoke { num: 5 }
            }
        ),
        (
            false,
            vec![Action::BcastLeaseMsgs {
                purpose: 0,
                lease_num: 5,
                msg: LeaseMsg::LeaseRevoke { num: 5 },
                peers
            }]
        )
    );
    assert_eq!(
        me.handle_lease_action(5, LeaseAction::GrantRemoved { peer: 1 }),
        (true, vec![])
    );
    assert_eq!(
        me.handle_lease_action(5, LeaseAction::GrantTimeout { peer: 1 }),
        (true, vec![])
    );
    assert_eq!(
        me.handle_lease_action(5, LeaseAction::HigherNumber),
        (true, vec![])
    );
    assert_eq!(
        me.handle_lease_action(5, LeaseAction::NextExpiration { when: 12 }),
        (false, vec![])
    );
}

#[test]
fn ensure_lease_revoked_waits_until_grant_is_gone() {
    let mut me = leader(0, 3, 6);
    me.insts = vec![inst(Status::Committed, vec![]), inst(Status::Null, vec![])];
    me.commit_bar = 1;
    let heartbeat = Action::BcastHeartbeat {
        ballot: 6,
        commit_bar: 1,
        exec_bar: 0,
        snap_bar: 0,
    };
    let granting = Bitmap::from_vec(3, &vec![1, 2]);
    // at the start of the wait the grant set is looked at
    assert_eq!(me.ensure_lease_revoked(1, &granting, None), Ok((false, vec![])));
    // lease traffic is sent on, followed by a heartbeat
    let msg = LeaseMsg::LeaseRevoke { num: 3 };
    assert_eq!(
        me.ensure_lease_revoked(1, &granting, Some((3, LeaseAction::SendLeaseMsg { peer: 1, msg }))),
        Ok((
            false,
            vec![
                Action::SendLeaseMsg {
                    purpose: 0,
                    lease_num: 3,
                    msg,
                    peer: 1
                },
                Action::BcastHeartbeat { ballot: 6, commit_bar: 1, exec_bar: 0, snap_bar: 0 }
            ]
        ))
    );
    assert_eq!(
        me.ensure_lease_revoked(1, &granting, Some((3, LeaseAction::NextExpiration { when: 5 }))),
        Ok((false, vec![heartbeat]))
    );
    // a grant of another peer ran out: the grant set is looked at again
    let granting = Bitmap::from_vec(3, &vec![1]);
    assert_eq!(
        me.ensure_lease_revoked(1, &granting, Some((3, LeaseAction::GrantTimeout { peer: 2 }))),
        Ok((false, vec![]))
    );
    let granting = Bitmap::new(3, false);
    assert_eq!(
        me.ensure_lease_revoked(1, &granting, Some((3, LeaseAction::GrantRemoved { peer: 1 }))),
        Ok((true, vec![]))
    );
    assert_eq!(me.ensure_lease_revoked(2, &granting, None), Ok((true, vec![])));
}

#[test]
fn ensure_lease_revoked_rejects_unknown_peer() {
    let me = leader(0, 3, 6);
    let granting = Bitmap::new(3, true);
    assert_eq!(
        me.ensure_lease_revoked(3, &granting, None),
        Err(SummersetError::IndexOutOfBound { idx: 3 })
    );
    assert_eq!(
        me.ensure_lease_revoked(3, &granting, Some((1, LeaseAction::HigherNumber))),
        Err(SummersetError::IndexOutOfBound { idx: 3 })
    );
    // the grant set is not looked at when the lease action cannot have
    // shrunk it
    assert!(me
        .ensure_lease_revoked(3, &granting, Some((1, LeaseAction::NextExpiration { when: 1 })))
        .is_ok());
}

#[test]
fn valid_multipaxos_states() {
    assert!(replica(0, 3).is_valid());
    let mut me = replica(0, 3);
    me.quorum_cnt = 1;
    assert!(!me.is_valid());
    let mut me = replica(3, 3);
    me.quorum_cnt = 2;
    assert!(!me.is_valid());
    let mut me = replica(0, 3);
    me.commit_bar = 1;
    assert!(!me.is_valid());
    me.insts = vec![inst(Status::Committed, vec![])];
    assert!(me.is_valid());
    me.exec_bar = 2;
    assert!(!me.is_valid());
    // quorum of 5 is 3, of 4 is 3, of 1 is 1
    assert!(replica(4, 5).is_valid());
    assert_eq!(replica(0, 4).quorum_cnt, 3);
    assert_eq!(replica(0, 1).quorum_cnt, 1);
}

#[test]
fn instance_is_committed_by_a_quorum() {
    // P=3: the leader's own acceptance and that of one peer make a majority
    let mut me = leader(0, 3, 5);
    me.config.logger_sync = true;
    let batch = vec![(7, put(1, "k1", "v1"))];
    me.handle_req_batch(batch.clone(), 0).unwrap();
    // the leader's own write is on disk
    assert_eq!(me.handle_accept_ack(0, 5, 0), Ok(vec![]));
    assert_eq!(me.insts[0].status, Status::Accepting);
    assert_eq!(me.commit_bar, 0);
    // the same acceptance again counts once
    assert_eq!(me.handle_accept_ack(0, 5, 0), Ok(vec![]));
    assert_eq!(me.insts[0].status, Status::Accepting);
    // a peer has accepted
    assert_eq!(
        me.handle_accept_ack(0, 5, 2),
        Ok(vec![
            Action::LogCommit { slot: 0, sync: true },
            Action::ExecSlot { slot: 0 },
        ])
    );
    assert_eq!(me.insts[0].status, Status::Committed);
    assert_eq!(me.insts[0].reqs, batch);
    assert_eq!(
        me.insts[0].leader_bk.as_ref().unwrap().accept_acks,
        Bitmap::from_vec(3, &vec![0, 2])
    );
    assert_eq!(me.commit_bar, 1);
    assert!(me.is_valid());
    // the acceptance of the last peer comes late and changes nothing
    assert_eq!(me.handle_accept_ack(0, 5, 1), Ok(vec![]));
    assert_eq!(me.commit_bar, 1);
}

#[test]
fn commit_bar_waits_for_gaps() {
    let mut me = leader(0, 5, 5);
    me.handle_req_batch(vec![(7, put(1, "a", "1"))], 0).unwrap();
    me.handle_req_batch(vec![(7, put(2, "b", "2"))], 0).unwrap();
    assert_eq!(me.insts.len(), 2);
    // slot 1 reaches its quorum of 3 first
    assert_eq!(me.handle_accept_ack(1, 5, 0), Ok(vec![]));
    assert_eq!(me.handle_accept_ack(1, 5, 3), Ok(vec![]));
    assert_eq!(
        me.handle_accept_ack(1, 5, 4),
        Ok(vec![Action::LogCommit { slot: 1, sync: false }])
    );
    assert_eq!(me.commit_bar, 0);
    // slot 0 follows: both go to the state machine, in slot order
    assert_eq!(me.handle_accept_ack(0, 5, 1), Ok(vec![]));
    assert_eq!(me.handle_accept_ack(0, 5, 2), Ok(vec![]));
    assert_eq!(
        me.handle_accept_ack(0, 5, 0),
        Ok(vec![
            Action::LogCommit { slot: 0, sync: false },
            Action::ExecSlot { slot: 0 },
            Action::ExecSlot { slot: 1 },
        ])
    );
    assert_eq!(me.commit_bar, 2);
}

#[test]
fn acceptances_that_do_not_count_are_ignored() {
    let mut me = leader(0, 3, 5);
    me.handle_req_batch(vec![(7, put(1, "a", "1"))], 0).unwrap();
    let before = me.insts[0].leader_bk.as_ref().unwrap().accept_acks.clone();
    // of another ballot
    assert_eq!(me.handle_accept_ack(0, 4, 1), Ok(vec![]));
    // of a slot that the log does not hold
    assert_eq!(me.handle_accept_ack(1, 5, 1), Ok(vec![]));
    assert_eq!(me.insts[0].leader_bk.as_ref().unwrap().accept_acks, before);
    // of an instance that this replica does not lead
    me.insts.push(inst(Status::Accepting, vec![]));
    assert_eq!(me.handle_accept_ack(1, 1, 1), Ok(vec![]));
    assert_eq!(me.insts[1], inst(Status::Accepting, vec![]));
    // of a replica that the cluster does not have
    assert_eq!(
        me.handle_accept_ack(0, 5, 3),
        Err(SummersetError::IndexOutOfBound { idx: 3 })
    );
    assert_eq!(me.insts[0].leader_bk.as_ref().unwrap().accept_acks, before);
}

#[test]
fn req_batch_fails_where_the_next_slot_has_no_number() {
    let mut me = leader(0, 3, 5);
    me.start_slot = usize::MAX;
    me.snap_bar = usize::MAX;
    me.exec_bar = usize::MAX;
    me.commit_bar = usize::MAX;
    assert!(me.is_valid());
    assert_eq!(
        me.handle_req_batch(vec![(7, put(1, "a", "1"))], 0),
        Err(SummersetError::CountOverflow)
    );
    let mut expected = leader(0, 3, 5);
    expected.start_slot = usize::MAX;
    expected.snap_bar = usize::MAX;
    expected.exec_bar = usize::MAX;
    expected.commit_bar = usize::MAX;
    assert_eq!(me, expected);
    // a batch that asks for no instance is still served
    let actions = me.handle_req_batch(vec![(7, get(2, "a"))], 1).unwrap();
    assert_eq!(
        actions,
        vec![Action::ExecRead {
            id: 2,
            key: "a".to_string(),
            client: 7
        }]
    );
    // one slot before the end there is room for one instance
    let mut me = leader(0, 3, 5);
    me.start_slot = usize::MAX - 1;
    me.snap_bar = usize::MAX - 1;
    me.exec_bar = usize::MAX - 1;
    me.commit_bar = usize::MAX - 1;
    assert_eq!(me.handle_req_batch(vec![(7, put(1, "a", "1"))], 0).unwrap().len(), 2);
    assert_eq!(
        me.handle_req_batch(vec![(7, put(2, "a", "2"))], 0),
        Err(SummersetError::CountOverflow)
    );
    // a Null instance is room too
    me.insts[0].status = Status::Null;
    assert_eq!(me.handle_req_batch(vec![(7, put(3, "a", "3"))], 0).unwrap().len(), 2);
}

#[test]
fn log_action_id_holds_slot_and_kind() {
    assert_eq!(MultiPaxosReplica::make_log_action_id(0, Status::Preparing), 1);
    assert_eq!(MultiPaxosReplica::make_log_action_id(0, Status::Accepting), 2);
    assert_eq!(MultiPaxosReplica::make_log_action_id(0, Status::Committed), 3);
    assert_eq!(MultiPaxosReplica::make_log_action_id(5, Status::Accepting), 22);
    assert_eq!(MultiPaxosReplica::make_log_action_id(5, Status::Committed), 23);
    assert_eq!(
        MultiPaxosReplica::make_log_action_id(1 << 40, Status::Preparing),
        (1 << 42) + 1
    );
}
