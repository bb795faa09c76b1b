//! MultiPaxos -- client request entrance.

use crate::client::ClientId;
use crate::protocols::multipaxos::{
    actions_view, lemma_actions_view_push, Action, ActionView, Instance, InstanceView,
    LeaderBookkeeping, LeaderBookkeepingView, MultiPaxosReplica, MultiPaxosView, Status,
};
use crate::server::external::lemma_batch_view_push;
use crate::server::{
    batch_view, clone_batch, ApiReply, ApiReplyView, ApiRequest, ApiRequestView, Command,
    CommandView, ReplicaId, ReqBatch,
};
use crate::utils::bitmap::{count_true, Bitmap};
use crate::utils::error::SummersetError;
use vstd::prelude::*;

verus! {

/// Whether a request is a read of one key.
pub open spec fn is_read(req: ApiRequestView) -> bool {
    req matches ApiRequestView::Req { cmd: CommandView::Get { .. }, .. }
}

/// The replies that send the client of each command of the batch on to
/// `target`, in batch order. A leave notification gets none.
pub open spec fn redirects(
    batch: Seq<(ClientId, ApiRequestView)>,
    target: ReplicaId,
) -> Seq<ActionView>
    decreases batch.len(),
{
    if batch.len() == 0 {
        Seq::empty()
    } else {
        let before = redirects(batch.drop_last(), target);
        match batch.last().1 {
            ApiRequestView::Req { id, .. } => before.push(
                ActionView::SendReply {
                    reply: ApiReplyView::Reply { id, result: None, redirect: Some(target) },
                    client: batch.last().0,
                },
            ),
            _ => before,
        }
    }
}

/// One local read for each read of the batch, in batch order.
pub open spec fn local_reads(batch: Seq<(ClientId, ApiRequestView)>) -> Seq<ActionView>
    decreases batch.len(),
{
    if batch.len() == 0 {
        Seq::empty()
    } else {
        let before = local_reads(batch.drop_last());
        match batch.last().1 {
            ApiRequestView::Req { id, cmd: CommandView::Get { key } } => before.push(
                ActionView::ExecRead { id, key, client: batch.last().0 },
            ),
            _ => before,
        }
    }
}

/// The batch without its reads, the order kept.
pub open spec fn without_reads(batch: Seq<(ClientId, ApiRequestView)>) -> Seq<
    (ClientId, ApiRequestView),
>
    decreases batch.len(),
{
    if batch.len() == 0 {
        Seq::empty()
    } else if is_read(batch.last().1) {
        without_reads(batch.drop_last())
    } else {
        without_reads(batch.drop_last()).push(batch.last())
    }
}

/// The index of the first instance whose status is `Null`, or the number of
/// instances where there is none.
pub open spec fn first_null(insts: Seq<InstanceView>) -> nat
    decreases insts.len(),
{
    if insts.len() == 0 || insts[0].status == Status::Null {
        0
    } else {
        1 + first_null(insts.drop_first())
    }
}

/// `first_null` is the one index that has no `Null` instance before it and
/// is either the end or the place of a `Null` instance.
pub proof fn lemma_first_null(insts: Seq<InstanceView>, idx: int)
    requires
        0 <= idx <= insts.len(),
        forall|j: int| 0 <= j < idx ==> insts[j].status != Status::Null,
        idx < insts.len() ==> insts[idx].status == Status::Null,
    ensures
        first_null(insts) == idx,
    decreases insts.len(),
{
    if idx > 0 {
        let rest = insts.drop_first();
        assert forall|j: int| 0 <= j < idx - 1 implies rest[j].status != Status::Null by {
            assert(rest[j] == insts[j + 1]);
        }
        lemma_first_null(rest, idx - 1);
    }
}

/// An instance that nothing has been proposed in.
pub open spec fn null_instance() -> InstanceView {
    InstanceView {
        bal: 0,
        status: Status::Null,
        reqs: Seq::empty(),
        voted: (0, Seq::empty()),
        leader_bk: None,
        replica_bk: None,
        external: false,
    }
}

/// The bookkeeping of a leader that has heard from no one yet.
pub open spec fn fresh_bookkeeping(population: u8) -> LeaderBookkeepingView {
    LeaderBookkeepingView {
        trigger_slot: 0,
        endprep_slot: 0,
        prepare_acks: Seq::new(population as nat, |i: int| false),
        prepare_max_bal: 0,
        accept_acks: Seq::new(population as nat, |i: int| false),
    }
}

impl MultiPaxosView {
    /// Where a client that reached a replica which is no prepared leader
    /// is sent: to the known leader, else to the replica of the next ID.
    pub open spec fn redirect_target(self) -> ReplicaId {
        match self.leader {
            Some(peer) => peer,
            None => ((self.id + 1) % (self.population as int)) as u8,
        }
    }

    /// Whether this leader may answer reads out of its own state machine:
    /// no higher ballot has been seen and, itself counted, a quorum holds
    /// its lease; or read leases are simulated.
    pub open spec fn reads_locally(self, lease_cnt: u8) -> bool {
        (self.bal_max_seen == self.bal_prepared && lease_cnt + 1 >= self.quorum_cnt)
            || self.config.sim_read_lease
    }

    /// Whether the batch asks for an instance: the replica is a prepared
    /// leader, and something of the batch is left that it does not read
    /// locally.
    pub open spec fn needs_instance(
        self,
        batch: Seq<(ClientId, ApiRequestView)>,
        lease_cnt: u8,
    ) -> bool {
        &&& self.is_leader()
        &&& self.bal_prepared != 0
        &&& !(self.reads_locally(lease_cnt) && without_reads(batch).len() == 0)
    }

    /// Whether the batch can be taken in: it asks for no instance, or a
    /// `Null` instance is there for it, or the slot past the last instance
    /// still has a number.
    pub open spec fn has_room(self, batch: Seq<(ClientId, ApiRequestView)>, lease_cnt: u8) -> bool {
        ||| !self.needs_instance(batch, lease_cnt)
        ||| first_null(self.insts) < self.insts.len()
        ||| self.start_slot + self.insts.len() < usize::MAX
    }

    /// The state after a batch of client requests has come in, and what the
    /// driver is to do about it.
    ///
    /// A replica that is no prepared leader changes nothing and redirects
    /// every command. A leader that may read locally serves the reads at
    /// once and goes on with the rest of the batch, if any is left. What is
    /// left goes into the first `Null` instance, or a new one at the end,
    /// which enters the Accept phase at the prepared ballot: it is appended
    /// to the durable log and broadcast to the peers.
    pub open spec fn step_req_batch(
        self,
        batch: Seq<(ClientId, ApiRequestView)>,
        lease_cnt: u8,
    ) -> (MultiPaxosView, Seq<ActionView>) {
        if !self.is_leader() || self.bal_prepared == 0 {
            (self, redirects(batch, self.redirect_target()))
        } else {
            let fast = self.reads_locally(lease_cnt);
            let served = if fast {
                local_reads(batch)
            } else {
                Seq::empty()
            };
            let left = if fast {
                without_reads(batch)
            } else {
                batch
            };
            if fast && left.len() == 0 {
                (self, served)
            } else {
                let idx = first_null(self.insts) as int;
                let slot = (self.start_slot + idx) as usize;
                let room = if idx == self.insts.len() {
                    self.insts.push(null_instance())
                } else {
                    self.insts
                };
                let inst = InstanceView {
                    bal: self.bal_prepared,
                    status: Status::Accepting,
                    reqs: left,
                    voted: (self.bal_prepared, left),
                    leader_bk: Some(fresh_bookkeeping(self.population)),
                    external: true,
                    ..room[idx]
                };
                (
                    MultiPaxosView { insts: room.update(idx, inst), ..self },
                    served.push(
                        ActionView::LogAccept {
                            slot,
                            ballot: self.bal_prepared,
                            reqs: left,
                            sync: self.config.logger_sync,
                        },
                    ).push(
                        ActionView::BcastAccept { slot, ballot: self.bal_prepared, reqs: left },
                    ),
                )
            }
        }
    }
}

/// The first `Null` instance lies within the instances or at their end.
pub proof fn lemma_first_null_bound(insts: Seq<InstanceView>)
    ensures
        first_null(insts) <= insts.len(),
        first_null(insts) < insts.len() ==> insts[first_null(insts) as int].status == Status::Null,
        forall|j: int| 0 <= j < first_null(insts) ==> insts[j].status != Status::Null,
    decreases insts.len(),
{
    if insts.len() > 0 && insts[0].status != Status::Null {
        let rest = insts.drop_first();
        lemma_first_null_bound(rest);
        assert forall|j: int| 0 <= j < first_null(insts) implies insts[j].status
            != Status::Null by {
            if j > 0 {
                assert(rest[j - 1] == insts[j]);
            }
        }
    }
}

/// Nothing is counted in flags that are all false.
pub proof fn lemma_none_counted(len: nat)
    ensures
        count_true(Seq::new(len, |i: int| false)) == 0,
    decreases len,
{
    if len > 0 {
        lemma_none_counted((len - 1) as nat);
        assert(Seq::new(len, |i: int| false).drop_last() =~= Seq::new(
            (len - 1) as nat,
            |i: int| false,
        ));
    }
}

/// A batch of reads only has nothing left once its reads are taken out,
/// and one local read for each of its requests.
pub proof fn lemma_reads_only(batch: Seq<(ClientId, ApiRequestView)>)
    requires
        forall|k: int| 0 <= k < batch.len() ==> is_read(batch[k].1),
    ensures
        without_reads(batch).len() == 0,
        local_reads(batch).len() == batch.len(),
        forall|k: int| 0 <= k < batch.len() ==> (#[trigger] local_reads(batch)[k]) is ExecRead,
    decreases batch.len(),
{
    if batch.len() > 0 {
        lemma_reads_only(batch.drop_last());
        assert forall|k: int| 0 <= k < batch.len() implies (#[trigger] local_reads(
            batch,
        )[k]) is ExecRead by {
            if k < batch.len() - 1 {
                assert(local_reads(batch)[k] == local_reads(batch.drop_last())[k]);
            }
        }
    }
}

/// What is settled stays settled: a batch of requests changes no instance
/// that holds something, at most one instance changes or is added, and the
/// watermarks, the ballots and the leader stay as they are.
pub proof fn lemma_req_batch_keeps_instances(
    state: MultiPaxosView,
    batch: Seq<(ClientId, ApiRequestView)>,
    lease_cnt: u8,
)
    ensures
        ({
            let next = state.step_req_batch(batch, lease_cnt).0;
            let idx = first_null(state.insts) as int;
            &&& state.insts.len() <= next.insts.len() <= state.insts.len() + 1
            &&& forall|i: int|
                0 <= i < state.insts.len() && state.insts[i].status != Status::Null
                    ==> #[trigger] next.insts[i] == state.insts[i]
            &&& forall|i: int|
                0 <= i < state.insts.len() && i != idx ==> #[trigger] next.insts[i]
                    == state.insts[i]
            &&& next.insts.len() > state.insts.len() ==> idx == state.insts.len()
            &&& next == (MultiPaxosView { insts: next.insts, ..state })
        }),
{
    lemma_first_null_bound(state.insts);
}

/// Nothing is acknowledged before it is on disk: the instance that takes
/// a batch in is handed to the durable log with the ballot and the
/// requests that the instance holds, before it is broadcast; it is in the
/// Accept phase, and no acceptance is counted for it yet, this replica's
/// own neither. Whatever goes before the two is a local read.
pub proof fn lemma_req_batch_logged_before_acks(
    state: MultiPaxosView,
    batch: Seq<(ClientId, ApiRequestView)>,
    lease_cnt: u8,
)
    requires
        state.needs_instance(batch, lease_cnt),
    ensures
        ({
            let (next, actions) = state.step_req_batch(batch, lease_cnt);
            let idx = first_null(state.insts) as int;
            let slot = (state.start_slot + idx) as usize;
            let inst = next.insts[idx];
            &&& idx < next.insts.len()
            &&& inst.status == Status::Accepting
            &&& inst.bal == state.bal_prepared
            &&& inst.voted == (inst.bal, inst.reqs)
            &&& inst.external
            &&& inst.leader_bk matches Some(bk) && count_true(bk.accept_acks) == 0
            &&& actions.len() >= 2
            &&& actions[actions.len() - 2] == (ActionView::LogAccept {
                slot,
                ballot: inst.bal,
                reqs: inst.reqs,
                sync: state.config.logger_sync,
            })
            &&& actions[actions.len() - 1] == (ActionView::BcastAccept {
                slot,
                ballot: inst.bal,
                reqs: inst.reqs,
            })
            &&& forall|k: int| 0 <= k < actions.len() - 2 ==> (#[trigger] actions[k]) is ExecRead
            &&& !state.reads_locally(lease_cnt) ==> actions.len() == 2 && inst.reqs == batch
        }),
{
    lemma_first_null_bound(state.insts);
    lemma_none_counted(state.population as nat);
    if state.reads_locally(lease_cnt) {
        lemma_local_reads_are_reads(batch);
    }
}

/// Each of the local reads of a batch is a local read.
pub proof fn lemma_local_reads_are_reads(batch: Seq<(ClientId, ApiRequestView)>)
    ensures
        forall|k: int|
            0 <= k < local_reads(batch).len() ==> (#[trigger] local_reads(batch)[k]) is ExecRead,
    decreases batch.len(),
{
    if batch.len() > 0 {
        lemma_local_reads_are_reads(batch.drop_last());
        assert forall|k: int| 0 <= k < local_reads(batch).len() implies (#[trigger] local_reads(
            batch,
        )[k]) is ExecRead by {
            if k < local_reads(batch.drop_last()).len() {
                assert(local_reads(batch)[k] == local_reads(batch.drop_last())[k]);
            }
        }
    }
}

/// The lease read fast path: a leader that may read locally answers a
/// batch of reads out of its own state machine, one read for each request;
/// its state stays as it is, and nothing is logged or broadcast.
pub proof fn lemma_leased_reads_skip_the_log(
    state: MultiPaxosView,
    batch: Seq<(ClientId, ApiRequestView)>,
    lease_cnt: u8,
)
    requires
        state.is_leader(),
        state.bal_prepared != 0,
        state.reads_locally(lease_cnt),
        forall|k: int| 0 <= k < batch.len() ==> is_read(batch[k].1),
    ensures
        ({
            let (next, actions) = state.step_req_batch(batch, lease_cnt);
            &&& next == state
            &&& actions == local_reads(batch)
            &&& actions.len() == batch.len()
            &&& forall|k: int| 0 <= k < actions.len() ==> (#[trigger] actions[k]) is ExecRead
        }),
{
    lemma_reads_only(batch);
}

/// The keys that the writes of a batch put, in batch order.
pub open spec fn put_keys(batch: Seq<(ClientId, ApiRequestView)>) -> Seq<Seq<char>>
    decreases batch.len(),
{
    if batch.len() == 0 {
        Seq::empty()
    } else {
        let before = put_keys(batch.drop_last());
        match batch.last().1 {
            ApiRequestView::Req { cmd: CommandView::Put { key, .. }, .. } => before.push(key),
            _ => before,
        }
    }
}

/// The keys that the committed instances put, in log order.
pub open spec fn committed_put_keys(insts: Seq<InstanceView>) -> Seq<Seq<char>>
    decreases insts.len(),
{
    if insts.len() == 0 {
        Seq::empty()
    } else if insts.last().status.is_committed() {
        committed_put_keys(insts.drop_last()) + put_keys(insts.last().reqs)
    } else {
        committed_put_keys(insts.drop_last())
    }
}

/// How often `key` stands in `keys`.
pub open spec fn occurrences(keys: Seq<Seq<char>>, key: Seq<char>) -> nat
    decreases keys.len(),
{
    if keys.len() == 0 {
        0
    } else {
        occurrences(keys.drop_last(), key) + if keys.last() == key {
            1nat
        } else {
            0nat
        }
    }
}

/// The first key of the list, and how often it is put again after that.
pub open spec fn first_key_version(keys: Seq<Seq<char>>) -> Option<(Seq<char>, nat)> {
    if keys.len() == 0 {
        None
    } else {
        Some((keys[0], (occurrences(keys, keys[0]) - 1) as nat))
    }
}

/// The first key of a list occurs in it.
pub proof fn lemma_first_key_occurs(keys: Seq<Seq<char>>)
    requires
        keys.len() > 0,
    ensures
        occurrences(keys, keys[0]) >= 1,
    decreases keys.len(),
{
    if keys.len() > 1 {
        lemma_first_key_occurs(keys.drop_last());
    }
}

impl MultiPaxosReplica {
    /// The replies that send the clients of the batch on to `target`.
    fn redirect_batch(req_batch: &ReqBatch, target: ReplicaId) -> (actions: Vec<Action>)
        ensures
            actions_view(actions@) == redirects(batch_view(req_batch@), target),
    {
        let mut actions: Vec<Action> = Vec::new();
        let mut k: usize = 0;
        assert(actions_view(actions@) =~= Seq::empty());
        assert(batch_view(req_batch@.take(0)) =~= Seq::empty());
        while k < req_batch.len()
            invariant
                k <= req_batch.len(),
                actions_view(actions@) == redirects(batch_view(req_batch@.take(k as int)), target),
            decreases req_batch.len() - k,
        {
            proof {
                assert(req_batch@.take(k as int + 1) == req_batch@.take(k as int).push(
                    req_batch@[k as int],
                ));
                lemma_batch_view_push(req_batch@.take(k as int), req_batch@[k as int]);
                let grown = batch_view(req_batch@.take(k as int + 1));
                assert(grown.drop_last() == batch_view(req_batch@.take(k as int)));
            }
            let client = req_batch[k].0;
            if let ApiRequest::Req { id, .. } = &req_batch[k].1 {
                // tell the client to try on known leader or just the
                // next ID replica
                let action = Action::SendReply { reply: ApiReply::redirect(*id, target), client };
                proof {
                    lemma_actions_view_push(actions@, action);
                }
                actions.push(action);
            }
            k = k + 1;
        }
        proof {
            assert(req_batch@.take(k as int) == req_batch@);
        }
        actions
    }

    /// Parts a batch into the local reads that serve its reads and the
    /// rest of the batch.
    fn extract_reads(req_batch: &ReqBatch) -> (r: (Vec<Action>, ReqBatch))
        ensures
            actions_view(r.0@) == local_reads(batch_view(req_batch@)),
            batch_view(r.1@) == without_reads(batch_view(req_batch@)),
    {
        let mut actions: Vec<Action> = Vec::new();
        let mut left: ReqBatch = Vec::new();
        let mut k: usize = 0;
        assert(actions_view(actions@) =~= Seq::empty());
        assert(batch_view(left@) =~= Seq::empty());
        assert(batch_view(req_batch@.take(0)) =~= Seq::empty());
        while k < req_batch.len()
            invariant
                k <= req_batch.len(),
                actions_view(actions@) == local_reads(batch_view(req_batch@.take(k as int))),
                batch_view(left@) == without_reads(batch_view(req_batch@.take(k as int))),
            decreases req_batch.len() - k,
        {
            proof {
                assert(req_batch@.take(k as int + 1) == req_batch@.take(k as int).push(
                    req_batch@[k as int],
                ));
                lemma_batch_view_push(req_batch@.take(k as int), req_batch@[k as int]);
                let grown = batch_view(req_batch@.take(k as int + 1));
                assert(grown.drop_last() == batch_view(req_batch@.take(k as int)));
            }
            let client = req_batch[k].0;
            match &req_batch[k].1 {
                ApiRequest::Req { id, cmd: Command::Get { key } } => {
                    let action = Action::ExecRead { id: *id, key: key.clone(), client };
                    proof {
                        lemma_actions_view_push(actions@, action);
                    }
                    actions.push(action);
                },
                req => {
                    let pair = (client, req.clone());
                    proof {
                        lemma_batch_view_push(left@, pair);
                    }
                    left.push(pair);
                },
            }
            k = k + 1;
        }
        proof {
            assert(req_batch@.take(k as int) == req_batch@);
        }
        (actions, left)
    }

    /// The index of the first `Null` instance, or the number of instances
    /// where there is none.
    fn first_null_slot(&self) -> (idx: usize)
        ensures
            idx == first_null(self@.insts),
            idx <= self.insts.len(),
            idx < self.insts.len() ==> self@.insts[idx as int].status == Status::Null,
    {
        let mut idx: usize = 0;
        while idx < self.insts.len()
            invariant
                idx <= self.insts.len(),
                forall|j: int| 0 <= j < idx ==> self@.insts[j].status != Status::Null,
            decreases self.insts.len() - idx,
        {
            if let Status::Null = self.insts[idx].status {
                proof {
                    lemma_first_null(self@.insts, idx as int);
                }
                return idx;
            }
            idx = idx + 1;
        }
        proof {
            lemma_first_null(self@.insts, idx as int);
        }
        idx
    }

    /// Handler of client request batch chan recv.
    ///
    /// `lease_cnt` is the number of peers that hold a lease of this
    /// replica, as its lease manager counts them. Where a new instance is
    /// needed and the slot after it has no number, nothing changes and the
    /// call fails.
    pub fn handle_req_batch(&mut self, req_batch: ReqBatch, lease_cnt: u8) -> (r: Result<
        Vec<Action>,
        SummersetError,
    >)
        requires
            old(self)@.inv(),
        ensures
            final(self)@.inv(),
            match r {
                Ok(actions) => old(self)@.has_room(batch_view(req_batch@), lease_cnt) && (
                    final(self)@,
                    actions_view(actions@),
                ) == old(self)@.step_req_batch(batch_view(req_batch@), lease_cnt),
                Err(e) => !old(self)@.has_room(batch_view(req_batch@), lease_cnt) && final(self)@
                    == old(self)@ && e == SummersetError::CountOverflow,
            },
    {
        // if I'm not a prepared leader, ignore client requests
        if !self.is_leader() || self.bal_prepared == 0 {
            let target = match self.leader {
                Some(peer) => peer,
                None => (self.id + 1) % self.population,
            };
            return Ok(Self::redirect_batch(&req_batch, target));
        }
        // if I'm a majority-leased leader or if simulating read leases, extract
        // all the reads and immediately reply to them

        let fast = (self.bal_max_seen == self.bal_prepared && lease_cnt as u16 + 1
            >= self.quorum_cnt as u16) || self.config.sim_read_lease;
        let (mut actions, left) = if fast {
            let (served, left) = Self::extract_reads(&req_batch);
            if left.len() == 0 {
                return Ok(served);
            }
            (served, left)
        } else {
            assert(actions_view(Seq::<Action>::empty()) =~= Seq::empty());
            (Vec::new(), req_batch)
        };

        // create a new instance in the first null slot (or append a new one
        // at the end if no holes exist); fill it up with incoming data
        let idx = self.first_null_slot();
        if idx == self.insts.len() {
            if usize::MAX - self.start_slot == self.insts.len() {
                return Err(SummersetError::CountOverflow);
            }
            let fresh = Instance {
                bal: 0,
                status: Status::Null,
                reqs: Vec::new(),
                voted: (0, Vec::new()),
                leader_bk: None,
                replica_bk: None,
                external: false,
            };
            assert(fresh@ =~= null_instance()) by {
                assert(batch_view(fresh.reqs@) =~= Seq::empty());
                assert(batch_view(fresh.voted.1@) =~= Seq::empty());
            }
            self.insts.push(fresh);
            assert(self@.insts =~= old(self)@.insts.push(null_instance()));
        }
        let slot = self.start_slot + idx;
        let ballot = self.bal_prepared;
        let ghost room = self@.insts;
        let inst = Instance {
            bal: ballot,
            // start the Accept phase for this instance
            status: Status::Accepting,
            reqs: clone_batch(&left),
            // record update to largest accepted ballot and corresponding data
            voted: (ballot, clone_batch(&left)),
            leader_bk: Some(
                LeaderBookkeeping {
                    trigger_slot: 0,
                    endprep_slot: 0,
                    prepare_acks: Bitmap::new(self.population, false),
                    prepare_max_bal: 0,
                    accept_acks: Bitmap::new(self.population, false),
                },
            ),
            replica_bk: self.insts[idx].replica_bk,
            external: true,
        };
        let ghost filled = inst@;
        self.insts.set(idx, inst);
        assert(self@.insts =~= room.update(idx as int, filled));

        let log = Action::LogAccept {
            slot,
            ballot,
            reqs: clone_batch(&left),
            sync: self.config.logger_sync,
        };
        proof {
            lemma_actions_view_push(actions@, log);
        }
        actions.push(log);
        // send Accept messages to all peers
        let bcast = Action::BcastAccept { slot, ballot, reqs: left };
        proof {
            lemma_actions_view_push(actions@, bcast);
        }
        actions.push(bcast);
        Ok(actions)
    }

    /// The key of the first committed write in the log, and how many of the
    /// committed writes after it put the same key (its version).
    ///
    /// Fails where the version does not fit the counter.
    pub fn val_ver_of_first_key(&self) -> (r: Result<Option<(String, usize)>, SummersetError>)
        ensures
            match r {
                Ok(found) => match first_key_version(committed_put_keys(self@.insts)) {
                    Some((key, ver)) => found matches Some((k, v)) && k@ == key && v == ver,
                    None => found is None,
                },
                Err(e) => {
                    &&& e == SummersetError::CountOverflow
                    &&& first_key_version(committed_put_keys(self@.insts)) matches Some((_, ver))
                    &&& ver > usize::MAX
                },
            },
    {
        let mut key: Option<String> = None;
        let mut ver: usize = 0;
        let mut overflow = false;
        let ghost mut seen: Seq<Seq<char>> = Seq::empty();
        let mut i: usize = 0;
        assert(self@.insts.take(0) =~= Seq::empty());
        while i < self.insts.len()
            invariant
                i <= self.insts.len(),
                seen == committed_put_keys(self@.insts.take(i as int)),
                key is None <==> seen.len() == 0,
                key is None ==> ver == 0 && !overflow,
                key matches Some(k) ==> k@ == seen[0] && if overflow {
                    occurrences(seen, seen[0]) - 1 > usize::MAX
                } else {
                    ver == occurrences(seen, seen[0]) - 1
                },
            decreases self.insts.len() - i,
        {
            let inst = &self.insts[i];
            proof {
                assert(self@.insts.take(i as int + 1).drop_last() == self@.insts.take(i as int));
                assert(self@.insts.take(i as int + 1).last() == inst@);
                assert(put_keys(batch_view(inst.reqs@).take(0)) =~= Seq::empty());
            }
            if inst.status.is_committed() {
                let ghost before = seen;
                let mut j: usize = 0;
                while j < inst.reqs.len()
                    invariant
                        j <= inst.reqs.len(),
                        seen == before + put_keys(batch_view(inst.reqs@).take(j as int)),
                        key is None <==> seen.len() == 0,
                        key is None ==> ver == 0 && !overflow,
                        key matches Some(k) ==> k@ == seen[0] && if overflow {
                            occurrences(seen, seen[0]) - 1 > usize::MAX
                        } else {
                            ver == occurrences(seen, seen[0]) - 1
                        },
                    decreases inst.reqs.len() - j,
                {
                    proof {
                        let reqs = batch_view(inst.reqs@);
                        assert(reqs.take(j as int + 1).drop_last() == reqs.take(j as int));
                        assert(reqs.take(j as int + 1).last() == reqs[j as int]);
                    }
                    if let ApiRequest::Req { cmd: Command::Put { key: k, .. }, .. } = &inst.reqs[j].1 {
                        proof {
                            let grown = seen.push(k@);
                            assert(grown.drop_last() == seen);
                            assert(grown == before + put_keys(
                                batch_view(inst.reqs@).take(j as int + 1),
                            ));
                            if seen.len() > 0 {
                                lemma_first_key_occurs(seen);
                                assert(grown[0] == seen[0]);
                            }
                            assert(grown.last() == k@);
                            assert(occurrences(grown, grown[0]) == occurrences(seen, grown[0]) + if k@
                                == grown[0] {
                                1nat
                            } else {
                                0nat
                            });
                            seen = grown;
                        }
                        match &key {
                            None => {
                                key = Some(k.clone());
                            },
                            Some(first) => {
                                if *first == *k {
                                    if ver == usize::MAX {
                                        overflow = true;
                                    } else if !overflow {
                                        ver = ver + 1;
                                    }
                                }
                            },
                        }
                    }
                    j = j + 1;
                }
                proof {
                    assert(batch_view(inst.reqs@).take(j as int) == batch_view(inst.reqs@));
                }
            }
            i = i + 1;
        }
        proof {
            assert(self@.insts.take(i as int) == self@.insts);
        }
        if overflow {
            return Err(SummersetError::CountOverflow);
        }
        match key {
            Some(k) => Ok(Some((k, ver))),
            None => Ok(None),
        }
    }
}

} // verus!
