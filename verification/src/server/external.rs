//! Requests that clients send and replies that they get.

use crate::client::ClientId;
use crate::server::statemach::{Command, CommandResult, CommandResultView, CommandView};
use crate::server::ReplicaId;
use std::collections::HashMap;
use vstd::prelude::*;

verus! {

/// Request ID type.
pub type RequestId = u64;

/// Request received from client.
#[derive(Debug, PartialEq, Eq)]
pub enum ApiRequest {
    /// Regular request.
    Req {
        /// Client request ID.
        id: RequestId,
        /// Command to be replicated and executed.
        cmd: Command,
    },
    /// Client leave notification.
    Leave { permanent: bool },
}

/// A client request as a mathematical value.
pub enum ApiRequestView {
    Req { id: RequestId, cmd: CommandView },
    Leave { permanent: bool },
}

impl View for ApiRequest {
    type V = ApiRequestView;

    open spec fn view(&self) -> ApiRequestView {
        match self {
            ApiRequest::Req { id, cmd } => ApiRequestView::Req { id: *id, cmd: cmd@ },
            ApiRequest::Leave { permanent } => ApiRequestView::Leave { permanent: *permanent },
        }
    }
}

impl Clone for ApiRequest {
    fn clone(&self) -> (r: Self)
        ensures
            r@ == self@,
    {
        match self {
            ApiRequest::Req { id, cmd } => ApiRequest::Req { id: *id, cmd: cmd.clone() },
            ApiRequest::Leave { permanent } => ApiRequest::Leave { permanent: *permanent },
        }
    }
}

/// Reply back to client.
#[derive(Debug, PartialEq, Eq)]
pub enum ApiReply {
    /// Reply to regular request.
    Reply {
        /// ID of the corresponding client request.
        id: RequestId,
        /// Command result, or `None` if unsuccessful.
        result: Option<CommandResult>,
        /// Set if the service wants the client to try another server.
        redirect: Option<ReplicaId>,
    },
    /// Reply to client leave notification.
    LeaveAck,
}

/// A reply as a mathematical value.
pub enum ApiReplyView {
    Reply { id: RequestId, result: Option<CommandResultView>, redirect: Option<ReplicaId> },
    LeaveAck,
}

impl View for ApiReply {
    type V = ApiReplyView;

    open spec fn view(&self) -> ApiReplyView {
        match self {
            ApiReply::Reply { id, result, redirect } => ApiReplyView::Reply {
                id: *id,
                result: match result {
                    Some(result) => Some(result@),
                    None => None,
                },
                redirect: *redirect,
            },
            ApiReply::LeaveAck => ApiReplyView::LeaveAck,
        }
    }
}

impl Clone for ApiReply {
    fn clone(&self) -> (r: Self)
        ensures
            r@ == self@,
    {
        match self {
            ApiReply::Reply { id, result, redirect } => ApiReply::Reply {
                id: *id,
                result: match result {
                    Some(result) => Some(result.clone()),
                    None => None,
                },
                redirect: *redirect,
            },
            ApiReply::LeaveAck => ApiReply::LeaveAck,
        }
    }
}

impl ApiReply {
    /// Creates a normal reply: the result of a command, with no redirection.
    pub fn normal(id: RequestId, result: Option<CommandResult>) -> (reply: ApiReply)
        ensures
            reply == (ApiReply::Reply { id, result, redirect: None }),
    {
        ApiReply::Reply { id, result, redirect: None }
    }

    /// Creates a redirection reply: no result, and the server to try next.
    pub fn redirect(id: RequestId, target: ReplicaId) -> (reply: ApiReply)
        ensures
            reply == (ApiReply::Reply { id, result: None, redirect: Some(target) }),
    {
        ApiReply::Reply { id, result: None, redirect: Some(target) }
    }
}

/// Request batch type: the requests of clients in arrival order.
pub type ReqBatch = Vec<(ClientId, ApiRequest)>;

/// A request batch as a mathematical value.
pub open spec fn batch_view(batch: Seq<(ClientId, ApiRequest)>) -> Seq<(ClientId, ApiRequestView)> {
    batch.map_values(|pair: (ClientId, ApiRequest)| (pair.0, pair.1@))
}

/// The view of a batch grows with the batch.
pub proof fn lemma_batch_view_push(batch: Seq<(ClientId, ApiRequest)>, last: (ClientId, ApiRequest))
    ensures
        batch_view(batch.push(last)) == batch_view(batch).push((last.0, last.1@)),
{
    assert(batch_view(batch.push(last)) =~= batch_view(batch).push((last.0, last.1@)));
}

/// A copy of a request batch.
pub fn clone_batch(batch: &ReqBatch) -> (copy: ReqBatch)
    ensures
        batch_view(copy@) == batch_view(batch@),
{
    let mut copy: ReqBatch = Vec::new();
    let mut k: usize = 0;
    while k < batch.len()
        invariant
            k <= batch.len(),
            batch_view(copy@) == batch_view(batch@.take(k as int)),
        decreases batch.len() - k,
    {
        let pair = &batch[k];
        let item = (pair.0, pair.1.clone());
        proof {
            assert(batch@.take(k as int + 1) == batch@.take(k as int).push(batch@[k as int]));
            lemma_batch_view_push(batch@.take(k as int), batch@[k as int]);
            lemma_batch_view_push(copy@, item);
        }
        copy.push(item);
        k = k + 1;
    }
    proof {
        assert(batch@.take(k as int) == batch@);
    }
    copy
}

/// The ID of the request that a reply with a result answers.
pub open spec fn answered_id(reply: ApiReplyView) -> Option<RequestId> {
    match reply {
        ApiReplyView::Reply { id, result: Some(_), .. } => Some(id),
        _ => None,
    }
}

/// The ID of the request that the reply kept for a client answers.
pub open spec fn last_answered(cache: Map<ClientId, ApiReplyView>, client: ClientId) -> Option<
    RequestId,
> {
    if cache.contains_key(client) {
        answered_id(cache[client])
    } else {
        None
    }
}

/// What a client that sends a request is answered out of the cache: the
/// reply kept for it, if that answers a request of the same ID or a later
/// one. Any other request is new and goes on to the replica.
pub open spec fn replayed(
    cache: Map<ClientId, ApiReplyView>,
    client: ClientId,
    req: ApiRequestView,
) -> Option<ApiReplyView> {
    match req {
        ApiRequestView::Req { id, .. } => if last_answered(cache, client) matches Some(last)
            && id <= last {
            Some(cache[client])
        } else {
            None
        },
        _ => None,
    }
}

/// The cache after a reply went out to a client: a reply with a result is
/// kept as the client's last one, unless the one kept answers a later
/// request. Redirections and acknowledgements are not kept.
pub open spec fn remembered(
    cache: Map<ClientId, ApiReplyView>,
    client: ClientId,
    reply: ApiReplyView,
) -> Map<ClientId, ApiReplyView> {
    match answered_id(reply) {
        Some(id) => if last_answered(cache, client) matches Some(last) && last > id {
            cache
        } else {
            cache.insert(client, reply)
        },
        None => cache,
    }
}

/// A request that is delivered again has no second effect: once the reply
/// to a request has gone out, a request of the same ID from that client,
/// whatever it asks for, is answered with the reply kept, and so is not
/// handed to the replica again. Where the cache holds the reply to a later
/// request of the client already, the duplicate gets that one.
pub proof fn lemma_duplicate_gets_cached_reply(
    cache: Map<ClientId, ApiReplyView>,
    client: ClientId,
    reply: ApiReplyView,
    again: ApiRequestView,
)
    requires
        answered_id(reply) is Some,
        again matches ApiRequestView::Req { id, .. } && Some(id) == answered_id(reply),
    ensures
        replayed(remembered(cache, client, reply), client, again) is Some,
        replayed(remembered(cache, client, reply), client, again) == Some(
            remembered(cache, client, reply)[client],
        ),
        replayed(cache, client, again) is None ==> replayed(
            remembered(cache, client, reply),
            client,
            again,
        ) == Some(reply),
{
}

/// The most recent reply that went out to each client, kept so that a
/// client that sends a request again gets the same reply again.
///
/// Its view maps each client to the reply kept for it.
#[derive(Debug)]
pub struct ReplyCache {
    last: HashMap<ClientId, ApiReply>,
}

impl View for ReplyCache {
    type V = Map<ClientId, ApiReplyView>;

    closed spec fn view(&self) -> Map<ClientId, ApiReplyView> {
        self.last@.map_values(|reply: ApiReply| reply@)
    }
}

impl ReplyCache {
    /// Creates a cache that holds no reply.
    pub fn new() -> (cache: Self)
        ensures
            cache@ == Map::<ClientId, ApiReplyView>::empty(),
    {
        let cache = ReplyCache { last: HashMap::new() };
        assert(cache@ =~= Map::<ClientId, ApiReplyView>::empty());
        cache
    }

    /// Looks at a request as it comes in from a client: gives the reply to
    /// send at once if the request was answered before, and nothing if it
    /// is new and to go on to the replica.
    pub fn recv_req(&self, client: ClientId, req: &ApiRequest) -> (r: Option<ApiReply>)
        ensures
            match r {
                Some(reply) => replayed(self@, client, req@) == Some(reply@),
                None => replayed(self@, client, req@) is None,
            },
    {
        broadcast use vstd::std_specs::hash::group_hash_axioms;

        if let ApiRequest::Req { id, .. } = req {
            if let Some(kept) = self.last.get(&client) {
                if let ApiReply::Reply { id: last, result: Some(_), .. } = kept {
                    if *id <= *last {
                        return Some(kept.clone());
                    }
                }
            }
        }
        None
    }

    /// Takes note of a reply as it goes out to a client.
    pub fn send_reply(&mut self, reply: &ApiReply, client: ClientId)
        ensures
            final(self)@ == remembered(old(self)@, client, reply@),
    {
        broadcast use vstd::std_specs::hash::group_hash_axioms;

        if let ApiReply::Reply { id, result: Some(_), .. } = reply {
            let newer = match self.last.get(&client) {
                Some(ApiReply::Reply { id: last, result: Some(_), .. }) => *last > *id,
                _ => false,
            };
            if !newer {
                self.last.insert(client, reply.clone());
                assert(self@ =~= remembered(old(self)@, client, reply@));
            }
        }
    }
}

} // verus!
