use summerset::server::{ApiReply, ApiRequest, Command, CommandResult, ReplyCache};

fn put(id: u64, key: &str, value: &str) -> ApiRequest {
    ApiRequest::Req {
        id,
        cmd: Command::Put {
            key: key.to_string(),
            value: value.to_string(),
        },
    }
}

fn put_reply(id: u64, old: Option<&str>) -> ApiReply {
    ApiReply::normal(
        id,
        Some(CommandResult::PutResult {
            old_value: old.map(|v| v.to_string()),
        }),
    )
}

#[test]
fn duplicate_client_request() {
    let mut cache = ReplyCache::new();
    // the request is new: it goes on to the replica, which applies it
    assert_eq!(cache.recv_req(1, &put(7, "k", "v1")), None);
    let reply = put_reply(7, None);
    cache.send_reply(&reply, 1);
    // the network was flaky: the client sends request 7 once more, with
    // another value; it gets the same reply and nothing is applied
    assert_eq!(cache.recv_req(1, &put(7, "k", "v2")), Some(put_reply(7, None)));
    assert_eq!(cache.recv_req(1, &put(7, "k", "v1")), Some(put_reply(7, None)));
    // the next request is new again
    assert_eq!(cache.recv_req(1, &put(8, "k", "v3")), None);
}

#[test]
fn older_request_gets_most_recent_reply() {
    let mut cache = ReplyCache::new();
    cache.send_reply(&put_reply(3, None), 5);
    cache.send_reply(&put_reply(4, Some("a")), 5);
    assert_eq!(cache.recv_req(5, &put(3, "k", "v")), Some(put_reply(4, Some("a"))));
    assert_eq!(cache.recv_req(5, &put(4, "k", "v")), Some(put_reply(4, Some("a"))));
    assert_eq!(cache.recv_req(5, &put(0, "k", "v")), Some(put_reply(4, Some("a"))));
    // a reply that comes late does not take the place of a later one
    cache.send_reply(&put_reply(2, Some("z")), 5);
    assert_eq!(cache.recv_req(5, &put(2, "k", "v")), Some(put_reply(4, Some("a"))));
}

#[test]
fn replies_are_kept_per_client() {
    let mut cache = ReplyCache::new();
    cache.send_reply(&put_reply(7, None), 1);
    assert_eq!(cache.recv_req(2, &put(7, "k", "v")), None);
    cache.send_reply(&put_reply(7, Some("v")), 2);
    assert_eq!(cache.recv_req(1, &put(7, "k", "v")), Some(put_reply(7, None)));
    assert_eq!(cache.recv_req(2, &put(7, "k", "v")), Some(put_reply(7, Some("v"))));
}

#[test]
fn redirects_and_acks_are_not_kept() {
    let mut cache = ReplyCache::new();
    cache.send_reply(&ApiReply::redirect(7, 2), 1);
    assert_eq!(cache.recv_req(1, &put(7, "k", "v")), None);
    cache.send_reply(&ApiReply::LeaveAck, 1);
    assert_eq!(cache.recv_req(1, &put(7, "k", "v")), None);
    cache.send_reply(&ApiReply::normal(7, None), 1);
    assert_eq!(cache.recv_req(1, &put(7, "k", "v")), None);
    // a leave notification is never answered out of the cache
    cache.send_reply(&put_reply(9, None), 1);
    assert_eq!(cache.recv_req(1, &ApiRequest::Leave { permanent: true }), None);
    // and a redirect does not drop what is kept
    cache.send_reply(&ApiReply::redirect(10, 0), 1);
    assert_eq!(cache.recv_req(1, &put(9, "k", "v")), Some(put_reply(9, None)));
}
