use summerset::protocols::SmrProtocol;

#[test]
fn parse_valid_names() {
    assert_eq!(
        SmrProtocol::parse_name("RepNothing"),
        Some(SmrProtocol::RepNothing)
    );
    assert_eq!(
        SmrProtocol::parse_name("SimplePush"),
        Some(SmrProtocol::SimplePush)
    );
    assert_eq!(
        SmrProtocol::parse_name("ChainRep"),
        Some(SmrProtocol::ChainRep)
    );
    assert_eq!(
        SmrProtocol::parse_name("MultiPaxos"),
        Some(SmrProtocol::MultiPaxos)
    );
    assert_eq!(SmrProtocol::parse_name("Raft"), Some(SmrProtocol::Raft));
    assert_eq!(
        SmrProtocol::parse_name("RSPaxos"),
        Some(SmrProtocol::RSPaxos)
    );
    assert_eq!(SmrProtocol::parse_name("CRaft"), Some(SmrProtocol::CRaft));
}

#[test]
fn parse_invalid_name() {
    assert_eq!(SmrProtocol::parse_name("InvalidProtocol"), None);
}

#[test]
fn parse_name_is_exact() {
    assert_eq!(SmrProtocol::parse_name(""), None);
    assert_eq!(SmrProtocol::parse_name("raft"), None);
    assert_eq!(SmrProtocol::parse_name("Raft "), None);
    assert_eq!(SmrProtocol::parse_name("CRaftX"), None);
}
