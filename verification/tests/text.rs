use summerset::protocols::SmrProtocol;
use summerset::utils::{Bitmap, SummersetError};

#[test]
fn error_messages() {
    assert_eq!(
        SummersetError::IndexOutOfBound { idx: 7 }.msg(),
        "index 7 out of bound"
    );
    assert_eq!(
        SummersetError::IndexOutOfBound { idx: 255 }.msg(),
        "index 255 out of bound"
    );
    assert_eq!(
        SummersetError::SizeMismatch { left: 5, right: 106 }.msg(),
        "unioning sizes mismatch: 5 != 106"
    );
    assert_eq!(
        SummersetError::UnexpectedLogResult.msg(),
        "unexpected log result type or failed write"
    );
    assert_eq!(
        SummersetError::UnexpectedRequestType.msg(),
        "unexpected API request type"
    );
    assert_eq!(SummersetError::CountOverflow.msg(), "count overflow");
    assert_eq!(
        SummersetError::RecordTorn { offset: 1200 }.msg(),
        "torn log record at offset 1200"
    );
    assert_eq!(
        SummersetError::RecordCorrupt { offset: 9 }.msg(),
        "corrupt log record at offset 9"
    );
    assert_eq!(
        SummersetError::PayloadTooLong { len: 4294967296 }.msg(),
        "payload too long for a log record: 4294967296"
    );
    assert_eq!(
        SummersetError::InvalidFreqTarget { freq_target: 10000001 }.msg(),
        "invalid params.freq_target '10000001'"
    );
    assert_eq!(
        SummersetError::InvalidFreqTarget { freq_target: u64::MAX }.msg(),
        "invalid params.freq_target '18446744073709551615'"
    );
    assert_eq!(
        SummersetError::InvalidLengthS { length_s: 0 }.msg(),
        "invalid params.length_s '0'"
    );
    assert_eq!(
        SummersetError::InvalidPutRatio { put_ratio: 101 }.msg(),
        "invalid params.put_ratio '101'"
    );
    assert_eq!(
        SummersetError::InvalidValueSize { value_size: 0 }.msg(),
        "invalid params.value_size '0'"
    );
}

#[test]
fn bitmap_to_string_lists_the_ones() {
    assert_eq!(Bitmap::new(5, false).to_string(), "{}");
    assert_eq!(Bitmap::from_vec(5, &vec![3]).to_string(), "{3}");
    assert_eq!(
        Bitmap::from_vec(5, &vec![0, 1, 3]).to_string(),
        "{0,1,3}"
    );
    assert_eq!(
        Bitmap::from_vec(255, &vec![254, 9, 10, 100]).to_string(),
        "{9,10,100,254}"
    );
}

#[test]
fn protocol_names_parse_back() {
    let all = [
        (SmrProtocol::RepNothing, "RepNothing"),
        (SmrProtocol::SimplePush, "SimplePush"),
        (SmrProtocol::ChainRep, "ChainRep"),
        (SmrProtocol::MultiPaxos, "MultiPaxos"),
        (SmrProtocol::Raft, "Raft"),
        (SmrProtocol::RSPaxos, "RSPaxos"),
        (SmrProtocol::CRaft, "CRaft"),
    ];
    for (protocol, name) in all {
        assert_eq!(protocol.name(), name);
        assert_eq!(protocol.to_string(), name);
        assert_eq!(SmrProtocol::parse_name(protocol.name()), Some(protocol));
    }
}
