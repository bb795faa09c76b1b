use summerset::server::storage::{checksum, decode_record, encode_record, recover};
use summerset::server::LogResult;
use summerset::utils::SummersetError;

#[test]
fn checksum_is_crc32c() {
    // the check value of CRC-32C: the checksum of the digits 1 to 9
    let digits = b"23456789".to_vec();
    assert_eq!(checksum(b'1', &digits, 0, 8), 0xE3069283);
    // of a single zero byte
    assert_eq!(checksum(0, &vec![], 0, 0), 0x527D5351);
    // of a part of a buffer
    let padded = b"xx23456789yy".to_vec();
    assert_eq!(checksum(b'1', &padded, 2, 10), 0xE3069283);
}

#[test]
fn record_layout() {
    let record = encode_record(b'1', &b"23456789".to_vec()).unwrap();
    assert_eq!(record.len(), 9 + 8);
    assert_eq!(&record[0..4], &[8, 0, 0, 0]);
    assert_eq!(&record[4..8], &[0x83, 0x92, 0x06, 0xE3]);
    assert_eq!(record[8], b'1');
    assert_eq!(&record[9..], b"23456789");
    let empty = encode_record(7, &vec![]).unwrap();
    assert_eq!(empty.len(), 9);
    assert_eq!(&empty[0..4], &[0, 0, 0, 0]);
    assert_eq!(empty[8], 7);
}

#[test]
fn record_round_trip_at_offset() {
    let first = encode_record(1, &vec![10, 20, 30]).unwrap();
    let second = encode_record(2, &vec![]).unwrap();
    let third = encode_record(3, &(0..=255).collect::<Vec<u8>>()).unwrap();
    let mut log = first.clone();
    log.extend(&second);
    log.extend(&third);
    assert_eq!(decode_record(&log, 0), Ok((1, vec![10, 20, 30], 12)));
    assert_eq!(decode_record(&log, 12), Ok((2, vec![], 21)));
    assert_eq!(
        decode_record(&log, 21),
        Ok((3, (0..=255).collect::<Vec<u8>>(), 21 + 9 + 256))
    );
    assert_eq!(recover(&log), log.len());
}

#[test]
fn crc_mismatch_is_detected_at_read() {
    let mut log = encode_record(1, &vec![10, 20, 30]).unwrap();
    log.extend(encode_record(2, &vec![40]).unwrap());
    // a flipped bit in the payload
    let mut bad = log.clone();
    bad[10] ^= 0x04;
    assert_eq!(
        decode_record(&bad, 0),
        Err(SummersetError::RecordCorrupt { offset: 0 })
    );
    // in the kind
    let mut bad = log.clone();
    bad[12 + 8] = 3;
    assert_eq!(
        decode_record(&bad, 12),
        Err(SummersetError::RecordCorrupt { offset: 12 })
    );
    assert_eq!(decode_record(&bad, 0), Ok((1, vec![10, 20, 30], 12)));
    // in the checksum itself
    let mut bad = log.clone();
    bad[5] ^= 0x80;
    assert_eq!(
        decode_record(&bad, 0),
        Err(SummersetError::RecordCorrupt { offset: 0 })
    );
    assert_eq!(recover(&bad), 0);
}

#[test]
fn torn_record_is_detected_at_read() {
    let log = encode_record(1, &vec![10, 20, 30]).unwrap();
    for cut in 0..log.len() {
        assert_eq!(
            decode_record(&log[..cut].to_vec(), 0),
            Err(SummersetError::RecordTorn { offset: 0 })
        );
    }
    assert_eq!(
        decode_record(&log, 12),
        Err(SummersetError::RecordTorn { offset: 12 })
    );
    assert_eq!(
        decode_record(&log, 500),
        Err(SummersetError::RecordTorn { offset: 500 })
    );
    assert_eq!(
        decode_record(&log, usize::MAX),
        Err(SummersetError::RecordTorn { offset: usize::MAX })
    );
}

#[test]
fn recovery_truncates_to_last_valid_record() {
    let mut log = encode_record(0, &vec![1, 2, 3, 4]).unwrap();
    log.extend(encode_record(1, &vec![5; 100]).unwrap());
    let whole = log.len();
    let last = encode_record(2, &vec![6; 20]).unwrap();
    // the file ends in a torn record, wherever the crash cut it
    for cut in 0..last.len() {
        let mut torn = log.clone();
        torn.extend(&last[..cut]);
        assert_eq!(recover(&torn), whole);
    }
    log.extend(&last);
    assert_eq!(recover(&log), whole + 29);
    // garbage that claims more bytes than there are
    log.extend([255, 255, 255, 255, 0, 0, 0, 0, 9, 1, 2, 3]);
    assert_eq!(recover(&log), whole + 29);
    assert_eq!(recover(&vec![]), 0);
    assert_eq!(recover(&vec![0; 8]), 0);
}

#[test]
fn recovery_stops_at_first_bad_record() {
    let mut log = encode_record(0, &vec![1, 2, 3, 4]).unwrap();
    let first = log.len();
    log.extend(encode_record(1, &vec![5; 10]).unwrap());
    log.extend(encode_record(2, &vec![6; 10]).unwrap());
    log[first + 12] ^= 1;
    // the record after the corrupt one is not reached
    assert_eq!(recover(&log), first);
}

#[test]
fn log_results_are_checked_by_kind() {
    let written = LogResult::Write { offset_ok: true, now_size: 16 };
    let misplaced = LogResult::Write { offset_ok: false, now_size: 16 };
    let appended = LogResult::Append { now_size: 64 };
    let cut = LogResult::Truncate { offset_ok: true, now_size: 8 };
    let not_cut = LogResult::Truncate { offset_ok: false, now_size: 64 };
    let read = LogResult::Read { found: true, end_offset: 8 };
    let failed = Err(SummersetError::UnexpectedLogResult);
    assert_eq!(written.expect_written(), Ok(()));
    assert_eq!(misplaced.expect_written(), failed);
    assert_eq!(appended.expect_written(), failed);
    assert_eq!(appended.expect_appended(), Ok(()));
    assert_eq!(written.expect_appended(), failed);
    assert_eq!(read.expect_appended(), failed);
    assert_eq!(cut.expect_truncated(), Ok(()));
    assert_eq!(not_cut.expect_truncated(), failed);
    assert_eq!(written.expect_truncated(), failed);
}
