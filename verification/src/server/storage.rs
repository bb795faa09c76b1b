//! What the durable log store hands back.

use crate::utils::error::SummersetError;
use vstd::prelude::*;

verus! {

/// Action result returned by the log store.
#[derive(Debug, Clone, Copy, PartialEq, Eq, Structural)]
pub enum LogResult {
    /// A record was read; `found` is false if there is none at the offset.
    Read { found: bool, end_offset: usize },
    /// A record was written in place; `offset_ok` is false if the offset
    /// was not within the file.
    Write { offset_ok: bool, now_size: usize },
    /// A record was appended.
    Append { now_size: usize },
    /// The file was cut; `offset_ok` is false if the offset was not within
    /// the file.
    Truncate { offset_ok: bool, now_size: usize },
}

impl LogResult {
    /// Whether a record was written in place where it was meant to go.
    pub open spec fn is_written(self) -> bool {
        self matches LogResult::Write { offset_ok: true, .. }
    }

    /// Whether the file was cut where it was meant to be cut.
    pub open spec fn is_truncated(self) -> bool {
        self matches LogResult::Truncate { offset_ok: true, .. }
    }

    /// Checks the answer to a write in place: anything but a good write is
    /// an error.
    pub fn expect_written(self) -> (r: Result<(), SummersetError>)
        ensures
            r is Ok <==> self.is_written(),
            r matches Err(e) ==> e == SummersetError::UnexpectedLogResult,
    {
        if let LogResult::Write { offset_ok: true, .. } = self {
            Ok(())
        } else {
            Err(SummersetError::UnexpectedLogResult)
        }
    }

    /// Checks the answer to an append: anything but an append is an error.
    pub fn expect_appended(self) -> (r: Result<(), SummersetError>)
        ensures
            r is Ok <==> self is Append,
            r matches Err(e) ==> e == SummersetError::UnexpectedLogResult,
    {
        if let LogResult::Append { .. } = self {
            Ok(())
        } else {
            Err(SummersetError::UnexpectedLogResult)
        }
    }

    /// Checks the answer to a cut of the file: anything but a good cut is
    /// an error.
    pub fn expect_truncated(self) -> (r: Result<(), SummersetError>)
        ensures
            r is Ok <==> self.is_truncated(),
            r matches Err(e) ==> e == SummersetError::UnexpectedLogResult,
    {
        if let LogResult::Truncate { offset_ok: true, .. } = self {
            Ok(())
        } else {
            Err(SummersetError::UnexpectedLogResult)
        }
    }
}

/// Number of bytes of a record before its payload: the length of the
/// payload and the checksum, four bytes each, and the kind.
pub const RECORD_HEADER_LEN: usize = 9;

/// The reversed polynomial of the CRC-32C checksum.
pub const CRC32C_POLY: u32 = 0x82F63B78;

/// The four bytes of a number, the lowest first.
pub open spec fn le_bytes(x: u32) -> Seq<u8> {
    seq![
        (x & 0xff) as u8,
        ((x >> 8) & 0xff) as u8,
        ((x >> 16) & 0xff) as u8,
        ((x >> 24) & 0xff) as u8,
    ]
}

/// The number that four bytes stand for, the lowest first.
pub open spec fn from_le_bytes(b0: u8, b1: u8, b2: u8, b3: u8) -> u32 {
    (b0 as u32) | (b1 as u32) << 8 | (b2 as u32) << 16 | (b3 as u32) << 24
}

/// Reading the four bytes of a number gives the number back.
pub proof fn lemma_le_bytes_round_trip(x: u32)
    ensures
        from_le_bytes(le_bytes(x)[0], le_bytes(x)[1], le_bytes(x)[2], le_bytes(x)[3]) == x,
{
    assert(x == ((x & 0xff) as u8 as u32) | (((x >> 8) & 0xff) as u8 as u32) << 8 | ((
    (x >> 16) & 0xff) as u8 as u32) << 16 | (((x >> 24) & 0xff) as u8 as u32) << 24)
        by (bit_vector);
}

/// The checksum register after `bits` more shifts.
pub open spec fn crc_shift(crc: u32, bits: nat) -> u32
    decreases bits,
{
    if bits == 0 {
        crc
    } else {
        let prev = crc_shift(crc, (bits - 1) as nat);
        if prev & 1 == 1 {
            (prev >> 1) ^ CRC32C_POLY
        } else {
            prev >> 1
        }
    }
}

/// The checksum register after the bytes were fed into it.
pub open spec fn crc_feed(crc: u32, bytes: Seq<u8>) -> u32
    decreases bytes.len(),
{
    if bytes.len() == 0 {
        crc
    } else {
        crc_shift(crc_feed(crc, bytes.drop_last()) ^ (bytes.last() as u32), 8)
    }
}

/// The CRC-32C checksum (Castagnoli) of a record: of its kind followed by
/// its payload.
pub open spec fn record_crc(kind: u8, payload: Seq<u8>) -> u32 {
    crc_feed(crc_feed(0xFFFFFFFF, seq![kind]), payload) ^ 0xFFFFFFFF
}

/// Feeds one byte into the checksum register.
fn crc_step(crc: u32, byte: u8) -> (next: u32)
    ensures
        next == crc_shift(crc ^ (byte as u32), 8),
{
    let mut reg: u32 = crc ^ (byte as u32);
    let mut bit: u8 = 0;
    while bit < 8
        invariant
            bit <= 8,
            reg == crc_shift(crc ^ (byte as u32), bit as nat),
        decreases 8 - bit,
    {
        reg = if reg & 1 == 1 {
            (reg >> 1) ^ CRC32C_POLY
        } else {
            reg >> 1
        };
        bit = bit + 1;
    }
    reg
}

/// The CRC-32C checksum of a record: of its kind followed by the bytes of
/// `data` from `from` up to `to`.
pub fn checksum(kind: u8, data: &Vec<u8>, from: usize, to: usize) -> (crc: u32)
    requires
        from <= to <= data.len(),
    ensures
        crc == record_crc(kind, data@.subrange(from as int, to as int)),
{
    let mut reg: u32 = crc_step(0xFFFFFFFF, kind);
    proof {
        let head = seq![kind];
        assert(head.drop_last() =~= Seq::<u8>::empty());
        assert(head.last() == kind);
        assert(crc_feed(0xFFFFFFFF, head.drop_last()) == 0xFFFFFFFF);
        assert(crc_feed(0xFFFFFFFF, head) == crc_shift(0xFFFFFFFFu32 ^ (kind as u32), 8));
    }
    let mut at: usize = from;
    assert(data@.subrange(from as int, from as int) =~= Seq::<u8>::empty());
    while at < to
        invariant
            from <= at <= to <= data.len(),
            reg == crc_feed(
                crc_feed(0xFFFFFFFF, seq![kind]),
                data@.subrange(from as int, at as int),
            ),
        decreases to - at,
    {
        proof {
            let grown = data@.subrange(from as int, at as int + 1);
            assert(grown.drop_last() =~= data@.subrange(from as int, at as int));
            assert(grown.last() == data@[at as int]);
        }
        reg = crc_step(reg, data[at]);
        at = at + 1;
    }
    reg ^ 0xFFFFFFFF
}

/// The bytes of a record: the length of the payload and the checksum, four
/// bytes each with the lowest first, the kind, and the payload.
pub open spec fn record_bytes(kind: u8, payload: Seq<u8>) -> Seq<u8> {
    le_bytes(payload.len() as u32) + le_bytes(record_crc(kind, payload)) + seq![kind] + payload
}

/// What reading a record at `offset` of the durable log gives: its kind,
/// its payload and the offset of the record after it. A log that ends
/// before the record does is torn there. A record whose checksum does not
/// match its kind and payload is corrupt.
pub open spec fn read_record(log: Seq<u8>, offset: int) -> Result<
    (u8, Seq<u8>, int),
    SummersetError,
> {
    if offset < 0 || offset + RECORD_HEADER_LEN > log.len() {
        Err(SummersetError::RecordTorn { offset: offset as usize })
    } else {
        let len = from_le_bytes(log[offset], log[offset + 1], log[offset + 2], log[offset + 3]);
        let crc = from_le_bytes(
            log[offset + 4],
            log[offset + 5],
            log[offset + 6],
            log[offset + 7],
        );
        let kind = log[offset + 8];
        let end = offset + RECORD_HEADER_LEN + len;
        if end > log.len() {
            Err(SummersetError::RecordTorn { offset: offset as usize })
        } else {
            let payload = log.subrange(offset + RECORD_HEADER_LEN, end);
            if crc != record_crc(kind, payload) {
                Err(SummersetError::RecordCorrupt { offset: offset as usize })
            } else {
                Ok((kind, payload, end))
            }
        }
    }
}

/// The offset at which a scan of the log from `offset` on stops: that of
/// the first record that cannot be read, or the end of the log.
pub open spec fn valid_until(log: Seq<u8>, offset: int) -> int
    decreases log.len() - offset,
{
    match read_record(log, offset) {
        Ok((_, _, next)) => valid_until(log, next),
        Err(_) => offset,
    }
}

/// Appends the four bytes of a number to a buffer, the lowest first.
fn push_le_bytes(buf: &mut Vec<u8>, x: u32)
    ensures
        final(buf)@ == old(buf)@ + le_bytes(x),
{
    buf.push((x & 0xff) as u8);
    buf.push(((x >> 8) & 0xff) as u8);
    buf.push(((x >> 16) & 0xff) as u8);
    buf.push(((x >> 24) & 0xff) as u8);
    assert(buf@ =~= old(buf)@ + le_bytes(x));
}

/// Frames a payload as a record of the durable log. A payload whose length
/// does not fit four bytes is rejected.
pub fn encode_record(kind: u8, payload: &Vec<u8>) -> (r: Result<Vec<u8>, SummersetError>)
    ensures
        match r {
            Ok(bytes) => payload.len() <= u32::MAX && bytes@ == record_bytes(kind, payload@),
            Err(e) => payload.len() > u32::MAX && e == (SummersetError::PayloadTooLong {
                len: payload.len(),
            }),
        },
{
    if payload.len() > u32::MAX as usize {
        return Err(SummersetError::PayloadTooLong { len: payload.len() });
    }
    let crc = checksum(kind, payload, 0, payload.len());
    assert(payload@.subrange(0, payload.len() as int) =~= payload@);
    let mut bytes: Vec<u8> = Vec::new();
    push_le_bytes(&mut bytes, payload.len() as u32);
    push_le_bytes(&mut bytes, crc);
    bytes.push(kind);
    let mut at: usize = 0;
    while at < payload.len()
        invariant
            at <= payload.len(),
            bytes@ == le_bytes(payload.len() as u32) + le_bytes(crc) + seq![kind]
                + payload@.subrange(0, at as int),
        decreases payload.len() - at,
    {
        bytes.push(payload[at]);
        assert(bytes@ =~= le_bytes(payload.len() as u32) + le_bytes(crc) + seq![kind]
            + payload@.subrange(0, at as int + 1));
        at = at + 1;
    }
    Ok(bytes)
}

/// Reads four bytes of the log as a number, the lowest first.
fn le_at(log: &Vec<u8>, at: usize) -> (x: u32)
    requires
        at + 4 <= log.len(),
    ensures
        x == from_le_bytes(
            log@[at as int],
            log@[at as int + 1],
            log@[at as int + 2],
            log@[at as int + 3],
        ),
{
    (log[at] as u32) | (log[at + 1] as u32) << 8 | (log[at + 2] as u32) << 16 | (log[at
        + 3] as u32) << 24
}

/// Reads the header of the record at `offset` and checks the record
/// against its checksum: gives its kind, the offset of its payload and the
/// offset of the record after it.
fn check_record(log: &Vec<u8>, offset: usize) -> (r: Result<(u8, usize, usize), SummersetError>)
    ensures
        match r {
            Ok((kind, start, end)) => start == offset + RECORD_HEADER_LEN && start <= end
                <= log.len() && read_record(log@, offset as int) == Ok::<_, SummersetError>(
                (kind, log@.subrange(start as int, end as int), end as int),
            ),
            Err(e) => read_record(log@, offset as int) == Err::<(u8, Seq<u8>, int), _>(e),
        },
{
    if offset > log.len() || log.len() - offset < RECORD_HEADER_LEN {
        return Err(SummersetError::RecordTorn { offset });
    }
    let len = le_at(log, offset) as usize;
    let crc = le_at(log, offset + 4);
    let kind = log[offset + 8];
    let start = offset + RECORD_HEADER_LEN;
    if log.len() - start < len {
        return Err(SummersetError::RecordTorn { offset });
    }
    let end = start + len;
    if crc != checksum(kind, log, start, end) {
        return Err(SummersetError::RecordCorrupt { offset });
    }
    Ok((kind, start, end))
}

/// Reads the record at `offset` of the durable log: gives its kind, its
/// payload and the offset of the record after it.
pub fn decode_record(log: &Vec<u8>, offset: usize) -> (r: Result<
    (u8, Vec<u8>, usize),
    SummersetError,
>)
    ensures
        match r {
            Ok((kind, payload, next)) => read_record(log@, offset as int) == Ok::<
                _,
                SummersetError,
            >((kind, payload@, next as int)),
            Err(e) => read_record(log@, offset as int) == Err::<(u8, Seq<u8>, int), _>(e),
        },
{
    let (kind, start, end) = match check_record(log, offset) {
        Ok(found) => found,
        Err(e) => { return Err(e); },
    };
    let mut payload: Vec<u8> = Vec::new();
    let mut at: usize = start;
    while at < end
        invariant
            start <= at <= end <= log.len(),
            payload@ == log@.subrange(start as int, at as int),
        decreases end - at,
    {
        payload.push(log[at]);
        assert(payload@ =~= log@.subrange(start as int, at as int + 1));
        at = at + 1;
    }
    Ok((kind, payload, end))
}

/// Scans the durable log from its start and gives the length of its valid
/// prefix: the offset of the first record that is torn or corrupt, or the
/// length of the log. Recovery cuts the log there.
pub fn recover(log: &Vec<u8>) -> (valid: usize)
    ensures
        valid == valid_until(log@, 0),
        valid <= log.len(),
{
    let mut offset: usize = 0;
    loop
        invariant
            offset <= log.len(),
            valid_until(log@, 0) == valid_until(log@, offset as int),
        ensures
            offset == valid_until(log@, 0),
            offset <= log.len(),
        decreases log.len() - offset,
    {
        match check_record(log, offset) {
            Ok((_, _, end)) => {
                offset = end;
            },
            Err(_) => {
                break ;
            },
        }
    }
    offset
}

/// A record that was written is read back as it was: framing a payload,
/// putting the record anywhere in a log and reading at its offset gives
/// the kind and the payload, and the offset past the record.
pub proof fn lemma_record_round_trip(before: Seq<u8>, kind: u8, payload: Seq<u8>, after: Seq<u8>)
    requires
        payload.len() <= u32::MAX,
    ensures
        read_record(before + record_bytes(kind, payload) + after, before.len() as int) == Ok::<
            _,
            SummersetError,
        >((kind, payload, before.len() + RECORD_HEADER_LEN + payload.len())),
{
    let record = record_bytes(kind, payload);
    let log = before + record + after;
    let offset = before.len() as int;
    let len = payload.len() as u32;
    let crc = record_crc(kind, payload);
    lemma_le_bytes_round_trip(len);
    lemma_le_bytes_round_trip(crc);
    assert(record.len() == RECORD_HEADER_LEN + payload.len());
    assert forall|i: int| 0 <= i < record.len() implies log[offset + i] == record[i] by {}
    assert(log[offset] == record[0] && log[offset + 1] == record[1] && log[offset + 2]
        == record[2] && log[offset + 3] == record[3]);
    assert(log[offset + 4] == record[4] && log[offset + 5] == record[5] && log[offset + 6]
        == record[6] && log[offset + 7] == record[7]);
    assert(log[offset + 8] == record[8]);
    assert(record[0] == le_bytes(len)[0] && record[1] == le_bytes(len)[1] && record[2] == le_bytes(
        len,
    )[2] && record[3] == le_bytes(len)[3]);
    assert(record[4] == le_bytes(crc)[0] && record[5] == le_bytes(crc)[1] && record[6] == le_bytes(
        crc,
    )[2] && record[7] == le_bytes(crc)[3]);
    assert(record[8] == kind);
    assert(log.subrange(offset + RECORD_HEADER_LEN, offset + RECORD_HEADER_LEN + payload.len())
        =~= payload);
}

/// Bytes that are added behind a log of whole records do not change how
/// its records are read: a scan of the longer log passes over them as
/// before and goes on where the shorter log ended.
pub proof fn lemma_scan_passes_whole_records(log: Seq<u8>, tail: Seq<u8>, offset: int)
    requires
        0 <= offset <= log.len(),
        valid_until(log, offset) == log.len(),
    ensures
        valid_until(log + tail, offset) == valid_until(log + tail, log.len() as int),
    decreases log.len() - offset,
{
    if offset < log.len() {
        let longer = log + tail;
        match read_record(log, offset) {
            Ok((kind, payload, next)) => {
                assert(forall|i: int| 0 <= i < log.len() ==> longer[i] == log[i]);
                assert(longer.subrange(offset + RECORD_HEADER_LEN, next) =~= log.subrange(
                    offset + RECORD_HEADER_LEN,
                    next,
                ));
                assert(read_record(longer, offset) == read_record(log, offset));
                lemma_scan_passes_whole_records(log, tail, next);
            },
            Err(_) => {},
        }
    }
}

/// A log that ends in a torn record is valid up to the last whole record:
/// where a crash cut the last record short, a scan stops at the end of the
/// record before it.
pub proof fn lemma_recovery_drops_torn_record(
    whole: Seq<u8>,
    kind: u8,
    payload: Seq<u8>,
    cut: int,
)
    requires
        valid_until(whole, 0) == whole.len(),
        payload.len() <= u32::MAX,
        0 <= cut < record_bytes(kind, payload).len(),
    ensures
        valid_until(whole + record_bytes(kind, payload).take(cut), 0) == whole.len(),
{
    let record = record_bytes(kind, payload);
    let torn = record.take(cut);
    let log = whole + torn;
    let offset = whole.len() as int;
    lemma_scan_passes_whole_records(whole, torn, 0);
    assert(record.len() == RECORD_HEADER_LEN + payload.len());
    if cut >= RECORD_HEADER_LEN {
        let len = payload.len() as u32;
        lemma_le_bytes_round_trip(len);
        assert(log[offset] == record[0] && log[offset + 1] == record[1] && log[offset + 2]
            == record[2] && log[offset + 3] == record[3]);
        assert(record[0] == le_bytes(len)[0] && record[1] == le_bytes(len)[1] && record[2]
            == le_bytes(len)[2] && record[3] == le_bytes(len)[3]);
    }
    assert(read_record(log, offset) is Err);
}

} // verus!
