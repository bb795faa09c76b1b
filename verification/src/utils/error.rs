//! The error type shared by all components.

use crate::utils::text::{decimal, push_decimal};
use vstd::prelude::*;
use vstd::string::*;

verus! {

/// What went wrong, with the values that the message names.
#[derive(Debug, Clone, Copy, PartialEq, Eq, Structural)]
pub enum SummersetError {
    /// A bitmap has no slot of this index.
    IndexOutOfBound { idx: u8 },
    /// Two bitmaps of different sizes cannot be unioned.
    SizeMismatch { left: u8, right: u8 },
    /// A durable log action came back failed, or as another kind of result.
    UnexpectedLogResult,
    /// A log entry holds something that is not a client command.
    UnexpectedRequestType,
    /// More matching items than the counter can hold.
    CountOverflow,
    /// A leader asks to overwrite the committed entry of this slot.
    CommittedConflict { slot: usize },
    /// The durable log ends within the record that starts at this offset.
    RecordTorn { offset: usize },
    /// The record at this offset does not match its checksum.
    RecordCorrupt { offset: usize },
    /// A payload of this length does not fit a record.
    PayloadTooLong { len: usize },
    /// Benchmark parameter out of range: target request frequency.
    InvalidFreqTarget { freq_target: u64 },
    /// Benchmark parameter out of range: run length in seconds.
    InvalidLengthS { length_s: u64 },
    /// Benchmark parameter out of range: percentage of puts.
    InvalidPutRatio { put_ratio: u8 },
    /// Benchmark parameter out of range: value size in bytes.
    InvalidValueSize { value_size: usize },
}

impl SummersetError {
    /// The message of the error, as a text.
    pub open spec fn spec_msg(self) -> Seq<char> {
        match self {
            SummersetError::IndexOutOfBound { idx } => "index "@ + decimal(idx as nat)
                + " out of bound"@,
            SummersetError::SizeMismatch { left, right } => "unioning sizes mismatch: "@ + decimal(
                left as nat,
            ) + " != "@ + decimal(right as nat),
            SummersetError::UnexpectedLogResult => "unexpected log result type or failed write"@,
            SummersetError::UnexpectedRequestType => "unexpected API request type"@,
            SummersetError::CountOverflow => "count overflow"@,
            SummersetError::CommittedConflict { slot } => "conflict in committed slot "@ + decimal(
                slot as nat,
            ),
            SummersetError::RecordTorn { offset } => "torn log record at offset "@ + decimal(
                offset as nat,
            ),
            SummersetError::RecordCorrupt { offset } => "corrupt log record at offset "@ + decimal(
                offset as nat,
            ),
            SummersetError::PayloadTooLong { len } => "payload too long for a log record: "@
                + decimal(len as nat),
            SummersetError::InvalidFreqTarget { freq_target } => "invalid params.freq_target '"@
                + decimal(freq_target as nat) + "'"@,
            SummersetError::InvalidLengthS { length_s } => "invalid params.length_s '"@ + decimal(
                length_s as nat,
            ) + "'"@,
            SummersetError::InvalidPutRatio { put_ratio } => "invalid params.put_ratio '"@
                + decimal(put_ratio as nat) + "'"@,
            SummersetError::InvalidValueSize { value_size } => "invalid params.value_size '"@
                + decimal(value_size as nat) + "'"@,
        }
    }

    /// A text made of a number between two fixed parts.
    fn framed(before: &str, n: u64, after: &str) -> (text: String)
        ensures
            text@ == before@ + decimal(n as nat) + after@,
    {
        let mut text = String::from_str(before);
        push_decimal(&mut text, n);
        text.append(after);
        text
    }

    /// The message of the error, as a text.
    pub fn msg(&self) -> (text: String)
        ensures
            text@ == self.spec_msg(),
    {
        proof {
            reveal_strlit("");
        }
        match self {
            SummersetError::IndexOutOfBound { idx } => Self::framed(
                "index ",
                *idx as u64,
                " out of bound",
            ),
            SummersetError::SizeMismatch { left, right } => {
                let mut text = Self::framed("unioning sizes mismatch: ", *left as u64, " != ");
                push_decimal(&mut text, *right as u64);
                text
            },
            SummersetError::UnexpectedLogResult => String::from_str(
                "unexpected log result type or failed write",
            ),
            SummersetError::UnexpectedRequestType => String::from_str(
                "unexpected API request type",
            ),
            SummersetError::CountOverflow => String::from_str("count overflow"),
            SummersetError::CommittedConflict { slot } => {
                let text = Self::framed("conflict in committed slot ", *slot as u64, "");
                assert(text@ =~= self.spec_msg());
                text
            },
            SummersetError::RecordTorn { offset } => {
                let text = Self::framed("torn log record at offset ", *offset as u64, "");
                assert(text@ =~= self.spec_msg());
                text
            },
            SummersetError::RecordCorrupt { offset } => {
                let text = Self::framed("corrupt log record at offset ", *offset as u64, "");
                assert(text@ =~= self.spec_msg());
                text
            },
            SummersetError::PayloadTooLong { len } => {
                let text = Self::framed("payload too long for a log record: ", *len as u64, "");
                assert(text@ =~= self.spec_msg());
                text
            },
            SummersetError::InvalidFreqTarget { freq_target } => Self::framed(
                "invalid params.freq_target '",
                *freq_target,
                "'",
            ),
            SummersetError::InvalidLengthS { length_s } => Self::framed(
                "invalid params.length_s '",
                *length_s,
                "'",
            ),
            SummersetError::InvalidPutRatio { put_ratio } => Self::framed(
                "invalid params.put_ratio '",
                *put_ratio as u64,
                "'",
            ),
            SummersetError::InvalidValueSize { value_size } => Self::framed(
                "invalid params.value_size '",
                *value_size as u64,
                "'",
            ),
        }
    }
}

} // verus!
