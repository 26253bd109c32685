//! The lifecycle record: how many participants are running, and when the
//! configuration they agreed on was written.

use crate::error::LakeError;
use crate::text::{
    after_first_line, decimal, decimal_string, first_line, lemma_decimal_no_newline,
    lemma_first_line_of_line, lemma_parse_unsigned_decimal, lemma_parse_unsigned_range,
    line_body, parse_u32, parse_u64, parse_unsigned, split_line, strip_newline,
};
use vstd::prelude::*;
use vstd::string::*;

verus! {

/// The persisted record, as read from or written to its two-line file. The
/// count of participants is never negative.
pub struct MainLockInfo {
    pub process_counter: u32,
    pub timestamp: u64,
}

/// The participant count that a record text holds: the unsigned number on its
/// first line, and zero when no such number stands there.
pub open spec fn record_counter(text: Seq<char>) -> int {
    match parse_unsigned(line_body(first_line(text)), u32::MAX as int) {
        Some(v) => v,
        None => 0,
    }
}

/// The timestamp that a record text holds: the unsigned number on its second
/// line, if one stands there.
pub open spec fn record_timestamp(text: Seq<char>) -> Option<int> {
    parse_unsigned(line_body(first_line(after_first_line(text))), u64::MAX as int)
}

/// The text of a record: the count, a newline, the timestamp, a newline.
pub open spec fn record_text(counter: nat, timestamp: nat) -> Seq<char> {
    decimal(counter) + seq!['\n'] + decimal(timestamp) + seq!['\n']
}

/// The record that a participant works on: the one that the file holds, or,
/// where there is no file or its contents are no record, a fresh one that
/// counts nobody and carries the time at which the file was last written.
pub open spec fn record_or_fresh(contents: Option<Seq<char>>, modified_secs: u64) -> (int, int) {
    match contents {
        Some(text) if record_timestamp(text) is Some => (
            record_counter(text),
            record_timestamp(text).unwrap(),
        ),
        _ => (0, modified_secs as int),
    }
}

/// A count with one participant fewer; nobody can leave a lake that counts
/// nobody, so zero stays zero.
pub open spec fn decremented(count: int) -> int {
    if count > 0 {
        count - 1
    } else {
        0
    }
}

impl MainLockInfo {
    /// The number of participants that the record counts.
    pub open spec fn counter(&self) -> int {
        self.process_counter as int
    }

    /// Reads a record from the contents of its file. A count that is no
    /// unsigned number is taken as zero; a timestamp that is none makes the
    /// record invalid.
    pub fn read_info(contents: &str) -> (r: Result<MainLockInfo, LakeError>)
        ensures
            match record_timestamp(contents@) {
                Some(t) => r is Ok && r.unwrap().counter() == record_counter(contents@)
                    && r.unwrap().timestamp == t,
                None => r == Err::<MainLockInfo, LakeError>(LakeError::ProtocolViolation),
            },
    {
        let (first, rest) = split_line(contents);
        proof {
            lemma_parse_unsigned_range(line_body(first@), u32::MAX as int);
        }
        let counter = match parse_u32(strip_newline(first)) {
            Some(value) => value,
            None => 0,
        };
        let (second, _) = split_line(rest);
        proof {
            lemma_parse_unsigned_range(line_body(second@), u64::MAX as int);
        }
        match parse_u64(strip_newline(second)) {
            Some(timestamp) => Ok(MainLockInfo { process_counter: counter, timestamp }),
            None => Err(LakeError::ProtocolViolation),
        }
    }

    /// The record of a lake that nobody has joined yet, stamped with the
    /// modification time of the file that stands for it.
    pub fn create(modified_secs: u64) -> (info: MainLockInfo)
        ensures
            info.counter() == 0,
            info.timestamp == modified_secs,
    {
        MainLockInfo { process_counter: 0, timestamp: modified_secs }
    }

    /// The record to work on, from the contents of the record's file, if it
    /// could be read, and the time at which that file was last written.
    pub fn get_info(contents: Option<&str>, modified_secs: u64) -> (info: MainLockInfo)
        ensures
            (info.counter(), info.timestamp as int) == record_or_fresh(
                match contents {
                    Some(text) => Some(text@),
                    None => None,
                },
                modified_secs,
            ),
    {
        match contents {
            Some(text) => {
                proof {
                    lemma_parse_unsigned_range(
                        line_body(first_line(after_first_line(text@))),
                        u64::MAX as int,
                    );
                }
                match MainLockInfo::read_info(text) {
                    Ok(info) => info,
                    Err(_) => MainLockInfo::create(modified_secs),
                }
            },
            None => MainLockInfo::create(modified_secs),
        }
    }

    /// Whether no participant is counted.
    pub fn is_counter_zero(&self) -> (zero: bool)
        ensures
            zero == (self.counter() == 0),
    {
        self.process_counter == 0
    }

    /// Counts one more participant.
    pub fn counter_inc(&mut self)
        requires
            old(self).counter() < u32::MAX,
        ensures
            final(self).counter() == old(self).counter() + 1,
            final(self).timestamp == old(self).timestamp,
    {
        self.process_counter += 1;
    }

    /// Counts one participant fewer, and never fewer than none.
    pub fn counter_dec(&mut self)
        ensures
            final(self).counter() == decremented(old(self).counter()),
            final(self).timestamp == old(self).timestamp,
    {
        if self.process_counter > 0 {
            self.process_counter -= 1;
        }
    }

    /// The contents of the record's file.
    pub fn save(&self) -> (data: String)
        ensures
            data@ == record_text(self.counter() as nat, self.timestamp as nat),
    {
        proof {
            reveal_strlit("\n");
        }
        let mut data = decimal_string(self.process_counter as u64);
        data.append("\n");
        let stamp = decimal_string(self.timestamp);
        data.append(stamp.as_str());
        data.append("\n");
        assert(data@ =~= record_text(self.counter() as nat, self.timestamp as nat));
        data
    }
}

/// What was saved is what is read: the text of a record holds the record's
/// count and timestamp.
pub proof fn lemma_record_round_trip(counter: nat, timestamp: nat)
    requires
        counter <= u32::MAX,
        timestamp <= u64::MAX,
    ensures
        record_counter(record_text(counter, timestamp)) == counter,
        record_timestamp(record_text(counter, timestamp)) == Some(timestamp as int),
{
    let first = decimal(counter);
    let second = decimal(timestamp);
    let text = record_text(counter, timestamp);
    lemma_decimal_no_newline(counter as int);
    lemma_decimal_no_newline(timestamp as int);
    assert(text =~= first.push('\n') + (second.push('\n') + Seq::<char>::empty()));
    lemma_first_line_of_line(first, second.push('\n') + Seq::<char>::empty());
    lemma_first_line_of_line(second, Seq::<char>::empty());
    lemma_parse_unsigned_decimal(counter, u32::MAX as int);
    lemma_parse_unsigned_decimal(timestamp, u64::MAX as int);
}

} // verus!
