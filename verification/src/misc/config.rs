//! The configuration of a lake: `key=value` lines and the time they were written.

use crate::error::LakeError;
use crate::live_objects::main_lock::MainLockInfo;
use crate::text::{after_first_line, first_line, lemma_line_len_bounded, line_len, split_line};
use vstd::prelude::*;
use vstd::string::*;

verus! {

/// The parsed configuration. A key that is written twice keeps both entries;
/// the later one is the one that counts.
pub struct Config {
    pub config_map: Vec<(String, String)>,
    pub timestamp: u64,
}

/// Number of characters of `s` in front of the first `c`: all of them when `s`
/// holds no `c`.
pub open spec fn prefix_len(s: Seq<char>, c: char) -> nat
    decreases s.len(),
{
    if s.len() == 0 || s.first() == c {
        0
    } else {
        1 + prefix_len(s.drop_first(), c)
    }
}

/// A line without its ending: without the final newline, and without the
/// carriage return in front of that newline.
pub open spec fn line_content(line: Seq<char>) -> Seq<char> {
    if line.len() > 0 && line.last() == '\n' {
        let body = line.drop_last();
        if body.len() > 0 && body.last() == '\r' {
            body.drop_last()
        } else {
            body
        }
    } else {
        line
    }
}

/// The entry that a line holds: the key in front of the first `=`, and the
/// value behind it, up to the end of the line. A line without `=` holds none.
pub open spec fn entry_of(content: Seq<char>) -> Option<(Seq<char>, Seq<char>)> {
    let k = prefix_len(content, '=');
    if k >= content.len() {
        None
    } else {
        Some(
            (
                content.subrange(0, k as int),
                content.subrange(k as int + 1, content.len() as int),
            ),
        )
    }
}

/// The entries of a configuration text, line by line. An empty line is
/// passed over; there are no entries when some other line holds no `=`.
pub open spec fn config_entries(text: Seq<char>) -> Option<Seq<(Seq<char>, Seq<char>)>>
    decreases text.len(),
    via config_entries_decreases
{
    if text.len() == 0 {
        Some(Seq::empty())
    } else {
        let content = line_content(first_line(text));
        let rest = config_entries(after_first_line(text));
        if content.len() == 0 {
            rest
        } else {
            match (entry_of(content), rest) {
                (Some(entry), Some(more)) => Some(seq![entry] + more),
                _ => None,
            }
        }
    }
}

#[via_fn]
proof fn config_entries_decreases(text: Seq<char>) {
    lemma_line_len_bounded(text);
    if text.len() > 0 {
        assert(line_len(text) >= 1);
    }
}

/// The value that counts for `key`: that of the last entry with this key.
pub open spec fn lookup(entries: Seq<(Seq<char>, Seq<char>)>, key: Seq<char>) -> Option<
    Seq<char>,
>
    decreases entries.len(),
{
    if entries.len() == 0 {
        None
    } else if entries.last().0 == key {
        Some(entries.last().1)
    } else {
        lookup(entries.drop_last(), key)
    }
}

/// The entries of a vector of pairs, as texts.
pub open spec fn entries_view(v: Seq<(String, String)>) -> Seq<(Seq<char>, Seq<char>)> {
    Seq::new(v.len(), |i: int| (v[i].0@, v[i].1@))
}

/// The entries read so far followed by those still to come.
pub open spec fn entries_then(
    done: Seq<(Seq<char>, Seq<char>)>,
    rest: Option<Seq<(Seq<char>, Seq<char>)>>,
) -> Option<Seq<(Seq<char>, Seq<char>)>> {
    match rest {
        Some(more) => Some(done + more),
        None => None,
    }
}

/// Counts the characters of `s` in front of the first `c`.
fn scan_prefix(s: &str, c: char) -> (n: usize)
    ensures
        n == prefix_len(s@, c),
        n <= s@.len(),
{
    let len = s.unicode_len();
    let mut i: usize = 0;
    assert(s@.subrange(0, len as int) =~= s@);
    while i < len && s.get_char(i) != c
        invariant
            0 <= i <= len,
            len == s@.len(),
            prefix_len(s@, c) == i + prefix_len(s@.subrange(i as int, len as int), c),
        decreases len - i,
    {
        let ghost tail = s@.subrange(i as int, len as int);
        assert(tail.first() == s@[i as int]);
        assert(tail.drop_first() =~= s@.subrange(i + 1, len as int));
        i += 1;
    }
    proof {
        let tail = s@.subrange(i as int, len as int);
        if i < len {
            assert(tail.first() == s@[i as int]);
        }
    }
    i
}

/// Takes the line ending off a line.
fn strip_line_ending(line: &str) -> (content: &str)
    ensures
        content@ == line_content(line@),
{
    let len = line.unicode_len();
    if len > 0 && line.get_char(len - 1) == '\n' {
        if len > 1 && line.get_char(len - 2) == '\r' {
            let content = line.substring_char(0, len - 2);
            assert(content@ =~= line@.drop_last().drop_last());
            content
        } else {
            let content = line.substring_char(0, len - 1);
            assert(content@ =~= line@.drop_last());
            content
        }
    } else {
        line
    }
}

/// Reads the entry of one line.
fn parse_entry(content: &str) -> (r: Option<(String, String)>)
    ensures
        match entry_of(content@) {
            Some(entry) => r is Some && r.unwrap().0@ == entry.0 && r.unwrap().1@ == entry.1,
            None => r is None,
        },
{
    let len = content.unicode_len();
    let k = scan_prefix(content, '=');
    if k >= len {
        None
    } else {
        let key = String::from_str(content.substring_char(0, k));
        let value = String::from_str(content.substring_char(k + 1, len));
        Some((key, value))
    }
}

impl Config {
    /// The entries of the configuration, as texts.
    pub open spec fn entries(&self) -> Seq<(Seq<char>, Seq<char>)> {
        entries_view(self.config_map@)
    }

    /// Reads the entries of a configuration text, line by line. Empty lines
    /// are passed over; any other line without `=` makes the whole text
    /// unreadable.
    pub fn read_config(contents: &str) -> (r: Option<Vec<(String, String)>>)
        ensures
            match config_entries(contents@) {
                Some(entries) => r is Some && entries_view(r.unwrap()@) == entries,
                None => r is None,
            },
    {
        let mut config_map: Vec<(String, String)> = Vec::new();
        let mut remaining = contents;
        assert(entries_view(config_map@) + config_entries(contents@).unwrap() =~= config_entries(
            contents@,
        ).unwrap());
        while remaining.unicode_len() > 0
            invariant
                config_entries(contents@) == entries_then(
                    entries_view(config_map@),
                    config_entries(remaining@),
                ),
            decreases remaining@.len(),
        {
            let (line, rest) = split_line(remaining);
            proof {
                lemma_line_len_bounded(remaining@);
                assert(line_len(remaining@) >= 1);
            }
            let content = strip_line_ending(line);
            if content.unicode_len() == 0 {
                remaining = rest;
                continue ;
            }
            match parse_entry(content) {
                None => {
                    return None;
                },
                Some(entry) => {
                    let ghost before = entries_view(config_map@);
                    let ghost item = (entry.0@, entry.1@);
                    config_map.push(entry);
                    proof {
                        assert(entries_view(config_map@) =~= before.push(item));
                        if config_entries(rest@) is Some {
                            let more = config_entries(rest@).unwrap();
                            assert(before + (seq![item] + more) =~= before.push(item) + more);
                        }
                    }
                    remaining = rest;
                },
            }
        }
        assert(entries_view(config_map@) + Seq::empty() =~= entries_view(config_map@));
        Some(config_map)
    }

    /// Builds the configuration from the contents of its file and the file's
    /// modification time, for a lake whose lifecycle record is `lock_info`.
    ///
    /// A configuration that is not strictly older than the record is refused as
    /// stale, whatever it holds; otherwise one with a line that is neither
    /// empty nor an entry is refused as malformed.
    pub fn new(contents: &str, config_timestamp: u64, lock_info: &MainLockInfo) -> (r: Result<
        Config,
        LakeError,
    >)
        ensures
            config_timestamp >= lock_info.timestamp ==> r == Err::<Config, LakeError>(
                LakeError::StaleConfiguration,
            ),
            config_timestamp < lock_info.timestamp ==> match config_entries(contents@) {
                Some(entries) => r is Ok && r.unwrap().entries() == entries
                    && r.unwrap().timestamp == config_timestamp,
                None => r == Err::<Config, LakeError>(LakeError::ProtocolViolation),
            },
    {
        if config_timestamp >= lock_info.timestamp {
            return Err(LakeError::StaleConfiguration);
        }
        match Config::read_config(contents) {
            Some(config_map) => Ok(Config { config_map, timestamp: config_timestamp }),
            None => Err(LakeError::ProtocolViolation),
        }
    }

    /// The value that counts for `key`, if the configuration has one.
    pub fn get(&self, key: &str) -> (r: Option<&String>)
        ensures
            match lookup(self.entries(), key@) {
                Some(value) => r is Some && r.unwrap()@ == value,
                None => r is None,
            },
    {
        let wanted = String::from_str(key);
        let mut i: usize = self.config_map.len();
        assert(self.entries().subrange(0, i as int) =~= self.entries());
        while i > 0
            invariant
                0 <= i <= self.config_map.len(),
                wanted@ == key@,
                lookup(self.entries(), key@) == lookup(self.entries().subrange(0, i as int), key@),
            decreases i,
        {
            let ghost prefix = self.entries().subrange(0, i as int);
            assert(prefix.last() == self.entries()[i - 1]);
            assert(prefix.drop_last() =~= self.entries().subrange(0, i - 1));
            i -= 1;
            if self.config_map[i].0 == wanted {
                return Some(&self.config_map[i].1);
            }
        }
        None
    }
}

} // verus!
